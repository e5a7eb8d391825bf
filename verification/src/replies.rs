//! What is read out of the text of messages.

use crate::composer;
use crate::filters;
use crate::model::{Message, MessageView};
use crate::model;
use crate::scan;
use crate::text;
use vstd::prelude::*;

verus! {

// ---------------------------------------------------------------------------
// Repeat marks
// ---------------------------------------------------------------------------

/// The last position at or before `i` where `p` stands in `s`.
pub open spec fn rfind_upto(s: Seq<char>, p: Seq<char>, i: int) -> Option<int>
    decreases i + 1,
{
    if i < 0 {
        None
    } else if scan::occurs_at(s, p, i) {
        Some(i)
    } else {
        rfind_upto(s, p, i - 1)
    }
}

/// The last position of `p` in `s`.
pub open spec fn rfind(s: Seq<char>, p: Seq<char>) -> Option<int> {
    rfind_upto(s, p, s.len() as int)
}

/// The last position of `p` in `s`.
pub fn rfind_chars(s: &Vec<char>, p: &Vec<char>) -> (r: Option<usize>)
    ensures
        match r {
            Some(k) => rfind(s@, p@) == Some(k as int) && k + p@.len() <= s@.len(),
            None => rfind(s@, p@) == None::<int>,
        },
{
    let mut i: usize = s.len();
    while i > 0
        invariant
            i <= s@.len(),
            rfind(s@, p@) == rfind_upto(s@, p@, i as int),
        decreases i,
    {
        if scan::stands_at(s, p, i) {
            return Some(i);
        }
        i = i - 1;
    }
    if scan::stands_at(s, p, 0) {
        Some(0)
    } else {
        assert(rfind_upto(s@, p@, -1) == None::<int>);
        None
    }
}

/// The base text and the count of a note that ends in a repeat mark ` (×N)`; any
/// other note is its own base, once.
pub open spec fn repeat_parts(s: Seq<char>) -> (Seq<char>, nat) {
    match rfind(s, " (×"@) {
        Some(k) if s.last() == ')' && scan::parse_up_to(
            s.subrange(k + " (×"@.len(), s.len() - 1),
            filters::index_max(),
        ) is Some => (
            s.take(k),
            scan::parse_up_to(s.subrange(k + " (×"@.len(), s.len() - 1), filters::index_max())->0,
        ),
        _ => (s, 1),
    }
}

/// A note marked as repeated.
pub open spec fn repeated(base: Seq<char>, count: nat) -> Seq<char> {
    base + " (×"@ + scan::decimal(count) + ")"@
}

/// Splits a trailing repeat mark ` (×N)` off a note.
pub fn split_repeat_suffix(content: &str) -> (r: (String, usize))
    ensures
        (r.0@, r.1 as nat) == repeat_parts(content@),
{
    proof {
        reveal_strlit(" (×");
    }
    let s = text::to_chars(content);
    let mark = text::to_chars(" (×");
    match rfind_chars(&s, &mark) {
        Some(k) => {
            if s[s.len() - 1] == ')' {
                proof {
                    rfind_occurs(s@, mark@, s@.len() as int);
                    if k + 3 == s@.len() {
                        assert(s@.subrange(k as int, k + 3)[2] == '×');
                    }
                }
                let digits = text::slice_text(&s, k + mark.len(), s.len() - 1);
                if let Some(count) = filters::parse_index(digits.as_str()) {
                    let base = text::slice_text(&s, 0, k);
                    assert(base@ =~= content@.take(k as int));
                    return (base, count);
                }
            }
            (text::copy_text(content), 1)
        },
        None => (text::copy_text(content), 1),
    }
}

proof fn rfind_occurs(s: Seq<char>, p: Seq<char>, i: int)
    ensures
        rfind_upto(s, p, i) matches Some(k) ==> 0 <= k <= i && scan::occurs_at(s, p, k),
    decreases i + 1,
{
    if i >= 0 && !scan::occurs_at(s, p, i) {
        rfind_occurs(s, p, i - 1);
    }
}

proof fn rfind_last(s: Seq<char>, p: Seq<char>, i: int, k: int)
    requires
        0 <= k <= i,
        scan::occurs_at(s, p, k),
        forall|j: int| k < j <= i ==> !scan::occurs_at(s, p, j),
    ensures
        rfind_upto(s, p, i) == Some(k),
    decreases i,
{
    if i > k {
        rfind_last(s, p, i - 1, k);
    }
}

/// A decimal number is made of digits and reads back as itself.
pub proof fn decimal_reads_back(n: nat)
    ensures
        scan::all_digits(scan::decimal(n)),
        scan::digits_value(scan::decimal(n)) == n,
        scan::decimal(n)[0] != '+',
        forall|max: nat| n <= max ==> #[trigger] scan::parse_up_to(scan::decimal(n), max) == Some(n),
    decreases n,
{
    if n < 10 {
        assert(scan::decimal(n).drop_last() =~= Seq::empty());
        assert(scan::digits_value(scan::decimal(n).drop_last()) == 0);
    } else {
        decimal_reads_back(n / 10);
        let head = scan::decimal(n / 10);
        let d = scan::digit_char(n % 10);
        assert(scan::decimal(n).drop_last() =~= head);
        assert(scan::decimal(n).last() == d);
        assert forall|i: int| 0 <= i < scan::decimal(n).len() implies scan::is_digit(
            #[trigger] scan::decimal(n)[i],
        ) by {
            if i < head.len() {
                assert(scan::decimal(n)[i] == head[i]);
            }
        }
    }
}

/// Splitting a marked note gives back the base and the count that it was marked with,
/// whatever the base.
pub proof fn repeat_mark_reads_back(base: Seq<char>, count: nat)
    requires
        count <= filters::index_max(),
    ensures
        repeat_parts(repeated(base, count)) == (base, count),
{
    reveal_strlit(" (×");
    reveal_strlit(")");
    let s = repeated(base, count);
    let p = " (×"@;
    let k = base.len() as int;
    decimal_reads_back(count);
    assert(s.subrange(k, k + 3) =~= p);
    assert forall|j: int| k < j <= s.len() implies !scan::occurs_at(s, p, j) by {
        if scan::occurs_at(s, p, j) {
            assert(s.subrange(j, j + 3)[0] == ' ');
            assert(s[j] == ' ');
            if j < k + 3 {
                assert(s[j] == p[j - k]);
            } else if j < s.len() - 1 {
                assert(s[j] == scan::decimal(count)[j - k - 3]);
            }
        }
    }
    rfind_last(s, p, s.len() as int, k);
    assert(s.subrange(k + 3, s.len() - 1) =~= scan::decimal(count));
    assert(s.take(k) =~= base);
}

// ---------------------------------------------------------------------------
// Drafts, reasoning and code in replies
// ---------------------------------------------------------------------------

/// The first line from `i` on that is neither blank nor a fence, trimmed.
pub open spec fn first_usable(list: Seq<Seq<char>>, i: int) -> Option<Seq<char>>
    decreases list.len() - i,
{
    if i < 0 || i >= list.len() {
        None
    } else if scan::trim(list[i]).len() > 0 && !scan::begins(scan::trim(list[i]), "```"@) {
        Some(scan::trim(list[i]))
    } else {
        first_usable(list, i + 1)
    }
}

/// `s` without `p` in front, where it begins with it.
pub open spec fn unprefixed(s: Seq<char>, p: Seq<char>) -> Seq<char> {
    if scan::begins(s, p) {
        s.skip(p.len() as int)
    } else {
        s
    }
}

/// The one line that a model's draft of a command comes to.
pub open spec fn draft_line(output: Seq<char>) -> Option<Seq<char>> {
    match first_usable(scan::lines(output), 0) {
        None => None,
        Some(line) => {
            let bare = scan::trim(unprefixed(line, "$ "@));
            if bare.len() > 0 {
                Some(bare)
            } else {
                None
            }
        },
    }
}

/// Reduces a model's reply to one line to run: its first line that is neither blank
/// nor a fence, without a `$ ` prompt in front.
pub fn clean_shell_draft(output: &str) -> (r: Option<String>)
    ensures
        composer::opt_text(r) == draft_line(output@),
{
    let list = scan::text_lines(output);
    let ghost all = scan::lines(output@);
    let mut i: usize = 0;
    while i < list.len()
        invariant
            i <= list@.len(),
            all == text::texts(list@),
            all == scan::lines(output@),
            first_usable(all, 0) == first_usable(all, i as int),
        decreases list.len() - i,
    {
        assert(all[i as int] == list@[i as int]@);
        let line = scan::trim_text(list[i].as_str());
        if line.as_str().is_empty() || scan::text_begins(line.as_str(), "```") {
            i = i + 1;
        } else {
            let bare = match scan::strip_prefix(line.as_str(), "$ ") {
                Some(rest) => scan::trim_text(rest.as_str()),
                None => scan::trim_text(line.as_str()),
            };
            return if bare.as_str().is_empty() {
                None
            } else {
                Some(bare)
            };
        }
    }
    None
}

/// The inside of a reply that is nothing but a thinking block.
pub open spec fn thinking_text(content: Seq<char>) -> Option<Seq<char>> {
    let t = scan::trim(content);
    if scan::begins(t, "<thinking>"@) {
        let rest = t.skip("<thinking>"@.len() as int);
        if scan::ends(rest, "</thinking>"@) {
            Some(scan::trim(rest.take(rest.len() - "</thinking>"@.len())))
        } else {
            None
        }
    } else {
        None
    }
}

/// The inside of a reply that is nothing but a thinking block.
pub fn thinking_body(content: &str) -> (r: Option<String>)
    ensures
        composer::opt_text(r) == thinking_text(content@),
{
    let t = scan::trim_text(content);
    match scan::strip_prefix(t.as_str(), "<thinking>") {
        Some(rest) => match scan::strip_suffix(rest.as_str(), "</thinking>") {
            Some(body) => Some(scan::trim_text(body.as_str())),
            None => None,
        },
        None => None,
    }
}

/// Whether a line opens or closes a fenced section.
pub open spec fn is_fence(line: Seq<char>) -> bool {
    scan::begins(scan::trim_start(line), "```"@)
}

/// A block with one more line.
pub open spec fn add_line(block: Seq<char>, line: Seq<char>) -> Seq<char> {
    if block.len() == 0 {
        line
    } else {
        block.push('\n') + line
    }
}

/// The fenced sections closed from line `i` on, where `open` is the section that is
/// open there.
pub open spec fn fenced_from(
    list: Seq<Seq<char>>,
    i: int,
    open: Option<Seq<char>>,
) -> Seq<Seq<char>>
    decreases list.len() - i,
{
    if i < 0 || i >= list.len() {
        Seq::empty()
    } else if is_fence(list[i]) {
        match open {
            Some(block) => seq![block] + fenced_from(list, i + 1, None),
            None => fenced_from(list, i + 1, Some(Seq::empty())),
        }
    } else {
        match open {
            Some(block) => fenced_from(list, i + 1, Some(add_line(block, list[i]))),
            None => fenced_from(list, i + 1, None),
        }
    }
}

/// The fenced sections of a text, without their fences.
pub open spec fn fenced(text: Seq<char>) -> Seq<Seq<char>> {
    fenced_from(scan::lines(text), 0, None)
}

/// The fenced code blocks of a reply, in order. One that is never closed is none.
pub fn code_blocks(text: &str) -> (r: Vec<String>)
    ensures
        text::texts(r@) == fenced(text@),
{
    let list = scan::text_lines(text);
    let ghost all = scan::lines(text@);
    let mut blocks: Vec<String> = Vec::new();
    let mut open: Option<String> = None;
    assert(text::texts(blocks@) + fenced_from(all, 0, None) =~= fenced_from(all, 0, None));
    for i in 0..list.len()
        invariant
            all == text::texts(list@),
            text::texts(blocks@) + fenced_from(all, i as int, composer::opt_text(open)) == fenced_from(
                all,
                0,
                None,
            ),
    {
        assert(all[i as int] == list@[i as int]@);
        let start = scan::trim_start_text(list[i].as_str());
        let ghost before = blocks@;
        let ghost was = composer::opt_text(open);
        if scan::text_begins(start.as_str(), "```") {
            match open {
                Some(block) => {
                    blocks.push(block);
                    open = None;
                    proof {
                        text::texts_push(before, block);
                        assert(text::texts(blocks@) + fenced_from(all, i + 1, None) =~= text::texts(before)
                            + fenced_from(all, i as int, was));
                    }
                },
                None => {
                    open = Some(String::new());
                    assert(composer::opt_text(open) == Some(Seq::<char>::empty()));
                },
            }
        } else if let Some(block) = open {
            let mut grown = block;
            if !grown.as_str().is_empty() {
                grown.push('\n');
            }
            let ghost mid = grown@;
            grown.append(list[i].as_str());
            assert(grown@ =~= add_line(block@, list@[i as int]@));
            open = Some(grown);
        }
    }
    assert(text::texts(blocks@) =~= fenced_from(all, 0, None));
    blocks
}

// ---------------------------------------------------------------------------
// Prompts to run again, and what compaction keeps
// ---------------------------------------------------------------------------

/// The prompt of the latest message of the user, looking back from `i`.
pub open spec fn last_prompt(history: Seq<MessageView>, i: int) -> Option<Seq<char>>
    decreases i,
{
    if i <= 0 || i > history.len() {
        None
    } else if history[i - 1].role == "user"@ {
        Some(history[i - 1].content)
    } else {
        last_prompt(history, i - 1)
    }
}

/// What `/rerun` sends again, or why it sends nothing.
pub open spec fn rerun_outcome(history: Seq<MessageView>, arg: Option<int>) -> Result<
    Seq<char>,
    Seq<char>,
> {
    match arg {
        Some(number) => if number < 1 || number > history.len() {
            Err(filters::out_of_range(number as nat, history.len()))
        } else if history[number - 1].role != "user"@ {
            Err(
                "Block "@ + scan::decimal(number as nat) + " is "@ + text::upper(history[number - 1].role)
                    + " output, not a prompt — rerun needs a user block"@,
            )
        } else {
            Ok(history[number - 1].content)
        },
        None => match last_prompt(history, history.len() as int) {
            Some(text) => Ok(text),
            None => Err("No user prompt yet"@),
        },
    }
}

/// The text of a result, good or bad.
pub open spec fn result_text(r: Result<String, String>) -> Result<Seq<char>, Seq<char>> {
    match r {
        Ok(s) => Ok(s@),
        Err(s) => Err(s@),
    }
}

/// The prompt that `/rerun` sends again: that of the given block, which has to be one
/// of the user's, or else the latest of the user.
pub fn rerun_target(history: &Vec<Message>, arg: Option<usize>) -> (r: Result<String, String>)
    ensures
        result_text(r) == rerun_outcome(
            model::messages(history@),
            match arg {
                Some(n) => Some(n as int),
                None => None,
            },
        ),
{
    let ghost all = model::messages(history@);
    match arg {
        Some(number) => {
            if number < 1 || number > history.len() {
                return Err(filters::out_of_range_text(number, history.len()));
            }
            let message = &history[number - 1];
            assert(all[number - 1] == message@);
            if !message.has_role("user") {
                let n = scan::decimal_text(number as u64);
                let role = text::upper_text(message.role.as_str());
                return Err(
                    text::cat5(
                        "Block ",
                        n.as_str(),
                        " is ",
                        role.as_str(),
                        " output, not a prompt — rerun needs a user block",
                    ),
                );
            }
            Ok(text::copy_text(message.content.as_str()))
        },
        None => {
            let mut i: usize = history.len();
            while i > 0
                invariant
                    arg is None,
                    i <= history@.len(),
                    all == model::messages(history@),
                    last_prompt(all, all.len() as int) == last_prompt(all, i as int),
                decreases i,
            {
                assert(all[i - 1] == history@[i - 1]@);
                if history[i - 1].has_role("user") {
                    return Ok(text::copy_text(history[i - 1].content.as_str()));
                }
                i = i - 1;
            }
            Err(text::copy_text("No user prompt yet"))
        },
    }
}

/// Back from `i` to a message that is no tool result.
pub open spec fn back_to_call(history: Seq<MessageView>, i: int) -> int
    decreases i,
{
    if 0 < i < history.len() && history[i].role == "tool"@ {
        back_to_call(history, i - 1)
    } else {
        i
    }
}

/// Where compaction splits a history: the last third stays, and with it whatever its
/// first tool results belong to.
pub open spec fn compact_at(history: Seq<MessageView>) -> int {
    let third = history.len() as int / 3;
    let keep = if third >= 1 {
        third
    } else {
        1
    };
    let at = history.len() - keep;
    back_to_call(history, if at >= 0 {
        at
    } else {
        0
    })
}

/// Splits a history for compaction: what is summarized, and what stays as it is.
pub fn split_compact(history: &[Message]) -> (r: (&[Message], &[Message]))
    ensures
        0 <= compact_at(model::messages(history@)) <= history@.len(),
        r.0@ == history@.take(compact_at(model::messages(history@))),
        r.1@ == history@.skip(compact_at(model::messages(history@))),
{
    let ghost all = model::messages(history@);
    let third: usize = history.len() / 3;
    let keep: usize = if third >= 1 {
        third
    } else {
        1
    };
    let start: usize = if history.len() >= keep {
        history.len() - keep
    } else {
        0
    };
    let mut split: usize = start;
    while split > 0 && history[split].has_role("tool")
        invariant
            split <= start,
            start < history@.len() || start == 0,
            all == model::messages(history@),
            back_to_call(all, start as int) == back_to_call(all, split as int),
        decreases split,
    {
        assert(all[split as int] == history@[split as int]@);
        split = split - 1;
    }
    assert(split > 0 ==> all[split as int] == history@[split as int]@);
    let parts = history.split_at(split);
    assert(parts.0@ =~= history@.take(split as int));
    assert(parts.1@ =~= history@.skip(split as int));
    parts
}

proof fn back_to_call_stops(history: Seq<MessageView>, i: int)
    requires
        0 <= i,
        i < history.len() || i == 0,
    ensures
        0 <= back_to_call(history, i) <= i,
        back_to_call(history, i) > 0 ==> history[back_to_call(history, i)].role != "tool"@,
        forall|j: int| back_to_call(history, i) < j <= i ==> history[j].role == "tool"@,
    decreases i,
{
    if 0 < i && history[i].role == "tool"@ {
        back_to_call_stops(history, i - 1);
    }
}

/// What compaction keeps never starts with a tool result, unless it keeps everything;
/// it keeps the last message, and at least a third of the messages.
pub proof fn compaction_keeps_exchanges(history: Seq<MessageView>)
    requires
        history.len() >= 1,
    ensures
        0 <= compact_at(history) < history.len(),
        compact_at(history) > 0 ==> history[compact_at(history)].role != "tool"@,
        3 * (history.len() - compact_at(history)) >= history.len() - 2,
{
    let third = history.len() as int / 3;
    let keep = if third >= 1 {
        third
    } else {
        1
    };
    back_to_call_stops(history, history.len() - keep);
}

// ---------------------------------------------------------------------------
// Slow starts
// ---------------------------------------------------------------------------

/// How long a request may stay silent before the interface says so, in milliseconds.
pub const SLOW_START_MS: u64 = 15_000;

/// A request that is awaited and has been silent for fifteen seconds, and of which
/// nothing was said yet.
pub open spec fn is_slow_start(
    busy: bool,
    awaiting: bool,
    shown: bool,
    started: Option<u64>,
    now: u64,
) -> bool {
    busy && awaiting && !shown && (started matches Some(start) && now - start >= SLOW_START_MS)
}

/// Whether it is time to say that a request is slow to start: while it is awaited,
/// once, after fifteen silent seconds. Times are in milliseconds of one clock; a
/// start in the future has not waited at all.
pub fn slow_start_due(
    busy: bool,
    awaiting: bool,
    shown: bool,
    started: Option<u64>,
    now: u64,
) -> (r: bool)
    ensures
        r == is_slow_start(busy, awaiting, shown, started, now),
{
    match started {
        Some(start) => busy && awaiting && !shown && now >= start && now - start >= SLOW_START_MS,
        None => false,
    }
}

} // verus!
