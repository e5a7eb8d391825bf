//! Filters on the output of a block: which lines of it are shown.

use crate::composer;
use crate::pattern;
use crate::scan;
use crate::text;
use vstd::prelude::*;

verus! {

/// A stored query that hides the lines of a block that do not match it.
#[derive(Debug, Clone, PartialEq, Eq)]
pub struct BlockFilter {
    pub pattern: String,
    pub regex: bool,
    pub case: bool,
    pub invert: bool,
    pub context: usize,
}

/// What a filter holds.
#[verifier::ext_equal]
pub struct FilterView {
    pub pattern: Seq<char>,
    pub regex: bool,
    pub case: bool,
    pub invert: bool,
    pub context: int,
}

impl View for BlockFilter {
    type V = FilterView;

    open spec fn view(&self) -> FilterView {
        FilterView {
            pattern: self.pattern@,
            regex: self.regex,
            case: self.case,
            invert: self.invert,
            context: self.context as int,
        }
    }
}

/// The parts of a filter's summary.
pub open spec fn summary_parts(f: FilterView) -> Seq<Seq<char>> {
    seq!["\""@ + f.pattern + "\""@] + (if f.regex {
        seq!["regex"@]
    } else {
        Seq::empty()
    }) + (if f.case {
        seq!["case"@]
    } else {
        Seq::empty()
    }) + (if f.invert {
        seq!["invert"@]
    } else {
        Seq::empty()
    }) + (if f.context > 0 {
        seq!["ctx "@ + scan::decimal(f.context as nat)]
    } else {
        Seq::empty()
    })
}

impl BlockFilter {
    /// The query in quotes and the flags that are set.
    pub fn describe(&self) -> (r: String)
        ensures
            r@ == scan::join(summary_parts(self@), " · "@),
    {
        let mut parts: Vec<String> = Vec::new();
        parts.push(text::cat3("\"", self.pattern.as_str(), "\""));
        if self.regex {
            parts.push(text::copy_text("regex"));
        }
        if self.case {
            parts.push(text::copy_text("case"));
        }
        if self.invert {
            parts.push(text::copy_text("invert"));
        }
        if self.context > 0 {
            let n = scan::decimal_text(self.context as u64);
            parts.push(text::cat2("ctx ", n.as_str()));
        }
        assert(text::texts(parts@) =~= summary_parts(self@));
        scan::join_texts(&parts, " · ")
    }
}

/// What `/filter` asks for. Block positions count from zero.
#[derive(Debug, Clone, PartialEq, Eq)]
pub enum FilterAction {
    Store(usize, BlockFilter),
    Clear(usize),
    List,
}

/// What `/filter` comes to, an error text among it.
pub enum FilterOutcome {
    Store(int, FilterView),
    Clear(int),
    List,
    Fail(Seq<char>),
}

/// What a parse result holds.
pub open spec fn outcome_of(r: Result<FilterAction, String>) -> FilterOutcome {
    match r {
        Ok(FilterAction::Store(index, filter)) => FilterOutcome::Store(index as int, filter@),
        Ok(FilterAction::Clear(index)) => FilterOutcome::Clear(index as int),
        Ok(FilterAction::List) => FilterOutcome::List,
        Err(text) => FilterOutcome::Fail(text@),
    }
}

pub const FILTER_USAGE: &'static str =
    "Usage: /filter <block> <pattern> [--regex] [--case] [--invert] [--context N]";

/// The largest number that an address or a count can have.
pub open spec fn index_max() -> nat {
    usize::MAX as nat
}

/// A block address: `#n` or a bare number.
pub open spec fn block_number(text: Seq<char>) -> Option<nat> {
    scan::parse_up_to(
        if text.len() > 0 && text[0] == '#' {
            text.skip(1)
        } else {
            text
        },
        index_max(),
    )
}

/// Reads a number that fits an index.
pub fn parse_index(text: &str) -> (r: Option<usize>)
    ensures
        match r {
            Some(n) => scan::parse_up_to(text@, index_max()) == Some(n as nat),
            None => scan::parse_up_to(text@, index_max()) == None::<nat>,
        },
{
    match scan::parse_number(text, usize::MAX as u64) {
        Some(n) => Some(n as usize),
        None => None,
    }
}

/// Drops the first character where it is `c`.
pub fn strip_char(text: &str, c: char) -> (r: Option<String>)
    ensures
        match r {
            Some(rest) => text@.len() > 0 && text@[0] == c && rest@ == text@.skip(1),
            None => text@.len() == 0 || text@[0] != c,
        },
{
    let chars = text::to_chars(text);
    if chars.len() > 0 && chars[0] == c {
        let rest = text::slice_text(&chars, 1, chars.len());
        assert(rest@ =~= text@.skip(1));
        Some(rest)
    } else {
        None
    }
}

/// Reads a block address: `#n` or a bare number.
pub fn parse_block_number(text: &str) -> (r: Option<usize>)
    ensures
        match r {
            Some(n) => block_number(text@) == Some(n as nat),
            None => block_number(text@) == None::<nat>,
        },
{
    match strip_char(text, '#') {
        Some(rest) => parse_index(rest.as_str()),
        None => parse_index(text),
    }
}

/// The flags and words of a `/filter` command read so far.
#[verifier::ext_equal]
pub struct FilterFlags {
    pub regex: bool,
    pub case: bool,
    pub invert: bool,
    pub clear: bool,
    pub context: int,
    pub words: Seq<Seq<char>>,
}

/// No flag and no word.
pub open spec fn no_flags() -> FilterFlags {
    FilterFlags {
        regex: false,
        case: false,
        invert: false,
        clear: false,
        context: 0,
        words: Seq::empty(),
    }
}

/// Reads flags and words from argument `i` on. What is no flag is a word of the
/// query; an unknown flag, and `--context` without a number, are errors.
pub open spec fn read_flags(args: Seq<Seq<char>>, i: int, acc: FilterFlags) -> Result<
    FilterFlags,
    Seq<char>,
>
    decreases args.len() - i,
{
    if i < 0 || i >= args.len() {
        Ok(acc)
    } else if args[i] == "--regex"@ {
        read_flags(args, i + 1, FilterFlags { regex: true, ..acc })
    } else if args[i] == "--case"@ {
        read_flags(args, i + 1, FilterFlags { case: true, ..acc })
    } else if args[i] == "--invert"@ {
        read_flags(args, i + 1, FilterFlags { invert: true, ..acc })
    } else if args[i] == "--clear"@ {
        read_flags(args, i + 1, FilterFlags { clear: true, ..acc })
    } else if args[i] == "--context"@ {
        if i + 1 < args.len() {
            match scan::parse_up_to(args[i + 1], index_max()) {
                Some(n) => read_flags(args, i + 2, FilterFlags { context: n as int, ..acc }),
                None => Err(FILTER_USAGE@ + " (--context needs a number)"@),
            }
        } else {
            Err(FILTER_USAGE@ + " (--context needs a number)"@)
        }
    } else if scan::begins(args[i], "--"@) {
        Err(FILTER_USAGE@ + " (unknown flag "@ + args[i] + ")"@)
    } else {
        read_flags(args, i + 1, FilterFlags { words: acc.words.push(args[i]), ..acc })
    }
}

/// The text that says a block does not exist.
pub open spec fn out_of_range(number: nat, count: nat) -> Seq<char> {
    "Block "@ + scan::decimal(number) + " out of range (1-"@ + scan::decimal(count) + ")"@
}

/// Says that a block does not exist.
pub fn out_of_range_text(number: usize, count: usize) -> (r: String)
    ensures
        r@ == out_of_range(number as nat, count as nat),
{
    let n = scan::decimal_text(number as u64);
    let c = scan::decimal_text(count as u64);
    text::cat5("Block ", n.as_str(), " out of range (1-", c.as_str(), ")")
}

/// What is asked for once the query is known and the outcome of compiling it, where
/// it is a regular expression: an error, or the filter.
pub open spec fn set_outcome(
    index: int,
    filter: FilterView,
    error: Option<Seq<char>>,
) -> FilterOutcome {
    match error {
        Some(e) if filter.regex => FilterOutcome::Fail(
            "Bad regex "@ + filter.pattern + ": "@ + e,
        ),
        _ => FilterOutcome::Store(index, filter),
    }
}

/// What `/filter` with the given arguments comes to in a history of `count` blocks,
/// where `error` says why the query does not compile.
pub open spec fn filter_outcome(
    count: nat,
    args: Seq<Seq<char>>,
    error: spec_fn(Seq<char>) -> Option<Seq<char>>,
) -> FilterOutcome {
    if args.len() == 0 {
        FilterOutcome::List
    } else {
        match block_number(args[0]) {
            None => FilterOutcome::Fail(FILTER_USAGE@ + " (got "@ + args[0] + ")"@),
            Some(number) => if number < 1 || number > count {
                FilterOutcome::Fail(out_of_range(number, count))
            } else {
                match read_flags(args, 1, no_flags()) {
                    Err(text) => FilterOutcome::Fail(text),
                    Ok(flags) => if flags.clear || flags.words.len() == 0 {
                        FilterOutcome::Clear(number - 1)
                    } else {
                        let pattern = scan::join(flags.words, " "@);
                        set_outcome(
                            number - 1,
                            FilterView {
                                pattern: pattern,
                                regex: flags.regex,
                                case: flags.case,
                                invert: flags.invert,
                                context: flags.context,
                            },
                            error(pattern),
                        )
                    },
                }
            },
        }
    }
}

/// A filter for block `index`, or the error that its query does not compile.
pub fn finish_block_filter(index: usize, filter: BlockFilter, error: Option<String>) -> (r: Result<
    FilterAction,
    String,
>)
    ensures
        outcome_of(r) == set_outcome(index as int, filter@, composer::opt_text(error)),
{
    if filter.regex {
        if let Some(e) = error {
            return Err(text::cat4("Bad regex ", filter.pattern.as_str(), ": ", e.as_str()));
        }
    }
    Ok(FilterAction::Store(index, filter))
}

/// Reads the arguments of `/filter` for a history of `history_len` blocks. A bare
/// block number clears its filter.
pub fn parse_block_filter(history_len: usize, args: &Vec<String>) -> (r: Result<
    FilterAction,
    String,
>)
    ensures
        outcome_of(r) == filter_outcome(
            history_len as nat,
            text::texts(args@),
            |p: Seq<char>| pattern::pattern_error(p),
        ),
{
    let ghost a = text::texts(args@);
    let ghost errors = |p: Seq<char>| pattern::pattern_error(p);
    if args.len() == 0 {
        return Ok(FilterAction::List);
    }
    assert(a[0] == args@[0]@);
    let number: usize = match parse_block_number(args[0].as_str()) {
        Some(n) => n,
        None => {
            return Err(text::cat4(FILTER_USAGE, " (got ", args[0].as_str(), ")"));
        },
    };
    if number < 1 || number > history_len {
        return Err(out_of_range_text(number, history_len));
    }
    let mut filter = BlockFilter {
        pattern: String::new(),
        regex: false,
        case: false,
        invert: false,
        context: 0,
    };
    let mut words: Vec<String> = Vec::new();
    let mut clear = false;
    let mut i: usize = 1;
    assert(text::texts(words@) =~= Seq::<Seq<char>>::empty());
    while i < args.len()
        invariant
            1 <= i <= args@.len(),
            a == text::texts(args@),
            number >= 1,
            number <= history_len,
            block_number(a[0]) == Some(number as nat),
            read_flags(a, 1, no_flags()) == read_flags(
                a,
                i as int,
                FilterFlags {
                    regex: filter.regex,
                    case: filter.case,
                    invert: filter.invert,
                    clear: clear,
                    context: filter.context as int,
                    words: text::texts(words@),
                },
            ),
        decreases args.len() - i,
    {
        let flag = args[i].as_str();
        assert(a[i as int] == flag@);
        if text::same_text(flag, "--regex") {
            filter.regex = true;
        } else if text::same_text(flag, "--case") {
            filter.case = true;
        } else if text::same_text(flag, "--invert") {
            filter.invert = true;
        } else if text::same_text(flag, "--clear") {
            clear = true;
        } else if text::same_text(flag, "--context") {
            if i + 1 >= args.len() {
                return Err(text::cat2(FILTER_USAGE, " (--context needs a number)"));
            }
            assert(a[i + 1] == args@[i + 1]@);
            match parse_index(args[i + 1].as_str()) {
                Some(n) => {
                    filter.context = n;
                },
                None => {
                    return Err(text::cat2(FILTER_USAGE, " (--context needs a number)"));
                },
            }
            i = i + 1;
        } else if scan::text_begins(flag, "--") {
            return Err(text::cat4(FILTER_USAGE, " (unknown flag ", flag, ")"));
        } else {
            let word = text::copy_text(flag);
            proof {
                text::texts_push(words@, word);
            }
            words.push(word);
        }
        i = i + 1;
    }
    if clear || words.len() == 0 {
        return Ok(FilterAction::Clear(number - 1));
    }
    filter.pattern = scan::join_texts(&words, " ");
    assert(errors(filter.pattern@) == pattern::pattern_error(filter.pattern@));
    let error = if filter.regex {
        pattern::check_pattern(filter.pattern.as_str())
    } else {
        None
    };
    finish_block_filter(number - 1, filter, error)
}

/// Lines of a block that are shown, and how many are not.
#[derive(Debug, Clone, PartialEq, Eq)]
pub struct FilteredLines {
    pub shown: Vec<String>,
    pub hidden: usize,
}

/// Whether a line is within `context` lines of a hit.
pub open spec fn near_hit(hits: Seq<bool>, context: int, i: int) -> bool {
    exists|j: int| 0 <= j < hits.len() && i - context <= j <= i + context && #[trigger] hits[j]
}

/// The lines among the first `n` that are near a hit.
pub open spec fn kept_lines(
    list: Seq<Seq<char>>,
    hits: Seq<bool>,
    context: int,
    n: int,
) -> Seq<Seq<char>>
    decreases n,
{
    if n <= 0 {
        Seq::empty()
    } else if near_hit(hits, context, n - 1) {
        kept_lines(list, hits, context, n - 1).push(list[n - 1])
    } else {
        kept_lines(list, hits, context, n - 1)
    }
}

fn is_near(hits: &Vec<bool>, context: usize, i: usize) -> (r: bool)
    requires
        i < hits@.len(),
    ensures
        r == near_hit(hits@, context as int, i as int),
{
    let from: usize = if i >= context {
        i - context
    } else {
        0
    };
    let end: usize = if hits.len() - i > context {
        i + context + 1
    } else {
        hits.len()
    };
    let mut j: usize = from;
    while j < end
        invariant
            i < hits@.len(),
            from <= j <= end <= hits@.len(),
            end <= i + context + 1,
            end == i + context + 1 || end == hits@.len(),
            from == (if i >= context {
                i - context
            } else {
                0
            }),
            forall|k: int| from <= k < j ==> !#[trigger] hits@[k],
        decreases end - j,
    {
        if hits[j] {
            return true;
        }
        j = j + 1;
    }
    false
}

/// The lines near a hit, where `hits` says of each line whether it is one.
pub fn select_lines(list: Vec<String>, hits: &Vec<bool>, context: usize) -> (r: FilteredLines)
    requires
        list@.len() == hits@.len(),
    ensures
        text::texts(r.shown@) == kept_lines(text::texts(list@), hits@, context as int, list@.len() as int),
        r.shown@.len() + r.hidden == list@.len(),
{
    let mut shown: Vec<String> = Vec::new();
    let mut hidden: usize = 0;
    let ghost all = text::texts(list@);
    assert(text::texts(shown@) =~= kept_lines(all, hits@, context as int, 0));
    for i in 0..list.len()
        invariant
            list@.len() == hits@.len(),
            all == text::texts(list@),
            shown@.len() + hidden == i,
            text::texts(shown@) == kept_lines(all, hits@, context as int, i as int),
    {
        if is_near(hits, context, i) {
            let line = text::copy_text(list[i].as_str());
            proof {
                text::texts_push(shown@, line);
            }
            shown.push(line);
        } else {
            hidden = hidden + 1;
        }
    }
    FilteredLines { shown, hidden }
}

/// Whether a line matches the query of a filter: as a regular expression, as text
/// with its case, or as text whatever its case.
pub open spec fn line_matches(f: FilterView, line: Seq<char>) -> bool {
    if f.regex {
        pattern::matches_in(f.pattern, line)
    } else if f.case {
        scan::contains_text(line, f.pattern)
    } else {
        scan::contains_text(text::lower(line), text::lower(f.pattern))
    }
}

/// Which lines are hits of a filter.
pub open spec fn hit_list(f: FilterView, list: Seq<Seq<char>>) -> Seq<bool> {
    list.map_values(|line: Seq<char>| line_matches(f, line) != f.invert)
}

/// The lines of `content` that a filter shows.
pub open spec fn filtered(f: FilterView, content: Seq<char>) -> Seq<Seq<char>> {
    let list = scan::lines(content);
    kept_lines(list, hit_list(f, list), f.context, list.len() as int)
}

/// The lines of a block that a filter shows: its hits and the lines near them.
pub fn apply_block_filter(content: &str, filter: &BlockFilter) -> (r: FilteredLines)
    ensures
        text::texts(r.shown@) == filtered(filter@, content@),
        r.shown@.len() + r.hidden == scan::lines(content@).len(),
{
    let list = scan::text_lines(content);
    let ghost all = text::texts(list@);
    let mut hits: Vec<bool> = Vec::new();
    let found: Vec<bool> = if filter.regex {
        pattern::match_all(filter.pattern.as_str(), &list)
    } else {
        Vec::new()
    };
    let small = text::lower_text(filter.pattern.as_str());
    for i in 0..list.len()
        invariant
            all == text::texts(list@),
            small@ == text::lower(filter@.pattern),
            filter.regex ==> found@.len() == list@.len() && forall|j: int|
                0 <= j < list@.len() ==> #[trigger] found@[j] == pattern::matches_in(
                    filter@.pattern,
                    list@[j]@,
                ),
            hits@ == hit_list(filter@, all).take(i as int),
    {
        assert(all[i as int] == list@[i as int]@);
        let matched = if filter.regex {
            found[i]
        } else if filter.case {
            scan::text_contains(list[i].as_str(), filter.pattern.as_str())
        } else {
            let line = text::lower_text(list[i].as_str());
            scan::text_contains(line.as_str(), small.as_str())
        };
        hits.push(matched != filter.invert);
        assert(hit_list(filter@, all).take(i + 1) =~= hit_list(filter@, all).take(i as int).push(
            hit_list(filter@, all)[i as int],
        ));
    }
    assert(hits@ =~= hit_list(filter@, all));
    select_lines(list, &hits, filter.context)
}

/// What copying a block gives: the lines that its filter shows, or all of it.
pub fn block_copy_content(content: &str, filter: Option<&BlockFilter>) -> (r: String)
    ensures
        r@ == match filter {
            Some(f) => scan::join(filtered(f@, content@), "\n"@),
            None => content@,
        },
{
    match filter {
        Some(f) => {
            let out = apply_block_filter(content, f);
            scan::join_texts(&out.shown, "\n")
        },
        None => text::copy_text(content),
    }
}

proof fn kept_all(list: Seq<Seq<char>>, hits: Seq<bool>, context: int, n: int)
    requires
        0 <= n <= list.len() == hits.len(),
        forall|i: int| 0 <= i < n ==> near_hit(hits, context, i),
    ensures
        kept_lines(list, hits, context, n) == list.take(n),
    decreases n,
{
    if n > 0 {
        kept_all(list, hits, context, n - 1);
        assert(list.take(n) =~= list.take(n - 1).push(list[n - 1]));
    } else {
        assert(list.take(0) =~= Seq::<Seq<char>>::empty());
    }
}

/// Every hit is shown, and a wider context never hides a line that a narrower one
/// shows.
pub proof fn context_widens(hits: Seq<bool>, narrow: int, wide: int, i: int)
    requires
        0 <= narrow <= wide,
        0 <= i < hits.len(),
    ensures
        hits[i] ==> near_hit(hits, narrow, i),
        near_hit(hits, narrow, i) ==> near_hit(hits, wide, i),
{
}

/// A filter whose every line is a hit shows the block as it is.
pub proof fn all_hits_show_all(f: FilterView, content: Seq<char>)
    requires
        f.context >= 0,
        forall|i: int|
            0 <= i < scan::lines(content).len() ==> line_matches(f, #[trigger] scan::lines(content)[i])
                != f.invert,
    ensures
        filtered(f, content) == scan::lines(content),
{
    let list = scan::lines(content);
    let hits = hit_list(f, list);
    assert forall|i: int| 0 <= i < list.len() implies near_hit(hits, f.context, i) by {
        assert(hits[i]);
    }
    kept_all(list, hits, f.context, list.len() as int);
    assert(list.take(list.len() as int) =~= list);
}

} // verus!
