//! What holds of prompts: the files that they refer to, how they are sent and recorded, and
//! how a conversation is summed up.

use crate::effects::{BackupReason, EffectView};
use crate::events::Usage;
use crate::files;
use crate::laws_text;
use crate::model::{MessageView, ToolCallView, ToolResultView};
use crate::pane::PaneView;
use crate::render::TodoStatus;
use crate::replies;
use crate::requests;
use crate::run::MAX_TOOL_ROUNDS;
use crate::scan;
use crate::settings;
use crate::text;
use vstd::prelude::*;

verus! {

// ---------------------------------------------------------------------------
// References
// ---------------------------------------------------------------------------

proof fn refs_only_grow(s: Seq<char>, i: int, found: Seq<Seq<char>>, token: Seq<char>)
    requires
        0 <= i,
        found.contains(token),
    ensures
        files::refs_from(s, i, found).contains(token),
    decreases s.len() - i,
{
    if i < s.len() {
        if files::opens_ref(s, i) {
            files::path_end_bounds(s, i + 1);
            let end = files::path_end(s, i + 1);
            let one = s.subrange(i + 1, end);
            let next = if end > i + 1 && !found.contains(one) {
                found.push(one)
            } else {
                found
            };
            let k = found.index_of(token);
            assert(next[k] == token);
            refs_only_grow(s, end, next, token);
        } else {
            refs_only_grow(s, i + 1, found, token);
        }
    }
}

proof fn ref_is_met(s: Seq<char>, i: int, found: Seq<Seq<char>>, at: int, end: int)
    requires
        0 <= i <= at < end <= s.len(),
        at + 1 < end,
        s[at] == '@',
        at == 0 || files::ascii_space(s[at - 1]),
        forall|k: int| at < k < end ==> files::path_char(#[trigger] s[k]),
        end < s.len() ==> !files::path_char(s[end]),
    ensures
        files::refs_from(s, i, found).contains(s.subrange(at + 1, end)),
    decreases s.len() - i,
{
    let token = s.subrange(at + 1, end);
    if i == at {
        files::path_end_bounds(s, i + 1);
        let stop = files::path_end(s, i + 1);
        if stop < end {
            assert(files::path_char(s[stop]));
        }
        if stop > end {
            assert(files::path_char(s[end]));
        }
        assert(stop == end);
        let next = if !found.contains(token) {
            found.push(token)
        } else {
            found
        };
        assert(next.contains(token)) by {
            if !found.contains(token) {
                assert(next.last() == token);
            }
        }
        refs_only_grow(s, end, next, token);
    } else if files::opens_ref(s, i) {
        files::path_end_bounds(s, i + 1);
        let stop = files::path_end(s, i + 1);
        if at < stop {
            assert(files::path_char(s[at]));
        }
        let other = s.subrange(i + 1, stop);
        ref_is_met(
            s,
            stop,
            if stop > i + 1 && !found.contains(other) {
                found.push(other)
            } else {
                found
            },
            at,
            end,
        );
    } else {
        ref_is_met(s, i + 1, found, at, end);
    }
}

/// Every path that stands behind an `@` at the beginning of a prompt or after white space is
/// one of its references, up to where the path ends.
pub proof fn references_are_found(s: Seq<char>, at: int, end: int)
    requires
        0 <= at,
        at + 1 < end <= s.len(),
        s[at] == '@',
        at == 0 || files::ascii_space(s[at - 1]),
        forall|k: int| at < k < end ==> files::path_char(#[trigger] s[k]),
        end < s.len() ==> !files::path_char(s[end]),
    ensures
        files::refs_of(s).contains(s.subrange(at + 1, end)),
{
    ref_is_met(s, 0, Seq::empty(), at, end);
}

proof fn refs_come_from(s: Seq<char>, i: int, found: Seq<Seq<char>>, token: Seq<char>) -> (at: int)
    requires
        0 <= i,
        files::refs_from(s, i, found).contains(token),
        !found.contains(token),
    ensures
        0 <= at && at + 1 + token.len() <= s.len(),
        s[at] == '@' && s.subrange(at + 1, at + 1 + token.len()) == token,
        at == 0 || files::ascii_space(s[at - 1]),
    decreases s.len() - i,
{
    if i >= s.len() {
        0
    } else if files::opens_ref(s, i) {
        files::path_end_bounds(s, i + 1);
        let end = files::path_end(s, i + 1);
        let one = s.subrange(i + 1, end);
        if one == token {
            i
        } else {
            let next = if end > i + 1 && !found.contains(one) {
                found.push(one)
            } else {
                found
            };
            assert(!next.contains(token)) by {
                if next.contains(token) {
                    let k = next.index_of(token);
                    assert(next[k] == token);
                    assert(k < found.len());
                    assert(found[k] == token);
                }
            }
            refs_come_from(s, end, next, token)
        }
    } else {
        refs_come_from(s, i + 1, found, token)
    }
}

/// Every reference of a prompt stands in it behind an `@` that nothing but white space comes
/// before.
pub proof fn references_stand_in_the_prompt(s: Seq<char>, token: Seq<char>)
    requires
        files::refs_of(s).contains(token),
    ensures
        exists|at: int|
            0 <= at && at + 1 + token.len() <= s.len() && s[at] == '@' && #[trigger] s.subrange(
                at + 1,
                at + 1 + token.len(),
            ) == token && (at == 0 || files::ascii_space(s[at - 1])),
{
    let at = refs_come_from(s, 0, Seq::empty(), token);
    assert(s.subrange(at + 1, at + 1 + token.len()) == token);
}

// ---------------------------------------------------------------------------
// What is attached
// ---------------------------------------------------------------------------

/// The files that go with a prompt that was just given: with the request that it starts, or
/// with its place before all that wait.
pub open spec fn sent_along(before: PaneView, after: PaneView) -> Option<Seq<char>> {
    if before.run.busy {
        after.run.queue[0].context
    } else {
        after.run.context
    }
}

proof fn block_stands(found: Seq<Option<Seq<char>>>, n: int, i: int)
    requires
        0 <= i < n <= found.len(),
        found[i] is Some,
    ensures
        requests::found_blocks(found, i).len() < requests::found_blocks(found, n).len(),
        requests::found_blocks(found, n)[requests::found_blocks(found, i).len() as int] == found[i]->0,
    decreases n,
{
    if i < n - 1 {
        block_stands(found, n - 1, i);
    }
}

proof fn blocks_grow(found: Seq<Option<Seq<char>>>, n: int, i: int)
    requires
        0 <= i <= n <= found.len(),
    ensures
        requests::found_blocks(found, i).len() <= requests::found_blocks(found, n).len(),
    decreases n,
{
    if i < n {
        blocks_grow(found, n - 1, i);
    }
}

proof fn starts_grow(parts: Seq<Seq<char>>, sep: Seq<char>, i: int, j: int)
    requires
        0 <= i < j <= parts.len(),
    ensures
        laws_text::part_start(parts, sep, i) + parts[i].len() + sep.len() <= laws_text::part_start(
            parts,
            sep,
            j,
        ),
    decreases j,
{
    if i < j - 1 {
        starts_grow(parts, sep, i, j - 1);
    }
}

proof fn goes_along(v: PaneView, value: Seq<char>, found: Seq<Option<Seq<char>>>, now: u64)
    ensures
        sent_along(v, v.submitted(value, found, now)) == requests::context_of(found),
{
    reveal(PaneView::prompted);
}

/// Whatever a reference of a prompt stands for is attached to it, whether it is sent at once
/// or takes the place of a running request.
pub proof fn found_files_are_attached(
    v: PaneView,
    value: Seq<char>,
    found: Seq<Option<Seq<char>>>,
    now: u64,
    i: int,
)
    requires
        0 <= i < found.len(),
        found[i] is Some,
    ensures
        ({
            let c = sent_along(v, v.submitted(value, found, now));
            let block = found[i]->0;
            &&& c is Some
            &&& exists|p: int|
                0 <= p && p + block.len() <= c->0.len() && #[trigger] c->0.subrange(p, p + block.len())
                    == block
        }),
{
    goes_along(v, value, found, now);
    block_stands(found, found.len() as int, i);
    let blocks = requests::found_blocks(found, found.len() as int);
    let k = requests::found_blocks(found, i).len() as int;
    laws_text::joined_parts_stand_in_order(blocks, "\n"@, k);
    let c = sent_along(v, v.submitted(value, found, now))->0;
    let p = laws_text::part_start(blocks, "\n"@, k);
    assert(c.subrange(p, p + found[i]->0.len()) == found[i]->0);
}

/// What references stand for is attached in the order in which the prompt refers to it.
pub proof fn files_are_attached_in_order(
    v: PaneView,
    value: Seq<char>,
    found: Seq<Option<Seq<char>>>,
    now: u64,
    i: int,
    j: int,
)
    requires
        0 <= i < j < found.len(),
        found[i] is Some,
        found[j] is Some,
    ensures
        ({
            let c = sent_along(v, v.submitted(value, found, now))->0;
            let a = found[i]->0;
            let b = found[j]->0;
            exists|p: int, q: int|
                0 <= p && p + a.len() < q && q + b.len() <= c.len() && #[trigger] c.subrange(p, p + a.len())
                    == a && #[trigger] c.subrange(q, q + b.len()) == b
        }),
{
    goes_along(v, value, found, now);
    let n = found.len() as int;
    block_stands(found, n, i);
    block_stands(found, n, j);
    block_stands(found, j, i);
    let blocks = requests::found_blocks(found, n);
    let k = requests::found_blocks(found, i).len() as int;
    let l = requests::found_blocks(found, j).len() as int;
    reveal_strlit("\n");
    laws_text::joined_parts_stand_in_order(blocks, "\n"@, k);
    laws_text::joined_parts_stand_in_order(blocks, "\n"@, l);
    starts_grow(blocks, "\n"@, k, l);
    let c = sent_along(v, v.submitted(value, found, now))->0;
    let p = laws_text::part_start(blocks, "\n"@, k);
    let q = laws_text::part_start(blocks, "\n"@, l);
    assert(c.subrange(p, p + found[i]->0.len()) == found[i]->0);
    assert(c.subrange(q, q + found[j]->0.len()) == found[j]->0);
}

proof fn blocks_of_prefix(a: Seq<Option<Seq<char>>>, b: Seq<Option<Seq<char>>>, n: int)
    requires
        0 <= n <= a.len(),
        n <= b.len(),
        forall|i: int| 0 <= i < n ==> a[i] == b[i],
    ensures
        requests::found_blocks(a, n) == requests::found_blocks(b, n),
    decreases n,
{
    if n > 0 {
        blocks_of_prefix(a, b, n - 1);
    }
}

/// One more reference adds what it stands for in a line of its own behind the others, and
/// nothing where it stands for nothing; without references nothing is attached.
pub proof fn one_more_reference_adds_one_file(
    v: PaneView,
    value: Seq<char>,
    found: Seq<Option<Seq<char>>>,
    more: Option<Seq<char>>,
    now: u64,
)
    ensures
        sent_along(v, v.submitted(value, Seq::empty(), now)) is None,
        ({
            let less = sent_along(v, v.submitted(value, found, now));
            let all = sent_along(v, v.submitted(value, found.push(more), now));
            match (less, more) {
                (_, None) => all == less,
                (None, Some(block)) => all == Some(block),
                (Some(c), Some(block)) => all == Some(c + seq!['\n'] + block),
            }
        }),
{
    goes_along(v, value, found, now);
    goes_along(v, value, found.push(more), now);
    goes_along(v, value, Seq::empty(), now);
    blocks_of_prefix(found, found.push(more), found.len() as int);
    let less = requests::found_blocks(found, found.len() as int);
    if let Some(block) = more {
        assert(less.push(block).drop_last() =~= less);
        reveal_strlit("\n");
        assert("\n"@ =~= seq!['\n']);
    }
}

proof fn unknown_stands(refs: Seq<Seq<char>>, found: Seq<Option<Seq<char>>>, n: int, i: int)
    requires
        0 <= i < n <= found.len(),
        n <= refs.len(),
        found[i] is None,
    ensures
        requests::unknown_refs(refs, found, n).contains(refs[i]),
    decreases n,
{
    let all = requests::unknown_refs(refs, found, n);
    if i < n - 1 {
        unknown_stands(refs, found, n - 1, i);
        let less = requests::unknown_refs(refs, found, n - 1);
        let k = less.index_of(refs[i]);
        assert(all[k] == refs[i]);
    } else {
        assert(all.last() == refs[i]);
    }
}

proof fn all_known(refs: Seq<Seq<char>>, found: Seq<Option<Seq<char>>>, n: int)
    requires
        n <= found.len(),
        forall|i: int| 0 <= i < n ==> found[i] is Some,
    ensures
        requests::unknown_refs(refs, found, n).len() == 0,
    decreases n,
{
    if n > 0 {
        all_known(refs, found, n - 1);
    }
}

/// A reference that stands for nothing is told by its name, and nothing is told where every
/// reference stands for something.
pub proof fn unknown_references_are_told(v: PaneView, value: Seq<char>, found: Seq<Option<Seq<char>>>)
    requires
        found.len() == files::refs_of(value).len(),
    ensures
        forall|i: int|
            0 <= i < found.len() && (#[trigger] found[i]) is None ==> scan::contains_text(
                v.referring(value, found).log.status,
                files::refs_of(value)[i],
            ),
        (forall|i: int| 0 <= i < found.len() ==> found[i] is Some) ==> v.referring(value, found).log.status
            == v.log.status,
{
    let refs = files::refs_of(value);
    let unknown = requests::unknown_refs(refs, found, refs.len() as int);
    let status = v.referring(value, found).log.status;
    let head = "Unknown @refs: "@;
    let list = scan::join(unknown, ", "@);
    assert forall|i: int| 0 <= i < found.len() && (#[trigger] found[i]) is None implies scan::contains_text(
        status,
        refs[i],
    ) by {
        unknown_stands(refs, found, refs.len() as int, i);
        let k = unknown.index_of(refs[i]);
        laws_text::joined_parts_stand_in_order(unknown, ", "@, k);
        let p = laws_text::part_start(unknown, ", "@, k);
        assert(status == head + list);
        assert(status.subrange(head.len() + p, head.len() + p + refs[i].len()) =~= list.subrange(
            p,
            p + refs[i].len(),
        ));
        assert(scan::occurs_at(status, refs[i], head.len() + p));
    }
    if forall|i: int| 0 <= i < found.len() ==> found[i] is Some {
        all_known(refs, found, refs.len() as int);
    }
}

// ---------------------------------------------------------------------------
// What is sent and recorded
// ---------------------------------------------------------------------------

/// A prompt given to an idle pane is what is sent, and nothing else is asked for.
pub proof fn prompts_are_sent_as_given(
    v: PaneView,
    value: Seq<char>,
    found: Seq<Option<Seq<char>>>,
    now: u64,
)
    requires
        !v.run.busy,
    ensures
        v.submitted(value, found, now).out == v.out.push(EffectView::Send { prompt: value }),
        v.submitted(value, found, now).run.prompt == Some(value),
        v.submitted(value, found, now).run.busy,
        v.submitted(value, found, now).run.stoppable,
        v.submitted(value, found, now).run.awaiting,
        v.submitted(value, found, now).run.started == Some(now),
        v.submitted(value, found, now).run.round == 0,
        v.submitted(value, found, now).run.reply.len() == 0,
        v.submitted(value, found, now).composer == v.composer,
{
    reveal(PaneView::prompted);
}

/// A request that has been silent for fifteen seconds is spoken of, and no other one.
pub proof fn silent_requests_are_spoken_of(v: PaneView, start: u64, now: u64)
    requires
        v.run.started == Some(start),
    ensures
        ({
            let due = v.run.busy && v.run.awaiting && !v.run.hinted && now - start >= 15_000;
            &&& due ==> v.hinted(now).run.hinted && v.hinted(now).log.status
                == "Still waiting for the first token (>15s) — the server may be loading the model; Esc cancels"@
            &&& !due ==> v.hinted(now) == v
        }),
{
}

/// A prompt that waited goes out with the files that were attached to it.
pub proof fn waiting_prompts_keep_their_files(v: PaneView, now: u64)
    requires
        v.run.queue.len() > 0,
        !v.run.busy,
    ensures
        v.next_prompted(now).run.context == v.run.queue[0].context,
        v.next_prompted(now).run.prompt == Some(v.run.queue[0].prompt),
{
    reveal(PaneView::prompted);
}

/// A prompt and its reply end up in the conversation as they are, in that order, with the
/// files of the prompt between them.
pub proof fn exchanges_are_recorded(
    v: PaneView,
    value: Seq<char>,
    found: Seq<Option<Seq<char>>>,
    now: u64,
    content: Seq<char>,
    list: Seq<ToolCallView>,
    usage: Usage,
    wall: Seq<char>,
    due: bool,
    bell: bool,
    later: u64,
)
    requires
        !v.run.busy,
    ensures
        ({
            let w = v.submitted(value, found, now);
            let h = w.finished(content, list, usage, wall, due, bell, later).log.history;
            let n = v.log.history.len() as int;
            let extra = if w.run.context is Some {
                1int
            } else {
                0
            };
            let noted = if list.len() > 0 && w.run.round >= MAX_TOOL_ROUNDS {
                1int
            } else {
                0
            };
            &&& h.len() == n + 2 + extra + noted
            &&& h.take(n) == v.log.history
            &&& h[n].role == "user"@ && h[n].content == value
            &&& extra == 1 ==> h[n + 1].role == "system"@ && h[n + 1].content == "Attached context:\n"@
                + w.run.context->0
            &&& h[n + 1 + extra].role == "assistant"@ && h[n + 1 + extra].content == content
            &&& h[n + 1 + extra].calls == list
        }),
{
    reveal(PaneView::prompted);
    let w = v.submitted(value, found, now);
    let h = w.finished(content, list, usage, wall, due, bell, later).log.history;
    assert(h.take(v.log.history.len() as int) =~= v.log.history);
}

/// The tool calls of a reply are checked next, all of them and in order, as long as the
/// prompt has rounds left.
pub proof fn calls_are_checked(
    v: PaneView,
    content: Seq<char>,
    list: Seq<ToolCallView>,
    usage: Usage,
    wall: Seq<char>,
    due: bool,
    bell: bool,
    now: u64,
)
    requires
        list.len() > 0,
        v.run.round < MAX_TOOL_ROUNDS,
        v.run.stoppable,
    ensures
        ({
            let w = v.finished(content, list, usage, wall, due, bell, now);
            &&& w.out.len() == v.out.len() + 1
            &&& w.out.last() matches EffectView::Check { calls, limits } && calls == list && limits.mode
                == v.mode && limits.network == settings::allows_network(v.settings.posture)
                && limits.code == settings::allows_code(v.settings.posture)
            &&& w.run.round == v.run.round + 1
        }),
{
}

/// Each result of a tool becomes a message that answers its call, with the result in it, in
/// the order of the results, and the conversation goes on.
pub proof fn results_are_recorded(
    v: PaneView,
    results: Seq<ToolResultView>,
    todos: Seq<(Seq<char>, TodoStatus)>,
    now: u64,
)
    requires
        v.run.stoppable,
    ensures
        ({
            let w = v.tools_finished(results, todos, now);
            let n = v.log.history.len() as int;
            &&& w.log.history.len() == n + results.len()
            &&& w.log.history.take(n) == v.log.history
            &&& forall|i: int|
                0 <= i < results.len() ==> {
                    let m = #[trigger] w.log.history[n + i];
                    &&& m.role == "tool"@
                    &&& m.call_id == Some(results[i].call_id)
                    &&& m.content == "["@ + results[i].name + "]\n"@ + results[i].content
                }
            &&& w.todos == todos
            &&& w.out == v.out.push(EffectView::Continue)
        }),
{
    let w = v.tools_finished(results, todos, now);
    let n = v.log.history.len() as int;
    assert(w.log.history.take(n) =~= v.log.history);
    assert forall|i: int| 0 <= i < results.len() implies ({
        let m = #[trigger] w.log.history[n + i];
        &&& m.role == "tool"@
        &&& m.call_id == Some(results[i].call_id)
        &&& m.content == "["@ + results[i].name + "]\n"@ + results[i].content
    }) by {
        assert(w.log.history[n + i] == requests::tool_messages(results)[i]);
    }
}

/// The tokens of a reply are added to those of the session.
pub proof fn tokens_are_counted(v: PaneView, content: Seq<char>, list: Seq<ToolCallView>, usage: Usage)
    ensures
        ({
            let w = v.recorded(content, list, usage).run;
            &&& usage.prompt_tokens is None ==> w.tokens_in == v.run.tokens_in
            &&& usage.completion_tokens is None ==> w.tokens_out == v.run.tokens_out
            &&& usage.cached_tokens is None ==> w.tokens_cached == v.run.tokens_cached
            &&& usage.prompt_tokens matches Some(n) ==> (v.run.tokens_in + n <= u64::MAX ==> w.tokens_in == v.run.tokens_in + n)
            &&& usage.completion_tokens matches Some(n) ==> (v.run.tokens_out + n <= u64::MAX ==> w.tokens_out == v.run.tokens_out + n)
            &&& usage.cached_tokens matches Some(n) ==> (v.run.tokens_cached + n <= u64::MAX ==> w.tokens_cached == v.run.tokens_cached + n)
            &&& w.last == content
            &&& w.usage == usage
            &&& w.prompt is None && w.context is None && w.reply.len() == 0
        }),
{
}

// ---------------------------------------------------------------------------
// Compaction
// ---------------------------------------------------------------------------

/// A message as it is written out.
pub open spec fn written(m: MessageView) -> Seq<char> {
    m.role + ": "@ + m.content
}

/// Where the text of each of some messages begins in a prompt: one behind the other, an empty
/// line between each two, and the last at the end.
pub open spec fn written_at(prompt: Seq<char>, list: Seq<MessageView>, at: Seq<int>) -> bool {
    &&& at.len() == list.len()
    &&& forall|i: int|
        0 <= i < list.len() ==> 0 <= #[trigger] at[i] && at[i] + written(list[i]).len() <= prompt.len()
            && prompt.subrange(at[i], at[i] + written(list[i]).len()) == written(list[i])
    &&& forall|i: int|
        0 < i < list.len() ==> #[trigger] at[i] == at[i - 1] + written(list[i - 1]).len() + 2
            && prompt.subrange(at[i] - 2, at[i]) == seq!['\n', '\n']
    &&& list.len() > 0 ==> at.last() + written(list.last()).len() == prompt.len()
}

proof fn dialogue_is_written(list: Seq<MessageView>) -> (at: Seq<int>)
    ensures
        written_at(requests::summary_prompt(list), list, at),
        list.len() > 0 ==> requests::summary_prompt(list).take(at[0])
            == "Summarize the following conversation for a future coding harness turn. Preserve decisions, constraints, file paths, unresolved work, and user preferences. Be concise and factual.\n\n"@,
{
    let head =
        "Summarize the following conversation for a future coding harness turn. Preserve decisions, constraints, file paths, unresolved work, and user preferences. Be concise and factual.\n\n"@;
    let parts = requests::dialogue(list);
    let sep = "\n\n"@;
    let body = scan::join(parts, sep);
    let prompt = requests::summary_prompt(list);
    reveal_strlit("\n\n");
    assert(sep =~= seq!['\n', '\n']);
    let at = Seq::new(list.len(), |i: int| head.len() + laws_text::part_start(parts, sep, i));
    assert(prompt == head + body);
    assert forall|i: int| 0 <= i < list.len() implies 0 <= #[trigger] at[i] && at[i] + written(list[i]).len()
        <= prompt.len() && prompt.subrange(at[i], at[i] + written(list[i]).len()) == written(list[i]) by {
        laws_text::joined_parts_stand_in_order(parts, sep, i);
        let p = laws_text::part_start(parts, sep, i);
        assert(parts[i] == written(list[i]));
        assert(prompt.subrange(at[i], at[i] + parts[i].len()) =~= body.subrange(p, p + parts[i].len()));
    }
    assert forall|i: int| 0 < i < list.len() implies #[trigger] at[i] == at[i - 1] + written(list[i - 1]).len()
        + 2 && prompt.subrange(at[i] - 2, at[i]) == seq!['\n', '\n'] by {
        laws_text::separators_stand_between(parts, sep, i);
        laws_text::joined_parts_stand_in_order(parts, sep, i);
        laws_text::joined_parts_stand_in_order(parts, sep, i - 1);
        let p = laws_text::part_start(parts, sep, i);
        assert(parts[i - 1] == written(list[i - 1]));
        assert(prompt.subrange(at[i] - 2, at[i]) =~= body.subrange(p - 2, p));
    }
    if list.len() > 0 {
        let last = list.len() - 1;
        assert(parts.last() == written(list.last()));
        if last > 0 {
            laws_text::separators_stand_between(parts, sep, last);
        } else {
            assert(body == parts[0]);
        }
        assert(prompt.take(at[0]) =~= head);
    }
    at
}

/// Whether a prompt writes out all of a history that is not kept as it is.
pub open spec fn nothing_lost(history: Seq<MessageView>, prompt: Seq<char>, recent: Seq<MessageView>) -> bool {
    exists|older: Seq<MessageView>, at: Seq<int>|
        older + recent == history && older.len() > 0 && recent.len() > 0 && #[trigger] written_at(
            prompt,
            older,
            at,
        )
}

/// Compaction loses no message: what is kept as it is follows what the model is asked to sum
/// up, and each message of that is written out in the prompt, with its role, in order.
pub proof fn compaction_loses_nothing(v: PaneView, name: Seq<char>, automatic: bool, now: u64)
    requires
        replies::compact_at(v.log.history) > 0,
    ensures
        ({
            let w = v.compaction_backed_up(Ok(name), automatic, now);
            &&& w.log.history == v.log.history
            &&& w.out.len() == v.out.len() + 1
            &&& w.out.last() is Summarize
            &&& nothing_lost(v.log.history, w.out.last()->Summarize_prompt, w.out.last()->recent)
        }),
{
    let w = v.compaction_backed_up(Ok(name), automatic, now);
    let h = v.log.history;
    let k = replies::compact_at(h);
    if h.len() == 0 {
        assert(replies::compact_at(h) <= 0);
    }
    replies::compaction_keeps_exchanges(h);
    let at = dialogue_is_written(h.take(k));
    let prompt = requests::summary_prompt(h.take(k));
    assert(w.out.last() == EffectView::Summarize { prompt, recent: h.skip(k) });
    assert(h.take(k) + h.skip(k) =~= h);
    assert(h.skip(k).len() > 0);
    assert(written_at(prompt, h.take(k), at));
    assert(nothing_lost(h, prompt, h.skip(k)));
}

/// Compaction sums up most of a conversation: the last third stays, or more where it would
/// begin with the result of a tool.
pub proof fn compaction_keeps_the_last_third(history: Seq<MessageView>)
    requires
        history.len() >= 3,
        forall|i: int| 0 <= i < history.len() ==> (#[trigger] history[i]).role != "tool"@,
    ensures
        history.len() - replies::compact_at(history) == history.len() as int / 3,
{
}

/// A conversation without a copy is not summed up, and stays as it is.
pub proof fn failed_copies_stop_compaction(v: PaneView, error: Seq<char>, automatic: bool, now: u64)
    ensures
        v.compaction_backed_up(Err(error), automatic, now).out == v.out,
        v.compaction_backed_up(Err(error), automatic, now).log.history == v.log.history,
        v.compaction_backed_up(Err(error), automatic, now).run == v.run,
        scan::contains_text(v.compaction_backed_up(Err(error), automatic, now).log.status, error),
{
    let status = v.compaction_backed_up(Err(error), automatic, now).log.status;
    let head = "Compact backup failed, session kept: "@;
    assert(status.subrange(head.len() as int, (head.len() + error.len()) as int) =~= error);
    assert(scan::occurs_at(status, error, head.len() as int));
}

/// A copy of the conversation is asked for before it is summed up, and nothing else happens
/// before it was made.
pub proof fn compaction_begins_with_a_copy(v: PaneView)
    requires
        !v.run.busy,
        v.log.history.len() >= 4,
    ensures
        v.compaction_asked().out == v.out.push(
            EffectView::Backup { reason: BackupReason::Compact { automatic: false } },
        ),
        v.compaction_asked().log == v.log,
        v.compaction_asked().run == v.run,
{
}

/// A summary stands in the conversation as it was given, before the messages that were kept.
pub proof fn summaries_stand_first(v: PaneView, summary: Seq<char>, recent: Seq<MessageView>)
    requires
        !scan::blank(summary),
    ensures
        ({
            let h = v.summarized(summary, recent).log.history;
            &&& h.len() == recent.len() + 1
            &&& h[0].role == "system"@
            &&& h[0].content == "Conversation summary:\n"@ + summary
            &&& h.skip(1) == recent
        }),
{
    requests::summaries_keep_recent(v, summary, recent);
}

/// A conversation that nears its limit is summed up by itself once a reply is done, where the
/// user wants that, and begins with a copy.
pub proof fn full_conversations_are_summed_up(
    v: PaneView,
    content: Seq<char>,
    usage: Usage,
    wall: Seq<char>,
    bell: bool,
    now: u64,
)
    requires
        v.settings.auto_compact,
        v.log.history.len() >= 3,
    ensures
        v.finished(content, Seq::empty(), usage, wall, true, bell, now).out == v.out.push(
            EffectView::Backup { reason: BackupReason::Compact { automatic: true } },
        ),
{
}

/// A reply without tool calls frees the pane, says how long it took, and rings the bell where
/// nothing waits.
pub proof fn replies_free_the_pane(
    v: PaneView,
    content: Seq<char>,
    usage: Usage,
    wall: Seq<char>,
    bell: bool,
    now: u64,
)
    requires
        v.run.queue.len() == 0,
    ensures
        ({
            let w = v.finished(content, Seq::empty(), usage, wall, false, bell, now);
            &&& !w.run.busy && !w.run.stoppable
            &&& scan::contains_text(w.log.status, wall)
            &&& w.out == (if bell {
                v.out.push(EffectView::Bell)
            } else {
                v.out
            })
        }),
{
    let head = "Done in "@;
    let status = head + wall + "s"@;
    assert(status.subrange(head.len() as int, (head.len() + wall.len()) as int) =~= wall);
    assert(scan::occurs_at(status, wall, head.len() as int));
}

/// A failed request says why, and the next prompt that waits is sent.
pub proof fn failures_are_told(v: PaneView, error: Seq<char>, bell: bool, now: u64)
    ensures
        scan::contains_text(v.failure_told(error).log.status, error),
        !v.failure_told(error).run.busy,
        v.run.queue.len() > 0 ==> v.request_failed(error, bell, now).run.prompt == Some(
            v.run.queue[0].prompt,
        ),
        v.request_failed(error, bell, now).log.history == v.log.history,
{
    reveal(PaneView::prompted);
    let a = "Compaction failed: "@;
    let b = "Request failed: "@;
    let x = a + error + " · /compact to retry"@;
    let y = b + error + " · /retry to try again"@;
    assert(x.subrange(a.len() as int, (a.len() + error.len()) as int) =~= error);
    assert(scan::occurs_at(x, error, a.len() as int));
    assert(y.subrange(b.len() as int, (b.len() + error.len()) as int) =~= error);
    assert(scan::occurs_at(y, error, b.len() as int));
}

// ---------------------------------------------------------------------------
// Sending again
// ---------------------------------------------------------------------------

proof fn last_prompt_is_last(history: Seq<MessageView>, i: int)
    requires
        0 <= i <= history.len(),
    ensures
        match replies::last_prompt(history, i) {
            Some(text) => exists|k: int|
                0 <= k < i && (#[trigger] history[k]).role == "user"@ && history[k].content == text && forall|
                    j: int,
                |
                    k < j < i ==> (#[trigger] history[j]).role != "user"@,
            None => forall|j: int| 0 <= j < i ==> (#[trigger] history[j]).role != "user"@,
        },
    decreases i,
{
    if i > 0 {
        if history[i - 1].role == "user"@ {
            assert(history[i - 1].content == replies::last_prompt(history, i)->0);
        } else {
            last_prompt_is_last(history, i - 1);
            if let Some(text) = replies::last_prompt(history, i - 1) {
                let k = choose|k: int|
                    0 <= k < i - 1 && (#[trigger] history[k]).role == "user"@ && history[k].content == text
                        && forall|j: int| k < j < i - 1 ==> (#[trigger] history[j]).role != "user"@;
                assert(history[k].role == "user"@);
            }
        }
    }
}

/// A retry sends the prompt that failed, or else the draft without the white space around it.
pub proof fn retries_send_what_failed(v: PaneView, now: u64)
    requires
        !v.run.busy,
    ensures
        v.run.failed matches Some(p) ==> v.retried(now).out == v.out.push(EffectView::Send { prompt: p }),
        v.run.failed is None && !scan::blank(v.composer.text) ==> v.retried(now).out == v.out.push(
            EffectView::Send { prompt: scan::trim(v.composer.text) },
        ),
        v.run.failed is None && scan::blank(v.composer.text) ==> v.retried(now).out == v.out,
{
    reveal(PaneView::prompted);
}

/// Without a number the latest prompt of the user is sent again, with one the prompt of that
/// block, and only prompts of the user are.
pub proof fn reruns_send_what_the_user_sent(history: Seq<MessageView>, number: int)
    ensures
        replies::rerun_outcome(history, None) matches Ok(text) ==> exists|k: int|
            0 <= k < history.len() && (#[trigger] history[k]).role == "user"@ && history[k].content == text
                && forall|j: int| k < j < history.len() ==> (#[trigger] history[j]).role != "user"@,
        (exists|k: int| 0 <= k < history.len() && (#[trigger] history[k]).role == "user"@)
            ==> replies::rerun_outcome(history, None) is Ok,
        1 <= number <= history.len() && history[number - 1].role == "user"@ ==> replies::rerun_outcome(
            history,
            Some(number),
        ) == Ok::<Seq<char>, Seq<char>>(history[number - 1].content),
        !(1 <= number <= history.len() && history[number - 1].role == "user"@) ==> replies::rerun_outcome(
            history,
            Some(number),
        ) is Err,
{
    last_prompt_is_last(history, history.len() as int);
}

/// A reply that is nothing but a thinking block is shown by what stands in the block.
pub proof fn thinking_is_taken_out(body: Seq<char>)
    ensures
        replies::thinking_text("<thinking>"@ + body + "</thinking>"@) == Some(scan::trim(body)),
{
    reveal_strlit("<thinking>");
    reveal_strlit("</thinking>");
    let s = "<thinking>"@ + body + "</thinking>"@;
    let open = "<thinking>"@;
    let close = "</thinking>"@;
    scan::skip_white_bounds(s, 0);
    scan::back_white_bounds(s, 0, s.len() as int);
    assert(s[0] == '<');
    assert(s.last() == '>');
    assert(!text::white('<') && !text::white('>'));
    assert(scan::skip_white(s, 0) == 0);
    assert(scan::back_white(s, 0, s.len() as int) == s.len());
    assert(scan::trim(s) =~= s);
    assert(s.subrange(0, open.len() as int) =~= open);
    let rest = s.skip(open.len() as int);
    assert(rest =~= body + close);
    assert(rest.subrange(rest.len() - close.len(), rest.len() as int) =~= close);
    assert(rest.take(rest.len() - close.len()) =~= body);
}

} // verus!
