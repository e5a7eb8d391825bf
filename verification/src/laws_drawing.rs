//! What holds of the drawn conversation.

use crate::caret;
use crate::filters::FilterView;
use crate::filters;
use crate::frames;
use crate::laws_commands;
use crate::laws_prompts;
use crate::laws_text;
use crate::model::MessageView;
use crate::model;
use crate::paint::{Color, SpanView, Style};
use crate::paint;
use crate::pane::PaneView;
use crate::render::{Look, TodoStatus};
use crate::render;
use crate::replies;
use crate::scan;
use crate::text;
use crate::transcript::TranscriptView;
use vstd::prelude::*;

verus! {

// ---------------------------------------------------------------------------
// Where things are drawn
// ---------------------------------------------------------------------------

/// A text with a line feed at its end, where it has any line.
pub open spec fn ended(s: Seq<char>) -> Seq<char> {
    if s.len() > 0 && s.last() != '\n' {
        s.push('\n')
    } else {
        s
    }
}

/// Whether the `k` rows from `p` on show a text in full: none of them is a title, each begins
/// with the same prefix, and what stands behind the prefixes, row after row, is the text.
pub open spec fn shown_at(
    rows: Seq<(Seq<SpanView>, Option<Seq<char>>)>,
    p: int,
    k: int,
    prefix: Seq<char>,
    s: Seq<char>,
) -> bool {
    &&& 0 <= p && 0 <= k && p + k <= rows.len()
    &&& forall|j: int|
        p <= j < p + k ==> (#[trigger] rows[j]).1 is None && rows[j].0.len() == 1 && rows[j].0[0].text.len()
            >= prefix.len() && rows[j].0[0].text.take(prefix.len() as int) == prefix
    &&& laws_text::run_on(
        Seq::new(k as nat, |j: int| rows[p + j].0[0].text.skip(prefix.len() as int)),
    ) == ended(s)
}

proof fn prefixed_rows_show(
    rows: Seq<(Seq<SpanView>, Option<Seq<char>>)>,
    p: int,
    prefix: Seq<char>,
    s: Seq<char>,
    style: Style,
)
    requires
        0 <= p,
        p + scan::lines(s).len() <= rows.len(),
        rows.subrange(p, p + scan::lines(s).len()) == render::untitled(
            render::prefixed(prefix, scan::lines(s), style),
        ),
        !s.contains('\r'),
    ensures
        shown_at(rows, p, scan::lines(s).len() as int, prefix, s),
{
    let list = scan::lines(s);
    let n = list.len() as int;
    let part = rows.subrange(p, p + n);
    assert forall|j: int| p <= j < p + n implies (#[trigger] rows[j]).1 is None && rows[j].0.len() == 1
        && rows[j].0[0].text == prefix + list[j - p] by {
        assert(part[j - p] == rows[j]);
    }
    assert forall|j: int| p <= j < p + n implies (#[trigger] rows[j]).0[0].text.take(prefix.len() as int)
        == prefix by {
        assert((prefix + list[j - p]).take(prefix.len() as int) =~= prefix);
    }
    let bare = Seq::new(n as nat, |j: int| rows[p + j].0[0].text.skip(prefix.len() as int));
    assert forall|j: int| 0 <= j < n implies bare[j] == list[j] by {
        assert(rows[p + j].0[0].text == prefix + list[j]);
        assert((prefix + list[j]).skip(prefix.len() as int) =~= list[j]);
    }
    assert(bare =~= list);
    laws_text::lines_give_the_text_back(s);
}

/// Where the title of message `i` is drawn.
pub open spec fn title_place(t: TranscriptView, look: Look, i: int) -> int {
    let before = render::blocks_sheet(t, look, i).rows.len() as int;
    if before > 0 {
        before + 1
    } else {
        0
    }
}

proof fn blocks_stay(t: TranscriptView, look: Look, n: int, m: int)
    requires
        0 <= n <= m <= t.history.len(),
    ensures
        render::blocks_sheet(t, look, n).rows.len() <= render::blocks_sheet(t, look, m).rows.len(),
        render::blocks_sheet(t, look, m).rows.take(render::blocks_sheet(t, look, n).rows.len() as int)
            == render::blocks_sheet(t, look, n).rows,
    decreases m,
{
    let a = render::blocks_sheet(t, look, n).rows;
    let c = render::blocks_sheet(t, look, m).rows;
    if n < m {
        blocks_stay(t, look, n, m - 1);
        let b = render::blocks_sheet(t, look, m - 1).rows;
        assert(c.take(b.len() as int) =~= b);
        assert(c.take(a.len() as int) =~= b.take(a.len() as int));
    } else {
        assert(c.take(a.len() as int) =~= a);
    }
}

#[verifier::spinoff_prover]
#[verifier::rlimit(40)]
proof fn block_is_drawn(
    t: TranscriptView,
    look: Look,
    todos: Seq<(Seq<char>, TodoStatus)>,
    reasoning: Seq<char>,
    reply: Seq<char>,
    i: int,
)
    requires
        0 <= i < t.history.len(),
    ensures
        ({
            let rows = render::full_sheet(t, look, todos, reasoning, reply).rows;
            let m = t.history[i];
            let p = title_place(t, look, i);
            let section = render::blocks_sheet(t, look, i + 1).order.len();
            let body = render::block_body(t, m, look, section, (i + 1) as nat);
            let calls = render::call_lines(m);
            &&& 0 <= p
            &&& p + 1 + body.len() + calls.len() < rows.len()
            &&& rows[p].0 == paint::line_of(
                render::title_text(m, look, section, (i + 1) as nat),
                paint::strong(render::role_color(m.role, look.palette)),
            )
            &&& rows[p].1 == if render::is_section(m, look) {
                Some(m.id)
            } else {
                None
            }
            &&& rows.subrange(p + 1, p + 1 + body.len()) == render::untitled(body)
            &&& rows.subrange(p + 1 + body.len(), p + 1 + body.len() + calls.len()) == render::untitled(
                calls,
            )
            &&& rows[p + 1 + body.len() + calls.len()].0.len() == 0
        }),
{
    let rows = render::full_sheet(t, look, todos, reasoning, reply).rows;
    let m = t.history[i];
    let p = title_place(t, look, i);
    let here = render::blocks_sheet(t, look, i + 1);
    let section = here.order.len();
    let body = render::block_body(t, m, look, section, (i + 1) as nat);
    let calls = render::call_lines(m);
    let n = t.history.len() as int;
    blocks_stay(t, look, i + 1, n);
    let all = render::blocks_sheet(t, look, n);
    assert(rows.take(all.rows.len() as int) =~= all.rows);
    assert(rows.take(here.rows.len() as int) =~= all.rows.take(here.rows.len() as int));
    assert(rows.take(here.rows.len() as int) == here.rows);
    assert(here.rows.len() == p + 1 + body.len() + calls.len() + 1);
    assert forall|j: int| 0 <= j < here.rows.len() implies rows[j] == here.rows[j] by {
        assert(rows.take(here.rows.len() as int)[j] == rows[j]);
    }
    assert(rows[p] == here.rows[p]);
    assert(rows.subrange(p + 1, p + 1 + body.len()) =~= render::untitled(body)) by {
        assert forall|j: int| 0 <= j < body.len() implies rows[p + 1 + j] == render::untitled(body)[j] by {
            assert(here.rows[p + 1 + j] == render::untitled(body)[j]);
        }
    }
    assert(rows.subrange(p + 1 + body.len(), p + 1 + body.len() + calls.len()) =~= render::untitled(calls))
        by {
        assert forall|j: int| 0 <= j < calls.len() implies rows[p + 1 + body.len() + j]
            == render::untitled(calls)[j] by {
            assert(here.rows[p + 1 + body.len() + j] == render::untitled(calls)[j]);
        }
    }
    let last = p + 1 + body.len() + calls.len();
    assert(here.rows[last] == render::untitled(seq![Seq::<SpanView>::empty()])[0]);
}

// ---------------------------------------------------------------------------
// Messages
// ---------------------------------------------------------------------------

/// The messages of a pane as they are drawn: each with an id.
pub open spec fn drawn_log(v: PaneView) -> TranscriptView {
    v.log.all_named(v.log.history.len() as int)
}

proof fn naming_keeps(t: TranscriptView, n: int)
    requires
        0 <= n <= t.history.len(),
    ensures
        t.all_named(n).history.len() == t.history.len(),
        t.all_named(n).filters == t.filters,
        t.all_named(n).sections == t.sections,
        t.all_named(n).details == t.details,
        forall|i: int|
            0 <= i < t.history.len() ==> (#[trigger] t.all_named(n).history[i]) == (MessageView {
                id: t.all_named(n).history[i].id,
                ..t.history[i]
            }),
        forall|i: int|
            0 <= i < t.history.len() && t.history[i].id.len() > 0 ==> (#[trigger] t.all_named(n).history[i]).id
                == t.history[i].id,
    decreases n,
{
    if n > 0 {
        naming_keeps(t, n - 1);
        let less = t.all_named(n - 1);
        assert(t.all_named(n) == less.named(n - 1));
    }
}

/// Messages are drawn with everything that they hold, and keep an id that they have.
pub proof fn naming_keeps_the_messages(v: PaneView)
    ensures
        ({
            let t = drawn_log(v);
            &&& t.history.len() == v.log.history.len()
            &&& t.filters == v.log.filters && t.sections == v.log.sections && t.details == v.log.details
            &&& forall|i: int|
                0 <= i < v.log.history.len() ==> (#[trigger] t.history[i]).role == v.log.history[i].role
                    && t.history[i].content == v.log.history[i].content && t.history[i].reasoning
                    == v.log.history[i].reasoning && t.history[i].calls == v.log.history[i].calls && (
                v.log.history[i].id.len() > 0 ==> t.history[i].id == v.log.history[i].id)
        }),
{
    naming_keeps(v.log, v.log.history.len() as int);
}

/// Whether a message that is no closed section has its content drawn under its title.
pub open spec fn is_open_block(v: PaneView, i: int) -> bool {
    let m = drawn_log(v).history[i];
    &&& 0 <= i < v.log.history.len()
    &&& !v.log.filters.contains_key(m.id)
    &&& m.role == "tool"@ ==> render::is_failed(m) || v.log.open(m.id, v.log.details)
    &&& m.role == "assistant"@ && m.reasoning.len() == 0 ==> replies::thinking_text(m.content) is None
}

/// An open block without a filter draws every line of its message: under its title, with the
/// role and the number of the block, stand two blanks before each line, in order and as many
/// as there are, and only the calls that it makes and an empty row come before the next.
#[verifier::spinoff_prover]
#[verifier::rlimit(40)]
pub proof fn open_blocks_show_all(v: PaneView, i: int)
    requires
        is_open_block(v, i),
        v.log.history[i].reasoning.len() == 0 || v.log.history[i].role != "assistant"@,
        !v.log.history[i].content.contains('\r'),
    ensures
        ({
            let rows = v.sheet().rows;
            let m = v.log.history[i];
            exists|p: int, k: int|
                0 <= p < rows.len() && rows[p].0.len() == 1 && scan::contains_text(
                    rows[p].0[0].text,
                    text::upper(m.role),
                ) && (m.role != "tool"@ ==> scan::contains_text(
                    rows[p].0[0].text,
                    "#"@ + scan::decimal((i + 1) as nat),
                )) && #[trigger] shown_at(rows, p + 1, k, "  "@, m.content) && p + 1 + k < rows.len() && (
                m.calls.len() == 0 ==> rows[p + 1 + k].0.len() == 0)
        }),
{
    let t = drawn_log(v);
    let look = frames::look_of(v.settings);
    naming_keeps(v.log, v.log.history.len() as int);
    let m = t.history[i];
    block_is_drawn(t, look, v.todos, v.run.reasoning, v.run.reply, i);
    let rows = v.sheet().rows;
    let p = title_place(t, look, i);
    let k = scan::lines(m.content).len() as int;
    let section = render::blocks_sheet(t, look, i + 1).order.len();
    assert(render::block_body(t, m, look, section, (i + 1) as nat) == render::prefixed(
        "  "@,
        scan::lines(m.content),
        paint::plain(),
    ));
    prefixed_rows_show(rows, p + 1, "  "@, m.content, paint::plain());
    let title = rows[p].0[0].text;
    title_says(t, look, i, section);
    assert(shown_at(rows, p + 1, k, "  "@, v.log.history[i].content));
}

proof fn title_says(t: TranscriptView, look: Look, i: int, section: nat)
    requires
        0 <= i < t.history.len(),
    ensures
        ({
            let m = t.history[i];
            let title = render::title_text(m, look, section, (i + 1) as nat);
            &&& scan::contains_text(title, text::upper(m.role))
            &&& !render::is_section(m, look) ==> scan::contains_text(
                title,
                "#"@ + scan::decimal((i + 1) as nat),
            )
        }),
{
    let m = t.history[i];
    let title = render::title_text(m, look, section, (i + 1) as nat);
    let head = "─ "@;
    let role = text::upper(m.role);
    assert(title.subrange(head.len() as int, (head.len() + role.len()) as int) =~= role);
    assert(scan::occurs_at(title, role, head.len() as int));
    if !render::is_section(m, look) {
        reveal_strlit(" #");
        reveal_strlit("#");
        let number = "#"@ + scan::decimal((i + 1) as nat);
        let at = head.len() as int + role.len() + 1;
        assert(title.subrange(at, at + number.len()) =~= number);
        assert(scan::occurs_at(title, number, at));
    }
}

/// A reply with a trace of its own shows all of its content behind what is shown of the
/// trace; where traces are shown and open, the trace is shown in full before it.
#[verifier::spinoff_prover]
#[verifier::rlimit(40)]
pub proof fn replies_with_traces_show_all(v: PaneView, i: int)
    requires
        0 <= i < v.log.history.len(),
        !v.log.filters.contains_key(drawn_log(v).history[i].id),
        v.log.history[i].role == "assistant"@,
        v.log.history[i].reasoning.len() > 0,
        !v.log.history[i].content.contains('\r'),
        !v.log.history[i].reasoning.contains('\r'),
    ensures
        ({
            let rows = v.sheet().rows;
            let m = v.log.history[i];
            let id = drawn_log(v).history[i].id;
            &&& exists|p: int, k: int| #[trigger] shown_at(rows, p, k, "  "@, m.content)
            &&& v.settings.show_thinking && v.log.open(id, v.settings.thinking_open) ==> exists|
                p: int,
                k: int,
            | #[trigger] shown_at(rows, p, k, "  ┊ "@, m.reasoning) && k > 0
        }),
{
    let t = drawn_log(v);
    let look = frames::look_of(v.settings);
    naming_keeps(v.log, v.log.history.len() as int);
    let m = t.history[i];
    block_is_drawn(t, look, v.todos, v.run.reasoning, v.run.reply, i);
    let rows = v.sheet().rows;
    let p = title_place(t, look, i);
    let section = render::blocks_sheet(t, look, i + 1).order.len();
    let body = render::block_body(t, m, look, section, (i + 1) as nat);
    let open = if look.thinking {
        t.open(m.id, look.thinking_open)
    } else {
        look.thinking_open
    };
    let first = render::thinking_lines(m.reasoning, look.thinking, open);
    let part = rows.subrange(p + 1, p + 1 + body.len());
    let k = scan::lines(m.content).len() as int;
    if m.content.len() > 0 {
        let own = render::prefixed("  "@, scan::lines(m.content), paint::plain());
        assert(body =~= first + own);
        let q = p + 1 + first.len();
        assert(rows.subrange(q, q + k) =~= render::untitled(own)) by {
            assert forall|j: int| 0 <= j < k implies rows[q + j] == render::untitled(own)[j] by {
                assert(part[first.len() + j] == rows[q + j]);
                assert(render::untitled(body)[first.len() + j] == render::untitled(own)[j]);
            }
        }
        prefixed_rows_show(rows, q, "  "@, m.content, paint::plain());
        assert(shown_at(rows, q, k, "  "@, v.log.history[i].content));
    } else {
        assert(scan::lines(m.content) =~= Seq::empty());
        assert(rows.subrange(0, 0) =~= render::untitled(
            render::prefixed("  "@, scan::lines(m.content), paint::plain()),
        ));
        prefixed_rows_show(rows, 0, "  "@, m.content, paint::plain());
        assert(shown_at(rows, 0, 0, "  "@, v.log.history[i].content));
    }
    if look.thinking && open {
        let list = scan::lines(m.reasoning);
        let n = list.len() as int;
        assert(n > 0);
        let dim = paint::colored(Color::DarkGray);
        let own = render::prefixed("  ┊ "@, list, dim);
        let q = p + 2;
        assert(first =~= seq![paint::line_of("  ┊ thinking"@, dim)] + own);
        assert(rows.subrange(q, q + n) =~= render::untitled(own)) by {
            assert forall|j: int| 0 <= j < n implies rows[q + j] == render::untitled(own)[j] by {
                assert(part[1 + j] == rows[q + j]);
                assert(body[1 + j] == own[j]);
                assert(render::untitled(body)[1 + j] == render::untitled(own)[j]);
            }
        }
        prefixed_rows_show(rows, q, "  ┊ "@, m.reasoning, dim);
        assert(shown_at(rows, q, n, "  ┊ "@, v.log.history[i].reasoning));
    }
}

/// A closed tool result takes one row, which shows the beginning of its first line.
pub proof fn closed_results_show_their_beginning(v: PaneView, i: int)
    requires
        0 <= i < v.log.history.len(),
        v.log.history[i].role == "tool"@,
        !v.log.filters.contains_key(drawn_log(v).history[i].id),
        !scan::contains_text(v.log.history[i].content, "tool error:"@),
        !v.log.open(drawn_log(v).history[i].id, v.log.details),
    ensures
        ({
            let rows = v.sheet().rows;
            let m = v.log.history[i];
            let first = scan::first_line(m.content);
            exists|p: int|
                0 < p < rows.len() - 1 && rows[p - 1].1 == Some(drawn_log(v).history[i].id) && rows[p].1 is None
                    && rows[p].0.len() == 1 && scan::contains_text(
                    (#[trigger] rows[p]).0[0].text,
                    first.take(
                        if first.len() <= 96 {
                            first.len() as int
                        } else {
                            96
                        },
                    ),
                )
        }),
{
    let t = drawn_log(v);
    let look = frames::look_of(v.settings);
    naming_keeps(v.log, v.log.history.len() as int);
    let m = t.history[i];
    block_is_drawn(t, look, v.todos, v.run.reasoning, v.run.reply, i);
    let rows = v.sheet().rows;
    let p = title_place(t, look, i);
    let section = render::blocks_sheet(t, look, i + 1).order.len();
    let body = render::block_body(t, m, look, section, (i + 1) as nat);
    reveal_strlit("tool");
    reveal_strlit("assistant");
    assert("tool"@.len() != "assistant"@.len());
    assert(body.len() == 1);
    assert(rows.subrange(p + 1, p + 2)[0] == rows[p + 1]);
    let line = render::closed_line(t, m, section);
    let first = scan::first_line(m.content);
    let cut = first.take(
        if first.len() <= 96 {
            first.len() as int
        } else {
            96
        },
    );
    let head = "  ▸["@ + scan::decimal(section) + "] "@;
    assert(scan::first_chars(first, 96) =~= cut);
    assert(line.subrange(head.len() as int, (head.len() + cut.len()) as int) =~= cut);
    assert(scan::occurs_at(line, cut, head.len() as int));
    assert(rows[p + 1].0[0].text == line);
}

/// A reply that is coming in is shown in full at the end.
pub proof fn incoming_replies_show_all(v: PaneView)
    requires
        v.run.reply.len() > 0,
        !v.run.reply.contains('\r'),
    ensures
        ({
            let rows = v.sheet().rows;
            exists|p: int, k: int| #[trigger] shown_at(rows, p, k, "  "@, v.run.reply) && p + k == rows.len()
        }),
{
    let rows = v.sheet().rows;
    let reply = v.run.reply;
    let k = scan::lines(reply).len() as int;
    let own = render::prefixed("  "@, scan::lines(reply), paint::plain());
    let p = rows.len() - k;
    let tail = render::stream_lines(frames::look_of(v.settings), v.run.reasoning, reply);
    assert(tail.skip(tail.len() - k) =~= own);
    assert(rows.subrange(p, p + k) =~= render::untitled(own)) by {
        assert forall|j: int| 0 <= j < k implies rows[p + j] == render::untitled(own)[j] by {
            assert(tail[tail.len() - k + j] == own[j]);
        }
    }
    prefixed_rows_show(rows, p, "  "@, reply, paint::plain());
}

/// A trace that is coming in shows its first lines, all of them where there are at most three.
pub proof fn incoming_traces_show_their_beginning(v: PaneView, j: int)
    requires
        v.run.reasoning.len() > 0,
        v.settings.show_thinking,
        0 <= j < 3,
        j < scan::lines(v.run.reasoning).len(),
    ensures
        exists|p: int|
            0 <= p < v.sheet().rows.len() && (#[trigger] v.sheet().rows[p]).0.len() == 1
                && v.sheet().rows[p].0[0].text == "  "@ + scan::lines(v.run.reasoning)[j],
{
    let rows = v.sheet().rows;
    let list = scan::lines(v.run.reasoning);
    let tail = render::stream_lines(frames::look_of(v.settings), v.run.reasoning, v.run.reply);
    let shown = if list.len() <= 3 {
        list
    } else {
        list.take(3)
    };
    let own = render::prefixed("  "@, shown, paint::colored(Color::DarkGray));
    assert(tail[1 + j] == own[j]);
    let p = rows.len() - tail.len() + 1 + j;
    assert(rows[p] == render::untitled(tail)[1 + j]);
    assert(rows[p].0 == tail[1 + j]);
}

/// The sections of the drawn conversation are its tool results and its shown traces, in
/// order, and the tasks behind them, so that each has the number that its title shows.
pub proof fn sections_are_in_order(t: TranscriptView, look: Look, n: int)
    requires
        0 <= n <= t.history.len(),
    ensures
        forall|i: int|
            0 <= i < n && render::is_section(#[trigger] t.history[i], look) ==> exists|k: int|
                0 <= k < render::blocks_sheet(t, look, n).order.len() && (#[trigger] render::blocks_sheet(
                    t,
                    look,
                    n,
                ).order[k]).0 == t.history[i].id,
        render::blocks_sheet(t, look, n).order.len() <= n,
    decreases n,
{
    if n > 0 {
        sections_are_in_order(t, look, n - 1);
        let a = render::blocks_sheet(t, look, n - 1).order;
        let b = render::blocks_sheet(t, look, n).order;
        assert forall|i: int| 0 <= i < n && render::is_section(#[trigger] t.history[i], look) implies exists|
            k: int,
        | 0 <= k < b.len() && (#[trigger] b[k]).0 == t.history[i].id by {
            if i < n - 1 {
                let k = choose|k: int| 0 <= k < a.len() && (#[trigger] a[k]).0 == t.history[i].id;
                assert(b[k] == a[k]);
            } else {
                assert(b.last().0 == t.history[i].id);
            }
        }
    }
}

/// While the end is followed the last row is in view; else the position stays where it was
/// until the end is reached.
pub proof fn the_end_is_followed(v: PaneView, height: u16)
    ensures
        ({
            let w = v.conversation_drawn(height);
            let total = v.sheet().rows.len() as int;
            &&& 0 <= w.log.scroll || v.log.scroll < 0
            &&& v.log.follow ==> w.log.scroll + height >= total && w.log.follow
            &&& v.log.follow && total > height ==> w.log.scroll + height == total
            &&& v.log.follow && total <= height ==> w.log.scroll == 0
            &&& !v.log.follow && v.log.scroll + height < total ==> w.log.scroll == v.log.scroll
                && !w.log.follow
            &&& w.drawn.scroll == w.log.scroll
        }),
{
    let n = v.log.history.len() as int;
    naming_keeps(v.log, n);
    named_scroll(v.log, n);
}

proof fn named_scroll(t: TranscriptView, n: int)
    requires
        0 <= n <= t.history.len(),
    ensures
        t.all_named(n).scroll == t.scroll,
        t.all_named(n).follow == t.follow,
    decreases n,
{
    if n > 0 {
        named_scroll(t, n - 1);
    }
}

/// Whether the rows from `p` on, under the title of the tasks, show each of them.
pub open spec fn tasks_at(
    rows: Seq<(Seq<SpanView>, Option<Seq<char>>)>,
    todos: Seq<(Seq<char>, TodoStatus)>,
    p: int,
) -> bool {
    &&& 0 < p && p + todos.len() <= rows.len()
    &&& rows[p - 1].1 == Some("todos"@)
    &&& forall|j: int|
        0 <= j < todos.len() ==> (#[trigger] rows[p + j]).0.len() == 1 && scan::contains_text(
            rows[p + j].0[0].text,
            todos[j].0,
        )
}

/// Open tasks are shown each in a row, in order.
pub proof fn tasks_are_shown(v: PaneView)
    requires
        v.todos.len() > 0,
        v.log.open("todos"@, true),
    ensures
        exists|p: int| tasks_at(v.sheet().rows, v.todos, p),
{
    let t = drawn_log(v);
    let look = frames::look_of(v.settings);
    naming_keeps(v.log, v.log.history.len() as int);
    let blocks = render::blocks_sheet(t, look, t.history.len() as int);
    let rows = v.sheet().rows;
    let p = blocks.rows.len() as int + 1;
    let lines = render::todo_lines(v.todos);
    assert(rows[p - 1].1 == Some("todos"@));
    assert forall|j: int| 0 <= j < v.todos.len() implies (#[trigger] rows[p + j]).0.len() == 1
        && scan::contains_text(rows[p + j].0[0].text, v.todos[j].0) by {
        assert(rows[p + j] == render::untitled(lines)[j]);
        let line = "  "@ + render::todo_mark(v.todos[j].1) + " "@ + v.todos[j].0;
        let at = line.len() - v.todos[j].0.len();
        assert(line.subrange(at, line.len() as int) =~= v.todos[j].0);
        assert(scan::occurs_at(line, v.todos[j].0, at));
    }
    assert(tasks_at(rows, v.todos, p));
}

/// Blocks are drawn in the order of the conversation: the title of an earlier one stands above
/// that of a later one, each with the number of its block where it is no section.
pub proof fn blocks_are_in_order(v: PaneView, i: int, j: int)
    requires
        0 <= i < j < v.log.history.len(),
        v.log.history[i].role == "user"@,
        v.log.history[j].role == "user"@,
    ensures
        ({
            let rows = v.sheet().rows;
            exists|p: int, q: int|
                0 <= p < q < rows.len() && rows[p].0.len() == 1 && rows[q].0.len() == 1 && scan::contains_text(
                    (#[trigger] rows[p]).0[0].text,
                    "#"@ + scan::decimal((i + 1) as nat),
                ) && scan::contains_text(
                    (#[trigger] rows[q]).0[0].text,
                    "#"@ + scan::decimal((j + 1) as nat),
                )
        }),
{
    let t = drawn_log(v);
    let look = frames::look_of(v.settings);
    naming_keeps(v.log, v.log.history.len() as int);
    block_is_drawn(t, look, v.todos, v.run.reasoning, v.run.reply, i);
    block_is_drawn(t, look, v.todos, v.run.reasoning, v.run.reply, j);
    reveal_strlit("tool");
    reveal_strlit("assistant");
    reveal_strlit("user");
    assert("user"@[0] == 'u' && "tool"@[0] == 't' && "assistant"@[0] == 'a');
    title_says(t, look, i, render::blocks_sheet(t, look, i + 1).order.len());
    title_says(t, look, j, render::blocks_sheet(t, look, j + 1).order.len());
    let p = title_place(t, look, i);
    let q = title_place(t, look, j);
    blocks_stay(t, look, i + 1, j);
    assert(render::blocks_sheet(t, look, i + 1).rows.len() > p);
    let rows = v.sheet().rows;
    assert(rows[p].0.len() == 1 && rows[q].0.len() == 1);
}

/// The title of a section leads to it: it holds the number under which the section can be
/// opened and closed, and a click on it is one on the section.
pub proof fn section_titles_lead_to_them(v: PaneView, i: int)
    requires
        0 <= i < v.log.history.len(),
        v.log.history[i].role == "tool"@,
    ensures
        ({
            let sheet = v.sheet();
            let id = drawn_log(v).history[i].id;
            exists|p: int, n: int|
                0 <= p < sheet.rows.len() && 0 <= n < sheet.order.len() && (#[trigger] sheet.rows[p]).1 == Some(
                    id,
                ) && (#[trigger] sheet.order[n]).0 == id && sheet.rows[p].0.len() == 1
                    && scan::contains_text(
                    sheet.rows[p].0[0].text,
                    "["@ + scan::decimal((n + 1) as nat) + "]"@,
                )
        }),
{
    let t = drawn_log(v);
    let look = frames::look_of(v.settings);
    naming_keeps(v.log, v.log.history.len() as int);
    let m = t.history[i];
    block_is_drawn(t, look, v.todos, v.run.reasoning, v.run.reply, i);
    let here = render::blocks_sheet(t, look, i + 1);
    let p = title_place(t, look, i);
    let n = here.order.len() - 1;
    order_stays(t, look, i + 1, t.history.len() as int);
    let sheet = v.sheet();
    assert(sheet.order[n] == here.order[n]);
    let section = here.order.len();
    let title = render::title_text(m, look, section, (i + 1) as nat);
    let number = "["@ + scan::decimal(section) + "]"@;
    reveal_strlit(" [");
    reveal_strlit("[");
    let head = "─ "@ + text::upper(m.role);
    let at = head.len() as int + 1;
    assert(title.subrange(at, at + number.len()) =~= number);
    assert(scan::occurs_at(title, number, at));
    assert(sheet.rows[p].1 == Some(m.id));
}

proof fn order_stays(t: TranscriptView, look: Look, n: int, m: int)
    requires
        0 <= n <= m <= t.history.len(),
    ensures
        render::blocks_sheet(t, look, n).order.len() <= render::blocks_sheet(t, look, m).order.len(),
        forall|k: int|
            0 <= k < render::blocks_sheet(t, look, n).order.len() ==> render::blocks_sheet(t, look, m).order[k]
                == #[trigger] render::blocks_sheet(t, look, n).order[k],
    decreases m,
{
    if n < m {
        order_stays(t, look, n, m - 1);
    }
}

/// A message that calls tools names them in a row of its own, each of them where they are few
/// and their names short.
#[verifier::spinoff_prover]
#[verifier::rlimit(40)]
pub proof fn calls_are_named(v: PaneView, i: int, k: int)
    requires
        0 <= i < v.log.history.len(),
        1 <= v.log.history[i].calls.len() <= 3,
        0 <= k < v.log.history[i].calls.len(),
        caret::byte_len(scan::join(model::call_names(v.log.history[i].calls), ", "@)) <= 80,
    ensures
        ({
            let rows = v.sheet().rows;
            exists|p: int|
                0 <= p < rows.len() && rows[p].0.len() == 1 && scan::contains_text(
                    (#[trigger] rows[p]).0[0].text,
                    v.log.history[i].calls[k].name,
                ) && scan::contains_text(
                    rows[p].0[0].text,
                    scan::decimal(v.log.history[i].calls.len()) + " call"@,
                )
        }),
{
    let t = drawn_log(v);
    let look = frames::look_of(v.settings);
    naming_keeps(v.log, v.log.history.len() as int);
    let m = t.history[i];
    block_is_drawn(t, look, v.todos, v.run.reasoning, v.run.reply, i);
    let rows = v.sheet().rows;
    let section = render::blocks_sheet(t, look, i + 1).order.len();
    let body = render::block_body(t, m, look, section, (i + 1) as nat);
    let p = title_place(t, look, i) + 1 + body.len();
    let calls = render::call_lines(m);
    assert(rows.subrange(p, p + calls.len())[0] == rows[p]);
    call_line_says(m, k);
    assert(rows[p].0 == calls[0]);
}

#[verifier::spinoff_prover]
#[verifier::rlimit(40)]
proof fn call_line_says(m: MessageView, k: int)
    requires
        1 <= m.calls.len() <= 3,
        0 <= k < m.calls.len(),
        caret::byte_len(scan::join(model::call_names(m.calls), ", "@)) <= 80,
    ensures
        render::call_lines(m).len() == 1,
        render::call_lines(m)[0].len() == 1,
        scan::contains_text(render::call_lines(m)[0][0].text, m.calls[k].name),
        scan::contains_text(
            render::call_lines(m)[0][0].text,
            scan::decimal(m.calls.len()) + " call"@,
        ),
{
    let names = model::call_names(m.calls);
    let list = scan::join(names, ", "@);
    let count = if m.calls.len() == 1 {
        "1 call"@
    } else {
        scan::decimal(m.calls.len()) + " calls"@
    };
    let line = "  ↳ "@ + count + ": "@ + render::names_text(names);
    assert(render::call_lines(m)[0][0].text == line);
    assert(render::names_text(names) == list);
    name_is_joined(names, k);
    laws_commands::piece_of_a_part("  ↳ "@ + count + ": "@, list, Seq::empty(), names[k]);
    assert(line =~= "  ↳ "@ + count + ": "@ + list + Seq::<char>::empty());
    count_says(m.calls.len());
    let said = scan::decimal(m.calls.len()) + " call"@;
    laws_commands::piece_of_a_part("  ↳ "@, count, ": "@ + list, said);
    assert(line =~= "  ↳ "@ + count + (": "@ + list));
}

proof fn name_is_joined(names: Seq<Seq<char>>, k: int)
    requires
        0 <= k < names.len(),
    ensures
        scan::contains_text(scan::join(names, ", "@), names[k]),
{
    laws_text::joined_parts_stand_in_order(names, ", "@, k);
    assert(scan::occurs_at(
        scan::join(names, ", "@),
        names[k],
        laws_text::part_start(names, ", "@, k),
    ));
}

proof fn count_says(n: nat)
    requires
        1 <= n,
    ensures
        scan::contains_text(
            if n == 1 {
                "1 call"@
            } else {
                scan::decimal(n) + " calls"@
            },
            scan::decimal(n) + " call"@,
        ),
{
    reveal_strlit("1 call");
    reveal_strlit(" call");
    reveal_strlit(" calls");
    let said = scan::decimal(n) + " call"@;
    let count = if n == 1 {
        "1 call"@
    } else {
        scan::decimal(n) + " calls"@
    };
    if n == 1 {
        reveal_with_fuel(scan::decimal, 2);
        assert(scan::decimal(1) =~= seq!['1']);
    }
    assert(count.subrange(0, said.len() as int) =~= said);
    assert(scan::occurs_at(count, said, 0));
}

/// A reply that is nothing but a thinking block shows what stands in the block where traces
/// are shown and open.
#[verifier::spinoff_prover]
#[verifier::rlimit(40)]
pub proof fn thinking_blocks_show_all(v: PaneView, i: int, body: Seq<char>)
    requires
        0 <= i < v.log.history.len(),
        v.log.history[i].role == "assistant"@,
        v.log.history[i].reasoning.len() == 0,
        v.log.history[i].content == "<thinking>"@ + body + "</thinking>"@,
        scan::trim(body).len() > 0,
        !scan::trim(body).contains('\r'),
        !v.log.filters.contains_key(drawn_log(v).history[i].id),
        v.settings.show_thinking,
        v.log.open(drawn_log(v).history[i].id, v.settings.thinking_open),
    ensures
        exists|p: int, k: int| #[trigger]
            shown_at(v.sheet().rows, p, k, "  ┊ "@, scan::trim(body)) && k > 0,
{
    let t = drawn_log(v);
    let look = frames::look_of(v.settings);
    naming_keeps(v.log, v.log.history.len() as int);
    let m = t.history[i];
    laws_prompts::thinking_is_taken_out(body);
    block_is_drawn(t, look, v.todos, v.run.reasoning, v.run.reply, i);
    let rows = v.sheet().rows;
    let p = title_place(t, look, i);
    let section = render::blocks_sheet(t, look, i + 1).order.len();
    let all = render::block_body(t, m, look, section, (i + 1) as nat);
    let trace = scan::trim(body);
    let list = scan::lines(trace);
    let n = list.len() as int;
    let dim = paint::colored(Color::DarkGray);
    let own = render::prefixed("  ┊ "@, list, dim);
    assert(n > 0);
    assert(all =~= seq![paint::line_of("  ┊ thinking"@, dim)] + own);
    let q = p + 2;
    let part = rows.subrange(p + 1, p + 1 + all.len());
    assert(rows.subrange(q, q + n) =~= render::untitled(own)) by {
        assert forall|j: int| 0 <= j < n implies rows[q + j] == render::untitled(own)[j] by {
            assert(part[1 + j] == rows[q + j]);
            assert(all[1 + j] == own[j]);
            assert(render::untitled(all)[1 + j] == render::untitled(own)[j]);
        }
    }
    prefixed_rows_show(rows, q, "  ┊ "@, trace, dim);
    assert(shown_at(rows, q, n, "  ┊ "@, trace));
}

// ---------------------------------------------------------------------------
// Filters
// ---------------------------------------------------------------------------

/// Whether line `i` of a text is one that a filter looks for.
pub open spec fn is_hit(f: FilterView, content: Seq<char>, i: int) -> bool {
    0 <= i < scan::lines(content).len() && filters::line_matches(f, scan::lines(content)[i]) != f.invert
}

proof fn kept_at(f: FilterView, content: Seq<char>, n: int) -> (at: Seq<int>)
    requires
        0 <= n <= scan::lines(content).len(),
    ensures
        ({
            let list = scan::lines(content);
            let kept = filters::kept_lines(list, filters::hit_list(f, list), f.context, n);
            &&& at.len() == kept.len()
            &&& forall|k: int| 0 <= k < at.len() ==> 0 <= #[trigger] at[k] < n && kept[k] == list[at[k]]
            &&& forall|k: int, l: int| 0 <= k < l < at.len() ==> at[k] < at[l]
            &&& forall|i: int|
                0 <= i < n ==> #[trigger] at.contains(i) == filters::near_hit(
                    filters::hit_list(f, list),
                    f.context,
                    i,
                )
        }),
    decreases n,
{
    let list = scan::lines(content);
    let hits = filters::hit_list(f, list);
    if n <= 0 {
        Seq::empty()
    } else {
        let less = kept_at(f, content, n - 1);
        if filters::near_hit(hits, f.context, n - 1) {
            let at = less.push(n - 1);
            assert forall|i: int| 0 <= i < n implies #[trigger] at.contains(i) == filters::near_hit(
                hits,
                f.context,
                i,
            ) by {
                if i == n - 1 {
                    assert(at.last() == i);
                } else {
                    if less.contains(i) {
                        let k = less.index_of(i);
                        assert(at[k] == i);
                    }
                    if at.contains(i) {
                        let k = at.index_of(i);
                        assert(less[k] == i);
                    }
                }
            }
            at
        } else {
            assert forall|i: int| 0 <= i < n implies #[trigger] less.contains(i) == filters::near_hit(
                hits,
                f.context,
                i,
            ) by {
                if i == n - 1 && less.contains(i) {
                    let k = less.index_of(i);
                    assert(less[k] == i);
                }
            }
            less
        }
    }
}

/// Whether `at` are the lines of a text, in order, that a filter looks for or that are at
/// most as far from one as its context.
pub open spec fn hits_and_context(f: FilterView, content: Seq<char>, at: Seq<int>) -> bool {
    &&& forall|k: int| 0 <= k < at.len() ==> 0 <= #[trigger] at[k] < scan::lines(content).len()
    &&& forall|k: int, l: int| 0 <= k < l < at.len() ==> at[k] < at[l]
    &&& forall|i: int|
        0 <= i < scan::lines(content).len() ==> #[trigger] at.contains(i) == (exists|j: int|
            i - f.context <= j <= i + f.context && #[trigger] is_hit(f, content, j))
}

/// A filter shows the lines that it looks for and those at most as far from one as its
/// context, all of them, once each and in order, and no other line.
pub proof fn filters_show_hits_and_their_context(f: FilterView, content: Seq<char>)
    ensures
        exists|at: Seq<int>| #[trigger] hits_and_context(f, content, at) && filters::filtered(f, content)
            == Seq::new(at.len(), |k: int| scan::lines(content)[at[k]]),
{
    let list = scan::lines(content);
    let hits = filters::hit_list(f, list);
    let at = kept_at(f, content, list.len() as int);
    assert forall|i: int| 0 <= i < list.len() implies #[trigger] at.contains(i) == (exists|j: int|
        i - f.context <= j <= i + f.context && #[trigger] is_hit(f, content, j)) by {
        if filters::near_hit(hits, f.context, i) {
            let j = choose|j: int|
                0 <= j < hits.len() && i - f.context <= j <= i + f.context && #[trigger] hits[j];
            assert(is_hit(f, content, j));
        }
        if exists|j: int| i - f.context <= j <= i + f.context && #[trigger] is_hit(f, content, j) {
            let j = choose|j: int| i - f.context <= j <= i + f.context && #[trigger] is_hit(f, content, j);
            assert(hits[j]);
        }
    }
    assert(filters::filtered(f, content) =~= Seq::new(at.len(), |k: int| list[at[k]]));
    assert(hits_and_context(f, content, at));
}

/// What a plain filter looks for stands in a line as it is, or, where case does not matter,
/// in small letters.
pub proof fn plain_filters_look_for_their_text(f: FilterView, line: Seq<char>)
    requires
        !f.regex,
    ensures
        f.case ==> filters::line_matches(f, line) == exists|p: int|
            0 <= p && p + f.pattern.len() <= line.len() && #[trigger] line.subrange(p, p + f.pattern.len())
                == f.pattern,
        !f.case ==> filters::line_matches(f, line) == exists|p: int|
            0 <= p && p + text::lower(f.pattern).len() <= text::lower(line).len() && #[trigger] text::lower(
                line,
            ).subrange(p, p + text::lower(f.pattern).len()) == text::lower(f.pattern),
{
    if f.case {
        occurrence(line, f.pattern);
    } else {
        occurrence(text::lower(line), text::lower(f.pattern));
    }
}

proof fn occurrence(s: Seq<char>, p: Seq<char>)
    ensures
        scan::contains_text(s, p) == exists|i: int|
            0 <= i && i + p.len() <= s.len() && #[trigger] s.subrange(i, i + p.len()) == p,
{
    if scan::contains_text(s, p) {
        let i = choose|i: int| #[trigger] scan::occurs_at(s, p, i);
        assert(s.subrange(i, i + p.len()) == p);
    }
    if exists|i: int| 0 <= i && i + p.len() <= s.len() && #[trigger] s.subrange(i, i + p.len()) == p {
        let i = choose|i: int|
            0 <= i && i + p.len() <= s.len() && #[trigger] s.subrange(i, i + p.len()) == p;
        assert(scan::occurs_at(s, p, i));
    }
}

/// Whether the rows from `p` on show some lines, each behind two blanks, and then say how
/// many lines are hidden.
pub open spec fn filtered_at(
    rows: Seq<(Seq<SpanView>, Option<Seq<char>>)>,
    p: int,
    shown: Seq<Seq<char>>,
    hidden: nat,
) -> bool {
    &&& 0 < p && p + shown.len() < rows.len()
    &&& forall|j: int|
        0 <= j < shown.len() ==> (#[trigger] rows[p + j]).0.len() == 1 && rows[p + j].0[0].text == "  "@
            + shown[j]
    &&& scan::contains_text(
        rows[p + shown.len()].0[0].text,
        scan::decimal(hidden) + " line(s) hidden"@,
    )
}

/// A filtered block draws what its filter shows, each line behind two blanks, and then says
/// how many lines it hides.
#[verifier::spinoff_prover]
#[verifier::rlimit(40)]
pub proof fn filtered_blocks_say_what_they_hide(v: PaneView, i: int)
    requires
        0 <= i < v.log.history.len(),
        v.log.filters.contains_key(drawn_log(v).history[i].id),
        v.log.history[i].role == "assistant"@ ==> v.log.history[i].reasoning.len() == 0
            && replies::thinking_text(v.log.history[i].content) is None,
        v.log.history[i].role == "tool"@ ==> scan::contains_text(v.log.history[i].content, "tool error:"@)
            || v.log.open(drawn_log(v).history[i].id, v.log.details),
    ensures
        ({
            let content = v.log.history[i].content;
            let shown = filters::filtered(v.log.filters[drawn_log(v).history[i].id], content);
            exists|p: int| #[trigger]
                filtered_at(
                    v.sheet().rows,
                    p,
                    shown,
                    (scan::lines(content).len() - shown.len()) as nat,
                )
        }),
{
    let t = drawn_log(v);
    let look = frames::look_of(v.settings);
    naming_keeps(v.log, v.log.history.len() as int);
    let m = t.history[i];
    block_is_drawn(t, look, v.todos, v.run.reasoning, v.run.reply, i);
    let rows = v.sheet().rows;
    let p = title_place(t, look, i) + 1;
    let section = render::blocks_sheet(t, look, i + 1).order.len();
    let body = render::block_body(t, m, look, section, (i + 1) as nat);
    let shown = filters::filtered(t.filters[m.id], m.content);
    let hidden = render::hidden_of(m, shown);
    let own = render::prefixed("  "@, shown, paint::plain());
    assert(body == own + render::trailer(hidden, (i + 1) as nat));
    let part = rows.subrange(p, p + body.len());
    assert forall|j: int| 0 <= j < shown.len() implies (#[trigger] rows[p + j]).0.len() == 1
        && rows[p + j].0[0].text == "  "@ + shown[j] by {
        assert(part[j] == rows[p + j]);
        assert(render::untitled(body)[j].0 == own[j]);
    }
    assert(part[shown.len() as int] == rows[p + shown.len()]);
    assert(render::untitled(body)[shown.len() as int].0 == render::trailer(hidden, (i + 1) as nat)[0]);
    let line = rows[p + shown.len()].0[0].text;
    let note = scan::decimal(hidden) + " line(s) hidden"@;
    let head = "  ⋯ "@;
    reveal_strlit(" line(s) hidden");
    reveal_strlit(" line(s) hidden · /filter ");
    assert(line.subrange(head.len() as int, (head.len() + note.len()) as int) =~= note);
    assert(scan::occurs_at(line, note, head.len() as int));
    assert(filtered_at(rows, p, shown, hidden));
}

} // verus!
