//! The lines of a transcript as they are drawn.

use crate::caret;
use crate::composer;
use crate::filters::FilteredLines;
use crate::filters;
use crate::model::{Message, MessageView};
use crate::model;
use crate::paint::{Color, Line, SpanView, Style, ThemePalette};
use crate::paint;
use crate::replies;
use crate::scan;
use crate::text;
use crate::transcript::{Transcript, TranscriptView};
use crate::transcript;
use vstd::prelude::*;
use vstd::string::*;

verus! {

/// How far a task is.
#[derive(Debug, Clone, Copy, PartialEq, Eq, Structural)]
pub enum TodoStatus {
    Pending,
    InProgress,
    Completed,
}

/// One entry of the task list.
#[derive(Debug, Clone, PartialEq, Eq)]
pub struct TodoItem {
    pub content: String,
    pub status: TodoStatus,
}

/// The tasks of a list: what they say and how far they are.
pub open spec fn todos_view(list: Seq<TodoItem>) -> Seq<(Seq<char>, TodoStatus)> {
    list.map_values(|t: TodoItem| (t.content@, t.status))
}

/// How many of the first `n` tasks are done.
pub open spec fn done_in(list: Seq<(Seq<char>, TodoStatus)>, n: int) -> nat
    decreases n,
{
    if n <= 0 {
        0
    } else if list[n - 1].1 == TodoStatus::Completed {
        done_in(list, n - 1) + 1
    } else {
        done_in(list, n - 1)
    }
}

/// How many tasks are done.
pub fn todos_done(list: &Vec<TodoItem>) -> (r: usize)
    ensures
        r == done_in(todos_view(list@), list@.len() as int),
        r <= list@.len(),
{
    let mut done: usize = 0;
    for i in 0..list.len()
        invariant
            done == done_in(todos_view(list@), i as int),
            done <= i,
    {
        assert(todos_view(list@)[i as int].1 == list@[i as int].status);
        if list[i].status == TodoStatus::Completed {
            done = done + 1;
        }
    }
    done
}

/// The mark of a task.
pub open spec fn todo_mark(status: TodoStatus) -> Seq<char> {
    match status {
        TodoStatus::Completed => "✓"@,
        TodoStatus::InProgress => "▶"@,
        TodoStatus::Pending => "·"@,
    }
}

/// What the drawing of a transcript depends on besides the transcript.
pub struct Look {
    pub palette: ThemePalette,
    pub thinking: bool,
    pub thinking_open: bool,
}

/// A drawn line. `header` is the id of the section whose title it is.
#[derive(Debug, Clone, PartialEq, Eq)]
pub struct DrawnLine {
    pub line: Line,
    pub header: Option<String>,
}

/// What drawn lines hold.
pub open spec fn drawn(list: Seq<DrawnLine>) -> Seq<(Seq<SpanView>, Option<Seq<char>>)> {
    list.map_values(|d: DrawnLine| (d.line@, composer::opt_text(d.header)))
}

/// Lines that are no titles.
pub open spec fn untitled(list: Seq<Seq<SpanView>>) -> Seq<(Seq<SpanView>, Option<Seq<char>>)> {
    list.map_values(|l: Seq<SpanView>| (l, None::<Seq<char>>))
}

/// The drawn lines and the sections among them, in order, with whether each is open by
/// default.
#[verifier::ext_equal]
pub struct Sheet {
    pub rows: Seq<(Seq<SpanView>, Option<Seq<char>>)>,
    pub order: Seq<(Seq<char>, bool)>,
}

fn put(out: &mut Vec<DrawnLine>, line: Line, header: Option<String>)
    ensures
        drawn(final(out)@) == drawn(old(out)@).push((line@, composer::opt_text(header))),
        final(out)@.len() == old(out)@.len() + 1,
{
    out.push(DrawnLine { line, header });
    assert(drawn(out@) =~= drawn(old(out)@).push((line@, composer::opt_text(header))));
}

fn put_line(out: &mut Vec<DrawnLine>, text: String, style: Style)
    ensures
        drawn(final(out)@) == drawn(old(out)@) + untitled(seq![paint::line_of(text@, style)]),
{
    put(out, Line::one(text, style), None);
    assert(drawn(out@) =~= drawn(old(out)@) + untitled(seq![paint::line_of(text@, style)]));
}

fn put_blank(out: &mut Vec<DrawnLine>)
    ensures
        drawn(final(out)@) == drawn(old(out)@) + untitled(seq![Seq::<SpanView>::empty()]),
{
    let line = Line { spans: Vec::new() };
    assert(line@ =~= Seq::<SpanView>::empty());
    put(out, line, None);
    assert(drawn(out@) =~= drawn(old(out)@) + untitled(seq![Seq::<SpanView>::empty()]));
}

/// Lines with a prefix, in one style.
pub open spec fn prefixed(
    prefix: Seq<char>,
    list: Seq<Seq<char>>,
    style: Style,
) -> Seq<Seq<SpanView>> {
    list.map_values(|line: Seq<char>| paint::line_of(prefix + line, style))
}

fn put_prefixed(out: &mut Vec<DrawnLine>, prefix: &str, list: &Vec<String>, style: Style)
    ensures
        drawn(final(out)@) == drawn(old(out)@) + untitled(
            prefixed(prefix@, text::texts(list@), style),
        ),
{
    let ghost all = prefixed(prefix@, text::texts(list@), style);
    assert(drawn(out@) =~= drawn(old(out)@) + untitled(all.take(0)));
    for i in 0..list.len()
        invariant
            all == prefixed(prefix@, text::texts(list@), style),
            drawn(out@) == drawn(old(out)@) + untitled(all.take(i as int)),
    {
        put_line(out, text::cat2(prefix, list[i].as_str()), style);
        assert(all[i as int] == paint::line_of(prefix@ + list@[i as int]@, style));
        assert(drawn(out@) =~= drawn(old(out)@) + untitled(all.take(i + 1)));
    }
    assert(all.take(all.len() as int) =~= all);
}

proof fn untitled_add(a: Seq<Seq<SpanView>>, b: Seq<Seq<SpanView>>)
    ensures
        untitled(a) + untitled(b) == untitled(a + b),
{
    assert(untitled(a) + untitled(b) =~= untitled(a + b));
}

// ---------------------------------------------------------------------------
// Names of tools
// ---------------------------------------------------------------------------

/// The most characters from `k` on that fit `max` bytes.
pub open spec fn fit_bytes(s: Seq<char>, max: int, k: int) -> int
    decreases s.len() - k,
{
    if 0 <= k < s.len() && caret::offset(s, k + 1) <= max {
        fit_bytes(s, max, k + 1)
    } else {
        k
    }
}

/// A text cut to at most `max` bytes, with an ellipsis where something was cut.
pub open spec fn clipped(s: Seq<char>, max: int) -> Seq<char> {
    if caret::byte_len(s) <= max {
        s
    } else {
        s.take(fit_bytes(s, max, 0)).push('…')
    }
}

/// The first three names, how many more there are, and no more than eighty bytes.
pub open spec fn names_text(names: Seq<Seq<char>>) -> Seq<char> {
    if names.len() == 0 {
        "none"@
    } else if names.len() <= 3 {
        clipped(scan::join(names, ", "@), 80)
    } else {
        clipped(
            scan::join(names.take(3), ", "@) + ", +"@ + scan::decimal((names.len() - 3) as nat) + " more"@,
            80,
        )
    }
}

fn clip_text(s: &str, max: usize) -> (r: String)
    ensures
        r@ == clipped(s@, max as int),
{
    let len: usize = caret::text_len(s);
    if len <= max {
        return text::copy_text(s);
    }
    let c = text::to_chars(s);
    let mut at: usize = 0;
    let mut k: usize = 0;
    while k < c.len() && caret::char_len(c[k]) <= max - at
        invariant
            c@ == s@,
            k <= c@.len(),
            at == caret::offset(s@, k as int),
            at <= max,
            fit_bytes(s@, max as int, 0) == fit_bytes(s@, max as int, k as int),
        decreases c.len() - k,
    {
        at = at + caret::char_len(c[k]);
        k = k + 1;
    }
    let mut r = text::slice_text(&c, 0, k);
    assert(r@ =~= s@.take(k as int));
    r.push('…');
    r
}

/// A short list of tool names.
pub fn tool_names(names: &Vec<String>) -> (r: String)
    ensures
        r@ == names_text(text::texts(names@)),
{
    if names.len() == 0 {
        return text::copy_text("none");
    }
    if names.len() <= 3 {
        let all = scan::join_texts(names, ", ");
        return clip_text(all.as_str(), 80);
    }
    let mut first: Vec<String> = Vec::new();
    for i in 0..3usize
        invariant
            names@.len() > 3,
            first@.len() == i,
            forall|j: int| 0 <= j < i ==> (#[trigger] first@[j])@ == names@[j]@,
    {
        first.push(text::copy_text(names[i].as_str()));
    }
    assert(text::texts(first@) =~= text::texts(names@).take(3));
    let head = scan::join_texts(&first, ", ");
    let more = scan::decimal_text((names.len() - 3) as u64);
    let all = text::cat4(head.as_str(), ", +", more.as_str(), " more");
    clip_text(all.as_str(), 80)
}

// ---------------------------------------------------------------------------
// Parts of a block
// ---------------------------------------------------------------------------

/// The lines of a reasoning trace: in full, as a summary, or none where traces are
/// hidden.
pub open spec fn thinking_lines(body: Seq<char>, show: bool, open: bool) -> Seq<Seq<SpanView>> {
    let dim = paint::colored(Color::DarkGray);
    let list = scan::lines(body);
    if !show {
        Seq::empty()
    } else if open {
        if list.len() == 0 {
            seq![paint::line_of("  ┊ thinking (empty)"@, dim)]
        } else {
            seq![paint::line_of("  ┊ thinking"@, dim)] + prefixed("  ┊ "@, list, dim)
        }
    } else {
        seq![
            paint::line_of(
                "  ◌ thought · "@ + scan::decimal(list.len()) + " line"@ + (if list.len() == 1 {
                    ""@
                } else {
                    "s"@
                }) + " · click or /expand to inspect"@,
                dim,
            ),
        ]
    }
}

/// Appends the lines of a reasoning trace.
pub fn push_thinking_lines(out: &mut Vec<DrawnLine>, body: &str, show: bool, expanded: bool)
    ensures
        drawn(final(out)@) == drawn(old(out)@) + untitled(thinking_lines(body@, show, expanded)),
{
    let dim = Style::of(Color::DarkGray);
    if !show {
        assert(drawn(out@) =~= drawn(old(out)@) + untitled(thinking_lines(body@, show, expanded)));
        return;
    }
    let list = scan::text_lines(body);
    assert(text::texts(list@).len() == list@.len());
    if expanded {
        if list.len() == 0 {
            put_line(out, text::copy_text("  ┊ thinking (empty)"), dim);
        } else {
            put_line(out, text::copy_text("  ┊ thinking"), dim);
            put_prefixed(out, "  ┊ ", &list, dim);
            proof {
                untitled_add(
                    seq![paint::line_of("  ┊ thinking"@, paint::colored(Color::DarkGray))],
                    prefixed("  ┊ "@, text::texts(list@), paint::colored(Color::DarkGray)),
                );
            }
            assert(drawn(out@) =~= drawn(old(out)@) + untitled(
                thinking_lines(body@, show, expanded),
            ));
        }
    } else {
        let n = scan::decimal_text(list.len() as u64);
        put_line(
            out,
            text::cat5(
                "  ◌ thought · ",
                n.as_str(),
                " line",
                if list.len() == 1 {
                    ""
                } else {
                    "s"
                },
                " · click or /expand to inspect",
            ),
            dim,
        );
    }
}

/// The line under a filtered block: how many lines are hidden and how to show them.
pub open spec fn trailer(hidden: nat, block: nat) -> Seq<Seq<SpanView>> {
    seq![
        paint::line_of(
            "  ⋯ "@ + scan::decimal(hidden) + " line(s) hidden · /filter "@ + scan::decimal(block)
                + " --clear"@,
            paint::colored(Color::DarkGray),
        ),
    ]
}

fn push_filter_trailer(out: &mut Vec<DrawnLine>, hidden: usize, block: usize)
    ensures
        drawn(final(out)@) == drawn(old(out)@) + untitled(trailer(hidden as nat, block as nat)),
{
    let h = scan::decimal_text(hidden as u64);
    let b = scan::decimal_text(block as u64);
    put_line(
        out,
        text::cat5("  ⋯ ", h.as_str(), " line(s) hidden · /filter ", b.as_str(), " --clear"),
        Style::of(Color::DarkGray),
    );
}

/// The lines that a filter shows of a message, where it has one.
pub open spec fn shown_of(v: TranscriptView, m: MessageView) -> Option<Seq<Seq<char>>> {
    if v.filters.contains_key(m.id) {
        Some(filters::filtered(v.filters[m.id], m.content))
    } else {
        None
    }
}

/// How many lines of a message are not among the shown ones.
pub open spec fn hidden_of(m: MessageView, shown: Seq<Seq<char>>) -> nat {
    (scan::lines(m.content).len() - shown.len()) as nat
}

/// The body of a block: what its filter shows and a trailer, or all of it.
pub open spec fn body_lines(v: TranscriptView, m: MessageView, block: nat) -> Seq<Seq<SpanView>> {
    match shown_of(v, m) {
        Some(shown) => prefixed("  "@, shown, paint::plain()) + trailer(hidden_of(m, shown), block),
        None => prefixed("  "@, scan::lines(m.content), paint::plain()),
    }
}

fn push_block_body(
    out: &mut Vec<DrawnLine>,
    t: &Transcript,
    m: &Message,
    shown: &Option<FilteredLines>,
    block: usize,
)
    requires
        match shown {
            Some(f) => shown_of(t@, m@) == Some(text::texts(f.shown@)) && f.hidden == hidden_of(
                m@,
                text::texts(f.shown@),
            ),
            None => shown_of(t@, m@) is None,
        },
    ensures
        drawn(final(out)@) == drawn(old(out)@) + untitled(body_lines(t@, m@, block as nat)),
{
    match shown {
        Some(f) => {
            put_prefixed(out, "  ", &f.shown, Style::raw());
            push_filter_trailer(out, f.hidden, block);
            proof {
                untitled_add(
                    prefixed("  "@, text::texts(f.shown@), paint::plain()),
                    trailer(f.hidden as nat, block as nat),
                );
            }
            assert(drawn(out@) =~= drawn(old(out)@) + untitled(body_lines(t@, m@, block as nat)));
        },
        None => {
            let list = scan::text_lines(m.content.as_str());
            put_prefixed(out, "  ", &list, Style::raw());
        },
    }
}

/// The reasoning trace of a message: its own field, or content that is nothing else.
pub open spec fn trace_of(m: MessageView) -> Option<Seq<char>> {
    if m.role == "assistant"@ {
        if m.reasoning.len() > 0 {
            Some(m.reasoning)
        } else {
            replies::thinking_text(m.content)
        }
    } else {
        None
    }
}

/// Whether a message is a section: tool output, or a trace where traces are shown.
pub open spec fn is_section(m: MessageView, look: Look) -> bool {
    m.role == "tool"@ || (trace_of(m) is Some && look.thinking)
}

/// Whether a message is the failed result of a tool.
pub open spec fn is_failed(m: MessageView) -> bool {
    m.role == "tool"@ && scan::contains_text(m.content, "tool error:"@)
}

/// The colour of a role.
pub open spec fn role_color(role: Seq<char>, palette: ThemePalette) -> Color {
    if role == "user"@ {
        palette.user
    } else if role == "assistant"@ {
        palette.assistant
    } else if role == "tool"@ {
        palette.tool
    } else {
        Color::Magenta
    }
}

/// The title of a block: its role, the number of its section or of the block, and a
/// mark for the outcome of a tool.
pub open spec fn title_text(m: MessageView, look: Look, section: nat, block: nat) -> Seq<char> {
    "─ "@ + text::upper(m.role) + (if is_section(m, look) {
        " ["@ + scan::decimal(section) + "]"@
    } else {
        " #"@ + scan::decimal(block)
    }) + (if is_failed(m) {
        " ✗"@
    } else if m.role == "tool"@ {
        " ✓"@
    } else {
        ""@
    }) + " ─"@
}

/// The line of a closed tool result: the beginning of its first line.
pub open spec fn closed_line(v: TranscriptView, m: MessageView, section: nat) -> Seq<char> {
    let first = match shown_of(v, m) {
        Some(shown) if shown.len() > 0 => shown[0],
        _ => scan::first_line(m.content),
    };
    "  ▸["@ + scan::decimal(section) + "] "@ + scan::first_chars(first, 96) + "…"@
}

/// The lines under the title of a block.
pub open spec fn block_body(
    v: TranscriptView,
    m: MessageView,
    look: Look,
    section: nat,
    block: nat,
) -> Seq<Seq<SpanView>> {
    match trace_of(m) {
        Some(trace) => {
            let wrapped = m.reasoning.len() == 0;
            let open = if look.thinking {
                v.open(m.id, look.thinking_open)
            } else {
                look.thinking_open
            };
            let text = match shown_of(v, m) {
                Some(shown) if wrapped => scan::join(shown, "\n"@),
                _ => trace,
            };
            thinking_lines(text, look.thinking, open) + (match shown_of(v, m) {
                Some(shown) if wrapped => trailer(hidden_of(m, shown), block),
                _ => Seq::empty(),
            }) + (if !wrapped && m.content.len() > 0 {
                body_lines(v, m, block)
            } else {
                Seq::empty()
            })
        },
        None => if m.role == "tool"@ && !(is_failed(m) || v.open(m.id, v.details)) {
            seq![paint::line_of(closed_line(v, m, section), paint::colored(Color::DarkGray))]
        } else {
            body_lines(v, m, block)
        },
    }
}

/// The line that names the tools a message calls, where it calls any.
pub open spec fn call_lines(m: MessageView) -> Seq<Seq<SpanView>> {
    if m.calls.len() == 0 {
        Seq::empty()
    } else {
        seq![
            paint::line_of(
                "  ↳ "@ + (if m.calls.len() == 1 {
                    "1 call"@
                } else {
                    scan::decimal(m.calls.len()) + " calls"@
                }) + ": "@ + names_text(model::call_names(m.calls)),
                paint::colored(Color::Yellow),
            ),
        ]
    }
}

/// The sheet with message `i` drawn after what is there.
pub open spec fn with_block(sheet: Sheet, v: TranscriptView, look: Look, i: int) -> Sheet {
    let m = v.history[i];
    let section = is_section(m, look);
    let order = if section {
        sheet.order.push(
            (m.id, if m.role == "tool"@ {
                v.details
            } else {
                look.thinking_open
            }),
        )
    } else {
        sheet.order
    };
    let block = (i + 1) as nat;
    Sheet {
        order: order,
        rows: sheet.rows + (if sheet.rows.len() > 0 {
            untitled(seq![Seq::<SpanView>::empty()])
        } else {
            Seq::empty()
        }) + seq![
            (
                paint::line_of(
                    title_text(m, look, order.len(), block),
                    paint::strong(role_color(m.role, look.palette)),
                ),
                if section {
                    Some(m.id)
                } else {
                    None
                },
            ),
        ] + untitled(block_body(v, m, look, order.len(), block)) + untitled(call_lines(m))
            + untitled(seq![Seq::<SpanView>::empty()]),
    }
}

/// The sheet of the first `n` messages.
pub open spec fn blocks_sheet(v: TranscriptView, look: Look, n: int) -> Sheet
    decreases n,
{
    if n <= 0 {
        Sheet { rows: Seq::empty(), order: Seq::empty() }
    } else {
        with_block(blocks_sheet(v, look, n - 1), v, look, n - 1)
    }
}

/// The rows of the tasks, in order.
pub open spec fn todo_lines(todos: Seq<(Seq<char>, TodoStatus)>) -> Seq<Seq<SpanView>> {
    todos.map_values(
        |t: (Seq<char>, TodoStatus)| paint::line_of("  "@ + todo_mark(t.1) + " "@ + t.0, paint::plain()),
    )
}

/// The sheet with the task list, where there is one.
pub open spec fn with_todos(
    sheet: Sheet,
    v: TranscriptView,
    look: Look,
    todos: Seq<(Seq<char>, TodoStatus)>,
) -> Sheet {
    if todos.len() == 0 {
        sheet
    } else {
        let order = sheet.order.push(("todos"@, true));
        let done = scan::decimal(done_in(todos, todos.len() as int)) + "/"@ + scan::decimal(todos.len());
        let number = scan::decimal(order.len());
        Sheet {
            order: order,
            rows: sheet.rows.push(
                (
                    paint::line_of("─ TASKS ["@ + number + "] "@ + done + " ─"@, paint::strong(look.palette.tool)),
                    Some("todos"@),
                ),
            ) + untitled(
                if v.open("todos"@, true) {
                    todo_lines(todos)
                } else {
                    seq![
                        paint::line_of("  ▸["@ + number + "] "@ + done + " done…"@, paint::colored(Color::DarkGray)),
                    ]
                },
            ) + untitled(seq![Seq::<SpanView>::empty()]),
        }
    }
}

/// The lines of a reply that is still coming in.
pub open spec fn stream_lines(look: Look, reasoning: Seq<char>, reply: Seq<char>) -> Seq<
    Seq<SpanView>,
> {
    (if reasoning.len() > 0 && look.thinking {
        let list = scan::lines(reasoning);
        seq![paint::line_of("─ THINKING … ─"@, paint::strong(Color::DarkGray))] + prefixed(
            "  "@,
            if list.len() <= 3 {
                list
            } else {
                list.take(3)
            },
            paint::colored(Color::DarkGray),
        )
    } else {
        Seq::empty()
    }) + (if reply.len() > 0 {
        seq![paint::line_of("─ ASSISTANT … ─"@, paint::strong(Color::Green))] + prefixed(
            "  "@,
            scan::lines(reply),
            paint::plain(),
        )
    } else {
        Seq::empty()
    })
}

/// Everything that is drawn of a transcript.
pub open spec fn full_sheet(
    v: TranscriptView,
    look: Look,
    todos: Seq<(Seq<char>, TodoStatus)>,
    reasoning: Seq<char>,
    reply: Seq<char>,
) -> Sheet {
    let sheet = with_todos(blocks_sheet(v, look, v.history.len() as int), v, look, todos);
    Sheet { rows: sheet.rows + untitled(stream_lines(look, reasoning, reply)), ..sheet }
}

impl TranscriptView {
    /// Every message given an id, the first `n` of them.
    pub open spec fn all_named(self, n: int) -> TranscriptView
        decreases n,
    {
        if n <= 0 {
            self
        } else {
            self.all_named(n - 1).named(n - 1)
        }
    }

    /// The scroll position once `total` lines are drawn in `height` rows: at the end
    /// while the end is followed, else where it was; reaching the end follows it again.
    pub open spec fn scrolled(self, total: int, height: int) -> TranscriptView {
        let max = if total > height {
            total - height
        } else {
            0
        };
        let at = if self.follow || self.scroll >= max {
            max
        } else {
            self.scroll
        };
        TranscriptView { scroll: at, follow: self.follow || at >= max, ..self }
    }
}

impl Transcript {
    fn name_all(&mut self)
        requires
            old(self).wf(),
        ensures
            final(self).wf(),
            final(self)@ == old(self)@.all_named(old(self)@.history.len() as int),
            final(self).history@.len() == old(self).history@.len(),
    {
        let n: usize = self.history.len();
        for i in 0..n
            invariant
                self.wf(),
                n == self.history@.len(),
                self@ == old(self)@.all_named(i as int),
        {
            let id = self.section_id(i);
        }
    }

    /// Scrolls to where the drawing of `total` lines in `height` rows has to be.
    pub fn settle_scroll(&mut self, total: usize, height: u16)
        ensures
            final(self)@ == old(self)@.scrolled(total as int, height as int),
            old(self).wf() ==> final(self).wf(),
    {
        let max: usize = if total > height as usize {
            total - height as usize
        } else {
            0
        };
        if self.follow_transcript || self.transcript_scroll >= max {
            self.transcript_scroll = max;
            self.follow_transcript = true;
        }
    }

    fn draw_title(
        &self,
        out: &mut Vec<DrawnLine>,
        order: &mut Vec<(String, bool)>,
        look: &Look,
        i: usize,
        has_trace: bool,
    )
        requires
            i < self.history@.len(),
            has_trace == (trace_of(self@.history[i as int]) is Some),
        ensures
            transcript::sections_view(final(order)@) == with_block(
                Sheet { rows: drawn(old(out)@), order: transcript::sections_view(old(order)@) },
                self@,
                *look,
                i as int,
            ).order,
            drawn(final(out)@) == drawn(old(out)@) + (if drawn(old(out)@).len() > 0 {
                untitled(seq![Seq::<SpanView>::empty()])
            } else {
                Seq::empty()
            }) + seq![
                (
                    paint::line_of(
                        title_text(
                            self@.history[i as int],
                            *look,
                            transcript::sections_view(final(order)@).len(),
                            (i + 1) as nat,
                        ),
                        paint::strong(role_color(self@.history[i as int].role, look.palette)),
                    ),
                    if is_section(self@.history[i as int], *look) {
                        Some(self@.history[i as int].id)
                    } else {
                        None
                    },
                ),
            ],
    {
        let m = &self.history[i];
        assert(i < self.history.len());
        assert(self@.history[i as int] == m@);
        if out.len() > 0 {
            put_blank(out);
        }
        let ghost led = drawn(out@);
        assert(led =~= drawn(old(out)@) + (if drawn(old(out)@).len() > 0 {
            untitled(seq![Seq::<SpanView>::empty()])
        } else {
            Seq::empty()
        }));
        let is_tool = m.has_role("tool");
        let failed = is_tool && scan::text_contains(m.content.as_str(), "tool error:");
        let section = is_tool || (has_trace && look.thinking);
        let mut header: Option<String> = None;
        let gutter = if section {
            let default = if is_tool {
                self.show_details
            } else {
                look.thinking_open
            };
            order.push((text::copy_text(m.id.as_str()), default));
            header = Some(text::copy_text(m.id.as_str()));
            let n = scan::decimal_text(order.len() as u64);
            text::cat3(" [", n.as_str(), "]")
        } else {
            let n = scan::decimal_text((i + 1) as u64);
            text::cat2(" #", n.as_str())
        };
        assert(transcript::sections_view(order@) =~= with_block(
            Sheet { rows: drawn(old(out)@), order: transcript::sections_view(old(order)@) },
            self@,
            *look,
            i as int,
        ).order);
        let color = if m.has_role("user") {
            look.palette.user
        } else if m.has_role("assistant") {
            look.palette.assistant
        } else if is_tool {
            look.palette.tool
        } else {
            Color::Magenta
        };
        let label = text::upper_text(m.role.as_str());
        let mark = if failed {
            " ✗"
        } else if is_tool {
            " ✓"
        } else {
            ""
        };
        let title = text::cat5("─ ", label.as_str(), gutter.as_str(), mark, " ─");
        put(out, Line::one(title, Style::bold(color)), header);
        let ghost title_row = drawn(out@).last();
        assert(drawn(out@) =~= led + seq![title_row]);
    }

    #[verifier::spinoff_prover]
    fn draw_body(
        &self,
        out: &mut Vec<DrawnLine>,
        look: &Look,
        i: usize,
        section: usize,
        trace: Option<String>,
    )
        requires
            i < self.history@.len(),
            composer::opt_text(trace) == trace_of(self@.history[i as int]),
        ensures
            drawn(final(out)@) == drawn(old(out)@) + untitled(
                block_body(
                    self@,
                    self@.history[i as int],
                    *look,
                    section as nat,
                    (i + 1) as nat,
                ),
            ),
    {
        let m = &self.history[i];
        assert(i < self.history.len());
        let ghost v = self@;
        assert(v.history[i as int] == m@);
        let block: usize = i + 1;
        let ghost mid = drawn(out@);
        let ghost want = block_body(v, m@, *look, section as nat, block as nat);
        let shown: Option<FilteredLines> = match self.block_filters.get(m.id.as_str()) {
            Some(filter) => Some(filters::apply_block_filter(m.content.as_str(), filter)),
            None => None,
        };
        assert(match shown {
            Some(f) => shown_of(v, m@) == Some(text::texts(f.shown@)) && f.hidden == hidden_of(
                m@,
                text::texts(f.shown@),
            ),
            None => shown_of(v, m@) is None,
        });
        match trace {
            Some(body) => {
                let bare = m.reasoning_content.as_str().is_empty();
                let open = if look.thinking {
                    self.section_expanded(m.id.as_str(), look.thinking_open)
                } else {
                    look.thinking_open
                };
                let text = match &shown {
                    Some(f) => if bare {
                        scan::join_texts(&f.shown, "\n")
                    } else {
                        text::copy_text(body.as_str())
                    },
                    None => text::copy_text(body.as_str()),
                };
                push_thinking_lines(out, text.as_str(), look.thinking, open);
                let ghost one = thinking_lines(text@, look.thinking, open);
                let ghost mut two = Seq::<Seq<SpanView>>::empty();
                let ghost mut three = Seq::<Seq<SpanView>>::empty();
                if bare {
                    if let Some(f) = &shown {
                        push_filter_trailer(out, f.hidden, block);
                        proof {
                            two = trailer(f.hidden as nat, block as nat);
                        }
                    }
                }
                if !bare && !m.content.as_str().is_empty() {
                    push_block_body(out, self, m, &shown, block);
                    proof {
                        three = body_lines(v, m@, block as nat);
                    }
                }
                proof {
                    untitled_add(one, two);
                    untitled_add(one + two, three);
                    assert(one + two + three =~= want);
                    assert(drawn(out@) =~= mid + untitled(want));
                }
            },
            None => {
                let is_tool = m.has_role("tool");
                let failed = is_tool && scan::text_contains(m.content.as_str(), "tool error:");
                let closed = is_tool && !(failed || self.section_expanded(
                    m.id.as_str(),
                    self.show_details,
                ));
                if closed {
                    let n = scan::decimal_text(section as u64);
                    let first = match &shown {
                        Some(f) => if f.shown.len() > 0 {
                            assert(text::texts(f.shown@)[0] == f.shown@[0]@);
                            text::copy_text(f.shown[0].as_str())
                        } else {
                            scan::first_line_text(m.content.as_str())
                        },
                        None => scan::first_line_text(m.content.as_str()),
                    };
                    let cut = scan::take_chars(first.as_str(), 96);
                    put_line(
                        out,
                        text::cat5("  ▸[", n.as_str(), "] ", cut.as_str(), "…"),
                        Style::of(Color::DarkGray),
                    );
                } else {
                    push_block_body(out, self, m, &shown, block);
                }
            },
        }
    }

    fn draw_calls(&self, out: &mut Vec<DrawnLine>, m: &Message)
        ensures
            drawn(final(out)@) == drawn(old(out)@) + untitled(call_lines(m@)),
    {
        assert(model::calls(m.tool_calls@).len() == m.tool_calls@.len());
        if m.tool_calls.len() > 0 {
            let names = model::names_of_calls(&m.tool_calls);
            let list = tool_names(&names);
            let count = if m.tool_calls.len() == 1 {
                text::copy_text("1 call")
            } else {
                let n = scan::decimal_text(m.tool_calls.len() as u64);
                text::cat2(n.as_str(), " calls")
            };
            put_line(
                out,
                text::cat4("  ↳ ", count.as_str(), ": ", list.as_str()),
                Style::of(Color::Yellow),
            );
        }
        assert(drawn(out@) =~= drawn(old(out)@) + untitled(call_lines(m@)));
    }

    fn draw_block(
        &self,
        out: &mut Vec<DrawnLine>,
        order: &mut Vec<(String, bool)>,
        look: &Look,
        i: usize,
    )
        requires
            i < self.history@.len(),
        ensures
            (Sheet {
                rows: drawn(final(out)@),
                order: transcript::sections_view(final(order)@),
            }) == with_block(
                Sheet { rows: drawn(old(out)@), order: transcript::sections_view(old(order)@) },
                self@,
                *look,
                i as int,
            ),
    {
        let m = &self.history[i];
        assert(self@.history[i as int] == m@);
        let trace: Option<String> = if m.has_role("assistant") {
            if !m.reasoning_content.as_str().is_empty() {
                Some(text::copy_text(m.reasoning_content.as_str()))
            } else {
                replies::thinking_body(m.content.as_str())
            }
        } else {
            None
        };
        assert(composer::opt_text(trace) == trace_of(m@));
        self.draw_title(out, order, look, i, trace.is_some());
        assert(transcript::sections_view(order@).len() == order@.len());
        self.draw_body(out, look, i, order.len(), trace);
        self.draw_calls(out, m);
        put_blank(out);
    }

    fn draw_todos(
        &self,
        out: &mut Vec<DrawnLine>,
        order: &mut Vec<(String, bool)>,
        look: &Look,
        todos: &Vec<TodoItem>,
    )
        ensures
            (Sheet {
                rows: drawn(final(out)@),
                order: transcript::sections_view(final(order)@),
            }) == with_todos(
                Sheet { rows: drawn(old(out)@), order: transcript::sections_view(old(order)@) },
                self@,
                *look,
                todos_view(todos@),
            ),
    {
        if todos.len() == 0 {
            return;
        }
        let ghost all = todos_view(todos@);
        let ghost start = Sheet { rows: drawn(old(out)@), order: transcript::sections_view(old(order)@) };
        let ghost want = with_todos(start, self@, *look, all);
        order.push((text::copy_text("todos"), true));
        assert(transcript::sections_view(order@) =~= want.order);
        let number = scan::decimal_text(order.len() as u64);
        let done = scan::decimal_text(todos_done(todos) as u64);
        let count = scan::decimal_text(todos.len() as u64);
        let progress = text::cat3(done.as_str(), "/", count.as_str());
        put(
            out,
            Line::one(
                text::cat5("─ TASKS [", number.as_str(), "] ", progress.as_str(), " ─"),
                Style::bold(look.palette.tool),
            ),
            Some(text::copy_text("todos")),
        );
        let ghost mid = drawn(out@);
        if self.section_expanded("todos", true) {
            let ghost list = todo_lines(all);
            assert(mid =~= mid + untitled(list.take(0)));
            for i in 0..todos.len()
                invariant
                    all == todos_view(todos@),
                    list == todo_lines(all),
                    drawn(out@) == mid + untitled(list.take(i as int)),
            {
                let mark = match todos[i].status {
                    TodoStatus::Completed => "✓",
                    TodoStatus::InProgress => "▶",
                    TodoStatus::Pending => "·",
                };
                assert(all[i as int] == (todos@[i as int].content@, todos@[i as int].status));
                put_line(out, text::cat4("  ", mark, " ", todos[i].content.as_str()), Style::raw());
                assert(drawn(out@) =~= mid + untitled(list.take(i + 1)));
            }
            assert(list.take(list.len() as int) =~= list);
        } else {
            put_line(
                out,
                text::cat5("  ▸[", number.as_str(), "] ", progress.as_str(), " done…"),
                Style::of(Color::DarkGray),
            );
        }
        put_blank(out);
        assert(drawn(out@) =~= want.rows);
    }

    /// Draws the transcript in `height` rows: gives every message an id, remembers its
    /// sections, and settles the scroll position.
    #[verifier::spinoff_prover]
    pub fn draw_transcript(
        &mut self,
        look: &Look,
        todos: &Vec<TodoItem>,
        reasoning: &str,
        reply: &str,
        height: u16,
    ) -> (r: Vec<DrawnLine>)
        requires
            old(self).wf(),
        ensures
            final(self).wf(),
            ({
                let named = old(self)@.all_named(old(self)@.history.len() as int);
                let sheet = full_sheet(named, *look, todos_view(todos@), reasoning@, reply@);
                &&& drawn(r@) == sheet.rows
                &&& final(self)@ == (TranscriptView { order: sheet.order, ..named }).scrolled(
                    sheet.rows.len() as int,
                    height as int,
                )
            }),
    {
        self.name_all();
        let ghost named = self@;
        let mut out: Vec<DrawnLine> = Vec::new();
        let mut order: Vec<(String, bool)> = Vec::new();
        assert(drawn(out@) =~= Seq::empty());
        assert(transcript::sections_view(order@) =~= Seq::empty());
        for i in 0..self.history.len()
            invariant
                self@ == named,
                (Sheet { rows: drawn(out@), order: transcript::sections_view(order@) }) == blocks_sheet(
                    named,
                    *look,
                    i as int,
                ),
        {
            self.draw_block(&mut out, &mut order, look, i);
        }
        self.draw_todos(&mut out, &mut order, look, todos);
        let ghost mid = drawn(out@);
        if !reasoning.is_empty() && look.thinking {
            put_line(&mut out, text::copy_text("─ THINKING … ─"), Style::bold(Color::DarkGray));
            let mut list = scan::text_lines(reasoning);
            let ghost all = text::texts(list@);
            list.truncate(3);
            assert(text::texts(list@) =~= if all.len() <= 3 {
                all
            } else {
                all.take(3)
            });
            put_prefixed(&mut out, "  ", &list, Style::of(Color::DarkGray));
        }
        if !reply.is_empty() {
            put_line(&mut out, text::copy_text("─ ASSISTANT … ─"), Style::bold(Color::Green));
            let list = scan::text_lines(reply);
            put_prefixed(&mut out, "  ", &list, Style::raw());
        }
        assert(drawn(out@) =~= mid + untitled(stream_lines(*look, reasoning@, reply@)));
        self.section_order = order;
        self.settle_scroll(out.len(), height);
        out
    }
}

} // verus!
