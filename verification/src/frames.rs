//! What the parts of the screen say: the draft, the footer, the bar of tabs, the list beside
//! the panes, and what lies over them.

use crate::composer;
use crate::events;
use crate::menus;
use crate::numbers;
use crate::paint::{Color, Line, Span, SpanView, Style};
use crate::paint;
use crate::pane::{DrawnView, Pane, PaneView};
use crate::pane;
use crate::render::{DrawnLine, Look, Sheet};
use crate::render;
use crate::run::RunView;
use crate::scan;
use crate::settings::{Mode, SettingsView};
use crate::settings;
use crate::sidebar::{Sidebar, SidebarView};
use crate::syntax;
use crate::tabs::{BarView, TabBar};
use crate::tabs;
use crate::text;
use crate::transcript::TranscriptView;
use crate::transcript;
use vstd::prelude::*;
use vstd::string::*;

verus! {

// ---------------------------------------------------------------------------
// The draft
// ---------------------------------------------------------------------------

impl PaneView {
    /// What Enter or Esc would do, above the draft.
    pub open spec fn affordance(self, reads_as_shell: bool) -> Seq<char> {
        if self.composer.walk is Some {
            "History · Esc restores"@
        } else if self.run.busy {
            "Working · "@ + scan::decimal(self.run.queue.len()) + " queued · Esc stops"@
        } else if menus::shell_of(self.composer, reads_as_shell) is Some {
            "Shell · Enter runs"@
        } else {
            "Message"@
        }
    }

    /// The rule above the draft.
    pub open spec fn rule_line(self, reads_as_shell: bool, width: int) -> Seq<SpanView> {
        let label = self.affordance(reads_as_shell);
        let rule = width - (label.len() + 1);
        let n = if rule > 0 {
            rule
        } else {
            0
        };
        seq![SpanView { text: scan::repeat_char('─', n), style: paint::colored(Color::DarkGray) }] + (if n > 0 {
            seq![SpanView { text: " "@, style: paint::plain() }]
        } else {
            Seq::empty()
        }) + seq![
            SpanView {
                text: label,
                style: if menus::shell_of(self.composer, reads_as_shell) is Some {
                    paint::colored(Color::Yellow)
                } else {
                    paint::colored(Color::DarkGray)
                },
            },
        ]
    }

    /// The text of the draft with its cursor; the mark of a shell line stands out.
    pub open spec fn input_spans(self, reads_as_shell: bool) -> Seq<SpanView> {
        let c = self.composer;
        match menus::shell_of(c, reads_as_shell) {
            Some((n, line)) => if n > 0 && c.at >= n {
                seq![SpanView { text: c.text.take(n), style: paint::colored(Color::Yellow) }]
                    + syntax::draft_spans(c.text.skip(n), c.at - n, true)
            } else {
                syntax::draft_spans(c.text, c.at, true)
            },
            None => syntax::draft_spans(c.text, c.at, false),
        }
    }

    /// What is offered behind the draft.
    pub open spec fn offer_spans(self) -> Seq<SpanView> {
        match self.composer.offer {
            Some(offer) => if self.composer.at == self.composer.text.len() {
                seq![SpanView { text: offer, style: paint::colored(Color::DarkGray) }]
            } else {
                Seq::empty()
            },
            None => Seq::empty(),
        }
    }

    /// What an empty draft says can be typed.
    pub open spec fn hint_spans(self) -> Seq<SpanView> {
        if self.composer.text.len() == 0 && self.composer.offer is None {
            seq![
                SpanView {
                    text: if self.run.busy {
                        "Working — Enter queues · Esc stops"@
                    } else {
                        "Ask anything · shell runs · Tab completes · # describes · / commands"@
                    },
                    style: paint::colored(Color::DarkGray),
                },
            ]
        } else {
            Seq::empty()
        }
    }

    /// The line of the draft.
    pub open spec fn draft_line(self, reads_as_shell: bool) -> Seq<SpanView> {
        seq![SpanView { text: "> "@, style: paint::plain() }] + self.input_spans(reads_as_shell)
            + self.offer_spans() + self.hint_spans()
    }
}

fn push_span(out: &mut Vec<Span>, text: String, style: Style)
    ensures
        paint::spans(final(out)@) == paint::spans(old(out)@).push(SpanView { text: text@, style }),
{
    let ghost before = paint::spans(out@);
    out.push(Span { text, style });
    assert(paint::spans(out@) =~= before.push(SpanView { text: text@, style }));
}

fn append_spans(out: &mut Vec<Span>, more: Vec<Span>)
    ensures
        paint::spans(final(out)@) == paint::spans(old(out)@) + paint::spans(more@),
{
    let ghost before = out@;
    let ghost added = more@;
    let mut more = more;
    out.append(&mut more);
    assert(out@ =~= before + added);
    assert(paint::spans(out@) =~= paint::spans(before) + paint::spans(added));
}

impl Pane {
    fn affordance(&self, shell: bool, reads_as_shell: bool) -> (r: String)
        requires
            shell == (menus::shell_of(self@.composer, reads_as_shell) is Some),
        ensures
            r@ == self@.affordance(reads_as_shell),
    {
        if self.composer.hist_depth.is_some() {
            text::copy_text("History · Esc restores")
        } else if self.run.busy {
            assert(self.run@.queue.len() == self.run.queue@.len());
            let n = scan::decimal_text(self.run.queue.len() as u64);
            text::cat3("Working · ", n.as_str(), " queued · Esc stops")
        } else if shell {
            text::copy_text("Shell · Enter runs")
        } else {
            text::copy_text("Message")
        }
    }

    fn draw_rule(&self, shell: bool, reads_as_shell: bool, width: u16) -> (r: Line)
        requires
            shell == (menus::shell_of(self@.composer, reads_as_shell) is Some),
        ensures
            r@ == self@.rule_line(reads_as_shell, width as int),
    {
        let label = self.affordance(shell, reads_as_shell);
        let taken: usize = scan::count_chars(label.as_str());
        let width: usize = width as usize;
        let n: usize = if width > taken {
            width - taken - 1
        } else {
            0
        };
        let mut out: Vec<Span> = Vec::new();
        assert(paint::spans(out@) =~= Seq::empty());
        push_span(&mut out, scan::repeat_text('─', n), Style::of(Color::DarkGray));
        if n > 0 {
            push_span(&mut out, text::copy_text(" "), Style::raw());
        }
        let style = if shell {
            Style::of(Color::Yellow)
        } else {
            Style::of(Color::DarkGray)
        };
        push_span(&mut out, label, style);
        let r = Line { spans: out };
        assert(r@ =~= self@.rule_line(reads_as_shell, width as int));
        r
    }

    fn draw_input(&self, reads_as_shell: bool) -> (r: (Vec<Span>, bool))
        requires
            self.wf(),
        ensures
            paint::spans(r.0@) == self@.input_spans(reads_as_shell),
            r.1 == (menus::shell_of(self@.composer, reads_as_shell) is Some),
    {
        let shell = self.composer.shell_line(reads_as_shell);
        let (c, at) = self.composer.chars_at();
        match shell {
            Some((n, line)) => {
                if n > 0 && at >= n {
                    let mut out: Vec<Span> = Vec::new();
                    assert(paint::spans(out@) =~= Seq::empty());
                    let mark = text::slice_text(&c, 0, n);
                    assert(mark@ =~= c@.take(n as int));
                    push_span(&mut out, mark, Style::of(Color::Yellow));
                    let rest = text::to_chars(text::slice_text(&c, n, c.len()).as_str());
                    assert(rest@ =~= c@.skip(n as int));
                    let body = syntax::composer_spans(&rest, at - n, true);
                    append_spans(&mut out, body);
                    assert(paint::spans(out@) =~= self@.input_spans(reads_as_shell));
                    (out, true)
                } else {
                    (syntax::composer_spans(&c, at, true), true)
                }
            },
            None => (syntax::composer_spans(&c, at, false), false),
        }
    }

    /// The two parts of the draft: the rule above it, and its text.
    pub fn draw_composer(&self, reads_as_shell: bool, width: u16) -> (r: (Line, Line))
        requires
            self.wf(),
        ensures
            r.0@ == self@.rule_line(reads_as_shell, width as int),
            r.1@ == self@.draft_line(reads_as_shell),
    {
        let (body, shell) = self.draw_input(reads_as_shell);
        let rule = self.draw_rule(shell, reads_as_shell, width);
        let mut out: Vec<Span> = Vec::new();
        assert(paint::spans(out@) =~= Seq::empty());
        push_span(&mut out, text::copy_text("> "), Style::raw());
        append_spans(&mut out, body);
        if let Some(offer) = &self.composer.ghost_text {
            if self.composer.at_end() {
                push_span(&mut out, text::copy_text(offer.as_str()), Style::of(Color::DarkGray));
            }
        }
        if self.composer.input.as_str().is_empty() && self.composer.ghost_text.is_none() {
            let hint = if self.run.busy {
                text::copy_text("Working — Enter queues · Esc stops")
            } else {
                text::copy_text("Ask anything · shell runs · Tab completes · # describes · / commands")
            };
            push_span(&mut out, hint, Style::of(Color::DarkGray));
        }
        let line = Line { spans: out };
        assert(line@ =~= self@.draft_line(reads_as_shell));
        (rule, line)
    }
}

// ---------------------------------------------------------------------------
// The footer
// ---------------------------------------------------------------------------

/// What the footer shows besides the pane: how far the context of the model is used, in
/// tenths, in words and whether that is a lot, the branch, and what holds tools apart.
#[derive(Debug, Clone, PartialEq, Eq)]
pub struct FooterFacts {
    pub tenths: usize,
    pub percent: String,
    pub high: bool,
    pub used: u64,
    pub total: u64,
    pub branch: Option<String>,
    pub sandbox: String,
}

/// A bar of ten cells.
pub open spec fn gauge(n: int) -> Seq<char> {
    scan::repeat_char('█', paint::least(n, 10)) + scan::repeat_char('░', 10 - paint::least(n, 10))
}

/// The tokens that a session used.
pub open spec fn token_note(r: RunView) -> Seq<char> {
    if r.tokens_in == 0 && r.tokens_out == 0 {
        "tokens –"@
    } else {
        "↑"@ + numbers::compacted_number(r.tokens_in as u64) + " ↓"@ + numbers::compacted_number(r.tokens_out as u64)
            + (if r.tokens_cached > 0 {
            " ⛁"@ + numbers::compacted_number(r.tokens_cached as u64)
        } else {
            ""@
        })
    }
}

impl PaneView {
    /// How many of the tasks are done.
    pub open spec fn task_note(self) -> Seq<char> {
        if self.todos.len() == 0 {
            ""@
        } else {
            "  tasks "@ + scan::decimal(render::done_in(self.todos, self.todos.len() as int)) + "/"@ + scan::decimal(
                self.todos.len(),
            )
        }
    }

    /// The upper line of the footer.
    pub open spec fn footer_first(self, branch: Option<Seq<char>>) -> Seq<SpanView> {
        seq![
            SpanView {
                text: " "@ + self.log.status + " "@,
                style: paint::colored(events::tone_color(self.log.tone)),
            },
            SpanView { text: "  "@, style: paint::plain() },
            SpanView { text: token_note(self.run), style: paint::colored(Color::DarkGray) },
            SpanView {
                text: match branch {
                    Some(name) => " ⎇"@ + name,
                    None => ""@,
                },
                style: paint::colored(Color::DarkGray),
            },
            SpanView { text: self.task_note(), style: paint::colored(Color::DarkGray) },
            SpanView {
                text: if self.log.follow {
                    ""@
                } else {
                    " · End for latest"@
                },
                style: paint::colored(Color::Yellow),
            },
        ]
    }

    /// The lower line of the footer.
    pub open spec fn footer_second(self, f: FooterFacts) -> Seq<SpanView> {
        seq![
            SpanView { text: " "@ + self.workspace, style: paint::colored(Color::DarkGray) },
            SpanView { text: " · "@ + f.sandbox@ + "  "@, style: paint::colored(Color::DarkGray) },
            SpanView {
                text: "context "@ + gauge(f.tenths as int) + " "@ + f.percent@ + "% "@ + scan::decimal(
                    f.used as nat,
                ) + "/"@ + scan::decimal(f.total as nat),
                style: paint::colored(
                    if f.high {
                        Color::Red
                    } else {
                        Color::DarkGray
                    },
                ),
            },
            SpanView { text: "  "@, style: paint::plain() },
            SpanView {
                text: "Ctrl+P palette · Ctrl+R history · Ctrl+B sessions · Ctrl+Shift+T tab"@,
                style: paint::colored(Color::DarkGray),
            },
        ]
    }
}

fn draw_gauge(n: usize) -> (r: String)
    ensures
        r@ == gauge(n as int),
{
    let full: usize = if n <= 10 {
        n
    } else {
        10
    };
    let a = scan::repeat_text('█', full);
    let b = scan::repeat_text('░', 10 - full);
    text::cat2(a.as_str(), b.as_str())
}

impl Pane {
    fn note_tokens(&self) -> (r: String)
        ensures
            r@ == token_note(self@.run),
    {
        if self.run.session_in == 0 && self.run.session_out == 0 {
            return text::copy_text("tokens –");
        }
        let a = numbers::compact_number(self.run.session_in);
        let b = numbers::compact_number(self.run.session_out);
        let cached = if self.run.session_cached > 0 {
            let c = numbers::compact_number(self.run.session_cached);
            text::cat2(" ⛁", c.as_str())
        } else {
            text::copy_text("")
        };
        text::cat5("↑", a.as_str(), " ↓", b.as_str(), cached.as_str())
    }

    fn note_tasks(&self) -> (r: String)
        ensures
            r@ == self@.task_note(),
    {
        assert(self@.todos.len() == self.todos@.len());
        if self.todos.len() == 0 {
            text::copy_text("")
        } else {
            let done = scan::decimal_text(render::todos_done(&self.todos) as u64);
            let all = scan::decimal_text(self.todos.len() as u64);
            text::cat4("  tasks ", done.as_str(), "/", all.as_str())
        }
    }

    fn draw_footer_first(&self, f: &FooterFacts) -> (r: Line)
        ensures
            r@ == self@.footer_first(composer::opt_text(f.branch)),
    {
        let mut out: Vec<Span> = Vec::new();
        assert(paint::spans(out@) =~= Seq::empty());
        let dim = Style::of(Color::DarkGray);
        push_span(
            &mut out,
            text::cat3(" ", self.log.status.as_str(), " "),
            Style::of(self.log.status_tone.color()),
        );
        push_span(&mut out, text::copy_text("  "), Style::raw());
        push_span(&mut out, self.note_tokens(), dim);
        let branch = match &f.branch {
            Some(name) => text::cat2(" ⎇", name.as_str()),
            None => text::copy_text(""),
        };
        push_span(&mut out, branch, dim);
        push_span(&mut out, self.note_tasks(), dim);
        let position = if self.log.follow_transcript {
            text::copy_text("")
        } else {
            text::copy_text(" · End for latest")
        };
        push_span(&mut out, position, Style::of(Color::Yellow));
        let r = Line { spans: out };
        assert(r@ =~= self@.footer_first(composer::opt_text(f.branch)));
        r
    }

    fn draw_footer_second(&self, f: &FooterFacts) -> (r: Line)
        ensures
            r@ == self@.footer_second(*f),
    {
        let mut out: Vec<Span> = Vec::new();
        assert(paint::spans(out@) =~= Seq::empty());
        let dim = Style::of(Color::DarkGray);
        push_span(&mut out, text::cat2(" ", self.workspace.as_str()), dim);
        push_span(&mut out, text::cat3(" · ", f.sandbox.as_str(), "  "), dim);
        let bar = draw_gauge(f.tenths);
        let used = scan::decimal_text(f.used);
        let total = scan::decimal_text(f.total);
        let head = text::cat5("context ", bar.as_str(), " ", f.percent.as_str(), "% ");
        let context = text::cat4(head.as_str(), used.as_str(), "/", total.as_str());
        let color = if f.high {
            Color::Red
        } else {
            Color::DarkGray
        };
        push_span(&mut out, context, Style::of(color));
        push_span(&mut out, text::copy_text("  "), Style::raw());
        push_span(
            &mut out,
            text::copy_text("Ctrl+P palette · Ctrl+R history · Ctrl+B sessions · Ctrl+Shift+T tab"),
            dim,
        );
        let r = Line { spans: out };
        assert(r@ =~= self@.footer_second(*f));
        r
    }

    /// The two lines of the footer.
    pub fn draw_footer(&self, f: &FooterFacts) -> (r: (Line, Line))
        ensures
            r.0@ == self@.footer_first(composer::opt_text(f.branch)),
            r.1@ == self@.footer_second(*f),
    {
        (self.draw_footer_first(f), self.draw_footer_second(f))
    }
}

// ---------------------------------------------------------------------------
// The bar of tabs
// ---------------------------------------------------------------------------

impl BarView {
    /// The spans of the first `n` chips, each with a blank behind it.
    pub open spec fn chip_spans(self, sessions: Seq<Seq<char>>, theme: Seq<char>, n: int) -> Seq<
        SpanView,
    >
        decreases n,
    {
        if n <= 0 {
            Seq::empty()
        } else {
            self.chip_spans(sessions, theme, n - 1) + seq![
                SpanView {
                    text: self.chip(n - 1, sessions),
                    style: if n - 1 == self.active {
                        Style {
                            fg: Some(Color::Black),
                            bg: Some(paint::palette_of(theme).accent),
                            bold: true,
                            reversed: false,
                        }
                    } else {
                        paint::colored(Color::Gray)
                    },
                },
                SpanView { text: " "@, style: paint::plain() },
            ]
        }
    }

    /// How many cells the first `n` chips take.
    pub open spec fn chips_width(self, sessions: Seq<Seq<char>>, n: int) -> nat
        decreases n,
    {
        if n <= 0 {
            0
        } else {
            self.chips_width(sessions, n - 1) + self.chip(n - 1, sessions).len() + 1
        }
    }

    /// The bar: the name of the program, the chips, the mark for a new tab, and at the right
    /// what the pane with the focus talks to, where there is room.
    pub open spec fn bar_line(
        self,
        sessions: Seq<Seq<char>>,
        theme: Seq<char>,
        right: Seq<char>,
        width: int,
    ) -> Seq<SpanView> {
        let n = self.tabs.len() as int;
        let used = self.chips_width(sessions, n) + 8;
        seq![SpanView { text: " r105 "@, style: paint::strong(paint::palette_of(theme).accent) }]
            + self.chip_spans(sessions, theme, n) + seq![
            SpanView { text: "+ "@, style: paint::colored(Color::DarkGray) },
        ] + (if used + right.len() < width {
            seq![
                SpanView { text: scan::repeat_char(' ', width - used - right.len()), style: paint::plain() },
                SpanView { text: right, style: paint::colored(Color::DarkGray) },
            ]
        } else if used < width {
            seq![SpanView { text: scan::repeat_char(' ', width - used), style: paint::plain() }]
        } else {
            Seq::empty()
        })
    }
}

/// What a pane talks to.
pub open spec fn talks_to(mode: Mode, connection: Seq<char>, model: Seq<char>) -> Seq<char> {
    settings::mode_name(mode) + " · "@ + connection + " · "@ + model + " "@
}

impl TabBar {
    fn draw_chips(&self, out: &mut Vec<Span>, sessions: &Vec<String>, theme: &str) -> (r: u128)
        requires
            self.wf(),
        ensures
            paint::spans(final(out)@) == paint::spans(old(out)@) + self@.chip_spans(
                text::texts(sessions@),
                theme@,
                self@.tabs.len() as int,
            ),
            r == self@.chips_width(text::texts(sessions@), self@.tabs.len() as int),
            r <= 0x1_0000_0000_0000_0000 * self@.tabs.len(),
    {
        let ghost before = paint::spans(out@);
        let ghost names = text::texts(sessions@);
        let accent = paint::accent_color(theme);
        let mut width: u128 = 0;
        assert(self@.tabs.len() == self.tabs@.len());
        assert(before + Seq::<SpanView>::empty() =~= before);
        for i in 0..self.tabs.len()
            invariant
                self.wf(),
                names == text::texts(sessions@),
                accent == paint::palette_of(theme@).accent,
                self@.tabs.len() == self.tabs@.len(),
                paint::spans(out@) == before + self@.chip_spans(names, theme@, i as int),
                width == self@.chips_width(names, i as int),
                width <= 0x1_0000_0000_0000_0000 * i,
        {
            assert(i < self.tabs.len());
            let text = self.tab_chip_text(i, sessions);
            let taken: usize = scan::count_chars(text.as_str());
            let style = if i == self.active_tab {
                Style { fg: Some(Color::Black), bg: Some(accent), bold: true, reversed: false }
            } else {
                Style::of(Color::Gray)
            };
            push_span(out, text, style);
            push_span(out, text::copy_text(" "), Style::raw());
            width = width + taken as u128 + 1;
            assert(paint::spans(out@) =~= before + self@.chip_spans(names, theme@, i + 1));
        }
        width
    }

    /// The bar of tabs.
    pub fn draw_tab_bar(&self, sessions: &Vec<String>, theme: &str, right: &str) -> (r: Line)
        requires
            self.wf(),
        ensures
            r@ == self@.bar_line(text::texts(sessions@), theme@, right@, self.rect.width as int),
    {
        let mut out: Vec<Span> = Vec::new();
        assert(paint::spans(out@) =~= Seq::empty());
        push_span(&mut out, text::copy_text(" r105 "), Style::bold(paint::accent_color(theme)));
        let chips: u128 = self.draw_chips(&mut out, sessions, theme);
        push_span(&mut out, text::copy_text("+ "), Style::of(Color::DarkGray));
        assert(self@.tabs.len() == self.tabs.len());
        let used: u128 = chips + 8;
        let taken: u128 = scan::count_chars(right) as u128;
        let width: u128 = self.rect.width as u128;
        if used < width && taken < width - used {
            push_span(&mut out, scan::repeat_text(' ', (width - used - taken) as usize), Style::raw());
            push_span(&mut out, text::copy_text(right), Style::of(Color::DarkGray));
        } else if used < width {
            push_span(&mut out, scan::repeat_text(' ', (width - used) as usize), Style::raw());
        }
        let r = Line { spans: out };
        assert(r@ =~= self@.bar_line(text::texts(sessions@), theme@, right@, self.rect.width as int));
        r
    }
}

/// What a pane talks to, at the right of the bar.
pub fn connection_note(mode: Mode, connection: &str, model: &str) -> (r: String)
    ensures
        r@ == talks_to(mode, connection@, model@),
{
    let head = text::cat4(mode.as_str(), " · ", connection, " · ");
    text::cat3(head.as_str(), model, " ")
}

// ---------------------------------------------------------------------------
// The header
// ---------------------------------------------------------------------------

impl PaneView {
    /// The upper line of the header: the program, and what it talks to.
    pub open spec fn header_first(self, connection: Seq<char>) -> Seq<SpanView> {
        seq![
            SpanView { text: " r105 "@, style: paint::strong(paint::palette_of(self.settings.theme).accent) },
            SpanView { text: "AI harness"@, style: paint::strong(Color::White) },
            SpanView { text: "  "@, style: paint::plain() },
            SpanView {
                text: settings::mode_name(self.mode) + " · "@ + connection,
                style: paint::colored(Color::Yellow),
            },
            SpanView { text: "  "@, style: paint::plain() },
            SpanView { text: self.settings.model, style: paint::colored(Color::Green) },
        ]
    }

    /// The lower line of the header: where it works, and whether it does.
    pub open spec fn header_second(self, sandbox: Seq<char>, skills: nat) -> Seq<SpanView> {
        seq![
            SpanView { text: "  "@, style: paint::plain() },
            SpanView {
                text: self.workspace + " · "@ + sandbox + " · "@ + scan::decimal(skills) + (if skills == 1 {
                    " skill"@
                } else {
                    " skills"@
                }),
                style: paint::colored(Color::DarkGray),
            },
            SpanView { text: "  "@, style: paint::plain() },
            SpanView {
                text: if self.run.busy {
                    "● working"@
                } else {
                    "○ ready"@
                },
                style: paint::colored(
                    if self.run.busy {
                        Color::Yellow
                    } else {
                        Color::Green
                    },
                ),
            },
        ]
    }
}

impl Pane {
    /// The two lines of the header.
    pub fn draw_header(&self, connection: &str, sandbox: &str, skills: usize) -> (r: (Line, Line))
        ensures
            r.0@ == self@.header_first(connection@),
            r.1@ == self@.header_second(sandbox@, skills as nat),
    {
        let mut a: Vec<Span> = Vec::new();
        assert(paint::spans(a@) =~= Seq::empty());
        let accent = paint::accent_color(self.settings.theme.as_str());
        push_span(&mut a, text::copy_text(" r105 "), Style::bold(accent));
        push_span(&mut a, text::copy_text("AI harness"), Style::bold(Color::White));
        push_span(&mut a, text::copy_text("  "), Style::raw());
        push_span(&mut a, text::cat3(self.mode.as_str(), " · ", connection), Style::of(Color::Yellow));
        push_span(&mut a, text::copy_text("  "), Style::raw());
        push_span(&mut a, text::copy_text(self.settings.model.as_str()), Style::of(Color::Green));
        let first = Line { spans: a };
        assert(first@ =~= self@.header_first(connection@));
        let mut b: Vec<Span> = Vec::new();
        assert(paint::spans(b@) =~= Seq::empty());
        let n = scan::decimal_text(skills as u64);
        let place = text::cat4(self.workspace.as_str(), " · ", sandbox, " · ");
        let context = text::cat3(
            place.as_str(),
            n.as_str(),
            if skills == 1 {
                " skill"
            } else {
                " skills"
            },
        );
        push_span(&mut b, text::copy_text("  "), Style::raw());
        push_span(&mut b, context, Style::of(Color::DarkGray));
        push_span(&mut b, text::copy_text("  "), Style::raw());
        let (word, color) = if self.run.busy {
            ("● working", Color::Yellow)
        } else {
            ("○ ready", Color::Green)
        };
        push_span(&mut b, text::copy_text(word), Style::of(color));
        let second = Line { spans: b };
        assert(second@ =~= self@.header_second(sandbox@, skills as nat));
        (first, second)
    }
}

// ---------------------------------------------------------------------------
// The list beside the panes
// ---------------------------------------------------------------------------

impl SidebarView {
    /// The title of the list.
    pub open spec fn title(self) -> Seq<char> {
        if self.filter.len() == 0 {
            if self.focus {
                " sessions · Esc "@
            } else {
                " sessions "@
            }
        } else {
            " sessions · /"@ + self.filter + " "@
        }
    }

    /// The colour of the frame of the list.
    pub open spec fn border(self) -> Color {
        if self.focus {
            Color::White
        } else {
            Color::DarkGray
        }
    }
}

impl Sidebar {
    /// The title of the list, and the colour of its frame.
    pub fn draw_frame(&self) -> (r: (String, Color))
        ensures
            r.0@ == self@.title(),
            r.1 == self@.border(),
    {
        let title = if self.filter.as_str().is_empty() {
            if self.focus {
                text::copy_text(" sessions · Esc ")
            } else {
                text::copy_text(" sessions ")
            }
        } else {
            text::cat3(" sessions · /", self.filter.as_str(), " ")
        };
        let border = if self.focus {
            Color::White
        } else {
            Color::DarkGray
        };
        (title, border)
    }
}

// ---------------------------------------------------------------------------
// The conversation
// ---------------------------------------------------------------------------

/// How a pane draws its conversation.
pub open spec fn look_of(s: SettingsView) -> Look {
    Look {
        palette: paint::palette_of(s.theme),
        thinking: s.show_thinking,
        thinking_open: s.thinking_open,
    }
}

/// Which drawn lines are titles of sections.
pub open spec fn titles_of(rows: Seq<(Seq<SpanView>, Option<Seq<char>>)>) -> Seq<Option<Seq<char>>> {
    rows.map_values(|r: (Seq<SpanView>, Option<Seq<char>>)| r.1)
}

impl PaneView {
    /// What is drawn of the conversation.
    pub open spec fn sheet(self) -> Sheet {
        render::full_sheet(
            self.log.all_named(self.log.history.len() as int),
            look_of(self.settings),
            self.todos,
            self.run.reasoning,
            self.run.reply,
        )
    }

    /// The conversation drawn in `height` rows: what a click needs to know is kept.
    pub open spec fn conversation_drawn(self, height: u16) -> PaneView {
        let named = self.log.all_named(self.log.history.len() as int);
        let sheet = self.sheet();
        let log = TranscriptView { order: sheet.order, ..named }.scrolled(
            sheet.rows.len() as int,
            height as int,
        );
        PaneView {
            log,
            drawn: DrawnView {
                height,
                headers: titles_of(sheet.rows),
                scroll: log.scroll,
                ..self.drawn
            },
            ..self
        }
    }
}

fn title_rows(list: &Vec<DrawnLine>) -> (r: Vec<Option<String>>)
    ensures
        pane::headers_view(r@) == titles_of(render::drawn(list@)),
{
    let mut r: Vec<Option<String>> = Vec::new();
    for i in 0..list.len()
        invariant
            r@.len() == i,
            forall|j: int| 0 <= j < i ==> composer::opt_text(#[trigger] r@[j]) == composer::opt_text(list@[j].header),
    {
        r.push(composer::copy_opt(&list[i].header));
    }
    assert(pane::headers_view(r@) =~= titles_of(render::drawn(list@)));
    r
}

impl Pane {
    /// Draws the conversation.
    pub fn draw_transcript(&mut self, height: u16) -> (r: Vec<DrawnLine>)
        requires
            old(self).wf(),
        ensures
            final(self).wf(),
            render::drawn(r@) == old(self)@.sheet().rows,
            final(self)@ == old(self)@.conversation_drawn(height),
    {
        let look = Look {
            palette: paint::theme_palette(self.settings.theme.as_str()),
            thinking: self.settings.show_thinking,
            thinking_open: self.settings.thinking_default_expanded,
        };
        let list = self.log.draw_transcript(
            &look,
            &self.todos,
            self.run.streaming_reasoning.as_str(),
            self.run.streaming.as_str(),
            height,
        );
        assert(render::drawn(list@).len() == list@.len());
        self.drawn.header_rows = title_rows(&list);
        self.drawn.transcript_height = height;
        self.drawn.scroll = self.log.transcript_scroll;
        list
    }
}

/// A click on the title of a section that was drawn opens or closes that section, and a
/// click on any other line changes nothing.
pub proof fn clicks_toggle_the_drawn_section(v: PaneView, height: u16, column: u16, row: u16)
    requires
        v.drawn.transcript.holds(column as int, row as int),
        v.conversation_drawn(height).drawn.scroll + (row - v.drawn.transcript.y)
            < v.sheet().rows.len(),
        v.conversation_drawn(height).drawn.scroll >= 0,
    ensures
        ({
            let w = v.conversation_drawn(height);
            let line = w.drawn.scroll + (row - w.drawn.transcript.y);
            match v.sheet().rows[line].1 {
                None => w.section_clicked(column, row) == w,
                Some(id) => w.section_clicked(column, row).log.sections == if w.log.failed(id) {
                    w.log.sections
                } else {
                    w.log.sections.insert(
                        id,
                        !w.log.open(
                            id,
                            match transcript::section_at(w.log.order, id, 0) {
                                Some(i) => w.log.order[i].1,
                                None => false,
                            },
                        ),
                    )
                },
            }
        }),
{
}

// ---------------------------------------------------------------------------
// The frame of a pane
// ---------------------------------------------------------------------------

impl PaneView {
    /// The title of a pane among several.
    pub open spec fn frame_title(self, index: int, focused: bool) -> Seq<char> {
        " "@ + scan::decimal((index + 1) as nat) + " "@ + (match self.session {
            Some(name) => name,
            None => tabs::label_or(self.title, index),
        }) + (if self.run.busy {
            " …"@
        } else if self.attention && !focused {
            " •"@
        } else {
            ""@
        }) + " "@
    }
}

impl Pane {
    /// The colour of the frame of a pane: the one with the focus stands out.
    pub fn frame_color(&self, focused: bool) -> (r: Color)
        ensures
            r == if focused {
                paint::palette_of(self@.settings.theme).accent
            } else {
                Color::DarkGray
            },
    {
        if focused {
            paint::accent_color(self.settings.theme.as_str())
        } else {
            Color::DarkGray
        }
    }

    /// The title of a pane among several.
    pub fn frame_title(&self, index: usize, focused: bool) -> (r: String)
        requires
            index < usize::MAX,
        ensures
            r@ == self@.frame_title(index as int, focused),
    {
        let n = scan::decimal_text((index + 1) as u64);
        let label = match &self.current_session {
            Some(name) => text::copy_text(name.as_str()),
            None => tabs::title_or(self.title.as_str(), index),
        };
        let head = text::cat4(" ", n.as_str(), " ", label.as_str());
        text::cat3(
            head.as_str(),
            if self.run.busy {
                " …"
            } else if self.attention && !focused {
                " •"
            } else {
                ""
            },
            " ",
        )
    }
}

} // verus!
