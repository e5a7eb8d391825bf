//! What holds of the other parts of the screen: the draft and its footer, the bars, the lists
//! and the cards.

use crate::cards;
use crate::desk::{OverlayView, SceneView};
use crate::frames::FooterFacts;
use crate::frames;
use crate::laws_commands;
use crate::listing::ListingView;
use crate::listing;
use crate::menus;
use crate::paint::{Color, Rect, SpanView};
use crate::paint;
use crate::pane::PaneView;
use crate::panels;
use crate::scan;
use crate::sidebar::{RowView, SidebarView};
use crate::syntax;
use crate::tabs::BarView;
use crate::tabs;
use vstd::prelude::*;

verus! {

// ---------------------------------------------------------------------------
// The draft and the footer
// ---------------------------------------------------------------------------

proof fn spans_run_on(a: Seq<SpanView>, b: Seq<SpanView>)
    ensures
        paint::span_text(a + b) == paint::span_text(a) + paint::span_text(b),
    decreases b.len(),
{
    if b.len() == 0 {
        assert(a + b =~= a);
        assert(paint::span_text(a) + paint::span_text(b) =~= paint::span_text(a));
    } else {
        let less = b.drop_last();
        assert((a + b).drop_last() =~= a + less);
        assert((a + b).last() == b.last());
        spans_run_on(a, less);
        assert(paint::span_text(a + b) =~= paint::span_text(a) + paint::span_text(b));
    }
}

proof fn one_span(s: SpanView)
    ensures
        paint::span_text(seq![s]) == s.text,
{
    assert(seq![s].drop_last() =~= Seq::empty());
    assert(paint::span_text(Seq::<SpanView>::empty()) + s.text =~= s.text);
}

/// The draft is drawn as it is behind its mark, with the offer behind it where the cursor is
/// at its end.
pub proof fn drafts_are_drawn_as_they_are(v: PaneView, reads_as_shell: bool)
    requires
        v.composer.valid(),
        v.composer.text.len() <= usize::MAX,
        menus::shell_of(v.composer, reads_as_shell) is None,
    ensures
        ({
            let line = paint::span_text(v.draft_line(reads_as_shell));
            let draft = v.composer.text;
            &&& line.len() >= 2 + draft.len()
            &&& line.take(2 + draft.len() as int) == seq!['>', ' '] + draft
            &&& v.composer.at == draft.len() && v.composer.offer is Some ==> line == seq!['>', ' '] + draft
                + seq![' '] + v.composer.offer->0
        }),
{
    reveal_strlit("> ");
    reveal_strlit(" ");
    let draft = v.composer.text;
    let mark = seq![SpanView { text: "> "@, style: paint::plain() }];
    let input = v.input_spans(reads_as_shell);
    let offer = v.offer_spans();
    let hint = v.hint_spans();
    syntax::draft_spans_reproduce_text(draft, v.composer.at, false);
    one_span(SpanView { text: "> "@, style: paint::plain() });
    spans_run_on(mark, input);
    spans_run_on(mark + input, offer);
    spans_run_on(mark + input + offer, hint);
    let line = paint::span_text(v.draft_line(reads_as_shell));
    let shown = paint::span_text(input);
    assert(line == "> "@ + shown + paint::span_text(offer) + paint::span_text(hint));
    assert(line.take(2 + draft.len() as int) =~= seq!['>', ' '] + draft);
    if v.composer.at == draft.len() && v.composer.offer is Some {
        one_span(SpanView { text: v.composer.offer->0, style: paint::colored(Color::DarkGray) });
        assert(hint =~= Seq::empty());
        assert(paint::span_text(hint) =~= Seq::empty());
        assert(line =~= seq!['>', ' '] + draft + seq![' '] + v.composer.offer->0);
    }
}

/// The footer shows the status, the branch, and whether newer rows are out of view; below it
/// stand the workspace, the sandbox and how full the context is.
pub proof fn footers_show_where_things_stand(v: PaneView, branch: Option<Seq<char>>, f: FooterFacts)
    ensures
        ({
            let first = v.footer_first(branch);
            let second = v.footer_second(f);
            &&& first.len() == 6
            &&& first[0].text == seq![' '] + v.log.status + seq![' ']
            &&& branch matches Some(name) ==> scan::contains_text(first[3].text, name)
            &&& branch is None ==> first[3].text.len() == 0
            &&& v.log.follow ==> first[5].text.len() == 0
            &&& !v.log.follow ==> first[5].text.len() > 0
            &&& scan::contains_text(second[0].text, v.workspace)
            &&& scan::contains_text(second[1].text, f.sandbox@)
            &&& scan::contains_text(second[2].text, f.percent@ + "% "@ + scan::decimal(f.used as nat))
            &&& f.high == (second[2].style.fg == Some(Color::Red))
        }),
{
    reveal_strlit(" ");
    reveal_strlit("");
    reveal_strlit(" · End for latest");
    let first = v.footer_first(branch);
    let second = v.footer_second(f);
    assert(" "@ =~= seq![' ']);
    assert(first[0].text =~= seq![' '] + v.log.status + seq![' ']);
    if let Some(name) = branch {
        laws_commands::piece(" ⎇"@, name, Seq::empty());
        assert(" ⎇"@ + name + Seq::<char>::empty() =~= " ⎇"@ + name);
    }
    laws_commands::piece(" "@, v.workspace, Seq::empty());
    assert(" "@ + v.workspace + Seq::<char>::empty() =~= " "@ + v.workspace);
    laws_commands::piece(" · "@, f.sandbox@, "  "@);
    let head = "context "@ + frames::gauge(f.tenths as int) + " "@;
    let mid = f.percent@ + "% "@ + scan::decimal(f.used as nat);
    let tail = "/"@ + scan::decimal(f.total as nat);
    laws_commands::piece(head, mid, tail);
    assert(second[2].text =~= head + mid + tail);
}

/// The gauge has ten cells, as many of them filled as there are tenths.
pub proof fn gauges_have_ten_cells(n: int, i: int)
    requires
        0 <= n,
        0 <= i < 10,
    ensures
        frames::gauge(n).len() == 10,
        frames::gauge(n)[i] == (if i < n {
            '█'
        } else {
            '░'
        }),
{
}

/// The rule over the draft says what Enter does with it.
pub proof fn the_rule_says_what_enter_does(v: PaneView, reads_as_shell: bool, width: int)
    ensures
        v.rule_line(reads_as_shell, width).last().text == v.affordance(reads_as_shell),
        v.composer.walk is None && v.run.busy ==> scan::contains_text(
            v.affordance(reads_as_shell),
            scan::decimal(v.run.queue.len()),
        ),
        v.composer.walk is None && !v.run.busy && menus::shell_of(v.composer, reads_as_shell) is Some
            ==> v.affordance(reads_as_shell) == "Shell · Enter runs"@,
        v.composer.walk is None && !v.run.busy && menus::shell_of(v.composer, reads_as_shell) is None
            ==> v.affordance(reads_as_shell) == "Message"@,
{
    laws_commands::piece("Working · "@, scan::decimal(v.run.queue.len()), " queued · Esc stops"@);
}

/// The title of a pane names its session, or else the pane, and its number.
pub proof fn frame_titles_name_the_session(v: PaneView, index: int, focused: bool)
    requires
        index >= 0,
    ensures
        v.session matches Some(name) ==> scan::contains_text(v.frame_title(index, focused), name),
        v.session is None && v.title.len() > 0 ==> scan::contains_text(
            v.frame_title(index, focused),
            v.title,
        ),
        scan::contains_text(v.frame_title(index, focused), scan::decimal((index + 1) as nat)),
{
    let number = scan::decimal((index + 1) as nat);
    let label = match v.session {
        Some(name) => name,
        None => tabs::label_or(v.title, index),
    };
    let tail = (if v.run.busy {
        " …"@
    } else if v.attention && !focused {
        " •"@
    } else {
        ""@
    }) + " "@;
    let all = v.frame_title(index, focused);
    laws_commands::piece(" "@ + number + " "@, label, tail);
    assert(all =~= " "@ + number + " "@ + label + tail);
    laws_commands::piece(" "@, number, " "@ + label + tail);
    assert(all =~= " "@ + number + (" "@ + label + tail));
}

// ---------------------------------------------------------------------------
// Tabs and the list beside the panes
// ---------------------------------------------------------------------------

/// Each tab has a chip in the bar, with its number and its label, in order; only that of the
/// shown tab stands out and can be closed.
pub proof fn tabs_have_chips(
    b: BarView,
    sessions: Seq<Seq<char>>,
    theme: Seq<char>,
    right: Seq<char>,
    width: int,
    i: int,
)
    requires
        0 <= i < b.tabs.len(),
    ensures
        ({
            let line = b.bar_line(sessions, theme, right, width);
            &&& 1 + 2 * i < line.len()
            &&& line[1 + 2 * i].text == b.chip(i, sessions)
            &&& line[1 + 2 * i].style.bold == (i == b.active)
        }),
        scan::contains_text(b.chip(i, sessions), scan::decimal((i + 1) as nat)),
        b.chip_label(i, sessions).len() <= 28 ==> scan::contains_text(
            b.chip(i, sessions),
            b.chip_label(i, sessions),
        ),
        i != b.active && b.tabs[i].panes.len() == 1 ==> b.chip_label(i, sessions)
            == b.tabs[i].panes[0].title,
        i == b.active && sessions.len() == 1 ==> b.chip_label(i, sessions) == sessions[0],
{
    chip_stands(b, sessions, theme, b.tabs.len() as int, i);
    let number = scan::decimal((i + 1) as nat);
    let label = tabs::compacted(b.chip_label(i, sessions), 28);
    let tail = if i == b.active {
        " × "@
    } else {
        " "@
    };
    laws_commands::piece(" "@, number, " "@ + label + tail);
    assert(b.chip(i, sessions) =~= " "@ + number + (" "@ + label + tail));
    laws_commands::piece(" "@ + number + " "@, label, tail);
    assert(b.chip(i, sessions) =~= " "@ + number + " "@ + label + tail);
}

proof fn chip_stands(b: BarView, sessions: Seq<Seq<char>>, theme: Seq<char>, n: int, i: int)
    requires
        0 <= i < n <= b.tabs.len(),
    ensures
        b.chip_spans(sessions, theme, n).len() == 2 * n,
        b.chip_spans(sessions, theme, n)[2 * i].text == b.chip(i, sessions),
        b.chip_spans(sessions, theme, n)[2 * i].style.bold == (i == b.active),
    decreases n,
{
    if i < n - 1 {
        chip_stands(b, sessions, theme, n - 1, i);
    } else {
        chips_count(b, sessions, theme, n - 1);
    }
}

proof fn chips_count(b: BarView, sessions: Seq<Seq<char>>, theme: Seq<char>, n: int)
    requires
        0 <= n,
    ensures
        b.chip_spans(sessions, theme, n).len() == 2 * n,
    decreases n,
{
    if n > 0 {
        chips_count(b, sessions, theme, n - 1);
    }
}

/// Each row of the list beside the panes is drawn in a line of its own, which names what it
/// stands for where there is room, and a click on the line is one on the row.
pub proof fn listed_rows_are_drawn(v: SidebarView, rows: Seq<RowView>, w: ListingView, i: int)
    requires
        0 <= i < rows.len(),
        rows.len() <= usize::MAX,
    ensures
        exists|k: int|
            0 <= k < v.display(rows, w).len() && (#[trigger] v.display(rows, w)[k]).row == Some(i as usize)
                && v.display(rows, w)[k] == v.row_line(rows[i], i, w),
{
    let split = listing::places_from(rows, 0);
    split_bounds(rows, 0);
    let a = v.group(" SESSIONS "@, rows, 0, split, w);
    let b = v.group(" WORKSPACES "@, rows, split, rows.len() as int, w);
    let all = v.display(rows, w);
    assert(all == a + b);
    let k = if i < split {
        i + 1
    } else {
        a.len() + 1 + (i - split)
    };
    assert(all[k] == v.row_line(rows[i], i, w));
    assert(all[k].row == Some(i as usize));
}

proof fn split_bounds(rows: Seq<RowView>, i: int)
    requires
        0 <= i <= rows.len(),
    ensures
        i <= listing::places_from(rows, i) <= rows.len(),
    decreases rows.len() - i,
{
    if i < rows.len() && !(rows[i] is Workspace) {
        split_bounds(rows, i + 1);
    }
}

/// The line of a row says what the row stands for: the name of a session with the number of
/// its messages, or the name of a workspace.
pub proof fn lines_say_what_rows_stand_for(v: SidebarView, row: RowView, i: int, w: ListingView)
    requires
        listing::row_words(row, w.session, w.here[i]).len() + 2 <= w.width,
    ensures
        ({
            let line = v.row_line(row, i, w).line[0].text;
            match row {
                RowView::New => scan::contains_text(line, "New session"@),
                RowView::Session { name, messages } => scan::contains_text(line, name)
                    && scan::contains_text(line, scan::decimal(messages as nat)),
                RowView::Workspace { base, .. } => scan::contains_text(line, base),
            }
        }),
{
    let words = listing::row_words(row, w.session, w.here[i]);
    let lead = (if i == v.selected {
        ">"@
    } else {
        " "@
    }) + " "@;
    let line = v.row_line(row, i, w).line[0].text;
    assert(lead.len() == 2) by {
        reveal_strlit(">");
        reveal_strlit(" ");
    }
    assert(line =~= lead + words + Seq::<char>::empty());
    words_say(row, w.session, w.here[i]);
    match row {
        RowView::New => {
            laws_commands::piece_of_a_part(lead, words, Seq::empty(), "New session"@);
        },
        RowView::Session { name, messages } => {
            laws_commands::piece_of_a_part(lead, words, Seq::empty(), name);
            laws_commands::piece_of_a_part(lead, words, Seq::empty(), scan::decimal(messages as nat));
        },
        RowView::Workspace { base, .. } => {
            laws_commands::piece_of_a_part(lead, words, Seq::empty(), base);
        },
    }
}

proof fn words_say(row: RowView, session: Option<Seq<char>>, here: bool)
    ensures
        ({
            let words = listing::row_words(row, session, here);
            match row {
                RowView::New => scan::contains_text(words, "New session"@),
                RowView::Session { name, messages } => scan::contains_text(words, name)
                    && scan::contains_text(words, scan::decimal(messages as nat)),
                RowView::Workspace { base, .. } => scan::contains_text(words, base),
            }
        }),
{
    let words = listing::row_words(row, session, here);
    match row {
        RowView::New => {
            reveal_strlit("+ New session");
            reveal_strlit("New session");
            assert(words.subrange(2, 13) =~= "New session"@);
            assert(scan::occurs_at(words, "New session"@, 2));
        },
        RowView::Session { name, messages } => {
            let lead = listing::in_use_mark(session == Some(name)) + " "@;
            let count = scan::decimal(messages as nat);
            laws_commands::piece(lead, name, " · "@ + count);
            assert(words =~= lead + name + (" · "@ + count));
            laws_commands::piece(lead + name + " · "@, count, Seq::empty());
            assert(words =~= lead + name + " · "@ + count + Seq::<char>::empty());
        },
        RowView::Workspace { base, .. } => {
            let lead = listing::in_use_mark(here) + " "@;
            laws_commands::piece(lead, base, Seq::empty());
            assert(words =~= lead + base + Seq::<char>::empty());
        },
    }
}

// ---------------------------------------------------------------------------
// Lists and cards
// ---------------------------------------------------------------------------

/// A list with room for all its rows draws each of them, in order.
pub proof fn lists_with_room_draw_all(
    rows: Seq<Seq<char>>,
    selected: int,
    viewport: int,
    theme: Seq<char>,
    i: int,
)
    requires
        0 <= i < rows.len() <= viewport,
    ensures
        panels::scroll_for(selected, 0, viewport, rows.len() as int) == 0,
        panels::list_lines(rows, selected, 0, viewport, theme).len() == rows.len(),
        panels::list_lines(rows, selected, 0, viewport, theme)[i].len() == 1,
        panels::list_lines(rows, selected, 0, viewport, theme)[i][0].text == rows[i],
{
}

/// A picker marks the row that is selected, and each row says what it stands for.
pub proof fn pickers_show_their_items(items: Seq<Seq<char>>, selected: int, i: int)
    requires
        0 <= i < items.len(),
    ensures
        panels::picker_texts(items, selected).len() == items.len(),
        scan::contains_text(panels::picker_texts(items, selected)[i], items[i]),
        scan::contains_text(panels::picker_texts(items, selected)[selected], "▶"@) || !(0 <= selected
            < items.len()),
{
    let lead = " "@ + (if i == selected {
        "▶"@
    } else {
        " "@
    }) + " "@;
    laws_commands::piece(lead, items[i], Seq::empty());
    assert(panels::picker_texts(items, selected)[i] =~= lead + items[i] + Seq::<char>::empty());
    if 0 <= selected < items.len() {
        laws_commands::piece(" "@, "▶"@, " "@ + items[selected]);
        assert(panels::picker_texts(items, selected)[selected] =~= " "@ + "▶"@ + (" "@ + items[selected]));
    }
}

/// The card of a call that waits names its tool, says what it is about to do, and shows the
/// beginning of what it changes.
pub proof fn approval_cards_say_what_they_are_about(
    screen: Rect,
    name: Seq<char>,
    summary: Seq<char>,
    preview: Option<Seq<char>>,
    remaining: nat,
    k: int,
)
    ensures
        ({
            let lines = cards::approval_card_view(screen, name, summary, preview, remaining).content.lines;
            &&& lines.len() >= 5
            &&& scan::contains_text(lines[0][0].text, name)
            &&& scan::contains_text(lines[2][0].text, summary)
            &&& preview matches Some(p) ==> (0 <= k < 6 && k < scan::lines(p).len() ==> lines[3 + k][0].text
                == "  "@ + scan::lines(p)[k])
        }),
{
    let lines = cards::approval_card_view(screen, name, summary, preview, remaining).content.lines;
    let shown = cards::preview_lines(preview);
    let first = cards::plain_lines(seq!["Approve `"@ + name + "`?"@, ""@, "  "@ + summary]);
    assert(first.len() == 3);
    assert(lines[0] == first[0] && lines[2] == first[2]);
    laws_commands::piece("Approve `"@, name, "`?"@);
    laws_commands::piece("  "@, summary, Seq::empty());
    assert("  "@ + summary + Seq::<char>::empty() =~= "  "@ + summary);
    if let Some(p) = preview {
        if 0 <= k < 6 && k < scan::lines(p).len() {
            assert(lines[3 + k] == shown[k]);
        }
    }
}

/// The card that waits is that of the first call that waits, with the number of the others.
pub proof fn the_first_call_has_the_card(s: SceneView, screen: Rect)
    requires
        s.desk.overlay is Approval,
        s.pane.tools is Some,
        s.pane.tools->0.queue.len() > 0,
    ensures
        ({
            let a = s.pane.tools->0.queue[0];
            s.overlay_card(screen) == Some(
                cards::approval_card_view(
                    screen,
                    a.name,
                    a.summary,
                    a.preview,
                    (s.pane.tools->0.queue.len() - 1) as nat,
                ),
            )
        }),
{
}

/// The address that is being typed is shown on its card.
pub proof fn typed_addresses_are_shown(s: SceneView, screen: Rect, provider: Seq<char>)
    requires
        s.desk.overlay == (OverlayView::CustomUrl { provider }),
    ensures
        ({
            let card = s.overlay_card(screen);
            &&& card is Some
            &&& card->0.content.lines.len() == 5
            &&& card->0.content.lines[2][0].text == "  "@ + s.pane.composer.text
        }),
{
}

} // verus!
