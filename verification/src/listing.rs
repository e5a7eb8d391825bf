//! How the list beside the panes is drawn, and what a click on it means.

use crate::composer;
use crate::paint::{Color, Line, Rect, SpanView, Style};
use crate::paint;
use crate::panels;
use crate::paths;
use crate::scan;
use crate::sidebar::{Place, PlaceView, RowView, Sidebar, SidebarAction, SidebarActionView, SidebarRow, SidebarView};
use crate::sidebar;
use crate::text;
use vstd::prelude::*;

verus! {

/// A line of the list, and the row that it belongs to. Titles belong to none.
#[derive(Debug, Clone, PartialEq, Eq)]
pub struct SidebarLine {
    pub line: Line,
    pub row: Option<usize>,
}

/// What a line of the list holds.
#[verifier::ext_equal]
pub struct SidebarLineView {
    pub line: Seq<SpanView>,
    pub row: Option<usize>,
}

impl View for SidebarLine {
    type V = SidebarLineView;

    open spec fn view(&self) -> SidebarLineView {
        SidebarLineView { line: self.line@, row: self.row }
    }
}

/// What the lines of a list hold.
pub open spec fn sidebar_lines(list: Seq<SidebarLine>) -> Seq<SidebarLineView> {
    list.map_values(|l: SidebarLine| l@)
}

/// Where the workspaces begin, from `i` on.
pub open spec fn places_from(rows: Seq<RowView>, i: int) -> int
    decreases rows.len() - i,
{
    if i < 0 || i >= rows.len() || rows[i] is Workspace {
        i
    } else {
        places_from(rows, i + 1)
    }
}

/// The mark of what is in use.
pub open spec fn in_use_mark(on: bool) -> Seq<char> {
    if on {
        "●"@
    } else {
        " "@
    }
}

/// What a row says. `here` tells whether its workspace is the live one.
pub open spec fn row_words(row: RowView, session: Option<Seq<char>>, here: bool) -> Seq<char> {
    match row {
        RowView::New => "+ New session"@,
        RowView::Session { name, messages } => in_use_mark(session == Some(name)) + " "@ + name
            + " · "@ + scan::decimal(messages as nat),
        RowView::Workspace { path, base } => in_use_mark(here) + " "@ + base,
    }
}

/// A title.
pub open spec fn title_line(text: Seq<char>) -> SidebarLineView {
    SidebarLineView { line: paint::line_of(text, paint::colored(Color::DarkGray)), row: None }
}

/// What the lines of the list depend on besides its rows.
pub struct ListingView {
    pub session: Option<Seq<char>>,
    pub here: Seq<bool>,
    pub theme: Seq<char>,
    pub width: int,
}

impl SidebarView {
    /// The line of row `i`.
    pub open spec fn row_line(self, row: RowView, i: int, w: ListingView) -> SidebarLineView {
        let text = (if i == self.selected {
            ">"@
        } else {
            " "@
        }) + " "@ + row_words(row, w.session, w.here[i]);
        SidebarLineView {
            line: paint::line_of(
                scan::first_chars(text, w.width),
                if i == self.selected && self.focus {
                    paint::selection_of(w.theme)
                } else {
                    paint::colored(Color::White)
                },
            ),
            row: Some(i as usize),
        }
    }

    /// The lines of the rows `a..b`.
    pub open spec fn row_lines(self, rows: Seq<RowView>, a: int, b: int, w: ListingView) -> Seq<
        SidebarLineView,
    > {
        Seq::new((b - a) as nat, |k: int| self.row_line(rows[a + k], a + k, w))
    }

    /// A titled group of rows; no title where there are none.
    pub open spec fn group(
        self,
        title: Seq<char>,
        rows: Seq<RowView>,
        a: int,
        b: int,
        w: ListingView,
    ) -> Seq<SidebarLineView> {
        if a < b {
            seq![title_line(title)] + self.row_lines(rows, a, b, w)
        } else {
            Seq::empty()
        }
    }

    /// The lines of the list: the sessions, then the workspaces.
    pub open spec fn display(self, rows: Seq<RowView>, w: ListingView) -> Seq<SidebarLineView> {
        let split = places_from(rows, 0);
        if rows.len() == 0 {
            seq![title_line(" (no match)"@)]
        } else {
            self.group(" SESSIONS "@, rows, 0, split, w) + self.group(
                " WORKSPACES "@,
                rows,
                split,
                rows.len() as int,
                w,
            )
        }
    }
}

/// The row that line `k` of the list belongs to, where its workspaces begin with row
/// `split` of `count`.
pub open spec fn row_of_line(count: int, split: int, k: int) -> Option<int> {
    if split > 0 && 0 < k <= split {
        Some(k - 1)
    } else {
        let below = if split > 0 {
            k - split - 1
        } else {
            k
        };
        if 0 < below <= count - split {
            Some(split + below - 1)
        } else {
            None
        }
    }
}

proof fn places_bounds(rows: Seq<RowView>, i: int)
    requires
        0 <= i <= rows.len(),
    ensures
        i <= places_from(rows, i) <= rows.len(),
    decreases rows.len() - i,
{
    if i < rows.len() && !(rows[i] is Workspace) {
        places_bounds(rows, i + 1);
    }
}

/// What is drawn and what a click is taken for never disagree: every line belongs to the
/// row that a click on it selects.
pub proof fn clicks_hit_what_is_drawn(v: SidebarView, rows: Seq<RowView>, w: ListingView, k: int)
    requires
        rows.len() <= usize::MAX,
        0 <= k < v.display(rows, w).len(),
    ensures
        match v.display(rows, w)[k].row {
            Some(i) => row_of_line(rows.len() as int, places_from(rows, 0), k) == Some(i as int),
            None => row_of_line(rows.len() as int, places_from(rows, 0), k) is None,
        },
{
    places_bounds(rows, 0);
}

/// What the mark of a path as the live workspace can be. Plain paths are marked where they
/// name the same path, and a text names the same path as itself.
pub open spec fn marked(path: Seq<char>, workspace: Seq<char>, here: bool) -> bool {
    &&& path == workspace ==> here
    &&& paths::plain(path) && paths::plain(workspace) ==> here == paths::same(path, workspace)
}

/// Which rows are the live workspace.
pub fn live_rows(rows: &Vec<SidebarRow>, workspace: &str) -> (r: Vec<bool>)
    ensures
        r@.len() == rows@.len(),
        forall|i: int|
            0 <= i < rows@.len() ==> match sidebar::rows_view(rows@)[i] {
                RowView::Workspace { path, .. } => marked(path, workspace@, #[trigger] r@[i]),
                _ => !r@[i],
            },
{
    let mut r: Vec<bool> = Vec::new();
    for i in 0..rows.len()
        invariant
            r@.len() == i,
            forall|j: int|
                0 <= j < i ==> match sidebar::rows_view(rows@)[j] {
                    RowView::Workspace { path, .. } => marked(path, workspace@, #[trigger] r@[j]),
                    _ => !r@[j],
                },
    {
        assert(sidebar::rows_view(rows@)[i as int] == rows@[i as int]@);
        let here = match &rows[i] {
            SidebarRow::Workspace { path, .. } => paths::same_path(path.as_str(), workspace),
            _ => false,
        };
        r.push(here);
    }
    r
}

fn words_of(row: &SidebarRow, session: &Option<String>, here: bool) -> (r: String)
    ensures
        r@ == row_words(row@, composer::opt_text(*session), here),
{
    match row {
        SidebarRow::New => text::copy_text("+ New session"),
        SidebarRow::Session { name, messages } => {
            let current = match session {
                Some(s) => text::same_text(s.as_str(), name.as_str()),
                None => false,
            };
            let n = scan::decimal_text(*messages as u64);
            text::cat5(
                if current {
                    "●"
                } else {
                    " "
                },
                " ",
                name.as_str(),
                " · ",
                n.as_str(),
            )
        },
        SidebarRow::Workspace { base, .. } => text::cat3(
            if here {
                "●"
            } else {
                " "
            },
            " ",
            base.as_str(),
        ),
    }
}

fn split_of(rows: &Vec<SidebarRow>) -> (r: usize)
    ensures
        r == places_from(sidebar::rows_view(rows@), 0),
        r <= rows@.len(),
{
    let mut i: usize = 0;
    assert(sidebar::rows_view(rows@).len() == rows@.len());
    while i < rows.len()
        invariant
            i <= rows@.len(),
            sidebar::rows_view(rows@).len() == rows@.len(),
            places_from(sidebar::rows_view(rows@), 0) == places_from(sidebar::rows_view(rows@), i as int),
        decreases rows@.len() - i,
    {
        assert(sidebar::rows_view(rows@)[i as int] == rows@[i as int]@);
        if matches!(rows[i], SidebarRow::Workspace { .. }) {
            return i;
        }
        i = i + 1;
    }
    i
}

fn row_at_line(count: usize, split: usize, k: usize) -> (r: Option<usize>)
    requires
        split <= count,
    ensures
        match r {
            Some(i) => row_of_line(count as int, split as int, k as int) == Some(i as int) && i
                < count,
            None => row_of_line(count as int, split as int, k as int) is None,
        },
{
    if split > 0 && 0 < k && k <= split {
        return Some(k - 1);
    }
    if split > 0 && k <= split {
        return None;
    }
    let below: usize = if split > 0 {
        k - split - 1
    } else {
        k
    };
    if 0 < below && below <= count - split {
        Some(split + (below - 1))
    } else {
        None
    }
}

impl Sidebar {
    fn draw_row(
        &self,
        row: &SidebarRow,
        i: usize,
        session: &Option<String>,
        here: &Vec<bool>,
        theme: &str,
        width: usize,
    ) -> (r: SidebarLine)
        requires
            i < here@.len(),
        ensures
            r@ == self@.row_line(
                row@,
                i as int,
                (ListingView {
                    session: composer::opt_text(*session),
                    here: here@,
                    theme: theme@,
                    width: width as int,
                }),
            ),
    {
        let words = words_of(row, session, here[i]);
        let text = text::cat3(
            if i == self.selected {
                ">"
            } else {
                " "
            },
            " ",
            words.as_str(),
        );
        let style = if i == self.selected && self.focus {
            paint::selection_style(theme)
        } else {
            Style::of(Color::White)
        };
        let line = Line::one(scan::take_chars(text.as_str(), width), style);
        SidebarLine { line, row: Some(i) }
    }

    fn draw_group(
        &self,
        out: &mut Vec<SidebarLine>,
        title: &str,
        rows: &Vec<SidebarRow>,
        a: usize,
        b: usize,
        session: &Option<String>,
        here: &Vec<bool>,
        theme: &str,
        width: usize,
    )
        requires
            a <= b <= rows@.len(),
            here@.len() == rows@.len(),
        ensures
            sidebar_lines(final(out)@) == sidebar_lines(old(out)@) + self@.group(
                title@,
                sidebar::rows_view(rows@),
                a as int,
                b as int,
                (ListingView {
                    session: composer::opt_text(*session),
                    here: here@,
                    theme: theme@,
                    width: width as int,
                }),
            ),
    {
        let ghost w = ListingView {
            session: composer::opt_text(*session),
            here: here@,
            theme: theme@,
            width: width as int,
        };
        let ghost before = sidebar_lines(out@);
        let ghost all = sidebar::rows_view(rows@);
        if a >= b {
            assert(before + Seq::<SidebarLineView>::empty() =~= before);
            return;
        }
        out.push(
            SidebarLine { line: Line::one(text::copy_text(title), Style::of(Color::DarkGray)), row: None },
        );
        assert(sidebar_lines(out@) =~= before.push(title_line(title@)));
        assert(self@.row_lines(all, a as int, a as int, w) =~= Seq::empty());
        assert(before.push(title_line(title@)) + Seq::<SidebarLineView>::empty()
            =~= before.push(title_line(title@)));
        for i in a..b
            invariant
                a <= b <= rows@.len(),
                here@.len() == rows@.len(),
                all == sidebar::rows_view(rows@),
                w == (ListingView {
                    session: composer::opt_text(*session),
                    here: here@,
                    theme: theme@,
                    width: width as int,
                }),
                sidebar_lines(out@) == before.push(title_line(title@)) + self@.row_lines(
                    all,
                    a as int,
                    i as int,
                    w,
                ),
        {
            assert(all[i as int] == rows@[i as int]@);
            let line = self.draw_row(&rows[i], i, session, here, theme, width);
            let ghost list = out@;
            out.push(line);
            assert(sidebar_lines(out@) =~= sidebar_lines(list).push(line@));
            assert(self@.row_lines(all, a as int, i + 1, w) =~= self@.row_lines(
                all,
                a as int,
                i as int,
                w,
            ).push(line@));
        }
        assert(sidebar_lines(out@) =~= before + self@.group(title@, all, a as int, b as int, w));
    }

    /// The lines of the list. `here` tells which rows are the live workspace.
    pub fn sidebar_display(
        &self,
        rows: &Vec<SidebarRow>,
        session: &Option<String>,
        here: &Vec<bool>,
        theme: &str,
        width: usize,
    ) -> (r: Vec<SidebarLine>)
        requires
            here@.len() == rows@.len(),
        ensures
            sidebar_lines(r@) == self@.display(
                sidebar::rows_view(rows@),
                (ListingView {
                    session: composer::opt_text(*session),
                    here: here@,
                    theme: theme@,
                    width: width as int,
                }),
            ),
    {
        let mut out: Vec<SidebarLine> = Vec::new();
        assert(sidebar_lines(out@) =~= Seq::empty());
        assert(sidebar::rows_view(rows@).len() == rows@.len());
        if rows.len() == 0 {
            out.push(
                SidebarLine {
                    line: Line::one(text::copy_text(" (no match)"), Style::of(Color::DarkGray)),
                    row: None,
                },
            );
            assert(sidebar_lines(out@) =~= seq![title_line(" (no match)"@)]);
            return out;
        }
        let split: usize = split_of(rows);
        self.draw_group(&mut out, " SESSIONS ", rows, 0, split, session, here, theme, width);
        self.draw_group(
            &mut out,
            " WORKSPACES ",
            rows,
            split,
            rows.len(),
            session,
            here,
            theme,
            width,
        );
        assert(sidebar_lines(out@) =~= self@.display(
            sidebar::rows_view(rows@),
            ListingView {
                session: composer::opt_text(*session),
                here: here@,
                theme: theme@,
                width: width as int,
            },
        ));
        out
    }
}

impl SidebarView {
    /// Whether a cell belongs to the list.
    pub open spec fn covers(self, column: int, row: int) -> bool {
        self.visible && self.rect.holds(column, row)
    }

    /// The row that a cell within the border belongs to.
    pub open spec fn row_under(self, live: PlaceView, column: int, row: int) -> Option<int> {
        let rows = self.rows(live);
        if self.covers(column, row) && self.rect.y + 1 <= row < self.rect.y + self.rect.height - 1 {
            row_of_line(
                rows.len() as int,
                places_from(rows, 0),
                row - self.rect.y - 1 + self.scroll,
            )
        } else {
            None
        }
    }

    /// A click on the list: selects a row, or opens the selected one.
    pub open spec fn clicked(self, live: PlaceView, column: int, row: int) -> (
        SidebarView,
        SidebarActionView,
    ) {
        match self.row_under(live, column, row) {
            None => (self, SidebarActionView::Stay),
            Some(i) => (
                SidebarView { selected: i, focus: true, ..self },
                if i == self.selected {
                    sidebar::opening(self.rows(live), i)
                } else {
                    SidebarActionView::Stay
                },
            ),
        }
    }
}

/// The first line, from `i` on, of a row; the first line of all where it has none.
pub open spec fn line_of_row(lines: Seq<SidebarLineView>, row: usize, i: int) -> int
    decreases lines.len() - i,
{
    if i < 0 || i >= lines.len() {
        0
    } else if lines[i].row == Some(row) {
        i
    } else {
        line_of_row(lines, row, i + 1)
    }
}

impl SidebarView {
    /// The list about to be drawn in an area: the selection is one of its rows.
    pub open spec fn placed(self, area: Rect, count: int) -> SidebarView {
        SidebarView {
            rect: area,
            selected: if count <= 0 {
                0
            } else {
                paint::least(self.selected, count - 1)
            },
            ..self
        }
    }

    /// The list scrolled so that the line of the selected row is in view.
    pub open spec fn in_view(self, lines: Seq<SidebarLineView>) -> SidebarView {
        SidebarView {
            scroll: panels::scroll_for(
                line_of_row(lines, self.selected as usize, 0),
                self.scroll,
                panels::room_in(self.rect.height),
                lines.len() as int,
            ),
            ..self
        }
    }
}

impl Sidebar {
    /// Keeps where the list of `count` rows is drawn, and the selection within its rows.
    pub fn place(&mut self, area: Rect, count: usize)
        ensures
            final(self)@ == old(self)@.placed(area, count as int),
    {
        self.rect = area;
        if count == 0 {
            self.selected = 0;
        } else if self.selected > count - 1 {
            self.selected = count - 1;
        }
    }

    /// Scrolls the list so that the line of the selected row is in view.
    pub fn bring_into_view(&mut self, lines: &Vec<SidebarLine>)
        ensures
            final(self)@ == old(self)@.in_view(sidebar_lines(lines@)),
    {
        let ghost all = sidebar_lines(lines@);
        let mut at: usize = 0;
        let mut i: usize = 0;
        let mut found = false;
        while i < lines.len() && !found
            invariant
                all == sidebar_lines(lines@),
                i <= lines@.len(),
                found ==> at == line_of_row(all, self.selected, 0),
                !found ==> at == 0 && line_of_row(all, self.selected, 0) == line_of_row(
                    all,
                    self.selected,
                    i as int,
                ),
            decreases lines.len() - i + (if found {
                0int
            } else {
                1int
            }),
        {
            assert(all[i as int] == lines@[i as int]@);
            match lines[i].row {
                Some(row) if row == self.selected => {
                    at = i;
                    found = true;
                },
                _ => {
                    i = i + 1;
                },
            }
        }
        self.scroll =
        panels::ensure_visible(at, self.scroll, panels::viewport_of(self.rect.height), lines.len());
    }

    /// Whether a click lands on the list.
    pub fn sidebar_hit(&self, column: u16, row: u16) -> (r: bool)
        ensures
            r == self@.covers(column as int, row as int),
    {
        self.visible && self.rect.contains(column, row)
    }

    fn find_row(&self, live: &Place, column: u16, row: u16) -> (r: Option<usize>)
        requires
            self.scroll <= usize::MAX - 0xffff,
        ensures
            match r {
                Some(i) => self@.row_under(live@, column as int, row as int) == Some(i as int),
                None => self@.row_under(live@, column as int, row as int) is None,
            },
    {
        if !self.sidebar_hit(column, row) || row <= self.rect.y || self.rect.height < 1 || row as u32
            >= self.rect.y as u32 + (self.rect.height - 1) as u32 {
            return None;
        }
        let rows = self.sidebar_rows(live);
        assert(sidebar::rows_view(rows@).len() == rows@.len());
        let split: usize = split_of(&rows);
        let line: usize = (row - self.rect.y - 1) as usize + self.scroll;
        row_at_line(rows.len(), split, line)
    }

    /// Takes a click on the list. Says what the list asks for.
    pub fn sidebar_click(&mut self, live: &Place, column: u16, row: u16) -> (r: SidebarAction)
        requires
            old(self).scroll <= usize::MAX - 0xffff,
        ensures
            (final(self)@, r@) == old(self)@.clicked(live@, column as int, row as int),
    {
        match self.find_row(live, column, row) {
            None => SidebarAction::Stay,
            Some(i) => {
                let again = i == self.selected;
                let action = if again {
                    self.sidebar_open_selected(live)
                } else {
                    SidebarAction::Stay
                };
                self.selected = i;
                self.focus = true;
                action
            },
        }
    }
}

} // verus!
