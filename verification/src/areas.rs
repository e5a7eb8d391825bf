//! Where the parts of the screen go: the list beside the panes, the bar of tabs, the panes,
//! and the parts of each pane.

use ratatui::layout::{Constraint, Direction, Layout};
use crate::desk::{Desk, DeskView, SceneView};
use crate::desk;
use crate::menus;
use crate::paint::Rect;
use crate::paint;
use crate::pane::{DrawnView, Pane, PaneView};
use crate::panels;
use crate::scan;
use crate::sidebar::SIDEBAR_WIDTH;
use crate::text;
use crate::window::{UiApp, WindowView};
use vstd::prelude::*;

verus! {

/// How much of an area a part gets.
#[derive(Debug, Clone, Copy, PartialEq, Eq, Structural)]
pub enum Part {
    Length(u16),
    Min(u16),
    Share { part: u32, whole: u32 },
}

/// Whether an area can be split into the given ones. How an area is shared out among shares,
/// and among parts that ask for more than there is, is left open.
pub uninterp spec fn may_split(area: Rect, down: bool, parts: Seq<Part>, into: Seq<Rect>) -> bool;

/// Whether an area lies within another one.
pub open spec fn within(r: Rect, area: Rect) -> bool {
    &&& area.x <= r.x
    &&& r.x + r.width <= area.x + area.width
    &&& area.y <= r.y
    &&& r.y + r.height <= area.y + area.height
}

/// What the first `n` parts ask for at least.
pub open spec fn asked(parts: Seq<Part>, n: int) -> int
    decreases n,
{
    if n <= 0 {
        0
    } else {
        asked(parts, n - 1) + match parts[n - 1] {
            Part::Length(size) => size as int,
            Part::Min(size) => size as int,
            Part::Share { .. } => 0,
        }
    }
}

/// Whether the part at `k` takes what is left by the others, which have a length each.
pub open spec fn grows(parts: Seq<Part>, k: int) -> bool {
    &&& 0 <= k < parts.len()
    &&& parts[k] matches Part::Min(size) && size <= 0x7fff
    &&& forall|i: int| 0 <= i < parts.len() && i != k ==> #[trigger] parts[i] is Length
}

/// Where an area begins in the direction of a split.
pub open spec fn start_of(r: Rect, down: bool) -> int {
    if down {
        r.y as int
    } else {
        r.x as int
    }
}

/// How far an area reaches in the direction of a split.
pub open spec fn size_of(r: Rect, down: bool) -> int {
    if down {
        r.height as int
    } else {
        r.width as int
    }
}

/// Whether there is room for what all parts ask for.
pub open spec fn fits(area: Rect, down: bool, parts: Seq<Part>) -> bool {
    &&& asked(parts, parts.len() as int) <= size_of(area, down)
    &&& start_of(area, down) + size_of(area, down) <= u16::MAX
}

/// Whether areas fill the whole one after another.
pub open spec fn in_turn(area: Rect, down: bool, into: Seq<Rect>) -> bool {
    &&& into.len() > 0 ==> start_of(into[0], down) == start_of(area, down)
    &&& forall|i: int|
        0 <= i < into.len() - 1 ==> start_of(#[trigger] into[i], down) + size_of(into[i], down) == start_of(
            into[i + 1],
            down,
        )
    &&& into.len() > 0 ==> start_of(into.last(), down) + size_of(into.last(), down) == start_of(
        area,
        down,
    ) + size_of(area, down)
}

/// `ratatui::layout::Layout::split`: splits an area downwards or sideways into as many areas
/// as there are parts, each within the whole. Across the direction of the split each has the
/// extent of the whole. Where one part takes what the others leave, and there is room for
/// all, the others have their lengths and the areas fill the whole one after another. What
/// shares get, and what is given up where there is too little room, is left to the solver of
/// the layout, and is not said here.
#[verifier::external_body]
fn split_area(area: Rect, down: bool, parts: &Vec<Part>) -> (r: Vec<Rect>)
    requires
        forall|i: int|
            0 <= i < parts@.len() ==> (#[trigger] parts@[i] matches Part::Share { whole, .. }
                ==> whole > 0),
    ensures
        may_split(area, down, parts@, r@),
        r@.len() == parts@.len(),
        forall|i: int| 0 <= i < r@.len() ==> within(#[trigger] r@[i], area),
        forall|i: int|
            0 <= i < r@.len() ==> if down {
                (#[trigger] r@[i]).x == area.x && r@[i].width == area.width
            } else {
                r@[i].y == area.y && r@[i].height == area.height
            },
        forall|k: int| #[trigger]
            grows(parts@, k) && fits(area, down, parts@) ==> in_turn(area, down, r@) && forall|i: int|
                0 <= i < r@.len() && i != k ==> (parts@[i] matches Part::Length(size) && size_of(
                    #[trigger] r@[i],
                    down,
                ) == size),
{
    let rules = parts.iter().map(|part| match part {
        Part::Length(n) => Constraint::Length(*n),
        Part::Min(n) => Constraint::Min(*n),
        Part::Share { part, whole } => Constraint::Ratio(*part, *whole),
    });
    let direction = match down {
        true => Direction::Vertical,
        false => Direction::Horizontal,
    };
    let Rect { x, y, width, height } = area;
    let list = Layout::new(direction, rules).split(ratatui::layout::Rect { x, y, width, height });
    list.iter().map(|r| Rect { x: r.x, y: r.y, width: r.width, height: r.height }).collect()
}

// ---------------------------------------------------------------------------
// The window
// ---------------------------------------------------------------------------

/// How wide the list beside the panes is on a screen: two fifths of it at most, and never
/// less than it takes to read a name.
pub open spec fn side_width(width: u16) -> int {
    let w = paint::least(SIDEBAR_WIDTH as int, width as int * 40 / 100);
    if w < 20 {
        20
    } else {
        w
    }
}

/// How the screen is shared with the list.
pub open spec fn side_parts(width: u16) -> Seq<Part> {
    seq![Part::Length(side_width(width) as u16), Part::Min(20)]
}

/// How the bar and the panes share the rest.
pub open spec fn bar_parts() -> Seq<Part> {
    seq![Part::Length(1), Part::Min(3)]
}

/// How panes share their space.
pub open spec fn pane_parts(count: int) -> Seq<Part> {
    Seq::new(count as nat, |i: int| Part::Share { part: 1, whole: count as u32 })
}

/// Where the parts of the window go. `screen` is what the list leaves.
#[derive(Debug, PartialEq, Eq)]
pub struct WindowAreas {
    pub sidebar: Option<Rect>,
    pub screen: Rect,
    pub bar: Rect,
    pub content: Rect,
    pub panes: Vec<Rect>,
}

/// Whether the list is drawn: narrow screens keep their width for the conversation.
pub open spec fn side_drawn(visible: bool, width: u16) -> bool {
    visible && width >= 50
}

/// Whether the list stands at its width before the rest of an area.
pub open spec fn beside(area: Rect, side: Rect, rest: Rect) -> bool {
    &&& side.x == area.x
    &&& side.width == side_width(area.width)
    &&& rest.x == side.x + side.width
    &&& rest.width == area.width - side.width
}

/// Whether the bar stands in one row over the rest of an area.
pub open spec fn above(area: Rect, bar: Rect, rest: Rect) -> bool {
    &&& bar.y == area.y
    &&& bar.height == 1
    &&& rest.y == area.y + 1
    &&& rest.height == area.height - 1
}

fn split_side(area: Rect) -> (r: (Rect, Rect))
    ensures
        may_split(area, false, side_parts(area.width), seq![r.0, r.1]),
        within(r.0, area) && within(r.1, area),
        r.0.y == area.y && r.0.height == area.height,
        r.1.y == area.y && r.1.height == area.height,
        area.width >= 50 && area.x + area.width <= u16::MAX ==> beside(area, r.0, r.1),
{
    let share: u32 = area.width as u32 * 40 / 100;
    let width: u16 = if share < 20 {
        20
    } else if share < SIDEBAR_WIDTH as u32 {
        share as u16
    } else {
        SIDEBAR_WIDTH
    };
    let mut parts: Vec<Part> = Vec::new();
    parts.push(Part::Length(width));
    parts.push(Part::Min(20));
    assert(parts@ =~= side_parts(area.width));
    let list = split_area(area, false, &parts);
    assert(list@ =~= seq![list@[0], list@[1]]);
    proof {
        reveal_with_fuel(asked, 3);
        assert(grows(parts@, 1));
    }
    (list[0], list[1])
}

fn split_bar(area: Rect) -> (r: (Rect, Rect))
    ensures
        may_split(area, true, bar_parts(), seq![r.0, r.1]),
        within(r.0, area) && within(r.1, area),
        r.0.x == area.x && r.0.width == area.width,
        r.1.x == area.x && r.1.width == area.width,
        area.height >= 4 && area.y + area.height <= u16::MAX ==> above(area, r.0, r.1),
{
    let mut parts: Vec<Part> = Vec::new();
    parts.push(Part::Length(1));
    parts.push(Part::Min(3));
    assert(parts@ =~= bar_parts());
    let list = split_area(area, true, &parts);
    assert(list@ =~= seq![list@[0], list@[1]]);
    proof {
        reveal_with_fuel(asked, 3);
        assert(grows(parts@, 1));
    }
    (list[0], list[1])
}

fn split_panes(area: Rect, count: u32) -> (r: Vec<Rect>)
    requires
        count > 0,
    ensures
        may_split(area, false, pane_parts(count as int), r@),
        r@.len() == count,
        forall|i: int| 0 <= i < r@.len() ==> within(#[trigger] r@[i], area),
        forall|i: int|
            0 <= i < r@.len() ==> (#[trigger] r@[i]).y == area.y && r@[i].height == area.height,
{
    let mut parts: Vec<Part> = Vec::new();
    for i in 0..count
        invariant
            parts@ == Seq::new(i as nat, |k: int| Part::Share { part: 1, whole: count }),
    {
        parts.push(Part::Share { part: 1, whole: count });
    }
    assert(parts@ =~= pane_parts(count as int));
    split_area(area, false, &parts)
}

/// Finds where the parts of the window go.
pub fn window_areas(area: Rect, sidebar_visible: bool, panes: u32) -> (r: WindowAreas)
    requires
        panes > 0,
    ensures
        r.sidebar is Some == side_drawn(sidebar_visible, area.width),
        match r.sidebar {
            Some(side) => may_split(area, false, side_parts(area.width), seq![side, r.screen]),
            None => r.screen == area,
        },
        may_split(r.screen, true, bar_parts(), seq![r.bar, r.content]),
        r.panes@.len() == panes,
        if panes == 1 {
            r.panes@ == seq![r.content]
        } else {
            may_split(r.content, false, pane_parts(panes as int), r.panes@)
        },
        r.sidebar matches Some(side) ==> within(side, area),
        within(r.screen, area) && within(r.bar, area) && within(r.content, area),
        forall|i: int| 0 <= i < r.panes@.len() ==> within(#[trigger] r.panes@[i], area),
        r.bar.x == r.screen.x && r.bar.width == r.screen.width,
        area.x + area.width <= u16::MAX ==> (r.sidebar matches Some(side) ==> beside(
            area,
            side,
            r.screen,
        )),
        r.screen.y == area.y && r.screen.height == area.height,
        area.height >= 4 && area.y + area.height <= u16::MAX ==> above(area, r.bar, r.content),
        forall|i: int|
            0 <= i < r.panes@.len() ==> (#[trigger] r.panes@[i]).y == r.content.y && r.panes@[i].height
                == r.content.height,
{
    let (sidebar, screen) = if sidebar_visible && area.width >= 50 {
        let (side, rest) = split_side(area);
        (Some(side), rest)
    } else {
        (None, area)
    };
    let (bar, content) = split_bar(screen);
    let list = if panes == 1 {
        let mut one: Vec<Rect> = Vec::new();
        one.push(content);
        assert(one@ =~= seq![content]);
        one
    } else {
        split_panes(content, panes)
    };
    WindowAreas { sidebar, screen, bar, content, panes: list }
}

// ---------------------------------------------------------------------------
// A pane
// ---------------------------------------------------------------------------

/// What is left of a pane within its frame.
pub open spec fn framed_inside(r: Rect) -> Rect {
    Rect {
        x: (if r.width < 2 {
            0
        } else if r.x < u16::MAX {
            r.x + 1
        } else {
            u16::MAX as int
        }) as u16,
        y: (r.y + 1) as u16,
        width: (if r.width < 2 {
            0
        } else {
            r.width - 2
        }) as u16,
        height: (if r.height < 2 {
            0
        } else {
            r.height - 2
        }) as u16,
    }
}

/// What is left of a pane within its frame.
pub fn inside_frame(r: Rect) -> (s: Rect)
    requires
        r.y < u16::MAX,
    ensures
        s == framed_inside(r),
{
    Rect {
        x: if r.width < 2 {
            0
        } else if r.x < u16::MAX {
            r.x + 1
        } else {
            u16::MAX
        },
        y: r.y + 1,
        width: if r.width < 2 {
            0
        } else {
            r.width - 2
        },
        height: if r.height < 2 {
            0
        } else {
            r.height - 2
        },
    }
}

/// How high the parts of a pane are that do not take what is left.
#[derive(Debug, Clone, Copy, PartialEq, Eq, Structural)]
pub struct BodyHeights {
    pub palette: u16,
    pub complete: u16,
    pub composer: u16,
}

/// How high the frame of a list with `count` rows is; a list without rows takes no space.
pub open spec fn list_height(count: int) -> int {
    if count == 0 {
        0
    } else {
        paint::least(count, 8) + 2
    }
}

fn height_of_list(count: usize) -> (r: u16)
    ensures
        r == list_height(count as int),
{
    if count == 0 {
        0
    } else if count <= 8 {
        count as u16 + 2
    } else {
        10
    }
}

/// How high the draft is: its lines and the rule above it, within bounds.
pub open spec fn composer_height(text: Seq<char>) -> int {
    let n = scan::lines(text).len() as int;
    if n <= 1 {
        2
    } else if n >= 6 {
        7
    } else {
        n + 1
    }
}

/// The largest of four numbers.
pub open spec fn largest(a: int, b: int, c: int, d: int) -> int {
    let x = if a >= b {
        a
    } else {
        b
    };
    let y = if c >= d {
        c
    } else {
        d
    };
    if x >= y {
        x
    } else {
        y
    }
}

impl SceneView {
    /// How high the parts of a pane are. The list of commands shows only over a clear
    /// screen while one is being typed; the menus and the matches share one place.
    pub open spec fn body_heights(
        self,
        commands: int,
        files: int,
        values: int,
        candidates: int,
        matches: int,
    ) -> BodyHeights {
        BodyHeights {
            palette: (if self.desk.overlay is Closed && menus::is_palette(self.pane.composer.text) {
                list_height(commands)
            } else {
                0
            }) as u16,
            complete: list_height(largest(files, values, candidates, matches)) as u16,
            composer: composer_height(self.pane.composer.text) as u16,
        }
    }
}

/// How the parts of a pane share its space: the conversation, the list of commands, the
/// menus, the draft and the footer.
pub open spec fn body_parts(h: BodyHeights) -> Seq<Part> {
    seq![
        Part::Min(3),
        Part::Length(h.palette),
        Part::Length(h.complete),
        Part::Length(h.composer),
        Part::Length(2),
    ]
}

/// How many rows a pane needs for all its parts.
pub open spec fn body_needs(h: BodyHeights) -> int {
    3 + h.palette + h.complete + h.composer + 2
}

/// Finds where the parts of a pane go.
pub fn body_areas(area: Rect, h: BodyHeights) -> (r: Vec<Rect>)
    ensures
        may_split(area, true, body_parts(h), r@),
        r@.len() == 5,
        forall|i: int| 0 <= i < 5 ==> within(#[trigger] r@[i], area),
        forall|i: int| 0 <= i < 5 ==> (#[trigger] r@[i]).x == area.x && r@[i].width == area.width,
        body_needs(h) <= area.height && area.y + area.height <= u16::MAX ==> {
            &&& r@[1].height == h.palette
            &&& r@[2].height == h.complete
            &&& r@[3].height == h.composer
            &&& r@[4].height == 2
            &&& in_turn(area, true, r@)
        },
{
    let mut parts: Vec<Part> = Vec::new();
    parts.push(Part::Min(3));
    parts.push(Part::Length(h.palette));
    parts.push(Part::Length(h.complete));
    parts.push(Part::Length(h.composer));
    parts.push(Part::Length(2));
    assert(parts@ =~= body_parts(h));
    proof {
        reveal_with_fuel(asked, 6);
        assert(grows(parts@, 0));
    }
    split_area(area, true, &parts)
}

/// How many rows the lists of a pane have.
#[derive(Debug, Clone, Copy, PartialEq, Eq, Structural)]
pub struct ListCounts {
    pub commands: usize,
    pub files: usize,
    pub values: usize,
    pub candidates: usize,
    pub matches: usize,
}

impl WindowView {
    /// How many rows the lists of a pane have, given how many commands fit its draft and how
    /// many lines an open search found. Only the pane with the focus shows any; candidates
    /// show once they were asked for.
    pub open spec fn list_counts(self, at: int, commands: usize, matches: usize) -> ListCounts {
        let p = self.panes[at];
        if at != self.focus {
            ListCounts { commands: 0, files: 0, values: 0, candidates: 0, matches: 0 }
        } else {
            ListCounts {
                commands,
                files: p.at_menu.items.len() as usize,
                values: p.arg_menu.items.len() as usize,
                candidates: (if p.sh_menu.invoked {
                    p.sh_menu.items.len()
                } else {
                    0
                }) as usize,
                matches: if self.search is Some {
                    matches
                } else {
                    0
                },
            }
        }
    }
}

impl UiApp {
    /// Which panes are drawn, from left to right: all of them, or the one with the focus
    /// alone.
    pub fn drawn_panes(&self) -> (r: Vec<usize>)
        requires
            self.wf(),
        ensures
            r@ == (if self@.bar.shown().zoomed {
                seq![self@.focus as usize]
            } else {
                Seq::new(self@.panes.len(), |i: int| i as usize)
            }),
    {
        let mut r: Vec<usize> = Vec::new();
        if self.bar.pane_zoomed() {
            r.push(self.focus);
            assert(r@ =~= seq![self@.focus as usize]);
        } else {
            for i in 0..self.panes.len()
                invariant
                    r@ == Seq::new(i as nat, |k: int| k as usize),
            {
                r.push(i);
                assert(r@ =~= Seq::new((i + 1) as nat, |k: int| k as usize));
            }
            assert(self@.panes.len() == self.panes@.len());
        }
        r
    }

    /// How many rows the lists of a pane have.
    pub fn list_counts(&self, at: usize, commands: usize, matches: usize) -> (r: ListCounts)
        requires
            at < self.panes@.len(),
        ensures
            r == self@.list_counts(at as int, commands, matches),
    {
        assert(self@.panes[at as int] == self.panes@[at as int]@);
        if at != self.focus {
            return ListCounts { commands: 0, files: 0, values: 0, candidates: 0, matches: 0 };
        }
        let pane = &self.panes[at];
        ListCounts {
            commands,
            files: pane.at_menu.items.len(),
            values: pane.arg_menu.items.len(),
            candidates: if pane.sh_menu.invoked {
                pane.sh_menu.items.len()
            } else {
                0
            },
            matches: if self.hist_search.is_some() {
                matches
            } else {
                0
            },
        }
    }
}

/// What is drawn in the place that the menus share.
#[derive(Debug, Clone, Copy, PartialEq, Eq, Structural)]
pub enum MenuShown {
    Nothing,
    Matches,
    Files,
    Values,
    Candidates,
}

/// What is drawn in the place that the menus share: an open search before the menus.
pub open spec fn menu_shown(
    searching: bool,
    files: int,
    values: int,
    candidates: int,
    matches: int,
) -> MenuShown {
    if largest(files, values, candidates, matches) == 0 {
        MenuShown::Nothing
    } else if searching {
        MenuShown::Matches
    } else if files > 0 {
        MenuShown::Files
    } else if values > 0 {
        MenuShown::Values
    } else if candidates > 0 {
        MenuShown::Candidates
    } else {
        MenuShown::Nothing
    }
}

/// What is drawn in the place that the menus share.
pub fn which_menu(
    searching: bool,
    files: usize,
    values: usize,
    candidates: usize,
    matches: usize,
) -> (r: MenuShown)
    ensures
        r == menu_shown(
            searching,
            files as int,
            values as int,
            candidates as int,
            matches as int,
        ),
{
    if files == 0 && values == 0 && candidates == 0 && matches == 0 {
        MenuShown::Nothing
    } else if searching {
        MenuShown::Matches
    } else if files > 0 {
        MenuShown::Files
    } else if values > 0 {
        MenuShown::Values
    } else if candidates > 0 {
        MenuShown::Candidates
    } else {
        MenuShown::Nothing
    }
}

impl PaneView {
    /// Where the parts of the pane were drawn.
    pub open spec fn placed(
        self,
        frame: Rect,
        areas: Seq<Rect>,
        h: BodyHeights,
        commands: int,
    ) -> PaneView {
        PaneView {
            drawn: DrawnView {
                frame,
                transcript: areas[0],
                height: areas[0].height,
                composer: areas[3],
                palette: if h.palette > 0 {
                    Some(areas[1])
                } else {
                    None
                },
                palette_count: commands,
                ..self.drawn
            },
            ..self
        }
    }
}

impl Pane {
    /// How high the parts of the pane are.
    pub fn body_heights(
        &self,
        desk: &Desk,
        commands: usize,
        files: usize,
        values: usize,
        candidates: usize,
        matches: usize,
    ) -> (r: BodyHeights)
        requires
            self.wf(),
        ensures
            r == desk::scene(*self, *desk).body_heights(
                commands as int,
                files as int,
                values as int,
                candidates as int,
                matches as int,
            ),
    {
        let palette: u16 = if desk.overlay_closed() && self.composer.is_palette_query() {
            height_of_list(commands)
        } else {
            0
        };
        let x: usize = if files >= values {
            files
        } else {
            values
        };
        let y: usize = if candidates >= matches {
            candidates
        } else {
            matches
        };
        let rows: usize = if x >= y {
            x
        } else {
            y
        };
        let list = scan::text_lines(self.composer.input.as_str());
        assert(text::texts(list@).len() == list@.len());
        let composer: u16 = if list.len() <= 1 {
            2
        } else if list.len() >= 6 {
            7
        } else {
            list.len() as u16 + 1
        };
        BodyHeights { palette, complete: height_of_list(rows), composer }
    }

    /// Keeps where the parts of the pane were drawn.
    pub fn place_body(&mut self, frame: Rect, areas: &Vec<Rect>, h: BodyHeights, commands: usize)
        requires
            areas@.len() == 5,
        ensures
            final(self)@ == old(self)@.placed(frame, areas@, h, commands as int),
            old(self).wf() ==> final(self).wf(),
    {
        self.drawn.frame = frame;
        self.drawn.transcript = areas[0];
        self.drawn.transcript_height = areas[0].height;
        self.drawn.composer = areas[3];
        self.drawn.palette = if h.palette > 0 {
            Some(areas[1])
        } else {
            None
        };
        self.drawn.palette_count = commands;
    }
}

impl DeskView {
    /// The selection in a list of `count` commands kept within its rows, and in view in a
    /// frame of the given height.
    pub open spec fn palette_clamped(self, count: int, height: u16) -> DeskView {
        if count <= 0 {
            self
        } else {
            let at = paint::least(self.palette_selected, count - 1);
            DeskView {
                palette_selected: at,
                palette_scroll: panels::scroll_for(
                    at,
                    self.palette_scroll,
                    panels::room_in(height),
                    count,
                ),
                ..self
            }
        }
    }
}

impl Desk {
    /// Keeps the selection in the list of commands within its rows, and in view in a frame
    /// of the given height.
    pub fn clamp_palette(&mut self, count: usize, height: u16)
        ensures
            final(self)@ == old(self)@.palette_clamped(count as int, height),
            old(self).wf() ==> final(self).wf(),
    {
        if count == 0 {
            return;
        }
        if self.palette_selected > count - 1 {
            self.palette_selected = count - 1;
        }
        self.palette_scroll =
        panels::ensure_visible(
            self.palette_selected,
            self.palette_scroll,
            panels::viewport_of(height),
            count,
        );
    }
}

/// The draft always has room for a line under its rule, and never more than six; a list
/// never has more than eight rows in view.
pub proof fn heights_are_bounded(
    s: SceneView,
    commands: int,
    files: int,
    values: int,
    candidates: int,
    matches: int,
)
    requires
        commands >= 0,
        files >= 0,
        values >= 0,
        candidates >= 0,
        matches >= 0,
    ensures
        2 <= s.body_heights(commands, files, values, candidates, matches).composer <= 7,
        s.body_heights(commands, files, values, candidates, matches).palette <= 10,
        s.body_heights(commands, files, values, candidates, matches).complete <= 10,
{
}

} // verus!
