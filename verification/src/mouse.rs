//! The mouse in a pane: the wheel, and clicks on the list of commands, the draft and the
//! titles of sections.

use crate::composer;
use crate::desk::{Desk, DeskView, SceneView};
use crate::desk;
use crate::menus::MenuView;
use crate::paint::Rect;
use crate::palette::{ItemView, PaletteItem};
use crate::palette;
use crate::pane::{Pane, PaneView};
use crate::pane;
use crate::scan;
use crate::text;
use crate::transcript;
use vstd::prelude::*;

verus! {

/// What the mouse did.
#[derive(Debug, Clone, Copy, PartialEq, Eq, Structural)]
pub enum MouseKind {
    WheelUp,
    WheelDown,
    Press,
    Other,
}

/// A thing the mouse did at a cell.
#[derive(Debug, Clone, Copy, PartialEq, Eq, Structural)]
pub struct Mouse {
    pub kind: MouseKind,
    pub column: u16,
    pub row: u16,
    pub shift: bool,
}

/// How many lines a turn of the wheel scrolls.
pub open spec fn wheel_step(shift: bool) -> int {
    if shift {
        12
    } else {
        4
    }
}

/// The row within the border that a cell of a framed list belongs to.
pub open spec fn framed_row(r: Rect, column: u16, row: u16) -> Option<int> {
    let offset = if row >= r.y + 1 {
        row - r.y - 1
    } else {
        0
    };
    if !r.holds(column as int, row as int) || offset >= r.height - 2 {
        None
    } else {
        Some(offset)
    }
}

/// The item of a framed list with `count` items, drawn from item `scroll` on, at a cell.
pub open spec fn framed_item(r: Rect, column: u16, row: u16, scroll: int, count: int) -> Option<
    int,
> {
    match framed_row(r, column, row) {
        Some(k) => if scroll + k < count {
            Some(scroll + k)
        } else {
            None
        },
        None => None,
    }
}

/// The item of a framed list with `count` items, drawn from item `scroll` on, at a cell.
pub fn item_at(r: Rect, column: u16, row: u16, scroll: usize, count: usize) -> (o: Option<usize>)
    ensures
        match o {
            Some(i) => framed_item(r, column, row, scroll as int, count as int) == Some(i as int)
                && i < count,
            None => framed_item(r, column, row, scroll as int, count as int) is None,
        },
{
    if !r.contains(column, row) {
        return None;
    }
    let offset: u16 = if row > r.y {
        row - r.y - 1
    } else {
        0
    };
    if r.height < 2 || offset >= r.height - 2 || scroll >= count || offset as usize >= count
        - scroll {
        return None;
    }
    Some(scroll + offset as usize)
}

/// The place in `s`, from `k` on, where the cells drawn reach `target`: a line has `width`
/// cells, and a line break fills up the rest of its line.
pub open spec fn reached(s: Seq<char>, k: int, drawn: int, target: int, width: int) -> int
    decreases s.len() - k,
{
    if k < 0 || k >= s.len() || drawn >= target {
        k
    } else if s[k] == '\n' {
        reached(s, k + 1, (drawn / width + 1) * width, target, width)
    } else {
        reached(s, k + 1, drawn + 1, target, width)
    }
}

/// The place in the draft under a cell of the frame `r` that it is drawn in, behind its
/// prompt of two characters.
pub open spec fn place_under(text: Seq<char>, r: Rect, column: u16, row: u16) -> int {
    let width = if r.width > 2 {
        r.width - 2
    } else {
        1
    };
    let x = if column >= r.x + 1 {
        column - r.x - 1
    } else {
        0
    };
    let y = if row >= r.y + 1 {
        row - r.y - 1
    } else {
        0
    };
    let k = reached("> "@ + text, 0, 0, y * width + x, width);
    if k >= 2 {
        k - 2
    } else {
        0
    }
}

proof fn reached_within(s: Seq<char>, k: int, drawn: int, target: int, width: int)
    requires
        0 <= k <= s.len(),
    ensures
        k <= reached(s, k, drawn, target, width) <= s.len(),
    decreases s.len() - k,
{
    if k < s.len() && drawn < target {
        if s[k] == '\n' {
            reached_within(s, k + 1, (drawn / width + 1) * width, target, width);
        } else {
            reached_within(s, k + 1, drawn + 1, target, width);
        }
    }
}

/// A click in the draft puts the cursor somewhere in it.
pub proof fn click_stays_within(text: Seq<char>, r: Rect, column: u16, row: u16)
    ensures
        0 <= place_under(text, r, column, row) <= text.len(),
{
    let width = if r.width > 2 {
        r.width - 2
    } else {
        1
    };
    let x = if column >= r.x + 1 {
        column - r.x - 1
    } else {
        0
    };
    let y = if row >= r.y + 1 {
        row - r.y - 1
    } else {
        0
    };
    reveal_strlit("> ");
    reached_within("> "@ + text, 0, 0, y * width + x, width);
}

fn reach(s: &Vec<char>, target: u64, width: u64) -> (r: usize)
    requires
        1 <= width <= 0xffff,
        target <= 0xffff_ffff,
    ensures
        r == reached(s@, 0, 0, target as int, width as int),
        r <= s@.len(),
{
    let mut k: usize = 0;
    let mut drawn: u64 = 0;
    while k < s.len() && drawn < target
        invariant
            k <= s@.len(),
            1 <= width <= 0xffff,
            target <= 0xffff_ffff,
            drawn <= 0x1_ffff_ffff,
            reached(s@, 0, 0, target as int, width as int) == reached(
                s@,
                k as int,
                drawn as int,
                target as int,
                width as int,
            ),
        decreases s@.len() - k,
    {
        if s[k] == '\n' {
            assert((drawn / width) * width <= drawn) by (nonlinear_arith)
                requires
                    width >= 1,
            ;
            assert((drawn / width + 1) * width == (drawn / width) * width + width)
                by (nonlinear_arith);
            drawn = (drawn / width + 1) * width;
        } else {
            drawn = drawn + 1;
        }
        k = k + 1;
    }
    k
}

fn place_at(text: &str, r: Rect, column: u16, row: u16) -> (k: usize)
    ensures
        k == place_under(text@, r, column, row),
        k <= text@.len(),
{
    let width: u64 = if r.width > 2 {
        r.width as u64 - 2
    } else {
        1
    };
    let x: u64 = if column > r.x {
        column as u64 - r.x as u64 - 1
    } else {
        0
    };
    let y: u64 = if row > r.y {
        row as u64 - r.y as u64 - 1
    } else {
        0
    };
    assert(y * width <= 0xffff * 0xffff) by (nonlinear_arith)
        requires
            0 <= y <= 0xffff,
            0 <= width <= 0xffff,
    ;
    let shown = text::to_chars(text::cat2("> ", text).as_str());
    let k: usize = reach(&shown, y * width + x, width);
    proof {
        reveal_strlit("> ");
    }
    if k >= 2 {
        k - 2
    } else {
        0
    }
}

impl SceneView {
    /// A click on the list of commands: selects a row, or takes the selected one.
    pub open spec fn palette_clicked(self, column: u16, row: u16, found: Seq<ItemView>) -> Option<
        SceneView,
    > {
        let d = self.pane.drawn;
        match d.palette {
            None => None,
            Some(r) => match framed_item(r, column, row, self.desk.palette_scroll, d.palette_count) {
                None => None,
                Some(i) => {
                    let rows = palette::palette_rows(
                        found,
                        self.desk.recent,
                        self.pane.settings,
                        self.pane.mode,
                    );
                    Some(
                        if self.desk.palette_selected != i {
                            SceneView {
                                desk: DeskView { palette_selected: i, ..self.desk },
                                ..self
                            }
                        } else if i < rows.len() {
                            SceneView {
                                desk: DeskView { palette_selected: 0, palette_scroll: 0, ..self.desk },
                                pane: self.pane.drafted(rows[i].name + " "@),
                            }
                        } else {
                            self
                        },
                    )
                },
            },
        }
    }
}

impl PaneView {
    /// A click on the draft: moves the cursor there.
    pub open spec fn draft_clicked(self, column: u16, row: u16) -> Option<PaneView> {
        let r = self.drawn.composer;
        if !r.holds(column as int, row as int) {
            None
        } else {
            Some(
                self.composed(
                    self.composer.moved(
                        place_under(self.composer.text, r, column, row),
                    ).walk_ended(true),
                ),
            )
        }
    }

    /// A click on the transcript: opens or closes the section whose title is there.
    pub open spec fn section_clicked(self, column: u16, row: u16) -> PaneView {
        let d = self.drawn;
        let line = d.scroll + (row - d.transcript.y);
        if !d.transcript.holds(column as int, row as int) || line >= d.headers.len() {
            self
        } else {
            match d.headers[line] {
                None => self,
                Some(id) => PaneView {
                    log: self.log.flipped(
                        id,
                        match transcript::section_at(self.log.order, id, 0) {
                            Some(i) => self.log.order[i].1,
                            None => false,
                        },
                        "Section"@,
                    ),
                    ..self
                },
            }
        }
    }
}

impl SceneView {
    /// The mouse used.
    pub open spec fn moused(self, m: Mouse, found: Seq<ItemView>) -> SceneView {
        match m.kind {
            MouseKind::WheelUp => self.with(self.pane.scrolled_by(true, wheel_step(m.shift))),
            MouseKind::WheelDown => self.with(self.pane.scrolled_by(false, wheel_step(m.shift))),
            MouseKind::Press => if !(self.desk.overlay is Closed) {
                self
            } else {
                match self.palette_clicked(m.column, m.row, found) {
                    Some(t) => t,
                    None => match self.pane.draft_clicked(m.column, m.row) {
                        Some(v) => self.with(v),
                        None => self.with(self.pane.section_clicked(m.column, m.row)),
                    },
                }
            },
            MouseKind::Other => self,
        }
    }
}

impl Pane {
    #[verifier::spinoff_prover]
    fn click_palette(
        &mut self,
        desk: &mut Desk,
        column: u16,
        row: u16,
        found: &Vec<PaletteItem>,
    ) -> (r: bool)
        requires
            old(self).wf(),
            old(desk).wf(),
        ensures
            final(self).wf(),
            final(desk).wf(),
            match desk::scene(*old(self), *old(desk)).palette_clicked(column, row, palette::items_view(found@)) {
                Some(t) => r && desk::scene(*final(self), *final(desk)) == t,
                None => !r && *final(self) == *old(self) && *final(desk) == *old(desk),
            },
    {
        let area = match self.drawn.palette {
            None => return false,
            Some(area) => area,
        };
        match item_at(area, column, row, desk.palette_scroll, self.drawn.palette_count) {
            None => false,
            Some(i) => {
                if desk.palette_selected != i {
                    desk.palette_selected = i;
                    return true;
                }
                let rows = palette::palette_items(found, &desk.recent_commands, &self.settings, self.mode);
                assert(palette::items_view(rows@).len() == rows@.len());
                if i < rows.len() {
                    assert(palette::items_view(rows@)[i as int] == rows@[i as int]@);
                    let text = text::cat2(rows[i].name.as_str(), " ");
                    self.draft(text);
                    desk.palette_selected = 0;
                    desk.palette_scroll = 0;
                }
                true
            },
        }
    }

    fn click_composer(&mut self, column: u16, row: u16) -> (r: bool)
        requires
            old(self).wf(),
        ensures
            final(self).wf(),
            match old(self)@.draft_clicked(column, row) {
                Some(v) => r && final(self)@ == v,
                None => !r && *final(self) == *old(self),
            },
    {
        if !self.drawn.composer.contains(column, row) {
            return false;
        }
        let k: usize = place_at(self.composer.input.as_str(), self.drawn.composer, column, row);
        self.composer.move_to(k);
        self.composer.end_history_walk(true);
        true
    }

    fn click_transcript(&mut self, column: u16, row: u16)
        requires
            old(self).wf(),
        ensures
            final(self).wf(),
            final(self)@ == old(self)@.section_clicked(column, row),
    {
        if !self.drawn.transcript.contains(column, row) {
            return;
        }
        let below: usize = (row - self.drawn.transcript.y) as usize;
        let scroll: usize = self.drawn.scroll;
        assert(pane::headers_view(self.drawn.header_rows@).len() == self.drawn.header_rows@.len());
        if scroll >= self.drawn.header_rows.len() || below >= self.drawn.header_rows.len() - scroll {
            return;
        }
        assert(pane::headers_view(self.drawn.header_rows@)[scroll + below] == composer::opt_text(
            self.drawn.header_rows@[scroll + below],
        ));
        let id = composer::copy_opt(&self.drawn.header_rows[scroll + below]);
        if let Some(id) = id {
            let default = match self.log.find_section(id.as_str()) {
                Some(i) => self.log.section_order[i].1,
                None => false,
            };
            self.log.flip_section(id.as_str(), default, "Section");
        }
    }

    /// Takes what the mouse did.
    pub fn handle_mouse(&mut self, desk: &mut Desk, m: &Mouse, found: &Vec<PaletteItem>)
        requires
            old(self).wf(),
            old(desk).wf(),
        ensures
            final(self).wf(),
            final(desk).wf(),
            desk::scene(*final(self), *final(desk)) == desk::scene(*old(self), *old(desk)).moused(
                *m,
                palette::items_view(found@),
            ),
    {
        let step: usize = if m.shift {
            12
        } else {
            4
        };
        match m.kind {
            MouseKind::WheelUp => self.scroll_by(true, step),
            MouseKind::WheelDown => self.scroll_by(false, step),
            MouseKind::Press => {
                if desk.overlay_closed() && !self.click_palette(desk, m.column, m.row, found)
                    && !self.click_composer(m.column, m.row) {
                    self.click_transcript(m.column, m.row);
                }
            },
            MouseKind::Other => {},
        }
    }
}

impl PaneView {
    /// The draft as an editor left it.
    pub open spec fn edited_outside(self, program: Seq<char>, content: Seq<char>) -> PaneView {
        let text = drop_end_breaks(content);
        PaneView { at_menu: MenuView { key: Seq::empty(), ..self.at_menu }, ..self.drafted(text) }
            .said("Draft from "@ + program + " ("@ + scan::decimal(text.len()) + " chars)"@)
    }
}

/// A text without the line breaks at its end.
pub open spec fn drop_end_breaks(s: Seq<char>) -> Seq<char>
    decreases s.len(),
{
    if s.len() > 0 && s.last() == '\n' {
        drop_end_breaks(s.drop_last())
    } else {
        s
    }
}

impl Pane {
    /// Takes the draft as an editor left it.
    pub fn take_edited(&mut self, program: &str, content: &str)
        requires
            old(self).wf(),
        ensures
            final(self).wf(),
            final(self)@ == old(self)@.edited_outside(program@, content@),
    {
        let c = text::to_chars(content);
        let mut end: usize = c.len();
        assert(c@.take(c@.len() as int) =~= c@);
        while end > 0 && c[end - 1] == '\n'
            invariant
                end <= c@.len(),
                drop_end_breaks(c@) == drop_end_breaks(c@.take(end as int)),
            decreases end,
        {
            assert(c@.take(end as int).drop_last() =~= c@.take(end - 1));
            end = end - 1;
        }
        let text = text::slice_text(&c, 0, end);
        assert(text@ =~= c@.take(end as int));
        let count = scan::decimal_text(end as u64);
        self.draft(text);
        self.at_menu.forget();
        self.set_status(text::cat5("Draft from ", program, " (", count.as_str(), " chars)"));
    }
}

} // verus!
