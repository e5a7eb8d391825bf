//! The mouse in the window: the bar of tabs, the list beside the panes, the panel of an open
//! search, and the panes.

use crate::desk;
use crate::mouse::{Mouse, MouseKind};
use crate::paint::Rect;
use crate::palette::{ItemView, PaletteItem};
use crate::palette;
use crate::search::{PanelClick, SearchView};
use crate::search;
use crate::sidebar::{Place, PlaceView};
use crate::text;
use crate::window::{UiApp, WindowAsk, WindowAskView, WindowView};
use crate::window;
use vstd::prelude::*;

verus! {

impl WindowView {
    /// A click on the bar of tabs.
    #[verifier::opaque]
    pub open spec fn bar_clicked(self, column: u16, row: u16) -> Option<WindowView> {
        let names = window::names_of(self.panes);
        if self.bar.plus_at(names, column as int, row as int) {
            Some(self.asking(WindowAskView::NewTab))
        } else if self.bar.cross_at(names, column as int, row as int) {
            Some(self.tab_closed_at(self.bar.active))
        } else {
            match self.bar.chip_at(names, column as int, row as int) {
                Some(i) => Some(self.asking(WindowAskView::SwitchTab(i as usize))),
                None => None,
            }
        }
    }

    /// A click on the list beside the panes.
    #[verifier::opaque]
    pub open spec fn sidebar_clicked(self, live: PlaceView, column: u16, row: u16) -> Option<
        WindowView,
    > {
        if self.sidebar.covers(column as int, row as int) {
            let (sidebar, action) = self.sidebar.clicked(live, column as int, row as int);
            Some(WindowView { sidebar, ..self }.sidebar_asked(action))
        } else {
            None
        }
    }

    /// A click on the panel of an open search.
    #[verifier::opaque]
    pub open spec fn panel_clicked(
        self,
        panel: Option<Rect>,
        column: u16,
        row: u16,
        matches: Seq<Seq<char>>,
        now: u64,
    ) -> Option<WindowView> {
        let p = self.focused();
        match (self.search, panel) {
            (Some(s), Some(a)) => match search::panel_click(
                s,
                a,
                column,
                row,
                matches.len() as int,
            ) {
                PanelClick::Outside => None,
                PanelClick::Takes => Some(
                    WindowView {
                        search: None,
                        ..self.with_pane(self.focus, p.search_closed(s, true, matches, now))
                    },
                ),
                PanelClick::Highlights(i) => {
                    let t = SearchView { selected: i, ..s };
                    Some(
                        WindowView {
                            search: Some(t),
                            ..self.with_pane(
                                self.focus,
                                p.composed(search::previewed(p.composer, t, matches)),
                            )
                        },
                    )
                },
            },
            _ => None,
        }
    }

    /// The wheel turned over the panel of an open search: the highlight moves, and the draft
    /// shows it.
    #[verifier::opaque]
    pub open spec fn panel_wheeled(
        self,
        panel: Option<Rect>,
        m: Mouse,
        matches: Seq<Seq<char>>,
    ) -> Option<WindowView> {
        let p = self.focused();
        match (self.search, panel) {
            (Some(s), Some(a)) => if self.desk.overlay is Closed && a.holds(
                m.column as int,
                m.row as int,
            ) && (m.kind == MouseKind::WheelUp || m.kind == MouseKind::WheelDown) {
                let t = s.wheeled(m.kind == MouseKind::WheelDown, matches.len() as int);
                let shown = if matches.len() == 0 {
                    p.composer
                } else {
                    search::previewed(p.composer, t, matches)
                };
                Some(WindowView { search: Some(t), ..self.with_pane(self.focus, p.composed(shown)) })
            } else {
                None
            },
            _ => None,
        }
    }

    /// The mouse used in a pane: a click in one without the focus gives it the focus.
    #[verifier::opaque]
    pub open spec fn pane_moused(self, m: Mouse, found: Seq<ItemView>) -> WindowView {
        let w = if m.kind == MouseKind::Press {
            match window::first_holding(self.panes, m.column as int, m.row as int, 0) {
                Some(i) => self.focus_moved(i),
                None => self,
            }
        } else {
            self
        };
        w.with_scene(w.focus, w.scene_of(w.focus).moused(m, found))
    }

    /// The mouse used.
    pub open spec fn moused(
        self,
        m: Mouse,
        found: Seq<ItemView>,
        live: PlaceView,
        panel: Option<Rect>,
        matches: Seq<Seq<char>>,
        now: u64,
    ) -> WindowView {
        if let Some(w) = self.panel_wheeled(panel, m, matches) {
            w
        } else if m.kind != MouseKind::Press || !(self.desk.overlay is Closed) {
            self.pane_moused(
                Mouse {
                    kind: if m.kind == MouseKind::Press {
                        MouseKind::Other
                    } else {
                        m.kind
                    },
                    ..m
                },
                found,
            )
        } else if let Some(w) = self.bar_clicked(m.column, m.row) {
            w
        } else if let Some(w) = self.sidebar_clicked(live, m.column, m.row) {
            w
        } else if let Some(w) = self.panel_clicked(panel, m.column, m.row, matches, now) {
            w
        } else {
            self.pane_moused(m, found)
        }
    }
}

impl UiApp {
    fn click_bar(&mut self, column: u16, row: u16) -> (r: bool)
        requires
            old(self).wf(),
        ensures
            final(self).wf(),
            match old(self)@.bar_clicked(column, row) {
                Some(w) => r && final(self)@ == w,
                None => !r && *final(self) == *old(self),
            },
    {
        reveal(WindowView::bar_clicked);
        let names = self.pane_sessions();
        if self.bar.tab_plus_hit(&names, column, row) {
            self.ask(WindowAsk::NewTab);
            return true;
        }
        if let Some(i) = self.bar.tab_close_hit(&names, column, row) {
            self.tab_close_at(i);
            return true;
        }
        if let Some(i) = self.bar.tab_hit(&names, column, row) {
            self.ask(WindowAsk::SwitchTab(i));
            return true;
        }
        false
    }

    fn click_sidebar(&mut self, live: &Place, column: u16, row: u16) -> (r: bool)
        requires
            old(self).wf(),
            old(self).sidebar.scroll <= usize::MAX - 0xffff,
        ensures
            final(self).wf(),
            match old(self)@.sidebar_clicked(live@, column, row) {
                Some(w) => r && final(self)@ == w,
                None => !r && *final(self) == *old(self),
            },
    {
        reveal(WindowView::sidebar_clicked);
        if !self.sidebar.sidebar_hit(column, row) {
            return false;
        }
        let action = self.sidebar.sidebar_click(live, column, row);
        self.ask_sidebar(action);
        true
    }

    fn click_panel(
        &mut self,
        panel: &Option<Rect>,
        column: u16,
        row: u16,
        matches: &Vec<String>,
        now: u64,
    ) -> (r: bool)
        requires
            old(self).wf(),
        ensures
            final(self).wf(),
            match old(self)@.panel_clicked(*panel, column, row, text::texts(matches@), now) {
                Some(w) => r && final(self)@ == w,
                None => !r && final(self)@ == old(self)@ && final(self).sidebar == old(
                    self,
                ).sidebar,
            },
    {
        reveal(WindowView::panel_clicked);
        let ghost before = self@;
        let i: usize = self.focus;
        assert(before.focused() == self.panes@[i as int]@);
        assert(text::texts(matches@).len() == matches@.len());
        match panel {
            None => false,
            Some(a) => match self.hist_search.take() {
                None => false,
                Some(s) => {
                    let (rest, hit) = self.panes[i].click_hist_search(
                        s,
                        *a,
                        column,
                        row,
                        matches,
                        now,
                    );
                    self.hist_search = rest;
                    assert(hit ==> self@.panes =~= before.panel_clicked(
                        *panel,
                        column,
                        row,
                        text::texts(matches@),
                        now,
                    )->0.panes);
                    assert(!hit ==> self@.panes =~= before.panes);
                    hit
                },
            },
        }
    }

    fn wheel_panel(&mut self, panel: &Option<Rect>, m: &Mouse, matches: &Vec<String>) -> (r: bool)
        requires
            old(self).wf(),
        ensures
            final(self).wf(),
            match old(self)@.panel_wheeled(*panel, *m, text::texts(matches@)) {
                Some(w) => r && final(self)@ == w,
                None => !r && *final(self) == *old(self),
            },
    {
        reveal(WindowView::panel_wheeled);
        let ghost before = self@;
        let i: usize = self.focus;
        assert(before.focused() == self.panes@[i as int]@);
        assert(text::texts(matches@).len() == matches@.len());
        let over = match panel {
            Some(a) => a.contains(m.column, m.row),
            None => false,
        };
        let turned = m.kind == MouseKind::WheelUp || m.kind == MouseKind::WheelDown;
        if !over || !turned || !self.desk.overlay_closed() || self.hist_search.is_none() {
            return false;
        }
        if let Some(mut s) = self.hist_search.take() {
            s.hist_wheel(&mut self.panes[i].composer, m.kind == MouseKind::WheelDown, matches);
            self.hist_search = Some(s);
        }
        assert(self@.panes =~= before.panel_wheeled(*panel, *m, text::texts(matches@))->0.panes);
        true
    }

    #[verifier::spinoff_prover]
    fn use_mouse(&mut self, m: &Mouse, found: &Vec<PaletteItem>)
        requires
            old(self).wf(),
        ensures
            final(self).wf(),
            final(self)@ == old(self)@.pane_moused(*m, palette::items_view(found@)),
    {
        reveal(WindowView::pane_moused);
        if m.kind == MouseKind::Press {
            if let Some(i) = self.pane_at(m.column, m.row) {
                self.pane_focus(i);
            }
        }
        let ghost mid = self@;
        let i: usize = self.focus;
        assert(mid.scene_of(i as int) == desk::scene(self.panes@[i as int], self.desk));
        self.panes[i].handle_mouse(&mut self.desk, m, found);
        assert(self@.panes =~= mid.with_scene(
            i as int,
            mid.scene_of(i as int).moused(*m, palette::items_view(found@)),
        ).panes);
    }

    /// Takes what the mouse did. `live` is the workspace of the pane with the focus, and
    /// `matches` are those of an open search.
    pub fn handle_mouse(
        &mut self,
        m: &Mouse,
        found: &Vec<PaletteItem>,
        live: &Place,
        panel: &Option<Rect>,
        matches: &Vec<String>,
        now: u64,
    )
        requires
            old(self).wf(),
            old(self).sidebar.scroll <= usize::MAX - 0xffff,
        ensures
            final(self).wf(),
            final(self)@ == old(self)@.moused(
                *m,
                palette::items_view(found@),
                live@,
                *panel,
                text::texts(matches@),
                now,
            ),
    {
        if self.wheel_panel(panel, m, matches) {
            return;
        }
        if m.kind != MouseKind::Press || !self.desk.overlay_closed() {
            let kind = if m.kind == MouseKind::Press {
                MouseKind::Other
            } else {
                m.kind
            };
            let other = Mouse { kind, column: m.column, row: m.row, shift: m.shift };
            self.use_mouse(&other, found);
            return;
        }
        if self.click_bar(m.column, m.row) {
            return;
        }
        if self.click_sidebar(live, m.column, m.row) {
            return;
        }
        if self.click_panel(panel, m.column, m.row, matches, now) {
            return;
        }
        self.use_mouse(m, found);
    }
}

/// A click never reaches a draft or a transcript through something that lies over the
/// screen.
pub proof fn covered_panes_get_no_clicks(
    w: WindowView,
    m: Mouse,
    found: Seq<ItemView>,
    live: PlaceView,
    panel: Option<Rect>,
    matches: Seq<Seq<char>>,
    now: u64,
)
    requires
        w.valid(),
        m.kind == MouseKind::Press,
        !(w.desk.overlay is Closed),
    ensures
        w.moused(m, found, live, panel, matches, now) == w,
{
    reveal(WindowView::pane_moused);
    reveal(WindowView::panel_wheeled);
    assert(w.panes.update(w.focus, w.focused()) =~= w.panes);
}

/// The wheel over the panel of an open search moves its highlight, and the transcript under
/// it stays where it is.
pub proof fn wheels_over_the_panel_stay_there(
    w: WindowView,
    m: Mouse,
    found: Seq<ItemView>,
    live: PlaceView,
    area: Rect,
    matches: Seq<Seq<char>>,
    now: u64,
)
    requires
        w.valid(),
        w.search is Some,
        w.desk.overlay is Closed,
        m.kind == MouseKind::WheelUp || m.kind == MouseKind::WheelDown,
        area.holds(m.column as int, m.row as int),
    ensures
        ({
            let v = w.moused(m, found, live, Some(area), matches, now);
            &&& v.focused().log == w.focused().log
            &&& v.search == Some(
                w.search->0.wheeled(m.kind == MouseKind::WheelDown, matches.len() as int),
            )
        }),
{
    reveal(WindowView::panel_wheeled);
}

} // verus!
