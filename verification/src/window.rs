//! The window: the panes of the shown tab side by side, the bar of tabs, the list beside
//! them, and an open search.

use crate::composer;
use crate::desk::{Desk, DeskView, SceneView};
use crate::pane::{Pane, PaneView};
use crate::pane;
use crate::scan;
use crate::search::{HistSearch, SearchView};
use crate::search;
use crate::settings::{Mode, Settings, SettingsView};
use crate::sidebar::{Sidebar, SidebarAction, SidebarActionView, SidebarView};
use crate::sidebar;
use crate::tabs::{BarView, PaneStub, StubView, TabBar};
use crate::tabs;
use crate::text;
use vstd::prelude::*;

verus! {

/// How many panes a tab shows at most.
pub const MAX_PANES: usize = 4;

/// What the window asks of its surroundings.
pub enum WindowAsk {
    /// Keep the tabs.
    SaveTabs,
    /// Look again at the branch, the custom commands and the saved sessions.
    Refresh,
    /// Save the panes and open a tab.
    NewTab,
    /// Save the panes and show another tab.
    SwitchTab(usize),
    /// Save the panes and close the shown tab.
    CloseTab,
    /// Close the pane with the focus.
    ClosePane,
    /// Look again at the saved sessions.
    ListSessions,
    /// Find the matches of an open search.
    FindMatches,
    /// Do what the list beside the panes asks for.
    Sidebar(SidebarAction),
}

/// What a request of the window holds.
#[verifier::ext_equal]
pub enum WindowAskView {
    SaveTabs,
    Refresh,
    NewTab,
    SwitchTab(usize),
    CloseTab,
    ClosePane,
    ListSessions,
    FindMatches,
    Sidebar(SidebarActionView),
}

impl View for WindowAsk {
    type V = WindowAskView;

    open spec fn view(&self) -> WindowAskView {
        match *self {
            WindowAsk::SaveTabs => WindowAskView::SaveTabs,
            WindowAsk::Refresh => WindowAskView::Refresh,
            WindowAsk::NewTab => WindowAskView::NewTab,
            WindowAsk::SwitchTab(i) => WindowAskView::SwitchTab(i),
            WindowAsk::CloseTab => WindowAskView::CloseTab,
            WindowAsk::ClosePane => WindowAskView::ClosePane,
            WindowAsk::ListSessions => WindowAskView::ListSessions,
            WindowAsk::FindMatches => WindowAskView::FindMatches,
            WindowAsk::Sidebar(a) => WindowAskView::Sidebar(a@),
        }
    }
}

/// What the requests of a list hold.
pub open spec fn asks_view(list: Seq<WindowAsk>) -> Seq<WindowAskView> {
    list.map_values(|a: WindowAsk| a@)
}

/// What the panes of a list hold.
pub open spec fn pane_views(list: Seq<Pane>) -> Seq<PaneView> {
    list.map_values(|p: Pane| p@)
}

/// The window.
pub struct UiApp {
    pub panes: Vec<Pane>,
    pub focus: usize,
    pub desk: Desk,
    pub bar: TabBar,
    pub sidebar: Sidebar,
    pub hist_search: Option<HistSearch>,
    pub next_pane_id: u64,
    /// What a pane without a session begins with.
    pub base: Settings,
    pub base_mode: Mode,
    /// What the window asks of its surroundings, oldest first.
    pub asks: Vec<WindowAsk>,
}

/// What the window holds.
pub struct WindowView {
    pub panes: Seq<PaneView>,
    pub focus: int,
    pub desk: DeskView,
    pub bar: BarView,
    pub sidebar: SidebarView,
    pub search: Option<SearchView>,
    pub next_id: int,
    pub base: SettingsView,
    pub base_mode: Mode,
    pub asks: Seq<WindowAskView>,
}

impl View for UiApp {
    type V = WindowView;

    open spec fn view(&self) -> WindowView {
        WindowView {
            panes: pane_views(self.panes@),
            focus: self.focus as int,
            desk: self.desk@,
            bar: self.bar@,
            sidebar: self.sidebar@,
            search: search::search_view(self.hist_search),
            next_id: self.next_pane_id as int,
            base: self.base@,
            base_mode: self.base_mode,
            asks: asks_view(self.asks@),
        }
    }
}

/// What a pane is loaded from again.
pub open spec fn stub_of(p: PaneView, i: int) -> StubView {
    StubView { session: p.session, title: tabs::label_or(p.title, i) }
}

/// What panes are loaded from again.
pub open spec fn stubs_of(panes: Seq<PaneView>) -> Seq<StubView> {
    Seq::new(panes.len(), |i: int| stub_of(panes[i], i))
}

/// The names of panes: of their sessions, or else their own.
pub open spec fn names_of(panes: Seq<PaneView>) -> Seq<Seq<char>> {
    Seq::new(
        panes.len(),
        |i: int|
            match panes[i].session {
                Some(name) => name,
                None => tabs::label_or(panes[i].title, i),
            },
    )
}

/// Whether a pane is at work.
pub open spec fn any_busy(panes: Seq<PaneView>) -> bool {
    exists|i: int| 0 <= i < panes.len() && (#[trigger] panes[i]).run.busy
}

impl WindowView {
    /// A pane has the focus.
    pub open spec fn valid(self) -> bool {
        0 <= self.focus < self.panes.len()
    }

    /// The panes have different ids, each given out before the next one to give.
    pub open spec fn ids_given(self) -> bool {
        &&& forall|i: int| 0 <= i < self.panes.len() ==> (#[trigger] self.panes[i]).id < self.next_id
        &&& forall|i: int, j: int|
            0 <= i < j < self.panes.len() ==> (#[trigger] self.panes[i]).id != (#[trigger] self.panes[j]).id
    }

    /// The pane with the focus.
    pub open spec fn focused(self) -> PaneView {
        self.panes[self.focus]
    }

    /// Pane `i` changed.
    pub open spec fn with_pane(self, i: int, v: PaneView) -> WindowView {
        WindowView { panes: self.panes.update(i, v), ..self }
    }

    /// A pane and what it shares.
    pub open spec fn scene_of(self, i: int) -> SceneView {
        SceneView { pane: self.panes[i], desk: self.desk }
    }

    /// A pane and what it shares changed.
    pub open spec fn with_scene(self, i: int, s: SceneView) -> WindowView {
        WindowView { panes: self.panes.update(i, s.pane), desk: s.desk, ..self }
    }

    /// A note in the status line of the pane with the focus.
    pub open spec fn said(self, text: Seq<char>) -> WindowView {
        self.with_pane(self.focus, self.focused().said(text))
    }

    /// Something asked of the surroundings.
    pub open spec fn asking(self, a: WindowAskView) -> WindowView {
        WindowView { asks: self.asks.push(a), ..self }
    }

    /// What the shown tab is loaded from brought up to date.
    pub open spec fn synced(self) -> WindowView {
        WindowView { bar: self.bar.stashed(stubs_of(self.panes), self.focus), ..self }
    }

    /// A fresh pane beside the one with the focus, which gets it.
    pub open spec fn split(self) -> WindowView {
        if self.panes.len() >= MAX_PANES {
            self.said(scan::decimal(MAX_PANES as nat) + " panes is the limit"@)
        } else {
            let p = self.focused();
            let fresh = PaneView {
                title: "session "@ + scan::decimal(self.panes.len() + 1),
                ..pane::fresh_pane(
                    self.next_id as u64,
                    p.settings,
                    p.mode,
                    p.workspace,
                    p.debounce,
                    p.completion_on,
                    p.ai_on,
                )
            };
            WindowView {
                panes: self.panes.insert(self.focus + 1, fresh),
                focus: self.focus + 1,
                search: None,
                next_id: self.next_id + 1,
                ..self
            }.synced().asking(WindowAskView::SaveTabs).said(
                "Split · pane "@ + scan::decimal((self.focus + 2) as nat) + " of "@ + scan::decimal(
                    self.panes.len() + 1,
                ) + " — Ctrl+Shift+←/→ focuses"@,
            )
        }
    }

    /// The pane with the focus closed; the last one of a tab closes with its tab.
    pub open spec fn pane_closed(self) -> WindowView {
        if self.panes.len() <= 1 {
            self.asking(WindowAskView::CloseTab)
        } else if self.focused().run.busy {
            self.said("Busy — finish or cancel first"@)
        } else {
            let left = self.panes.len() - 1;
            let focus = if self.focus >= left {
                left - 1
            } else {
                self.focus
            };
            WindowView { panes: self.panes.remove(self.focus), focus, ..self }.synced().asking(
                WindowAskView::SaveTabs,
            ).said(
                "Closed pane · "@ + scan::decimal((focus + 1) as nat) + " of "@ + scan::decimal(left as nat)
                    + " left"@,
            )
        }
    }

    /// The focus given to another pane.
    pub open spec fn focus_moved(self, i: int) -> WindowView {
        if i >= self.panes.len() || i == self.focus {
            self
        } else {
            WindowView {
                focus: i,
                search: None,
                panes: self.panes.update(i, PaneView { attention: false, ..self.panes[i] }),
                ..self
            }.asking(WindowAskView::Refresh)
        }
    }

    /// The pane before or after the one with the focus, round the ends.
    pub open spec fn next_pane(self, forward: bool) -> int {
        if forward {
            if self.focus + 1 == self.panes.len() {
                0
            } else {
                self.focus + 1
            }
        } else if self.focus == 0 {
            self.panes.len() - 1
        } else {
            self.focus - 1
        }
    }

    /// The focus given to the next pane.
    pub open spec fn focus_stepped(self, forward: bool) -> WindowView {
        if self.panes.len() <= 1 {
            self
        } else {
            let w = self.focus_moved(self.next_pane(forward));
            w.said(
                "Pane "@ + scan::decimal((w.focus + 1) as nat) + " of "@ + scan::decimal(self.panes.len()),
            )
        }
    }

    /// Only the pane with the focus shown, or all of them again.
    pub open spec fn zoom_toggled(self) -> WindowView {
        if self.panes.len() <= 1 {
            self.said("Only pane already fills the tab"@)
        } else {
            let bar = self.bar.zoom_flipped(self.panes.len() as int);
            WindowView { bar, ..self }.said(
                if bar.shown().zoomed {
                    "Pane maximized · Ctrl+Shift+Enter restores"@
                } else {
                    "Pane layout restored"@
                },
            ).asking(WindowAskView::SaveTabs)
        }
    }
}

impl UiApp {
    /// The parts are well-formed, and a pane has the focus.
    pub open spec fn wf(self) -> bool {
        &&& self.focus < self.panes@.len()
        &&& forall|i: int| 0 <= i < self.panes@.len() ==> (#[trigger] self.panes@[i]).wf()
        &&& self.desk.wf()
        &&& self.bar.wf()
        &&& self.hist_search matches Some(s) ==> s.wf()
    }

    /// A window with one pane.
    pub fn new(pane: Pane, desk: Desk, base: Settings, base_mode: Mode) -> (r: UiApp)
        requires
            pane.wf(),
            desk.wf(),
            pane.id < u64::MAX,
        ensures
            r.wf(),
            r@.panes == seq![pane@],
            r@.focus == 0,
            r@.desk == desk@,
            r@.bar == tabs::fresh_bar(),
            r@.search is None,
            r@.next_id == pane.id + 1,
            r@.base == base@,
            r@.base_mode == base_mode,
            r@.asks.len() == 0,
            r@.sidebar == sidebar::hidden_list(),
    {
        let id: u64 = pane.id;
        let mut panes: Vec<Pane> = Vec::new();
        panes.push(pane);
        let r = UiApp {
            panes,
            focus: 0,
            desk,
            bar: TabBar::new(),
            sidebar: Sidebar::new(),
            hist_search: None,
            next_pane_id: id + 1,
            base,
            base_mode,
            asks: Vec::new(),
        };
        assert(r@.panes =~= seq![pane@]);
        r
    }

    pub(crate) fn say(&mut self, text: String)
        requires
            old(self).wf(),
        ensures
            final(self).wf(),
            final(self)@ == old(self)@.said(text@),
            final(self).panes@.len() == old(self).panes@.len(),
    {
        let ghost before = self@;
        let i: usize = self.focus;
        self.panes[i].set_status(text);
        assert(self@.panes =~= before.said(text@).panes);
    }

    pub(crate) fn ask(&mut self, a: WindowAsk)
        ensures
            final(self)@ == old(self)@.asking(a@),
            old(self).wf() ==> final(self).wf(),
            final(self).panes == old(self).panes,
    {
        let ghost before = self@;
        self.asks.push(a);
        assert(self@.asks =~= before.asks.push(a@));
    }

    fn live_stubs(&self) -> (r: Vec<PaneStub>)
        ensures
            tabs::stubs_view(r@) == stubs_of(self@.panes),
    {
        let mut r: Vec<PaneStub> = Vec::new();
        for i in 0..self.panes.len()
            invariant
                r@.len() == i,
                forall|j: int| 0 <= j < i ==> (#[trigger] r@[j])@ == stub_of(self.panes@[j]@, j),
        {
            assert(i < self.panes.len());
            let title = tabs::title_or(self.panes[i].title.as_str(), i);
            let session = composer::copy_opt(&self.panes[i].current_session);
            r.push(PaneStub { session, title });
        }
        assert(tabs::stubs_view(r@) =~= stubs_of(self@.panes));
        r
    }

    /// Brings up to date what the shown tab is loaded from.
    pub fn sync_tab_layout(&mut self)
        requires
            old(self).wf(),
        ensures
            final(self).wf(),
            final(self)@ == old(self)@.synced(),
            final(self).panes == old(self).panes,
    {
        let stubs = self.live_stubs();
        let focus: usize = self.focus;
        self.bar.stash(stubs, focus);
    }

    /// The names of the panes.
    pub fn pane_sessions(&self) -> (r: Vec<String>)
        ensures
            text::texts(r@) == names_of(self@.panes),
    {
        let mut r: Vec<String> = Vec::new();
        for i in 0..self.panes.len()
            invariant
                r@.len() == i,
                forall|j: int| 0 <= j < i ==> (#[trigger] r@[j])@ == names_of(self@.panes)[j],
        {
            assert(i < self.panes.len());
            assert(self@.panes[i as int] == self.panes@[i as int]@);
            let name = match &self.panes[i].current_session {
                Some(name) => text::copy_text(name.as_str()),
                None => tabs::title_or(self.panes[i].title.as_str(), i),
            };
            r.push(name);
        }
        assert(text::texts(r@) =~= names_of(self@.panes));
        r
    }

    /// Whether a pane is at work.
    pub fn panes_busy(&self) -> (r: bool)
        ensures
            r == any_busy(self@.panes),
    {
        for i in 0..self.panes.len()
            invariant
                forall|j: int| 0 <= j < i ==> !(#[trigger] self@.panes[j]).run.busy,
        {
            assert(self@.panes[i as int] == self.panes@[i as int]@);
            if self.panes[i].run.busy {
                return true;
            }
        }
        assert(self@.panes.len() == self.panes@.len());
        false
    }

    /// Puts a fresh pane beside the one with the focus.
    pub fn pane_split(&mut self)
        requires
            old(self).wf(),
            old(self).next_pane_id < u64::MAX,
        ensures
            final(self).wf(),
            final(self)@ == old(self)@.split(),
    {
        let ghost before = self@;
        assert(before.panes.len() == self.panes@.len());
        if self.panes.len() >= MAX_PANES {
            let n = scan::decimal_text(MAX_PANES as u64);
            self.say(text::cat2(n.as_str(), " panes is the limit"));
            return;
        }
        let i: usize = self.focus;
        let id: u64 = self.next_pane_id;
        self.next_pane_id = id + 1;
        let count: usize = self.panes.len() + 1;
        let from = &self.panes[i];
        let mut pane = Pane::new(
            id,
            from.settings.copy(),
            from.mode,
            text::copy_text(from.workspace.as_str()),
            from.ghost_debounce,
            from.completion_on,
            from.ai_suggest_on,
        );
        let number = scan::decimal_text(count as u64);
        pane.title = text::cat2("session ", number.as_str());
        self.panes.insert(i + 1, pane);
        self.focus = i + 1;
        self.hist_search = None;
        assert(self@.panes =~= before.panes.insert(i + 1, pane@));
        self.sync_tab_layout();
        self.ask(WindowAsk::SaveTabs);
        let place = scan::decimal_text((i + 2) as u64);
        let head = text::cat4("Split · pane ", place.as_str(), " of ", number.as_str());
        self.say(text::cat2(head.as_str(), " — Ctrl+Shift+←/→ focuses"));
    }

    /// Closes the pane with the focus. Gives back the pane that was closed, to be saved.
    pub fn pane_close(&mut self) -> (r: Option<Pane>)
        requires
            old(self).wf(),
        ensures
            final(self).wf(),
            final(self)@ == old(self)@.pane_closed(),
            match r {
                Some(p) => old(self)@.panes.len() > 1 && !old(self)@.focused().run.busy && p@
                    == old(self)@.focused(),
                None => old(self)@.panes.len() <= 1 || old(self)@.focused().run.busy,
            },
    {
        let ghost before = self@;
        assert(before.panes.len() == self.panes@.len());
        let i: usize = self.focus;
        if self.panes.len() <= 1 {
            self.ask(WindowAsk::CloseTab);
            return None;
        }
        if self.panes[i].run.busy {
            self.say(text::copy_text("Busy — finish or cancel first"));
            return None;
        }
        let closed = self.panes.remove(i);
        if self.focus >= self.panes.len() {
            self.focus = self.panes.len() - 1;
        }
        assert(self@.panes =~= before.panes.remove(i as int));
        self.sync_tab_layout();
        self.ask(WindowAsk::SaveTabs);
        let place = scan::decimal_text((self.focus + 1) as u64);
        let count = scan::decimal_text(self.panes.len() as u64);
        self.say(text::cat5("Closed pane · ", place.as_str(), " of ", count.as_str(), " left"));
        Some(closed)
    }

    /// Gives the focus to another pane.
    pub fn pane_focus(&mut self, index: usize)
        requires
            old(self).wf(),
        ensures
            final(self).wf(),
            final(self)@ == old(self)@.focus_moved(index as int),
            final(self).panes@.len() == old(self).panes@.len(),
    {
        let ghost before = self@;
        assert(before.panes.len() == self.panes@.len());
        if index >= self.panes.len() || index == self.focus {
            return;
        }
        self.focus = index;
        self.panes[index].attention = false;
        self.hist_search = None;
        assert(self@.panes =~= before.focus_moved(index as int).panes);
        self.ask(WindowAsk::Refresh);
    }

    /// Gives the focus to the next pane, or the one before.
    pub fn pane_next(&mut self, forward: bool)
        requires
            old(self).wf(),
        ensures
            final(self).wf(),
            final(self)@ == old(self)@.focus_stepped(forward),
    {
        let count: usize = self.panes.len();
        assert(self@.panes.len() == count);
        if count <= 1 {
            return;
        }
        let index: usize = if forward {
            if self.focus == count - 1 {
                0
            } else {
                self.focus + 1
            }
        } else if self.focus == 0 {
            count - 1
        } else {
            self.focus - 1
        };
        self.pane_focus(index);
        let place = scan::decimal_text((self.focus + 1) as u64);
        let total = scan::decimal_text(count as u64);
        self.say(text::cat4("Pane ", place.as_str(), " of ", total.as_str()));
    }

    /// Shows only the pane with the focus, or all of them again.
    pub fn toggle_pane_zoom(&mut self)
        requires
            old(self).wf(),
        ensures
            final(self).wf(),
            final(self)@ == old(self)@.zoom_toggled(),
    {
        let count: usize = self.panes.len();
        assert(self@.panes.len() == count);
        if count <= 1 {
            self.say(text::copy_text("Only pane already fills the tab"));
            return;
        }
        if self.bar.flip_zoom(count) {
            self.say(text::copy_text("Pane maximized · Ctrl+Shift+Enter restores"));
        } else {
            self.say(text::copy_text("Pane layout restored"));
        }
        self.ask(WindowAsk::SaveTabs);
    }

    /// The pane that a cell was last drawn in.
    pub fn pane_at(&self, column: u16, row: u16) -> (r: Option<usize>)
        ensures
            match r {
                Some(i) => first_holding(self@.panes, column as int, row as int, 0) == Some(i as int)
                    && i < self.panes@.len(),
                None => first_holding(self@.panes, column as int, row as int, 0) is None,
            },
    {
        assert(self@.panes.len() == self.panes@.len());
        for i in 0..self.panes.len()
            invariant
                self@.panes.len() == self.panes@.len(),
                first_holding(self@.panes, column as int, row as int, 0) == first_holding(
                    self@.panes,
                    column as int,
                    row as int,
                    i as int,
                ),
        {
            assert(self@.panes[i as int] == self.panes@[i as int]@);
            if self.panes[i].drawn.frame.contains(column, row) {
                return Some(i);
            }
        }
        None
    }
}

/// The first pane, from `i` on, that a cell was last drawn in.
pub open spec fn first_holding(panes: Seq<PaneView>, column: int, row: int, i: int) -> Option<int>
    decreases panes.len() - i,
{
    if i < 0 || i >= panes.len() {
        None
    } else if panes[i].drawn.frame.holds(column, row) {
        Some(i)
    } else {
        first_holding(panes, column, row, i + 1)
    }
}

/// Splitting and closing panes never gives an id out twice: a pane has the id that it
/// had or one that no pane has had, so what arrives for a closed pane finds none.
pub proof fn ids_are_never_reused(w: WindowView, i: int)
    requires
        w.valid(),
        w.ids_given(),
        0 <= w.next_id < u64::MAX,
    ensures
        w.split().ids_given(),
        w.pane_closed().ids_given(),
        w.split().next_id >= w.next_id,
        w.pane_closed().next_id == w.next_id,
        0 <= i < w.split().panes.len() ==> w.split().panes[i].id >= w.next_id || (exists|k: int|
            0 <= k < w.panes.len() && (#[trigger] w.panes[k]).id == w.split().panes[i].id),
        0 <= i < w.pane_closed().panes.len() ==> (exists|k: int|
            0 <= k < w.panes.len() && (#[trigger] w.panes[k]).id == w.pane_closed().panes[i].id),
{
    let split = w.split();
    let left = w.pane_closed();
    if w.panes.len() < MAX_PANES {
        assert forall|k: int| 0 <= k < split.panes.len() implies (#[trigger] split.panes[k]).id == (if k
            <= w.focus {
            w.panes[k].id
        } else if k == w.focus + 1 {
            w.next_id as u64
        } else {
            w.panes[k - 1].id
        }) by {}
    }
    if w.panes.len() > 1 && !w.focused().run.busy {
        assert forall|k: int| 0 <= k < left.panes.len() implies (#[trigger] left.panes[k]).id == (if k
            < w.focus {
            w.panes[k].id
        } else {
            w.panes[k + 1].id
        }) by {}
    }
}

/// A pane that gets the focus no longer asks for attention, and the others stay as
/// they are.
pub proof fn focus_ends_the_call(w: WindowView, i: int, j: int)
    requires
        w.valid(),
        0 <= i < w.panes.len(),
        i != w.focus,
        0 <= j < w.panes.len(),
        j != i,
    ensures
        w.focus_moved(i).focus == i,
        !w.focus_moved(i).focused().attention,
        w.focus_moved(i).panes[j] == w.panes[j],
{
}

} // verus!
