//! Moving between tabs: the panes of the shown tab are kept as what they are loaded from,
//! and those of the next one are made from what it keeps.

use crate::composer;
use crate::pane::{Pane, PaneView};
use crate::pane;
use crate::scan;
use crate::sessions::{LoadedSession, LoadedView};
use crate::sessions;
use crate::settings::Mode;
use crate::settings;
use crate::tabs::{BarView, PaneStub, StubView};
use crate::tabs;
use crate::text;
use crate::transcript::TranscriptView;
use crate::window::{UiApp, WindowAsk, WindowAskView, WindowView};
use crate::window;
use vstd::prelude::*;

verus! {

/// What the pane of a stub begins with.
pub enum PaneSource {
    /// Nothing.
    Fresh,
    /// The state that the program was started with.
    Carried { state: LoadedSession, workspace: String },
    /// The session that the stub names.
    Session(Result<LoadedSession, String>),
}

/// What the source of a pane holds.
#[verifier::ext_equal]
pub enum PaneSourceView {
    Fresh,
    Carried { state: LoadedView, workspace: Seq<char> },
    Session(Result<LoadedView, Seq<char>>),
}

impl View for PaneSource {
    type V = PaneSourceView;

    open spec fn view(&self) -> PaneSourceView {
        match *self {
            PaneSource::Fresh => PaneSourceView::Fresh,
            PaneSource::Carried { state, workspace } => PaneSourceView::Carried {
                state: state@,
                workspace: workspace@,
            },
            PaneSource::Session(r) => PaneSourceView::Session(sessions::loaded_view(r)),
        }
    }
}

impl PaneSource {
    /// The parts are well-formed.
    pub open spec fn wf(self) -> bool {
        match self {
            PaneSource::Fresh => true,
            PaneSource::Carried { state, .. } => state.skills.wf(),
            PaneSource::Session(r) => r matches Ok(l) ==> l.skills.wf(),
        }
    }
}

/// What the sources of a list hold.
pub open spec fn sources_view(list: Seq<PaneSource>) -> Seq<PaneSourceView> {
    list.map_values(|s: PaneSource| s@)
}

/// What panes are kept as: each under the name that it was saved under, or else under the
/// one that it had.
pub open spec fn saved_stubs(panes: Seq<PaneView>, saved: Seq<Option<Seq<char>>>) -> Seq<StubView> {
    Seq::new(
        panes.len(),
        |i: int|
            StubView {
                session: match saved[i] {
                    Some(name) => Some(name),
                    None => panes[i].session,
                },
                title: tabs::label_or(panes[i].title, i),
            },
    )
}

impl WindowView {
    /// A pane made from a stub.
    pub open spec fn made(self, stub: StubView, source: PaneSourceView, k: int) -> PaneView {
        let p = self.focused();
        let t = self.panes[0];
        let fresh = PaneView {
            title: stub.title,
            ..pane::fresh_pane(
                (self.next_id + k) as u64,
                self.base,
                self.base_mode,
                p.workspace,
                t.debounce,
                t.completion_on,
                t.ai_on,
            )
        };
        match source {
            PaneSourceView::Fresh => fresh,
            PaneSourceView::Carried { state, workspace } => PaneView {
                settings: state.settings,
                mode: settings::mode_of(state.mode),
                todos: state.todos,
                skills: state.skills,
                log: TranscriptView { history: state.history, ..fresh.log },
                workspace,
                ..fresh
            },
            PaneSourceView::Session(r) => {
                let name = match stub.session {
                    Some(name) => name,
                    None => Seq::empty(),
                };
                match r {
                    Ok(l) => fresh.adopted(name, l).said(PaneView::loaded_note(name, l.count)),
                    Err(e) => fresh.failed("Session load failed: "@ + e),
                }
            },
        }
    }

    /// The panes of the shown tab made from what it keeps.
    pub open spec fn materialized(self, sources: Seq<PaneSourceView>) -> WindowView {
        let tab = self.bar.shown();
        let count = tab.panes.len() as int;
        if count == 0 {
            self
        } else {
            WindowView {
                panes: Seq::new(count as nat, |k: int| self.made(tab.panes[k], sources[k], k)),
                focus: if tab.focus < count {
                    tab.focus
                } else {
                    count - 1
                },
                search: None,
                next_id: self.next_id + count,
                bar: self.bar.laid_out(count),
                ..self
            }.asking(WindowAskView::Refresh)
        }
    }

    /// The panes kept as what they are loaded from.
    pub open spec fn stashed(self, saved: Seq<Option<Seq<char>>>) -> WindowView {
        WindowView { bar: self.bar.stashed(saved_stubs(self.panes, saved), self.focus), ..self }
    }

    /// A tab opened, unless a pane is at work.
    pub open spec fn tab_opened(self, saved: Seq<Option<Seq<char>>>) -> Option<WindowView> {
        if window::any_busy(self.panes) {
            None
        } else {
            let w = self.stashed(saved);
            Some(WindowView { bar: w.bar.opened(), ..w })
        }
    }

    /// Another tab shown, unless a pane is at work.
    pub open spec fn tab_switched(self, index: int, saved: Seq<Option<Seq<char>>>) -> Option<
        WindowView,
    > {
        if window::any_busy(self.panes) {
            None
        } else {
            let w = self.stashed(saved);
            Some(WindowView { bar: BarView { active: index, ..w.bar }, ..w })
        }
    }

    /// The shown tab moved by a place.
    pub open spec fn tab_moved(self, forward: bool) -> WindowView {
        match self.bar.shifted(forward) {
            None => self,
            Some(bar) => WindowView { bar, ..self }.asking(WindowAskView::SaveTabs).said(
                "Tab moved · "@ + scan::decimal((bar.active + 1) as nat) + " of "@ + scan::decimal(
                    bar.tabs.len(),
                ),
            ),
        }
    }

    /// A tab that is not shown closed.
    pub open spec fn tab_closed_at(self, index: int) -> WindowView {
        if index >= self.bar.tabs.len() {
            self
        } else if index == self.bar.active {
            self.asking(WindowAskView::CloseTab)
        } else {
            WindowView { bar: self.bar.closed(index), ..self }.asking(WindowAskView::SaveTabs).said(
                "Closed tab · "@ + scan::decimal((self.bar.tabs.len() - 1) as nat) + " remaining"@,
            )
        }
    }
}

/// The note that nothing can be moved while a pane is at work.
pub open spec fn busy_note() -> Seq<char> {
    "Busy — finish or cancel first"@
}

impl UiApp {
    #[verifier::spinoff_prover]
    fn make_pane(&self, stub: &PaneStub, source: PaneSource, k: usize) -> (r: Pane)
        requires
            self.wf(),
            source.wf(),
            self.next_pane_id + k <= u64::MAX,
        ensures
            r.wf(),
            r@ == self@.made(stub@, source@, k as int),
    {
        assert(self@.panes[0] == self.panes@[0]@);
        assert(self@.focused() == self.panes@[self.focus as int]@);
        let mut pane = Pane::new(
            self.next_pane_id + k as u64,
            self.base.copy(),
            self.base_mode,
            text::copy_text(self.panes[self.focus].workspace.as_str()),
            self.panes[0].ghost_debounce,
            self.panes[0].completion_on,
            self.panes[0].ai_suggest_on,
        );
        pane.title = text::copy_text(stub.title.as_str());
        match source {
            PaneSource::Fresh => {},
            PaneSource::Carried { state, workspace } => {
                pane.mode = Mode::named(state.mode.as_str());
                pane.settings = state.settings;
                pane.todos = state.todos;
                pane.skills = state.skills;
                pane.log.history = state.history;
                pane.workspace = workspace;
            },
            PaneSource::Session(r) => {
                let name = match &stub.session {
                    Some(name) => text::copy_text(name.as_str()),
                    None => String::new(),
                };
                assert(stub.session is None ==> name@ =~= Seq::empty());
                match r {
                    Ok(l) => {
                        let count = scan::decimal_text(l.count as u64);
                        pane.adopt(name.as_str(), l);
                        pane.set_status(
                            text::cat5("Loaded ", name.as_str(), " (", count.as_str(), " messages)"),
                        );
                    },
                    Err(e) => pane.set_error(text::cat2("Session load failed: ", e.as_str())),
                }
            },
        }
        pane
    }

    /// Makes the panes of the shown tab from what it keeps. There is a source for each.
    pub fn materialize_active(&mut self, sources: Vec<PaneSource>)
        requires
            old(self).wf(),
            sources@.len() == old(self)@.bar.shown().panes.len(),
            old(self).next_pane_id + sources@.len() <= u64::MAX,
            forall|i: int| 0 <= i < sources@.len() ==> (#[trigger] sources@[i]).wf(),
        ensures
            final(self).wf(),
            final(self)@ == old(self)@.materialized(sources_view(sources@)),
    {
        let ghost before = self@;
        let ghost given = sources_view(sources@);
        let at: usize = self.bar.active_tab;
        assert(before.bar.shown() == self.bar.tabs@[at as int]@);
        let count: usize = self.bar.tabs[at].panes.len();
        assert(before.bar.shown().panes.len() == count);
        if count == 0 {
            return;
        }
        let mut rest = sources;
        let mut panes: Vec<Pane> = Vec::new();
        let ghost all = rest@;
        assert(all.skip(0) =~= all);
        for k in 0..count
            invariant
                self.wf(),
                self@ == before,
                at == self.bar.active_tab,
                count == self.bar.tabs@[at as int].panes@.len(),
                before.bar.shown() == self.bar.tabs@[at as int]@,
                all.len() == count,
                given == sources_view(all),
                self.next_pane_id + count <= u64::MAX,
                forall|i: int| 0 <= i < all.len() ==> (#[trigger] all[i]).wf(),
                rest@ == all.skip(k as int),
                panes@.len() == k,
                forall|j: int|
                    0 <= j < k ==> (#[trigger] panes@[j]).wf() && panes@[j]@ == before.made(
                        before.bar.shown().panes[j],
                        given[j],
                        j,
                    ),
        {
            assert(rest@[0] == all[k as int]);
            let source = rest.remove(0);
            assert(rest@ =~= all.skip(k + 1));
            assert(given[k as int] == source@);
            assert(before.bar.shown().panes[k as int] == self.bar.tabs@[at as int].panes@[k as int]@);
            let pane = self.make_pane(&self.bar.tabs[at].panes[k], source, k);
            panes.push(pane);
        }
        let focus: usize = if self.bar.tabs[at].focus < count {
            self.bar.tabs[at].focus
        } else {
            count - 1
        };
        self.panes = panes;
        self.focus = focus;
        self.hist_search = None;
        self.next_pane_id = self.next_pane_id + count as u64;
        self.bar.ensure_active_layout(count);
        assert(self@.panes =~= before.materialized(given).panes);
        self.ask(WindowAsk::Refresh);
    }

    fn saved_stubs(&self, saved: &Vec<Option<String>>) -> (r: Vec<PaneStub>)
        requires
            saved@.len() == self.panes@.len(),
        ensures
            tabs::stubs_view(r@) == saved_stubs(self@.panes, pane::headers_view(saved@)),
    {
        let mut r: Vec<PaneStub> = Vec::new();
        let ghost want = saved_stubs(self@.panes, pane::headers_view(saved@));
        for i in 0..self.panes.len()
            invariant
                saved@.len() == self.panes@.len(),
                want == saved_stubs(self@.panes, pane::headers_view(saved@)),
                r@.len() == i,
                forall|j: int| 0 <= j < i ==> (#[trigger] r@[j])@ == want[j],
        {
            assert(i < self.panes.len());
            assert(self@.panes[i as int] == self.panes@[i as int]@);
            assert(pane::headers_view(saved@)[i as int] == composer::opt_text(saved@[i as int]));
            let session = match &saved[i] {
                Some(name) => Some(text::copy_text(name.as_str())),
                None => composer::copy_opt(&self.panes[i].current_session),
            };
            let title = tabs::title_or(self.panes[i].title.as_str(), i);
            r.push(PaneStub { session, title });
        }
        assert(tabs::stubs_view(r@) =~= want);
        r
    }

    fn stash_active_tab(&mut self, saved: &Vec<Option<String>>)
        requires
            old(self).wf(),
            saved@.len() == old(self).panes@.len(),
        ensures
            final(self).wf(),
            final(self)@ == old(self)@.stashed(pane::headers_view(saved@)),
            final(self).panes == old(self).panes,
    {
        let stubs = self.saved_stubs(saved);
        let focus: usize = self.focus;
        self.bar.stash(stubs, focus);
    }

    /// Whether another tab can be shown: there is one at that place, it is not shown already,
    /// and no pane is at work.
    pub fn can_switch(&self, index: usize) -> (r: bool)
        ensures
            r == (index < self@.bar.tabs.len() && index != self@.bar.active && !window::any_busy(
                self@.panes,
            )),
    {
        assert(self@.bar.tabs.len() == self.bar.tabs@.len());
        index < self.bar.tabs.len() && index != self.bar.active_tab && !self.panes_busy()
    }

    /// Whether the shown tab can be closed: it is not the last one, and no pane is at work.
    pub fn can_close(&self) -> (r: bool)
        ensures
            r == (self@.bar.tabs.len() > 1 && !window::any_busy(self@.panes)),
    {
        assert(self@.bar.tabs.len() == self.bar.tabs@.len());
        self.bar.tabs.len() > 1 && !self.panes_busy()
    }

    /// Opens a tab; `saved` are the names that the panes were saved under. Says whether it
    /// did: its panes are then to be made.
    pub fn tab_new(&mut self, saved: &Vec<Option<String>>) -> (r: bool)
        requires
            old(self).wf(),
            saved@.len() == old(self).panes@.len(),
        ensures
            final(self).wf(),
            match old(self)@.tab_opened(pane::headers_view(saved@)) {
                Some(w) => r && final(self)@ == w,
                None => !r && final(self)@ == old(self)@.said(busy_note()),
            },
    {
        if self.panes_busy() {
            self.say(text::copy_text("Busy — finish or cancel first"));
            return false;
        }
        self.stash_active_tab(saved);
        self.bar.open();
        true
    }

    /// Shows another tab; `saved` are the names that the panes were saved under. Says whether
    /// it did: its panes are then to be made.
    pub fn tab_switch(&mut self, index: usize, saved: &Vec<Option<String>>) -> (r: bool)
        requires
            old(self).wf(),
            saved@.len() == old(self).panes@.len(),
        ensures
            final(self).wf(),
            index >= old(self)@.bar.tabs.len() || index == old(self)@.bar.active ==> !r
                && *final(self) == *old(self),
            index < old(self)@.bar.tabs.len() && index != old(self)@.bar.active ==> match old(
                self,
            )@.tab_switched(index as int, pane::headers_view(saved@)) {
                Some(w) => r && final(self)@ == w,
                None => !r && final(self)@ == old(self)@.said(busy_note()),
            },
    {
        assert(self@.bar.tabs.len() == self.bar.tabs@.len());
        if index >= self.bar.tabs.len() || index == self.bar.active_tab {
            return false;
        }
        if self.panes_busy() {
            self.say(text::copy_text("Busy — finish or cancel first"));
            return false;
        }
        self.stash_active_tab(saved);
        assert(self@.bar.tabs.len() == self.bar.tabs@.len());
        self.bar.active_tab = index;
        true
    }

    /// Closes the shown tab. Says whether it did: the panes of the tab that is shown then
    /// are to be made.
    pub fn tab_close(&mut self) -> (r: bool)
        requires
            old(self).wf(),
        ensures
            final(self).wf(),
            old(self)@.bar.tabs.len() <= 1 ==> !r && final(self)@ == old(self)@.said(
                "Last tab stays open"@,
            ),
            old(self)@.bar.tabs.len() > 1 && window::any_busy(old(self)@.panes) ==> !r && final(self)@
                == old(self)@.said(busy_note()),
            old(self)@.bar.tabs.len() > 1 && !window::any_busy(old(self)@.panes) ==> r && final(self)@ == (
            WindowView { bar: old(self)@.bar.closed(old(self)@.bar.active), ..old(self)@ }),
    {
        assert(self@.bar.tabs.len() == self.bar.tabs@.len());
        if self.bar.tabs.len() <= 1 {
            self.say(text::copy_text("Last tab stays open"));
            return false;
        }
        if self.panes_busy() {
            self.say(text::copy_text("Busy — finish or cancel first"));
            return false;
        }
        let index: usize = self.bar.active_tab;
        self.bar.close(index);
        true
    }

    /// The note on a tab that was opened or is shown after another one was closed, once its
    /// panes are made.
    pub fn tab_shown(&mut self, opened: bool)
        requires
            old(self).wf(),
        ensures
            final(self).wf(),
            final(self)@ == old(self)@.asking(WindowAskView::SaveTabs).said(
                "Tab "@ + scan::decimal((old(self)@.bar.active + 1) as nat) + (if opened {
                    " · new session"@
                } else {
                    ""@
                }),
            ),
    {
        self.ask(WindowAsk::SaveTabs);
        assert(self.bar@.tabs.len() == self.bar.tabs.len());
        let n = scan::decimal_text((self.bar.active_tab + 1) as u64);
        self.say(
            text::cat3(
                "Tab ",
                n.as_str(),
                if opened {
                    " · new session"
                } else {
                    ""
                },
            ),
        );
    }

    /// Moves the shown tab by a place.
    pub fn tab_move(&mut self, forward: bool)
        requires
            old(self).wf(),
        ensures
            final(self).wf(),
            final(self)@ == old(self)@.tab_moved(forward),
    {
        if self.bar.tab_move(forward) {
            self.ask(WindowAsk::SaveTabs);
            assert(self.bar@.tabs.len() == self.bar.tabs.len());
            let place = scan::decimal_text((self.bar.active_tab + 1) as u64);
            let count = scan::decimal_text(self.bar.tabs.len() as u64);
            self.say(text::cat4("Tab moved · ", place.as_str(), " of ", count.as_str()));
        }
    }

    /// Closes a tab by the mark on its chip.
    pub fn tab_close_at(&mut self, index: usize)
        requires
            old(self).wf(),
        ensures
            final(self).wf(),
            final(self)@ == old(self)@.tab_closed_at(index as int),
    {
        assert(self@.bar.tabs.len() == self.bar.tabs@.len());
        if index >= self.bar.tabs.len() {
            return;
        }
        if index == self.bar.active_tab {
            self.ask(WindowAsk::CloseTab);
            return;
        }
        self.bar.close(index);
        self.ask(WindowAsk::SaveTabs);
        assert(self@.bar.tabs.len() == self.bar.tabs@.len());
        let n = scan::decimal_text(self.bar.tabs.len() as u64);
        self.say(text::cat3("Closed tab · ", n.as_str(), " remaining"));
    }
}

/// Leaving a tab and coming back to it finds the same panes: each is loaded from the
/// session that it was saved under.
pub proof fn tabs_come_back(w: WindowView, saved: Seq<Option<Seq<char>>>, index: int)
    requires
        w.valid(),
        w.bar.valid(),
        saved.len() == w.panes.len(),
        0 <= index < w.bar.tabs.len(),
        index != w.bar.active,
        !window::any_busy(w.panes),
    ensures
        w.tab_switched(index, saved) is Some,
        ({
            let left = w.tab_switched(index, saved)->0.bar;
            let back = BarView { active: w.bar.active, ..left };
            &&& left.valid()
            &&& back.shown().panes == saved_stubs(w.panes, saved)
            &&& back.shown().focus == w.focus
            &&& left.shown() == w.bar.tabs[index]
        }),
        forall|i: int|
            0 <= i < w.panes.len() && saved[i] is Some ==> (#[trigger] saved_stubs(
                w.panes,
                saved,
            )[i]).session == saved[i],
{
}

/// While a pane is at work no tab is left, so nothing that it does is lost.
pub proof fn busy_tabs_stay(w: WindowView, saved: Seq<Option<Seq<char>>>, index: int)
    requires
        window::any_busy(w.panes),
    ensures
        w.tab_opened(saved) is None,
        w.tab_switched(index, saved) is None,
{
}

/// The panes that a tab is shown with get ids that no pane has had.
pub proof fn shown_tabs_get_new_ids(w: WindowView, sources: Seq<PaneSourceView>, i: int)
    requires
        w.ids_given(),
        0 <= w.next_id,
        w.next_id + w.bar.shown().panes.len() <= u64::MAX,
    ensures
        w.materialized(sources).ids_given(),
        w.materialized(sources).next_id >= w.next_id,
        w.bar.shown().panes.len() > 0 && 0 <= i < w.materialized(sources).panes.len()
            ==> w.materialized(sources).panes[i].id >= w.next_id,
{
    let tab = w.bar.shown();
    let v = w.materialized(sources);
    if tab.panes.len() > 0 {
        assert forall|k: int| 0 <= k < v.panes.len() implies (#[trigger] v.panes[k]).id == w.next_id
            + k by {
            assert(v.panes[k] == w.made(tab.panes[k], sources[k], k));
        }
    }
}

} // verus!
