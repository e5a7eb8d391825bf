//! Keys, the mouse and events in the window: what belongs to the window itself, and which
//! pane the rest goes to.

use crate::desk::{DeskView, SceneView};
use crate::desk;
use crate::events::Routed;
use crate::ghost::TickContext;
use crate::inbox::EventFacts;
use crate::input::KeyFacts;
use crate::input;
use crate::keys::{Key, KeyCode};
use crate::keys;
use crate::menus;
use crate::pane::PaneView;
use crate::render::TodoStatus;
use crate::render;
use crate::search::{HistSearch, SearchStep, SearchView};
use crate::search;
use crate::sidebar::{Place, PlaceView, SidebarAction, SidebarActionView};
use crate::text;
use crate::window::{UiApp, WindowAsk, WindowAskView, WindowView};
use vstd::prelude::*;

verus! {

// ---------------------------------------------------------------------------
// Events
// ---------------------------------------------------------------------------

/// The pane with an id, from `i` on.
pub open spec fn pane_with(panes: Seq<PaneView>, id: u64, i: int) -> Option<int>
    decreases panes.len() - i,
{
    if i < 0 || i >= panes.len() {
        None
    } else if panes[i].id == id {
        Some(i)
    } else {
        pane_with(panes, id, i + 1)
    }
}

impl WindowView {
    /// The pane that an event is addressed to; an event for the window goes to the pane with
    /// the focus, and one for a pane that is gone to none.
    pub open spec fn addressee(self, pane: Option<u64>) -> Option<int> {
        match pane {
            None => Some(self.focus),
            Some(id) => pane_with(self.panes, id, 0),
        }
    }

    /// An event taken. A pane that finishes while another one has the focus asks for
    /// attention.
    pub open spec fn delivered(
        self,
        event: Routed,
        todos: Seq<(Seq<char>, TodoStatus)>,
        compact_due: bool,
        now: u64,
    ) -> WindowView {
        match self.addressee(event.pane) {
            None => self,
            Some(i) => {
                let s = self.scene_of(i).received(event.event, todos, compact_due, now);
                let done = self.panes[i].run.busy && !s.pane.run.busy && i != self.focus;
                self.with_scene(
                    i,
                    SceneView {
                        pane: if done {
                            PaneView { attention: true, ..s.pane }
                        } else {
                            s.pane
                        },
                        ..s
                    },
                )
            },
        }
    }
}

impl UiApp {
    fn find_pane(&self, id: u64) -> (r: Option<usize>)
        ensures
            match r {
                Some(i) => pane_with(self@.panes, id, 0) == Some(i as int) && i < self.panes@.len(),
                None => pane_with(self@.panes, id, 0) is None,
            },
    {
        assert(self@.panes.len() == self.panes@.len());
        for i in 0..self.panes.len()
            invariant
                self@.panes.len() == self.panes@.len(),
                pane_with(self@.panes, id, 0) == pane_with(self@.panes, id, i as int),
        {
            assert(self@.panes[i as int] == self.panes@[i as int]@);
            if self.panes[i].id == id {
                return Some(i);
            }
        }
        None
    }

    /// Takes an event.
    pub fn deliver(&mut self, event: Routed, facts: EventFacts)
        requires
            old(self).wf(),
        ensures
            final(self).wf(),
            final(self)@ == old(self)@.delivered(
                event,
                render::todos_view(facts.todos@),
                facts.compact_due,
                facts.now,
            ),
    {
        let ghost before = self@;
        let found = match event.pane {
            None => Some(self.focus),
            Some(id) => self.find_pane(id),
        };
        if let Some(i) = found {
            assert(before.panes[i as int] == self.panes@[i as int]@);
            let was = self.panes[i].run.busy;
            let ghost s = before.scene_of(i as int).received(
                event.event,
                render::todos_view(facts.todos@),
                facts.compact_due,
                facts.now,
            );
            self.panes[i].process_event(&mut self.desk, event.event, facts);
            assert(self.panes@[i as int]@ == s.pane);
            if was && !self.panes[i].run.busy && i != self.focus {
                self.panes[i].attention = true;
            }
            assert(self@.panes =~= before.delivered(
                event,
                render::todos_view(facts.todos@),
                facts.compact_due,
                facts.now,
            ).panes);
        }
    }
}

proof fn pane_with_bounds(panes: Seq<PaneView>, id: u64, i: int)
    requires
        0 <= i,
    ensures
        pane_with(panes, id, i) matches Some(k) ==> i <= k < panes.len() && panes[k].id == id,
    decreases panes.len() - i,
{
    if i < panes.len() && panes[i].id != id {
        pane_with_bounds(panes, id, i + 1);
    }
}

/// An event reaches the pane that it is addressed to and no other one: the rest stay as
/// they are, and one for a pane that is gone changes nothing.
pub proof fn events_stay_with_their_pane(
    w: WindowView,
    event: Routed,
    todos: Seq<(Seq<char>, TodoStatus)>,
    compact_due: bool,
    now: u64,
    j: int,
)
    requires
        w.valid(),
        0 <= j < w.panes.len(),
        w.addressee(event.pane) != Some(j),
    ensures
        w.delivered(event, todos, compact_due, now).panes[j] == w.panes[j],
        w.addressee(event.pane) is None ==> w.delivered(event, todos, compact_due, now) == w,
        w.delivered(event, todos, compact_due, now).focus == w.focus,
{
    if let Some(id) = event.pane {
        pane_with_bounds(w.panes, id, 0);
    }
    if let Some(i) = w.addressee(event.pane) {
        let s = w.scene_of(i).received(event.event, todos, compact_due, now);
        assert(w.panes.update(i, s.pane)[j] == w.panes[j]);
    }
}

// ---------------------------------------------------------------------------
// Keys
// ---------------------------------------------------------------------------

impl Key {
    /// Whether this is a letter with control and shift.
    pub open spec fn is_ctrl_shift(self, c: char) -> bool {
        self.shift && self.is_ctrl(c)
    }
}

/// The tab that a digit with alt shows.
pub open spec fn tab_digit(key: Key) -> Option<int> {
    match key.code {
        KeyCode::Char(c) => if key.alt && !key.ctrl && '1' <= c && c <= '9' {
            Some(c as int - '1' as int)
        } else {
            None
        },
        _ => None,
    }
}

impl WindowView {
    /// The key that ends the program, or stops what the pane with the focus does.
    pub open spec fn interrupted(self, now: u64) -> WindowView {
        if self.focused().run.busy {
            self.with_scene(
                self.focus,
                self.scene_of(self.focus).work_stopped("Stopping…"@, now),
            )
        } else {
            WindowView { desk: DeskView { quit: true, ..self.desk }, ..self }
        }
    }

    /// Keys that arrange the panes.
    #[verifier::opaque]
    pub open spec fn arranging_key(self, key: Key) -> Option<WindowView> {
        let arrows = key.ctrl && key.shift;
        if key.is_ctrl_shift('d') {
            Some(self.split())
        } else if arrows && (key.code == KeyCode::Right || key.code == KeyCode::Down) {
            Some(self.focus_stepped(true))
        } else if arrows && (key.code == KeyCode::Left || key.code == KeyCode::Up) {
            Some(self.focus_stepped(false))
        } else if arrows && key.code == KeyCode::Enter {
            Some(self.zoom_toggled())
        } else {
            None
        }
    }

    /// What keys for tabs ask for; nothing where there is no other tab.
    pub open spec fn tab_key(self, key: Key) -> Option<Option<WindowAskView>> {
        if key.is_ctrl_shift('t') {
            Some(Some(WindowAskView::NewTab))
        } else if key.is_ctrl_shift('w') {
            Some(Some(WindowAskView::ClosePane))
        } else if key.ctrl && key.code == KeyCode::Tab {
            Some(
                if self.bar.tabs.len() <= 1 {
                    None
                } else {
                    Some(WindowAskView::SwitchTab(self.bar.neighbour(!key.shift) as usize))
                },
            )
        } else {
            match tab_digit(key) {
                Some(i) => Some(Some(WindowAskView::SwitchTab(i as usize))),
                None => None,
            }
        }
    }

    /// Keys for panes and tabs.
    pub open spec fn window_key(self, key: Key) -> Option<WindowView> {
        match self.tab_key(key) {
            Some(Some(ask)) => Some(self.asking(ask)),
            Some(None) => Some(self),
            None => self.arranging_key(key),
        }
    }

    /// A key in an open search.
    pub open spec fn search_keyed(self, s: SearchView, key: Key, matches: Seq<Seq<char>>, now: u64)
     -> WindowView {
        let (t, step) = search::search_key(s, key, matches.len() as int);
        let p = self.focused();
        match step {
            SearchStep::Closed => WindowView {
                search: None,
                ..self.with_pane(
                    self.focus,
                    p.search_closed(s, key.code == KeyCode::Enter, matches, now),
                )
            },
            SearchStep::Same => WindowView {
                search: Some(t),
                ..self.with_pane(self.focus, p.composed(search::previewed(p.composer, t, matches)))
            },
            SearchStep::Changed => WindowView { search: Some(t), ..self }.asking(
                WindowAskView::FindMatches,
            ),
            SearchStep::Ignored => self,
        }
    }

    /// The list beside the panes shown, hidden or given the keyboard.
    pub open spec fn sidebar_toggled(self) -> WindowView {
        let w = WindowView { sidebar: self.sidebar.toggled(), ..self };
        if self.sidebar.visible {
            w
        } else {
            w.asking(WindowAskView::ListSessions).said(
                "Sessions · Enter opens · n new · d delete · type filters · Esc"@,
            )
        }
    }

    /// What the list beside the panes asks for.
    pub open spec fn sidebar_asked(self, a: SidebarActionView) -> WindowView {
        match a {
            SidebarActionView::Stay => self,
            SidebarActionView::NothingToDelete => self.said(
                "Sessions · d deletes a saved session"@,
            ),
            _ => self.asking(WindowAskView::Sidebar(a)),
        }
    }

    /// Keys for the list beside the panes.
    #[verifier::opaque]
    pub open spec fn sidebar_key(self, key: Key, live: PlaceView) -> Option<WindowView> {
        if keys::triggers(self.focused().settings.bindings, "sidebar"@, key) {
            Some(self.sidebar_toggled())
        } else if !self.sidebar.focus {
            None
        } else if key.code == KeyCode::Esc {
            Some(WindowView { sidebar: self.sidebar.unfocused(), ..self })
        } else {
            let (bar, action) = self.sidebar.keyed(key, live);
            Some(WindowView { sidebar: bar, ..self }.sidebar_asked(action))
        }
    }

    /// A search opened on the draft of the pane with the focus.
    pub open spec fn search_opened(self) -> WindowView {
        WindowView { search: Some(SearchView::opened(self.focused().composer)), ..self }.asking(
            WindowAskView::FindMatches,
        )
    }

    /// A key in the pane with the focus.
    pub open spec fn pane_keyed(self, key: Key, f: KeyFacts) -> WindowView {
        match self.scene_of(self.focus).first_key(key, f.now) {
            Some(t) => self.with_scene(self.focus, t),
            None => if keys::triggers(self.focused().settings.bindings, "history"@, key) {
                self.search_opened()
            } else {
                self.with_scene(self.focus, self.scene_of(self.focus).pane_keyed(key, f))
            },
        }
    }

    /// A key.
    pub open spec fn keyed(
        self,
        key: Key,
        f: KeyFacts,
        live: PlaceView,
        matches: Seq<Seq<char>>,
    ) -> WindowView {
        if key.ctrl && key.code == KeyCode::Char('c') {
            self.interrupted(f.now)
        } else if !(self.desk.overlay is Closed) {
            self.pane_keyed(key, f)
        } else if let Some(w) = self.window_key(key) {
            w
        } else if let Some(s) = self.search {
            self.search_keyed(s, key, matches, f.now)
        } else if let Some(w) = self.sidebar_key(key, live) {
            w
        } else {
            self.pane_keyed(key, f)
        }
    }
}

impl UiApp {
    fn interrupt(&mut self, now: u64)
        requires
            old(self).wf(),
        ensures
            final(self).wf(),
            final(self)@ == old(self)@.interrupted(now),
    {
        let ghost before = self@;
        let i: usize = self.focus;
        assert(before.focused() == self.panes@[i as int]@);
        if self.panes[i].run.busy {
            self.panes[i].stop_work(&mut self.desk, "Stopping…", now);
            assert(self@.panes =~= before.interrupted(now).panes);
        } else {
            self.desk.quit = true;
        }
    }

    fn take_arranging_key(&mut self, key: &Key) -> (r: bool)
        requires
            old(self).wf(),
            old(self).next_pane_id < u64::MAX,
        ensures
            final(self).wf(),
            match old(self)@.arranging_key(*key) {
                Some(w) => r && final(self)@ == w,
                None => !r && *final(self) == *old(self),
            },
    {
        reveal(WindowView::arranging_key);
        let arrows = key.ctrl && key.shift;
        if key.shift && key.is_ctrl_letter('d') {
            self.pane_split();
        } else if arrows && (key.code == KeyCode::Right || key.code == KeyCode::Down) {
            self.pane_next(true);
        } else if arrows && (key.code == KeyCode::Left || key.code == KeyCode::Up) {
            self.pane_next(false);
        } else if arrows && key.code == KeyCode::Enter {
            self.toggle_pane_zoom();
        } else {
            return false;
        }
        true
    }

    fn tab_asked(&self, key: &Key) -> (r: Option<Option<WindowAsk>>)
        requires
            self.wf(),
        ensures
            match r {
                Some(Some(a)) => self@.tab_key(*key) == Some(Some(a@)),
                Some(None) => self@.tab_key(*key) == Some(None::<WindowAskView>),
                None => self@.tab_key(*key) is None,
            },
    {
        if key.shift && key.is_ctrl_letter('t') {
            Some(Some(WindowAsk::NewTab))
        } else if key.shift && key.is_ctrl_letter('w') {
            Some(Some(WindowAsk::ClosePane))
        } else if key.ctrl && key.code == KeyCode::Tab {
            assert(self@.bar.tabs.len() == self.bar.tabs@.len());
            if self.bar.tabs.len() > 1 {
                Some(Some(WindowAsk::SwitchTab(self.bar.tab_next(!key.shift))))
            } else {
                Some(None)
            }
        } else {
            match key.code {
                KeyCode::Char(c) => {
                    if key.alt && !key.ctrl && '1' <= c && c <= '9' {
                        Some(Some(WindowAsk::SwitchTab((c as u32 - '1' as u32) as usize)))
                    } else {
                        None
                    }
                },
                _ => None,
            }
        }
    }

    fn take_window_key(&mut self, key: &Key) -> (r: bool)
        requires
            old(self).wf(),
            old(self).next_pane_id < u64::MAX,
        ensures
            final(self).wf(),
            match old(self)@.window_key(*key) {
                Some(w) => r && final(self)@ == w,
                None => !r && *final(self) == *old(self),
            },
    {
        match self.tab_asked(key) {
            Some(Some(a)) => {
                self.ask(a);
                true
            },
            Some(None) => true,
            None => self.take_arranging_key(key),
        }
    }

    fn take_search_key(&mut self, search: HistSearch, key: &Key, matches: &Vec<String>, now: u64)
        requires
            old(self).wf(),
            search.wf(),
        ensures
            final(self).wf(),
            final(self)@ == (WindowView { search: Some(search@), ..old(self)@ }).search_keyed(
                search@,
                *key,
                text::texts(matches@),
                now,
            ),
    {
        let ghost before = WindowView { search: Some(search@), ..self@ };
        let ghost first = search@;
        let i: usize = self.focus;
        assert(before.focused() == self.panes@[i as int]@);
        assert(text::texts(matches@).len() == matches@.len());
        let mut s = search;
        let step = self.panes[i].handle_hist_key(&mut s, key, matches, now);
        match step {
            SearchStep::Closed => {
                self.hist_search = None;
            },
            SearchStep::Same => {
                self.hist_search = Some(s);
            },
            SearchStep::Changed => {
                self.hist_search = Some(s);
                assert(self@.panes =~= before.panes);
                self.ask(WindowAsk::FindMatches);
            },
            SearchStep::Ignored => {
                self.hist_search = Some(s);
                assert(self@.panes =~= before.panes);
            },
        }
        assert(self@.panes =~= before.search_keyed(first, *key, text::texts(matches@), now).panes);
    }

    /// Shows, hides or focuses the list beside the panes.
    pub fn toggle_sidebar(&mut self)
        requires
            old(self).wf(),
        ensures
            final(self).wf(),
            final(self)@ == old(self)@.sidebar_toggled(),
    {
        if self.sidebar.toggle_sidebar() {
            self.ask(WindowAsk::ListSessions);
            self.say(text::copy_text("Sessions · Enter opens · n new · d delete · type filters · Esc"));
        }
    }

    pub(crate) fn ask_sidebar(&mut self, action: SidebarAction)
        requires
            old(self).wf(),
        ensures
            final(self).wf(),
            final(self)@ == old(self)@.sidebar_asked(action@),
    {
        match action {
            SidebarAction::Stay => {},
            SidebarAction::NothingToDelete => self.say(
                text::copy_text("Sessions · d deletes a saved session"),
            ),
            _ => self.ask(WindowAsk::Sidebar(action)),
        }
    }

    fn take_sidebar_key(&mut self, key: &Key, live: &Place) -> (r: bool)
        requires
            old(self).wf(),
        ensures
            final(self).wf(),
            match old(self)@.sidebar_key(*key, live@) {
                Some(w) => r && final(self)@ == w,
                None => !r && *final(self) == *old(self),
            },
    {
        reveal(WindowView::sidebar_key);
        let i: usize = self.focus;
        assert(self@.focused() == self.panes@[i as int]@);
        if keys::action_key(&self.panes[i].settings.keybindings, "sidebar", key) {
            self.toggle_sidebar();
            return true;
        }
        if !self.sidebar.focus {
            return false;
        }
        if key.code == KeyCode::Esc {
            self.sidebar.unfocus_sidebar();
            return true;
        }
        let action = self.sidebar.handle_sidebar_key(key, live);
        self.ask_sidebar(action);
        true
    }

    /// Opens a search on the draft of the pane with the focus.
    pub fn open_hist_search(&mut self)
        requires
            old(self).wf(),
        ensures
            final(self).wf(),
            final(self)@ == old(self)@.search_opened(),
    {
        let i: usize = self.focus;
        assert(self@.focused() == self.panes@[i as int]@);
        let s = HistSearch::open(&self.panes[i].composer);
        self.hist_search = Some(s);
        self.ask(WindowAsk::FindMatches);
    }

    /// Shows the highlighted match of an open search in the draft, once its matches are
    /// found.
    pub fn preview_matches(&mut self, matches: &Vec<String>)
        requires
            old(self).wf(),
        ensures
            final(self).wf(),
            final(self)@ == match old(self)@.search {
                Some(s) => old(self)@.with_pane(
                    old(self)@.focus,
                    old(self)@.focused().composed(
                        search::previewed(old(self)@.focused().composer, s, text::texts(matches@)),
                    ),
                ),
                None => old(self)@,
            },
    {
        let ghost before = self@;
        let i: usize = self.focus;
        assert(before.focused() == self.panes@[i as int]@);
        if let Some(s) = &self.hist_search {
            s.preview_hist_selection(&mut self.panes[i].composer, matches);
            assert(self@.panes =~= before.with_pane(
                i as int,
                before.focused().composed(
                    search::previewed(before.focused().composer, before.search->0, text::texts(matches@)),
                ),
            ).panes);
        }
    }

    fn take_pane_key(&mut self, key: &Key, f: KeyFacts)
        requires
            old(self).wf(),
            input::facts_fit(f, old(self).panes@[old(self).focus as int], old(self).desk),
        ensures
            final(self).wf(),
            final(self)@ == old(self)@.pane_keyed(*key, f),
    {
        let ghost before = self@;
        let i: usize = self.focus;
        assert(before.focused() == self.panes@[i as int]@);
        assert(before.scene_of(i as int) == desk::scene(self.panes@[i as int], self.desk));
        if self.panes[i].handle_first_key(&mut self.desk, key, f.now) {
            assert(self@.panes =~= before.pane_keyed(*key, f).panes);
            return;
        }
        assert(self@.panes =~= before.panes);
        if keys::action_key(&self.panes[i].settings.keybindings, "history", key) {
            self.open_hist_search();
            return;
        }
        self.panes[i].handle_pane_key(&mut self.desk, key, f);
        assert(self@.panes =~= before.pane_keyed(*key, f).panes);
    }

    /// Takes a key. `live` is the workspace of the pane with the focus, and `matches` are
    /// those of an open search.
    pub fn handle_key(&mut self, key: &Key, f: KeyFacts, live: &Place, matches: &Vec<String>)
        requires
            old(self).wf(),
            old(self).next_pane_id < u64::MAX,
            input::facts_fit(f, old(self).panes@[old(self).focus as int], old(self).desk),
        ensures
            final(self).wf(),
            final(self)@ == old(self)@.keyed(*key, f, live@, text::texts(matches@)),
    {
        if key.ctrl && key.code == KeyCode::Char('c') {
            self.interrupt(f.now);
            return;
        }
        if !self.desk.overlay_closed() {
            self.take_pane_key(key, f);
            return;
        }
        if self.take_window_key(key) {
            return;
        }
        if self.hist_search.is_some() {
            let ghost before = self@;
            if let Some(s) = self.hist_search.take() {
                assert((WindowView { search: Some(s@), ..self@ }) == before);
                self.take_search_key(s, key, matches, f.now);
            }
            return;
        }
        if self.take_sidebar_key(key, live) {
            return;
        }
        self.take_pane_key(key, f);
    }
}

// ---------------------------------------------------------------------------
// Who owns the next key
// ---------------------------------------------------------------------------

impl WindowView {
    /// Whether something else than the draft takes the next key: what lies over the screen,
    /// the list beside the panes, an open search, or a menu. Nothing is offered behind the
    /// draft then.
    pub open spec fn draft_waits(self) -> bool {
        let p = self.focused();
        ||| !(self.desk.overlay is Closed)
        ||| self.sidebar.focus
        ||| self.search is Some
        ||| menus::is_palette(p.composer.text)
        ||| menus::token_before(p.composer.text, p.composer.at) is Some
        ||| p.arg_up()
        ||| p.sh_up()
    }
}

impl UiApp {
    /// Whether something else than the draft takes the next key.
    pub fn menu_wants_input(&self) -> (r: bool)
        requires
            self.wf(),
        ensures
            r == self@.draft_waits(),
    {
        let i: usize = self.focus;
        assert(self@.focused() == self.panes@[i as int]@);
        let p = &self.panes[i];
        !self.desk.overlay_closed() || self.sidebar.focus || self.hist_search.is_some()
            || p.composer.is_palette_query() || p.composer.at_token().is_some()
            || p.arg_menu.arg_active(&p.composer) || p.sh_menu.sh_menu_active(&p.composer)
    }
}

/// While something else takes the next key, a tick takes away what is offered behind the
/// draft and looks for nothing new.
pub proof fn menus_hide_offers(w: WindowView, c: TickContext)
    requires
        w.valid(),
        c.enabled,
        c.menu_open == w.draft_waits(),
        w.draft_waits(),
    ensures
        w.focused().composer.ticked(c).offer is None,
        !w.focused().composer.wants_offer(c),
{
}

} // verus!
