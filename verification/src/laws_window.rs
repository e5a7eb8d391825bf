//! What holds of the window: its panes, its tabs, the list beside them, and the search through
//! earlier lines.

use crate::effects::EffectView;
use crate::events::Routed;
use crate::input::KeyFacts;
use crate::keys::{Key, KeyCode};
use crate::laws_commands;
use crate::render::TodoStatus;
use crate::scan;
use crate::search::SearchView;
use crate::sessions::LoadedView;
use crate::sidebar::{PlaceView, RowView, SidebarActionView, SidebarView};
use crate::sidebar;
use crate::tabbing::PaneSourceView;
use crate::text;
use crate::window::{MAX_PANES, WindowAskView, WindowView};
use crate::window;
use vstd::prelude::*;

verus! {

// ---------------------------------------------------------------------------
// Panes
// ---------------------------------------------------------------------------

/// Splitting puts an empty pane right behind the one with the focus, with the same settings
/// and in the same workspace, gives it the focus, and leaves every other pane as it is.
pub proof fn splitting_adds_an_empty_pane(w: WindowView, i: int)
    requires
        w.valid(),
        w.panes.len() < MAX_PANES,
        0 <= i < w.panes.len(),
    ensures
        ({
            let next = w.split();
            let fresh = next.panes[w.focus + 1];
            &&& next.panes.len() == w.panes.len() + 1
            &&& next.focus == w.focus + 1
            &&& next.panes[if i <= w.focus {
                i
            } else {
                i + 1
            }] == w.panes[i]
            &&& fresh.log.history.len() == 0
            &&& fresh.settings == w.focused().settings && fresh.mode == w.focused().mode
            &&& fresh.workspace == w.focused().workspace
            &&& fresh.session is None && !fresh.run.busy && fresh.composer.text.len() == 0
            &&& next.asks == w.asks.push(WindowAskView::SaveTabs)
        }),
{
}

/// Closing takes away the pane with the focus and no other, and the others keep their order;
/// a pane at work stays.
pub proof fn closing_takes_one_pane(w: WindowView, i: int)
    requires
        w.valid(),
        w.panes.len() > 1,
        0 <= i < w.panes.len(),
        i != w.focus,
    ensures
        !w.focused().run.busy ==> {
            let next = w.pane_closed();
            let j = if i < w.focus {
                i
            } else {
                i - 1
            };
            &&& next.panes.len() == w.panes.len() - 1
            &&& next.valid()
            &&& next.panes[j].log.history == w.panes[i].log.history
            &&& next.panes[j].id == w.panes[i].id
            &&& next.panes[j].session == w.panes[i].session
            &&& next.panes[j].composer == w.panes[i].composer
        },
        w.focused().run.busy ==> w.pane_closed().panes.len() == w.panes.len(),
{
}

/// Moving the focus goes round all panes in order, and back again the other way.
pub proof fn the_focus_goes_round(w: WindowView, forward: bool)
    requires
        w.valid(),
        w.panes.len() > 1,
    ensures
        w.focus_stepped(true).focus == (w.focus + 1) % (w.panes.len() as int),
        w.focus_stepped(forward).focus_stepped(!forward).focus == w.focus,
        w.focus_stepped(forward).panes.len() == w.panes.len(),
        w.focus_stepped(forward).search is None,
{
    assert(w.focus + 1 < w.panes.len() ==> (w.focus + 1) % (w.panes.len() as int) == w.focus + 1)
        by (nonlinear_arith)
        requires
            0 <= w.focus,
            w.panes.len() > 1,
    ;
    assert((w.panes.len() as int) % (w.panes.len() as int) == 0) by (nonlinear_arith)
        requires
            w.panes.len() > 1,
    ;
}

/// Control and C stops a request that is running, and only where none is ends the interface.
pub proof fn interrupts_stop_before_they_end(
    w: WindowView,
    key: Key,
    f: KeyFacts,
    live: PlaceView,
    matches: Seq<Seq<char>>,
)
    requires
        w.valid(),
        key.ctrl,
        key.code == KeyCode::Char('c'),
    ensures
        w.focused().run.busy ==> w.keyed(key, f, live, matches).desk.quit == w.desk.quit,
        !w.focused().run.busy ==> w.keyed(key, f, live, matches).desk.quit,
        w.focused().run.busy && w.focused().tools is None && w.focused().run.stoppable ==> w.keyed(
            key,
            f,
            live,
            matches,
        ).focused().out == w.focused().out.push(EffectView::Stop),
{
}

/// The keys for tabs ask for what they say: control, shift and T for a new one, control, shift
/// and W for closing, and alt with a digit for the tab of that number.
pub proof fn tab_keys_ask_for_what_they_say(w: WindowView, key: Key, d: char)
    ensures
        key.ctrl && key.shift && key.code == KeyCode::Char('T') ==> w.window_key(key) == Some(
            w.asking(WindowAskView::NewTab),
        ),
        key.ctrl && key.shift && key.code == KeyCode::Char('W') ==> w.window_key(key) == Some(
            w.asking(WindowAskView::ClosePane),
        ),
        key.alt && !key.ctrl && key.code == KeyCode::Char(d) && '1' <= d <= '9' ==> w.window_key(key)
            == Some(w.asking(WindowAskView::SwitchTab((d as int - '1' as int) as usize))),
{
    assert(text::lower_char('T') == 't' && text::lower_char('W') == 'w');
}

/// A pane that gets the focus asks for attention no more, and the others stay as they are.
pub proof fn focused_panes_want_no_attention(w: WindowView, i: int, j: int)
    requires
        w.valid(),
        0 <= i < w.panes.len(),
        i != w.focus,
        0 <= j < w.panes.len(),
        j != i,
    ensures
        w.focus_moved(i).focus == i,
        !w.focus_moved(i).panes[i].attention,
        w.focus_moved(i).panes[i].log == w.panes[i].log,
        w.focus_moved(i).panes[i].composer == w.panes[i].composer,
        w.focus_moved(i).panes[j] == w.panes[j],
{
}

/// A pane whose request ends while another one has the focus asks for attention.
pub proof fn finished_panes_want_attention(
    w: WindowView,
    event: Routed,
    todos: Seq<(Seq<char>, TodoStatus)>,
    due: bool,
    now: u64,
    i: int,
)
    requires
        w.valid(),
        0 <= i < w.panes.len(),
        w.addressee(event.pane) == Some(i),
        w.panes[i].run.busy,
        !w.scene_of(i).received(event.event, todos, due, now).pane.run.busy,
    ensures
        i != w.focus ==> w.delivered(event, todos, due, now).panes[i].attention,
        w.delivered(event, todos, due, now).focus == w.focus,
{
}

// ---------------------------------------------------------------------------
// Tabs
// ---------------------------------------------------------------------------

/// A tab that is left keeps for each of its panes the session that it was saved as, or the one
/// that it had, and which pane had the focus; the tab that is shown next is the one asked for.
pub proof fn left_tabs_keep_their_sessions(
    w: WindowView,
    index: int,
    saved: Seq<Option<Seq<char>>>,
    i: int,
)
    requires
        w.bar.valid(),
        saved.len() == w.panes.len(),
        0 <= i < w.panes.len(),
        !window::any_busy(w.panes),
        0 <= index < w.bar.tabs.len(),
        index != w.bar.active,
    ensures
        ({
            let next = w.tab_switched(index, saved);
            &&& next is Some
            &&& next->0.bar.active == index
            &&& next->0.bar.tabs.len() == w.bar.tabs.len()
            &&& next->0.bar.tabs[index] == w.bar.tabs[index]
            &&& next->0.bar.tabs[w.bar.active].panes.len() == w.panes.len()
            &&& next->0.bar.tabs[w.bar.active].focus == w.focus
            &&& saved[i] is Some ==> next->0.bar.tabs[w.bar.active].panes[i].session == saved[i]
            &&& saved[i] is None ==> next->0.bar.tabs[w.bar.active].panes[i].session
                == w.panes[i].session
        }),
{
}

/// A new tab comes behind all others and is shown, with one pane that has no session.
pub proof fn new_tabs_come_last(w: WindowView, saved: Seq<Option<Seq<char>>>)
    requires
        w.bar.valid(),
        saved.len() == w.panes.len(),
        !window::any_busy(w.panes),
    ensures
        ({
            let next = w.tab_opened(saved);
            &&& next is Some
            &&& next->0.bar.tabs.len() == w.bar.tabs.len() + 1
            &&& next->0.bar.active == w.bar.tabs.len()
            &&& next->0.bar.shown().panes.len() == 1
            &&& next->0.bar.shown().panes[0].session is None
        }),
{
}

/// The panes of a shown tab show the sessions that were loaded for them, under the names that
/// they are kept by; one whose session could not be loaded is empty and says why.
pub proof fn shown_tabs_show_their_sessions(
    w: WindowView,
    sources: Seq<PaneSourceView>,
    k: int,
    l: LoadedView,
    e: Seq<char>,
)
    requires
        w.bar.valid(),
        0 <= k < w.bar.shown().panes.len(),
        sources.len() == w.bar.shown().panes.len(),
        w.bar.shown().panes[k].session is Some,
    ensures
        ({
            let next = w.materialized(sources);
            &&& next.panes.len() == w.bar.shown().panes.len()
            &&& sources[k] == PaneSourceView::Session(Ok(l)) ==> {
                &&& next.panes[k].log.history == l.history
                &&& next.panes[k].settings == l.settings
                &&& next.panes[k].session == w.bar.shown().panes[k].session
            }
            &&& sources[k] == PaneSourceView::Session(Err(e)) ==> {
                &&& next.panes[k].log.history.len() == 0
                &&& scan::contains_text(next.panes[k].log.status, e)
            }
            &&& sources[k] is Fresh ==> next.panes[k].log.history.len() == 0
        }),
{
    let head = "Session load failed: "@;
    laws_commands::piece(head, e, Seq::empty());
    assert(head + e + Seq::<char>::empty() =~= head + e);
}

// ---------------------------------------------------------------------------
// The list beside the panes
// ---------------------------------------------------------------------------

proof fn sessions_are_listed(list: Seq<(Seq<char>, usize)>, filter: Seq<char>, n: int, i: int)
    requires
        0 <= i < n <= list.len(),
        sidebar::passes(list[i].0, filter),
    ensures
        sidebar::session_rows(list, filter, n).contains(
            RowView::Session { name: list[i].0, messages: list[i].1 },
        ),
    decreases n,
{
    let all = sidebar::session_rows(list, filter, n);
    let row = RowView::Session { name: list[i].0, messages: list[i].1 };
    if i < n - 1 {
        sessions_are_listed(list, filter, n - 1, i);
        let less = sidebar::session_rows(list, filter, n - 1);
        let k = less.index_of(row);
        assert(all[k] == row);
    } else {
        assert(all.last() == row);
    }
}

proof fn places_are_listed(
    live: PlaceView,
    list: Seq<PlaceView>,
    filter: Seq<char>,
    n: int,
    i: int,
)
    requires
        0 <= n <= list.len(),
        -1 <= i < n,
    ensures
        i >= 0 && list[i].path != live.path && (sidebar::passes(list[i].path, filter) || sidebar::passes(
            list[i].base,
            filter,
        )) ==> sidebar::place_rows(live, list, filter, n).contains(
            RowView::Workspace { path: list[i].path, base: list[i].base },
        ),
        i == -1 && (sidebar::passes(live.path, filter) || sidebar::passes(live.base, filter))
            ==> sidebar::place_rows(live, list, filter, n).contains(
            RowView::Workspace { path: live.path, base: live.base },
        ),
    decreases n,
{
    let all = sidebar::place_rows(live, list, filter, n);
    if n > 0 && i < n - 1 {
        places_are_listed(live, list, filter, n - 1, i);
        let less = sidebar::place_rows(live, list, filter, n - 1);
        let row = if i >= 0 {
            RowView::Workspace { path: list[i].path, base: list[i].base }
        } else {
            RowView::Workspace { path: live.path, base: live.base }
        };
        if less.contains(row) {
            let k = less.index_of(row);
            assert(all[k] == row);
        }
    } else if n > 0 {
        if list[i].path != live.path && (sidebar::passes(list[i].path, filter) || sidebar::passes(
            list[i].base,
            filter,
        )) {
            assert(all.last() == RowView::Workspace { path: list[i].path, base: list[i].base });
        }
    } else {
        if sidebar::passes(live.path, filter) || sidebar::passes(live.base, filter) {
            assert(all[0] == RowView::Workspace { path: live.path, base: live.base });
        }
    }
}

/// The list shows every saved session and every remembered workspace whose name holds what
/// was typed, whatever the case; without a filter it shows all of them, the live workspace and
/// a row for a new session.
pub proof fn the_list_shows_all_that_fits(v: SidebarView, live: PlaceView, i: int)
    ensures
        0 <= i < v.sessions.len() && (v.filter.len() == 0 || scan::contains_text(
            text::lower(v.sessions[i].0),
            text::lower(v.filter),
        )) ==> v.rows(live).contains(
            RowView::Session { name: v.sessions[i].0, messages: v.sessions[i].1 },
        ),
        0 <= i < v.recent.len() && v.recent[i].path != live.path && (v.filter.len() == 0
            || scan::contains_text(text::lower(v.recent[i].path), text::lower(v.filter)))
            ==> v.rows(live).contains(
            RowView::Workspace { path: v.recent[i].path, base: v.recent[i].base },
        ),
        v.filter.len() == 0 ==> v.rows(live).contains(
            RowView::Workspace { path: live.path, base: live.base },
        ),
        v.filter.len() == 0 ==> v.rows(live).len() > 0 && v.rows(live)[0] is New,
{
    let a = if v.filter.len() == 0 {
        seq![RowView::New]
    } else {
        Seq::empty()
    };
    let b = sidebar::session_rows(v.sessions, v.filter, v.sessions.len() as int);
    let c = sidebar::place_rows(live, v.recent, v.filter, v.recent.len() as int);
    let all = v.rows(live);
    assert(all == a + b + c);
    assert forall|r: RowView| b.contains(r) implies #[trigger] all.contains(r) by {
        let k = b.index_of(r);
        assert(all[a.len() + k] == r);
    }
    assert forall|r: RowView| c.contains(r) implies #[trigger] all.contains(r) by {
        let k = c.index_of(r);
        assert(all[a.len() + b.len() + k] == r);
    }
    if 0 <= i < v.sessions.len() && sidebar::passes(v.sessions[i].0, v.filter) {
        sessions_are_listed(v.sessions, v.filter, v.sessions.len() as int, i);
    }
    if 0 <= i < v.recent.len() {
        places_are_listed(live, v.recent, v.filter, v.recent.len() as int, i);
    }
    places_are_listed(live, v.recent, v.filter, v.recent.len() as int, -1);
}

/// Enter opens what the selected row shows, and Delete deletes the session that it shows and
/// nothing else.
pub proof fn rows_open_what_they_show(v: SidebarView, key: Key, live: PlaceView)
    requires
        0 <= v.selected < v.rows(live).len(),
    ensures
        key.code == KeyCode::Enter ==> match v.rows(live)[v.selected] {
            RowView::New => v.keyed(key, live).1 == SidebarActionView::New,
            RowView::Session { name, .. } => v.keyed(key, live).1 == SidebarActionView::Load(name),
            RowView::Workspace { path, .. } => v.keyed(key, live).1 == SidebarActionView::Enter(path),
        },
        key.code == KeyCode::Delete ==> match v.rows(live)[v.selected] {
            RowView::Session { name, .. } => v.keyed(key, live).1 == SidebarActionView::Delete(name),
            _ => v.keyed(key, live).1 == SidebarActionView::NothingToDelete,
        },
        key.code == KeyCode::Up || key.code == KeyCode::Down ==> v.keyed(key, live).1
            == SidebarActionView::Stay,
        key.code == KeyCode::Down && v.selected + 1 < v.rows(live).len() ==> v.keyed(key, live).0.selected
            == v.selected + 1,
        key.code == KeyCode::Up && v.selected > 0 ==> v.keyed(key, live).0.selected == v.selected - 1,
{
    let w = SidebarView { selected: v.selected + 1, ..v };
    assert(w.rows(live) == v.rows(live));
    let u = SidebarView { selected: v.selected - 1, ..v };
    assert(u.rows(live) == v.rows(live));
}

/// A typed character narrows the list by itself, and Backspace takes the last one back.
pub proof fn typing_narrows_the_list(v: SidebarView, key: Key, live: PlaceView, c: char)
    requires
        !key.ctrl && !key.alt,
    ensures
        key.code == KeyCode::Char(c) && (v.filter.len() > 0 || (c != 'n' && c != 'N' && c != 'd' && c
            != 'D')) ==> v.keyed(key, live).0.filter == v.filter.push(c) && v.keyed(key, live).1
            == SidebarActionView::Stay,
        key.code == KeyCode::Backspace && v.filter.len() > 0 ==> v.keyed(key, live).0.filter
            == v.filter.drop_last(),
        key.code == KeyCode::Char('n') && v.filter.len() == 0 ==> v.keyed(key, live).1
            == SidebarActionView::New,
{
}

// ---------------------------------------------------------------------------
// Searching
// ---------------------------------------------------------------------------

/// A typed character goes behind what is searched for, and the matches are looked up again;
/// the arrows move the highlight, and the draft shows what is highlighted.
pub proof fn searching_follows_the_keys(
    w: WindowView,
    s: SearchView,
    key: Key,
    matches: Seq<Seq<char>>,
    now: u64,
    c: char,
)
    requires
        w.valid(),
        !key.ctrl && !key.alt,
        0 <= s.selected < matches.len(),
    ensures
        ({
            let next = w.search_keyed(s, key, matches, now);
            &&& key.code == KeyCode::Char(c) ==> (next.search matches Some(t) && t.query == s.query.push(c)
                && t.selected == 0) && next.asks == w.asks.push(WindowAskView::FindMatches)
            &&& key.code == KeyCode::Down && s.selected + 1 < matches.len() ==> (next.search matches Some(t)
                && t.selected == s.selected + 1) && next.focused().composer.text == matches[s.selected + 1]
            &&& key.code == KeyCode::Up && s.selected > 0 ==> (next.search matches Some(t) && t.selected
                == s.selected - 1) && next.focused().composer.text == matches[s.selected - 1]
            &&& key.code == KeyCode::Enter ==> next.search is None && next.focused().composer.text
                == matches[s.selected] && next.focused().composer.at == matches[s.selected].len()
            &&& key.code == KeyCode::Esc ==> next.search is None && next.focused().composer.text
                == s.restore && next.focused().composer.at == s.restore_at
        }),
{
}

/// A search begins with what stands in the draft, and keeps the draft to bring it back.
pub proof fn searches_begin_with_the_draft(w: WindowView)
    requires
        w.valid(),
    ensures
        ({
            let c = w.focused().composer;
            let s = w.search_opened().search;
            &&& s is Some
            &&& s->0.restore == c.text && s->0.restore_at == c.at
            &&& !c.text.contains('\n') ==> s->0.query == scan::trim(c.text)
            &&& w.search_opened().focused() == w.focused()
        }),
{
}

} // verus!
