//! The list beside the panes: saved sessions and recent workspaces.

use crate::composer;
use crate::json;
use crate::keys::{Key, KeyCode};
use crate::paint::Rect;
use crate::paint;
use crate::paths;
use crate::scan;
use crate::text;
use vstd::prelude::*;
use vstd::string::*;

verus! {

/// How wide the list is, in cells.
pub const SIDEBAR_WIDTH: u16 = 30;

/// How many workspaces are remembered.
pub const MAX_RECENT_WORKSPACES: usize = 8;

/// A saved session.
#[derive(Debug, Clone, PartialEq, Eq)]
pub struct SessionInfo {
    pub name: String,
    pub message_count: usize,
}

/// A workspace and the name that it is shown under.
#[derive(Debug, Clone, PartialEq, Eq)]
pub struct Place {
    pub path: String,
    pub base: String,
}

/// What a workspace holds.
#[verifier::ext_equal]
pub struct PlaceView {
    pub path: Seq<char>,
    pub base: Seq<char>,
}

impl View for Place {
    type V = PlaceView;

    open spec fn view(&self) -> PlaceView {
        PlaceView { path: self.path@, base: self.base@ }
    }
}

/// What the workspaces of a list hold.
pub open spec fn places_view(list: Seq<Place>) -> Seq<PlaceView> {
    list.map_values(|p: Place| p@)
}

/// `std::path::Path::file_name`: the name that a path ends in, if it does. A path that ends in
/// `..`, and one without parts, gives none. It is a piece of the path on every platform; how a
/// text that is not plain is taken apart depends on the platform, and is not said here.
#[verifier::external_body]
fn file_name(path: &str) -> (r: Option<String>)
    ensures
        r matches Some(name) ==> scan::contains_text(path@, name@),
        paths::plain(path@) ==> composer::opt_text(r) == paths::last_part(path@),
{
    std::path::Path::new(path).file_name().map(|name| name.to_string_lossy().to_string())
}

/// The name that a path is shown under: its last part, or all of it where there is
/// none.
pub open spec fn shown_name(path: Seq<char>, last: Option<Seq<char>>) -> Seq<char> {
    match last {
        Some(name) => if name.len() > 0 {
            name
        } else {
            path
        },
        None => path,
    }
}

/// What a path is shown under: a plain one under the name that it ends in, or under all of
/// it where there is none; any other one under a piece of it.
pub open spec fn base_of(path: Seq<char>, base: Seq<char>) -> bool {
    &&& scan::contains_text(path, base)
    &&& paths::plain(path) ==> base == shown_name(path, paths::last_part(path))
}

/// The name that a path is shown under, given its last part.
pub fn name_from(path: &str, last: Option<String>) -> (r: String)
    ensures
        r@ == shown_name(path@, composer::opt_text(last)),
{
    match last {
        Some(name) => if name.as_str().is_empty() {
            text::copy_text(path)
        } else {
            name
        },
        None => text::copy_text(path),
    }
}

/// The name that a path is shown under: its last part, or all of it. Where the platforms
/// differ in how they take a path apart, it is a piece of the path.
pub fn workspace_basename(path: &str) -> (r: String)
    ensures
        base_of(path@, r@),
{
    proof {
        assert(path@.subrange(0, path@.len() as int) =~= path@);
        assert(scan::occurs_at(path@, path@, 0));
        scan::find_from_spec(path@, path@, 0);
    }
    let last = file_name(path);
    name_from(path, last)
}

impl Place {
    /// A workspace.
    pub fn new(path: &str) -> (r: Place)
        ensures
            r@.path == path@,
            base_of(path@, r@.base),
    {
        Place { path: text::copy_text(path), base: workspace_basename(path) }
    }

    /// A copy of the workspace.
    pub fn copy(&self) -> (r: Place)
        ensures
            r@ == self@,
    {
        Place { path: text::copy_text(self.path.as_str()), base: text::copy_text(self.base.as_str()) }
    }
}

/// The list beside the panes.
pub struct Sidebar {
    pub visible: bool,
    /// The list has the keyboard.
    pub focus: bool,
    pub selected: usize,
    pub scroll: usize,
    pub filter: String,
    pub sessions: Vec<SessionInfo>,
    pub recent: Vec<Place>,
    /// Where the list was last drawn.
    pub rect: Rect,
}

/// What the list holds.
#[verifier::ext_equal]
pub struct SidebarView {
    pub visible: bool,
    pub focus: bool,
    pub selected: int,
    pub scroll: int,
    pub filter: Seq<char>,
    pub sessions: Seq<(Seq<char>, usize)>,
    pub recent: Seq<PlaceView>,
    pub rect: Rect,
}

/// A hidden list without entries.
pub open spec fn hidden_list() -> SidebarView {
    SidebarView {
        visible: false,
        focus: false,
        selected: 0,
        scroll: 0,
        filter: Seq::empty(),
        sessions: Seq::empty(),
        recent: Seq::empty(),
        rect: Rect { x: 0, y: 0, width: 0, height: 0 },
    }
}

/// What the sessions of a list hold.
pub open spec fn infos_view(list: Seq<SessionInfo>) -> Seq<(Seq<char>, usize)> {
    list.map_values(|s: SessionInfo| (s.name@, s.message_count))
}

impl View for Sidebar {
    type V = SidebarView;

    open spec fn view(&self) -> SidebarView {
        SidebarView {
            visible: self.visible,
            focus: self.focus,
            selected: self.selected as int,
            scroll: self.scroll as int,
            filter: self.filter@,
            sessions: infos_view(self.sessions@),
            recent: places_view(self.recent@),
            rect: self.rect,
        }
    }
}

/// A row that can be selected.
#[derive(Debug, Clone, PartialEq, Eq)]
pub enum SidebarRow {
    /// Start a new session.
    New,
    Session { name: String, messages: usize },
    Workspace { path: String, base: String },
}

/// What a row holds.
#[verifier::ext_equal]
pub enum RowView {
    New,
    Session { name: Seq<char>, messages: usize },
    Workspace { path: Seq<char>, base: Seq<char> },
}

impl View for SidebarRow {
    type V = RowView;

    open spec fn view(&self) -> RowView {
        match *self {
            SidebarRow::New => RowView::New,
            SidebarRow::Session { name, messages } => RowView::Session { name: name@, messages },
            SidebarRow::Workspace { path, base } => RowView::Workspace {
                path: path@,
                base: base@,
            },
        }
    }
}

/// What the rows of a list hold.
pub open spec fn rows_view(list: Seq<SidebarRow>) -> Seq<RowView> {
    list.map_values(|r: SidebarRow| r@)
}

/// Whether a text passes a filter: any text passes an empty one.
pub open spec fn passes(text: Seq<char>, filter: Seq<char>) -> bool {
    filter.len() == 0 || scan::contains_text(text::lower(text), text::lower(filter))
}

/// The rows of the first `n` sessions that pass a filter.
pub open spec fn session_rows(sessions: Seq<(Seq<char>, usize)>, filter: Seq<char>, n: int) -> Seq<
    RowView,
>
    decreases n,
{
    if n <= 0 {
        Seq::empty()
    } else if passes(sessions[n - 1].0, filter) {
        session_rows(sessions, filter, n - 1).push(
            RowView::Session { name: sessions[n - 1].0, messages: sessions[n - 1].1 },
        )
    } else {
        session_rows(sessions, filter, n - 1)
    }
}

/// The rows of the workspaces that pass a filter: the live one, then the first `n`
/// others.
pub open spec fn place_rows(live: PlaceView, recent: Seq<PlaceView>, filter: Seq<char>, n: int) -> Seq<
    RowView,
>
    decreases n,
{
    if n <= 0 {
        if passes(live.path, filter) || passes(live.base, filter) {
            seq![RowView::Workspace { path: live.path, base: live.base }]
        } else {
            Seq::empty()
        }
    } else {
        let p = recent[n - 1];
        if p.path != live.path && (passes(p.path, filter) || passes(p.base, filter)) {
            place_rows(live, recent, filter, n - 1).push(
                RowView::Workspace { path: p.path, base: p.base },
            )
        } else {
            place_rows(live, recent, filter, n - 1)
        }
    }
}

impl SidebarView {
    /// The rows that can be selected: a new session (unless there is a filter), the
    /// saved sessions, then the workspaces with the live one first.
    pub open spec fn rows(self, live: PlaceView) -> Seq<RowView> {
        (if self.filter.len() == 0 {
            seq![RowView::New]
        } else {
            Seq::empty()
        }) + session_rows(self.sessions, self.filter, self.sessions.len() as int) + place_rows(
            live,
            self.recent,
            self.filter,
            self.recent.len() as int,
        )
    }

    /// The selection within the rows.
    pub open spec fn clamped(self, live: PlaceView) -> SidebarView {
        let n = self.rows(live).len() as int;
        SidebarView {
            selected: paint::least(self.selected, if n > 0 {
                n - 1
            } else {
                0
            }),
            ..self
        }
    }

    /// Shown with the keyboard where it was hidden, hidden where it has the keyboard,
    /// and given the keyboard where it was only shown.
    pub open spec fn toggled(self) -> SidebarView {
        if !self.visible {
            SidebarView { visible: true, focus: true, selected: 0, ..self }
        } else if self.focus {
            SidebarView { visible: false, focus: false, filter: Seq::empty(), ..self }
        } else {
            SidebarView { focus: true, selected: 0, ..self }
        }
    }

    /// The keyboard given back.
    pub open spec fn unfocused(self) -> SidebarView {
        SidebarView { focus: false, filter: Seq::empty(), ..self }
    }

    /// A workspace put before all others, once, with at most eight kept.
    pub open spec fn with_recent(self, place: PlaceView) -> SidebarView {
        SidebarView { recent: recent_with(self.recent, place), ..self }
    }
}

/// The first `n` workspaces of a list without those at a path.
pub open spec fn places_without(list: Seq<PlaceView>, path: Seq<char>, n: int) -> Seq<PlaceView>
    decreases n,
{
    if n <= 0 {
        Seq::empty()
    } else if list[n - 1].path == path {
        places_without(list, path, n - 1)
    } else {
        places_without(list, path, n - 1).push(list[n - 1])
    }
}

/// A list of workspaces with one put before all others, once.
pub open spec fn recent_with(list: Seq<PlaceView>, place: PlaceView) -> Seq<PlaceView> {
    let all = seq![place] + places_without(list, place.path, list.len() as int);
    if all.len() <= MAX_RECENT_WORKSPACES {
        all
    } else {
        all.take(MAX_RECENT_WORKSPACES as int)
    }
}

/// The paths of workspaces.
pub open spec fn paths_of(list: Seq<PlaceView>) -> Seq<Seq<char>> {
    list.map_values(|p: PlaceView| p.path)
}

/// The paths that a text kept for the remembered workspaces lists; without such a text there
/// are none.
pub open spec fn kept_paths(raw: Option<Seq<char>>) -> Seq<Seq<char>> {
    match raw {
        Some(s) => json::listed_texts(s),
        None => Seq::empty(),
    }
}

/// Those of the first `n` paths that still exist.
pub open spec fn existing(list: Seq<Seq<char>>, exist: Seq<bool>, n: int) -> Seq<Seq<char>>
    decreases n,
{
    if n <= 0 {
        Seq::empty()
    } else if n - 1 < exist.len() && exist[n - 1] {
        existing(list, exist, n - 1).push(list[n - 1])
    } else {
        existing(list, exist, n - 1)
    }
}

/// The paths that are taken up again: the first ones of those that still exist.
pub open spec fn recalled(list: Seq<Seq<char>>, exist: Seq<bool>) -> Seq<Seq<char>> {
    let all = existing(list, exist, list.len() as int);
    if all.len() <= MAX_RECENT_WORKSPACES {
        all
    } else {
        all.take(MAX_RECENT_WORKSPACES as int)
    }
}

/// The paths that a text kept for the remembered workspaces lists.
pub fn read_recent(raw: &Option<String>) -> (r: Vec<String>)
    ensures
        text::texts(r@) == kept_paths(composer::opt_text(*raw)),
{
    match raw {
        Some(s) => json::read_texts(s.as_str()),
        None => {
            let r: Vec<String> = Vec::new();
            assert(text::texts(r@) =~= Seq::empty());
            r
        },
    }
}

fn text_passes(text: &str, filter: &str) -> (r: bool)
    ensures
        r == passes(text@, filter@),
{
    if filter.is_empty() {
        return true;
    }
    let a = text::lower_text(text);
    let b = text::lower_text(filter);
    scan::text_contains(a.as_str(), b.as_str())
}

impl Sidebar {
    /// A hidden list.
    pub fn new() -> (r: Sidebar)
        ensures
            r@ == hidden_list(),
    {
        let r = Sidebar {
            visible: false,
            focus: false,
            selected: 0,
            scroll: 0,
            filter: String::new(),
            sessions: Vec::new(),
            recent: Vec::new(),
            rect: Rect::none(),
        };
        assert(r@.sessions =~= Seq::empty());
        assert(r@.recent =~= Seq::empty());
        r
    }

    /// The rows that can be selected.
    pub fn sidebar_rows(&self, live: &Place) -> (r: Vec<SidebarRow>)
        ensures
            rows_view(r@) == self@.rows(live@),
    {
        let mut rows: Vec<SidebarRow> = Vec::new();
        let ghost v = self@;
        let ghost first = if v.filter.len() == 0 {
            seq![RowView::New]
        } else {
            Seq::empty()
        };
        if self.filter.as_str().is_empty() {
            rows.push(SidebarRow::New);
        }
        assert(rows_view(rows@) =~= first + session_rows(v.sessions, v.filter, 0));
        for i in 0..self.sessions.len()
            invariant
                v == self@,
                rows_view(rows@) == first + session_rows(v.sessions, v.filter, i as int),
        {
            assert(v.sessions[i as int] == (
                self.sessions@[i as int].name@,
                self.sessions@[i as int].message_count,
            ));
            if text_passes(self.sessions[i].name.as_str(), self.filter.as_str()) {
                let ghost before = rows@;
                rows.push(
                    SidebarRow::Session {
                        name: text::copy_text(self.sessions[i].name.as_str()),
                        messages: self.sessions[i].message_count,
                    },
                );
                assert(rows_view(rows@) =~= rows_view(before).push(rows@.last()@));
                assert(rows_view(rows@) =~= first + session_rows(
                    v.sessions,
                    v.filter,
                    i + 1,
                ));
            }
        }
        let ghost head = rows_view(rows@);
        if text_passes(live.path.as_str(), self.filter.as_str()) || text_passes(
            live.base.as_str(),
            self.filter.as_str(),
        ) {
            rows.push(
                SidebarRow::Workspace {
                    path: text::copy_text(live.path.as_str()),
                    base: text::copy_text(live.base.as_str()),
                },
            );
        }
        assert(rows_view(rows@) =~= head + place_rows(live@, v.recent, v.filter, 0));
        for i in 0..self.recent.len()
            invariant
                v == self@,
                rows_view(rows@) == head + place_rows(live@, v.recent, v.filter, i as int),
        {
            assert(v.recent[i as int] == self.recent@[i as int]@);
            if !text::same_text(self.recent[i].path.as_str(), live.path.as_str()) && (text_passes(
                self.recent[i].path.as_str(),
                self.filter.as_str(),
            ) || text_passes(self.recent[i].base.as_str(), self.filter.as_str())) {
                let ghost before = rows@;
                rows.push(
                    SidebarRow::Workspace {
                        path: text::copy_text(self.recent[i].path.as_str()),
                        base: text::copy_text(self.recent[i].base.as_str()),
                    },
                );
                assert(rows_view(rows@) =~= rows_view(before).push(rows@.last()@));
                assert(rows_view(rows@) =~= head + place_rows(
                    live@,
                    v.recent,
                    v.filter,
                    i + 1,
                ));
            }
        }
        rows
    }

    /// Keeps the selection within the rows.
    pub fn clamp_sidebar_selected(&mut self, live: &Place)
        ensures
            final(self)@ == old(self)@.clamped(live@),
    {
        let rows = self.sidebar_rows(live);
        assert(rows_view(rows@).len() == rows@.len());
        let last: usize = if rows.len() > 0 {
            rows.len() - 1
        } else {
            0
        };
        if self.selected > last {
            self.selected = last;
        }
        assert(self@ =~= old(self)@.clamped(live@));
    }

    /// Takes the saved sessions anew.
    pub fn refresh_sidebar(&mut self, sessions: Vec<SessionInfo>, live: &Place)
        ensures
            final(self)@ == (SidebarView {
                sessions: infos_view(sessions@),
                ..old(self)@
            }).clamped(live@),
    {
        self.sessions = sessions;
        self.clamp_sidebar_selected(live);
    }

    /// Shows, hides or focuses the list. Says whether it was shown just now.
    pub fn toggle_sidebar(&mut self) -> (r: bool)
        ensures
            r == !old(self)@.visible,
            final(self)@ == old(self)@.toggled(),
    {
        if !self.visible {
            self.visible = true;
            self.focus = true;
            self.selected = 0;
            true
        } else if self.focus {
            self.visible = false;
            self.focus = false;
            self.filter = String::new();
            assert(self@ =~= old(self)@.toggled());
            false
        } else {
            self.focus = true;
            self.selected = 0;
            false
        }
    }

    /// Gives the keyboard back; the list stays visible.
    pub fn unfocus_sidebar(&mut self)
        ensures
            final(self)@ == old(self)@.unfocused(),
    {
        self.focus = false;
        self.filter = String::new();
        assert(self@ =~= old(self)@.unfocused());
    }

    /// Puts a workspace before all others.
    pub fn note_workspace(&mut self, place: Place)
        ensures
            final(self)@ == old(self)@.with_recent(place@),
    {
        let ghost all = places_view(self.recent@);
        let mut list: Vec<Place> = Vec::new();
        list.push(place);
        assert(places_view(list@) =~= seq![place@] + places_without(all, place@.path, 0));
        for i in 0..self.recent.len()
            invariant
                all == places_view(self.recent@),
                list@.len() > 0,
                list@[0]@ == place@,
                places_view(list@) == seq![place@] + places_without(all, place@.path, i as int),
        {
            assert(all[i as int] == self.recent@[i as int]@);
            if !text::same_text(self.recent[i].path.as_str(), list[0].path.as_str()) {
                let ghost before = list@;
                list.push(self.recent[i].copy());
                assert(places_view(list@) =~= places_view(before).push(list@.last()@));
                assert(places_view(list@) =~= seq![place@] + places_without(
                    all,
                    place@.path,
                    i + 1,
                ));
            }
        }
        let ghost full = places_view(list@);
        list.truncate(MAX_RECENT_WORKSPACES);
        assert(places_view(list@) =~= recent_with(all, place@));
        self.recent = list;
    }

    /// Takes the workspaces that were remembered: the first ones that still exist. `raw` is
    /// the text that they were kept as, and `exist` says which of the paths that it lists
    /// are still there.
    pub fn load_recent_workspaces(&mut self, raw: &Option<String>, exist: &Vec<bool>)
        ensures
            paths_of(final(self)@.recent) == recalled(kept_paths(composer::opt_text(*raw)), exist@),
            forall|i: int|
                0 <= i < final(self)@.recent.len() ==> base_of(
                    (#[trigger] final(self)@.recent[i]).path,
                    final(self)@.recent[i].base,
                ),
            final(self)@ == (SidebarView { recent: final(self)@.recent, ..old(self)@ }),
    {
        let paths = read_recent(raw);
        let ghost all = text::texts(paths@);
        let mut list: Vec<Place> = Vec::new();
        assert(paths_of(places_view(list@)) =~= existing(all, exist@, 0));
        for i in 0..paths.len()
            invariant
                all == text::texts(paths@),
                paths_of(places_view(list@)) == existing(all, exist@, i as int),
                forall|k: int|
                    0 <= k < list@.len() ==> base_of(
                        (#[trigger] list@[k])@.path,
                        list@[k]@.base,
                    ),
        {
            assert(all[i as int] == paths@[i as int]@);
            if i < exist.len() && exist[i] {
                let ghost before = list@;
                list.push(Place::new(paths[i].as_str()));
                assert(paths_of(places_view(list@)) =~= paths_of(places_view(before)).push(
                    all[i as int],
                ));
            }
        }
        list.truncate(MAX_RECENT_WORKSPACES);
        assert(paths_of(places_view(list@)) =~= recalled(all, exist@));
        self.recent = list;
        assert forall|i: int| 0 <= i < self@.recent.len() implies base_of(
            (#[trigger] self@.recent[i]).path,
            self@.recent[i].base,
        ) by {
            assert(self@.recent[i] == list@[i]@);
        }
    }

    /// The text that the remembered workspaces are kept as.
    pub fn recent_text(&self) -> (r: String)
        ensures
            kept_paths(Some(r@)) == paths_of(self@.recent),
    {
        let mut paths: Vec<String> = Vec::new();
        for i in 0..self.recent.len()
            invariant
                text::texts(paths@) == paths_of(places_view(self.recent@)).take(i as int),
        {
            let ghost before = paths@;
            paths.push(text::copy_text(self.recent[i].path.as_str()));
            assert(text::texts(paths@) =~= text::texts(before).push(self.recent@[i as int]@.path));
            assert(text::texts(paths@) =~= paths_of(places_view(self.recent@)).take(i + 1));
        }
        assert(text::texts(paths@) =~= paths_of(self@.recent));
        json::write_texts(&paths)
    }
}

/// The workspaces that were remembered come back as they were, where all of them still
/// exist.
pub proof fn remembered_workspaces_come_back(recent: Seq<PlaceView>, raw: Seq<char>, exist: Seq<bool>)
    requires
        recent.len() <= MAX_RECENT_WORKSPACES,
        kept_paths(Some(raw)) == paths_of(recent),
        exist.len() == recent.len(),
        forall|i: int| 0 <= i < exist.len() ==> exist[i],
    ensures
        recalled(kept_paths(Some(raw)), exist) == paths_of(recent),
{
    all_exist(paths_of(recent), exist, recent.len() as int);
    assert(paths_of(recent).take(recent.len() as int) =~= paths_of(recent));
}

proof fn all_exist(list: Seq<Seq<char>>, exist: Seq<bool>, n: int)
    requires
        0 <= n <= list.len(),
        exist.len() == list.len(),
        forall|i: int| 0 <= i < exist.len() ==> exist[i],
    ensures
        existing(list, exist, n) == list.take(n),
    decreases n,
{
    if n > 0 {
        all_exist(list, exist, n - 1);
        assert(list.take(n) =~= list.take(n - 1).push(list[n - 1]));
    } else {
        assert(list.take(n) =~= Seq::empty());
    }
}

/// No more workspaces are remembered than there is room for, whatever was kept.
pub proof fn recalled_workspaces_are_bounded(list: Seq<Seq<char>>, exist: Seq<bool>)
    ensures
        recalled(list, exist).len() <= MAX_RECENT_WORKSPACES,
{
}

// ---------------------------------------------------------------------------
// Keys and clicks
// ---------------------------------------------------------------------------

/// What the list asks for.
#[derive(Debug, Clone, PartialEq, Eq)]
pub enum SidebarAction {
    /// Nothing.
    Stay,
    /// Start a new session.
    New,
    /// Load a saved session.
    Load(String),
    /// Move to a workspace.
    Enter(String),
    /// Delete a saved session.
    Delete(String),
    /// Say that only saved sessions can be deleted.
    NothingToDelete,
}

/// What a request of the list holds.
#[verifier::ext_equal]
pub enum SidebarActionView {
    Stay,
    New,
    Load(Seq<char>),
    Enter(Seq<char>),
    Delete(Seq<char>),
    NothingToDelete,
}

impl View for SidebarAction {
    type V = SidebarActionView;

    open spec fn view(&self) -> SidebarActionView {
        match *self {
            SidebarAction::Stay => SidebarActionView::Stay,
            SidebarAction::New => SidebarActionView::New,
            SidebarAction::Load(s) => SidebarActionView::Load(s@),
            SidebarAction::Enter(s) => SidebarActionView::Enter(s@),
            SidebarAction::Delete(s) => SidebarActionView::Delete(s@),
            SidebarAction::NothingToDelete => SidebarActionView::NothingToDelete,
        }
    }
}

/// What opening row `i` asks for.
pub open spec fn opening(rows: Seq<RowView>, i: int) -> SidebarActionView {
    if i < 0 || i >= rows.len() {
        SidebarActionView::Stay
    } else {
        match rows[i] {
            RowView::New => SidebarActionView::New,
            RowView::Session { name, .. } => SidebarActionView::Load(name),
            RowView::Workspace { path, .. } => SidebarActionView::Enter(path),
        }
    }
}

/// What deleting row `i` asks for.
pub open spec fn deleting(rows: Seq<RowView>, i: int) -> SidebarActionView {
    if 0 <= i < rows.len() {
        match rows[i] {
            RowView::Session { name, .. } => SidebarActionView::Delete(name),
            _ => SidebarActionView::NothingToDelete,
        }
    } else {
        SidebarActionView::NothingToDelete
    }
}

/// How many rows a page of the list has.
pub open spec fn page_rows(rect: Rect) -> int {
    if rect.height >= 3 {
        rect.height - 2
    } else {
        1
    }
}

/// A key without control or alt.
pub open spec fn bare(key: Key) -> bool {
    !key.ctrl && !key.alt
}

impl SidebarView {
    /// The list after a key, and what it asks for.
    pub open spec fn keyed(self, key: Key, live: PlaceView) -> (SidebarView, SidebarActionView) {
        let rows = self.rows(live);
        let last = if rows.len() > 0 {
            rows.len() - 1
        } else {
            0
        };
        let page = page_rows(self.rect);
        match key.code {
            KeyCode::Up => (
                SidebarView {
                    selected: if self.selected > 0 {
                        self.selected - 1
                    } else {
                        0
                    },
                    ..self
                }.clamped(live),
                SidebarActionView::Stay,
            ),
            KeyCode::Down => (
                SidebarView { selected: paint::least(self.selected + 1, last), ..self }.clamped(live),
                SidebarActionView::Stay,
            ),
            KeyCode::Home => (
                SidebarView { selected: 0, ..self }.clamped(live),
                SidebarActionView::Stay,
            ),
            KeyCode::End => (
                SidebarView { selected: last, ..self }.clamped(live),
                SidebarActionView::Stay,
            ),
            KeyCode::PageUp => (
                SidebarView {
                    selected: if self.selected >= page {
                        self.selected - page
                    } else {
                        0
                    },
                    ..self
                }.clamped(live),
                SidebarActionView::Stay,
            ),
            KeyCode::PageDown => (
                SidebarView { selected: paint::least(self.selected + page, last), ..self }.clamped(live),
                SidebarActionView::Stay,
            ),
            KeyCode::Enter => (self.clamped(live), opening(rows, self.selected)),
            KeyCode::Delete => (self.clamped(live), deleting(rows, self.selected)),
            KeyCode::Backspace => (
                SidebarView {
                    filter: if self.filter.len() > 0 {
                        self.filter.drop_last()
                    } else {
                        self.filter
                    },
                    selected: 0,
                    ..self
                }.clamped(live),
                SidebarActionView::Stay,
            ),
            KeyCode::Char(c) => if !bare(key) {
                (self.clamped(live), SidebarActionView::Stay)
            } else if self.filter.len() == 0 && (c == 'n' || c == 'N') {
                (self.clamped(live), SidebarActionView::New)
            } else if self.filter.len() == 0 && (c == 'd' || c == 'D') {
                (self.clamped(live), deleting(rows, self.selected))
            } else {
                (
                    SidebarView { filter: self.filter.push(c), selected: 0, ..self }.clamped(live),
                    SidebarActionView::Stay,
                )
            },
            _ => (self.clamped(live), SidebarActionView::Stay),
        }
    }
}

impl Sidebar {
    /// What opening the selected row asks for.
    pub fn sidebar_open_selected(&self, live: &Place) -> (r: SidebarAction)
        ensures
            r@ == opening(self@.rows(live@), self@.selected),
    {
        let rows = self.sidebar_rows(live);
        assert(rows_view(rows@).len() == rows@.len());
        if self.selected >= rows.len() {
            return SidebarAction::Stay;
        }
        assert(rows_view(rows@)[self.selected as int] == rows@[self.selected as int]@);
        match &rows[self.selected] {
            SidebarRow::New => SidebarAction::New,
            SidebarRow::Session { name, .. } => SidebarAction::Load(text::copy_text(name.as_str())),
            SidebarRow::Workspace { path, .. } => SidebarAction::Enter(text::copy_text(path.as_str())),
        }
    }

    /// What deleting the selected row asks for.
    pub fn sidebar_delete_selected(&self, live: &Place) -> (r: SidebarAction)
        ensures
            r@ == deleting(self@.rows(live@), self@.selected),
    {
        let rows = self.sidebar_rows(live);
        assert(rows_view(rows@).len() == rows@.len());
        if self.selected >= rows.len() {
            return SidebarAction::NothingToDelete;
        }
        assert(rows_view(rows@)[self.selected as int] == rows@[self.selected as int]@);
        match &rows[self.selected] {
            SidebarRow::Session { name, .. } => SidebarAction::Delete(text::copy_text(name.as_str())),
            _ => SidebarAction::NothingToDelete,
        }
    }

    fn page(&self) -> (r: usize)
        ensures
            r == page_rows(self@.rect),
    {
        if self.rect.height >= 3 {
            (self.rect.height - 2) as usize
        } else {
            1
        }
    }

    fn pop_filter(&mut self)
        ensures
            final(self)@ == (SidebarView {
                filter: if old(self)@.filter.len() > 0 {
                    old(self)@.filter.drop_last()
                } else {
                    old(self)@.filter
                },
                selected: 0,
                ..old(self)@
            }),
    {
        let c = text::to_chars(self.filter.as_str());
        if c.len() > 0 {
            self.filter = text::slice_text(&c, 0, c.len() - 1);
            assert(self.filter@ =~= old(self)@.filter.drop_last());
        }
        self.selected = 0;
    }

    /// A key while the list has the keyboard. Says what the list asks for.
    pub fn handle_sidebar_key(&mut self, key: &Key, live: &Place) -> (r: SidebarAction)
        ensures
            (final(self)@, r@) == old(self)@.keyed(*key, live@),
    {
        let rows = self.sidebar_rows(live);
        assert(rows_view(rows@).len() == rows@.len());
        let last: usize = if rows.len() > 0 {
            rows.len() - 1
        } else {
            0
        };
        let page: usize = self.page();
        let mut action = SidebarAction::Stay;
        match key.code {
            KeyCode::Up => {
                self.selected = if self.selected > 0 {
                    self.selected - 1
                } else {
                    0
                };
            },
            KeyCode::Down => {
                self.selected = if self.selected < last {
                    self.selected + 1
                } else {
                    last
                };
            },
            KeyCode::Home => {
                self.selected = 0;
            },
            KeyCode::End => {
                self.selected = last;
            },
            KeyCode::PageUp => {
                self.selected = if self.selected >= page {
                    self.selected - page
                } else {
                    0
                };
            },
            KeyCode::PageDown => {
                self.selected = if self.selected < last && page < last - self.selected {
                    self.selected + page
                } else {
                    last
                };
            },
            KeyCode::Enter => {
                action = self.sidebar_open_selected(live);
            },
            KeyCode::Delete => {
                action = self.sidebar_delete_selected(live);
            },
            KeyCode::Backspace => {
                self.pop_filter();
            },
            KeyCode::Char(c) => {
                if !key.ctrl && !key.alt {
                    let empty = self.filter.as_str().is_empty();
                    if empty && (c == 'n' || c == 'N') {
                        action = SidebarAction::New;
                    } else if empty && (c == 'd' || c == 'D') {
                        action = self.sidebar_delete_selected(live);
                    } else {
                        self.filter.push(c);
                        self.selected = 0;
                    }
                }
            },
            _ => {},
        }
        self.clamp_sidebar_selected(live);
        action
    }
}

// ---------------------------------------------------------------------------
// Laws
// ---------------------------------------------------------------------------

/// A workspace that was put before all others stands there once, and no more than eight
/// are kept.
pub proof fn recents_are_distinct(list: Seq<PlaceView>, place: PlaceView)
    requires
        forall|i: int, j: int| 0 <= i < j < list.len() ==> list[i].path != list[j].path,
    ensures
        ({
            let next = recent_with(list, place);
            &&& next.len() <= MAX_RECENT_WORKSPACES
            &&& next[0] == place
            &&& forall|i: int, j: int| 0 <= i < j < next.len() ==> next[i].path != next[j].path
        }),
{
    without_is_distinct(list, place.path, list.len() as int);
}

proof fn without_is_distinct(list: Seq<PlaceView>, path: Seq<char>, n: int)
    requires
        0 <= n <= list.len(),
        forall|i: int, j: int| 0 <= i < j < list.len() ==> list[i].path != list[j].path,
    ensures
        ({
            let rest = places_without(list, path, n);
            &&& forall|i: int| 0 <= i < rest.len() ==> (#[trigger] rest[i]).path != path
            &&& forall|i: int|
                0 <= i < rest.len() ==> exists|k: int| 0 <= k < n && list[k] == #[trigger] rest[i]
            &&& forall|i: int, j: int| 0 <= i < j < rest.len() ==> rest[i].path != rest[j].path
        }),
    decreases n,
{
    if n > 0 {
        without_is_distinct(list, path, n - 1);
        let rest = places_without(list, path, n);
        let before = places_without(list, path, n - 1);
        assert forall|i: int| 0 <= i < rest.len() implies exists|k: int|
            0 <= k < n && list[k] == #[trigger] rest[i] by {
            if i < before.len() {
                let k = choose|k: int| 0 <= k < n - 1 && list[k] == before[i];
                assert(list[k] == rest[i]);
            } else {
                assert(list[n - 1] == rest[i]);
            }
        }
        assert forall|i: int, j: int| 0 <= i < j < rest.len() implies rest[i].path
            != rest[j].path by {
            if j == before.len() {
                let k = choose|k: int| 0 <= k < n - 1 && list[k] == before[i];
                assert(list[k] == rest[i]);
            }
        }
    }
}

/// Three toggles from hidden: shown with the keyboard, hidden, shown again. A list that
/// is shown without the keyboard is given it.
pub proof fn toggling_cycles(v: SidebarView)
    ensures
        !v.visible ==> v.toggled().visible && v.toggled().focus,
        v.visible && v.focus ==> !v.toggled().visible && !v.toggled().focus,
        v.visible ==> v.unfocused().toggled().visible && v.unfocused().toggled().focus,
        v.visible ==> v.unfocused().visible && v.unfocused().filter.len() == 0,
{
}

/// Keys leave the selection within the rows.
pub proof fn keys_keep_selection(v: SidebarView, key: Key, live: PlaceView)
    requires
        v.selected >= 0,
    ensures
        ({
            let next = v.keyed(key, live).0;
            let n = next.rows(live).len();
            0 <= next.selected && (n > 0 ==> next.selected < n)
        }),
{
    let next = v.keyed(key, live).0;
    assert(forall|w: SidebarView| #[trigger] w.clamped(live).rows(live) == w.rows(live));
}

} // verus!
