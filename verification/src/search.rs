//! Searching the shell history backwards. Typing narrows the matches, the highlighted
//! one is previewed in the draft, Enter takes it and Esc restores the draft.

use crate::composer::{Composer, ComposerView};
use crate::ghost;
use crate::keys::{Key, KeyCode};
use crate::mouse;
use crate::paint::Rect;
use crate::paint;
use crate::pane::{Pane, PaneView};
use crate::panels;
use crate::scan;
use crate::text;
use vstd::prelude::*;

verus! {

/// How many matches are shown at most.
pub const SEARCH_CAP: usize = 40;

/// An open search: what is looked for, which match is highlighted, and the draft to
/// restore, with the character that its cursor stood before.
#[derive(Debug, Clone, PartialEq, Eq)]
pub struct HistSearch {
    pub query: String,
    pub selected: usize,
    pub restore: String,
    pub restore_at: usize,
}

/// What a search holds.
#[verifier::ext_equal]
pub struct SearchView {
    pub query: Seq<char>,
    pub selected: int,
    pub restore: Seq<char>,
    pub restore_at: int,
}

impl View for HistSearch {
    type V = SearchView;

    open spec fn view(&self) -> SearchView {
        SearchView {
            query: self.query@,
            selected: self.selected as int,
            restore: self.restore@,
            restore_at: self.restore_at as int,
        }
    }
}

/// What an optional search holds.
pub open spec fn search_view(o: Option<HistSearch>) -> Option<SearchView> {
    match o {
        Some(s) => Some(s@),
        None => None,
    }
}

/// Back from `i` to just after a white space.
pub open spec fn word_cut(s: Seq<char>, i: int) -> int
    decreases i,
{
    if i <= 0 {
        0
    } else if text::white(s[i - 1]) {
        i
    } else {
        word_cut(s, i - 1)
    }
}

/// A text without its last word.
pub open spec fn last_word_cut(s: Seq<char>) -> Seq<char> {
    let t = scan::trim_end(s);
    scan::trim_end(t.take(word_cut(t, t.len() as int)))
}

impl SearchView {
    /// A search opened on a draft: one line of it is what is first looked for.
    pub open spec fn opened(v: ComposerView) -> SearchView {
        SearchView {
            query: if v.text.contains('\n') {
                Seq::empty()
            } else {
                scan::trim(v.text)
            },
            selected: 0,
            restore: v.text,
            restore_at: v.at,
        }
    }

    /// Another text looked for; the first match is highlighted again.
    pub open spec fn asked(self, query: Seq<char>) -> SearchView {
        SearchView { query, selected: 0, ..self }
    }

    /// The highlight one match on or back, within `count` matches.
    pub open spec fn moved(self, forward: bool, count: int) -> SearchView {
        SearchView {
            selected: if count == 0 {
                self.selected
            } else if forward {
                paint::least(self.selected + 1, count - 1)
            } else if self.selected > 0 {
                self.selected - 1
            } else {
                0
            },
            ..self
        }
    }
}

/// The draft while a match is highlighted; without one it stays.
pub open spec fn previewed(v: ComposerView, s: SearchView, matches: Seq<Seq<char>>) -> ComposerView {
    if 0 <= s.selected < matches.len() {
        v.with_text(matches[s.selected])
    } else {
        v
    }
}

impl ComposerView {
    /// The draft that a search took the place of.
    pub open spec fn restored(self, s: SearchView) -> ComposerView {
        ComposerView { text: s.restore, at: s.restore_at, ..self }
    }

    /// A match taken into the draft.
    pub open spec fn match_taken(self, pick: Seq<char>, now: u64) -> ComposerView {
        ComposerView {
            seen: pick,
            offer: None,
            changed_at: now as int,
            ..self.with_text(pick)
        }
    }
}

/// What a key did to an open search.
#[derive(Debug, Clone, Copy, PartialEq, Eq, Structural)]
pub enum SearchStep {
    /// The search is closed.
    Closed,
    /// The key means nothing here.
    Ignored,
    /// What is looked for is the same.
    Same,
    /// Something else is looked for: the matches have to be found anew and previewed.
    Changed,
}

impl HistSearch {
    /// The cursor to restore is within the draft to restore.
    pub open spec fn wf(self) -> bool {
        self.restore_at <= self.restore@.len()
    }

    /// Opens a search on a draft.
    pub fn open(composer: &Composer) -> (r: HistSearch)
        requires
            composer.wf(),
        ensures
            r.wf(),
            r@ == SearchView::opened(composer@),
    {
        let (chars, at) = composer.chars_at();
        let query = if ghost::has_char(composer.input.as_str(), '\n') {
            String::new()
        } else {
            scan::trim_text(composer.input.as_str())
        };
        let r = HistSearch {
            query,
            selected: 0,
            restore: text::copy_text(composer.input.as_str()),
            restore_at: at,
        };
        assert(r@ =~= SearchView::opened(composer@));
        r
    }

    /// Shows the highlighted match in the draft.
    pub fn preview_hist_selection(&self, composer: &mut Composer, matches: &Vec<String>)
        requires
            old(composer).wf(),
        ensures
            final(composer).wf(),
            final(composer)@ == previewed(old(composer)@, self@, text::texts(matches@)),
    {
        assert(text::texts(matches@).len() == matches@.len());
        if self.selected < matches.len() {
            assert(text::texts(matches@)[self.selected as int] == matches@[self.selected as int]@);
            composer.set_input(text::copy_text(matches[self.selected].as_str()));
        }
    }

    /// Moves the highlight.
    pub fn hist_move(&mut self, forward: bool, count: usize)
        ensures
            final(self)@ == old(self)@.moved(forward, count as int),
            old(self).wf() ==> final(self).wf(),
    {
        if count == 0 {
            return;
        }
        if forward {
            self.selected = if self.selected < count - 1 {
                self.selected + 1
            } else {
                count - 1
            };
        } else if self.selected > 0 {
            self.selected = self.selected - 1;
        }
    }

    /// Looks for one character more.
    pub fn hist_query_push(&mut self, c: char)
        ensures
            final(self)@ == old(self)@.asked(old(self)@.query.push(c)),
            old(self).wf() ==> final(self).wf(),
    {
        self.query.push(c);
        self.selected = 0;
    }

    /// Looks for one character less.
    pub fn hist_query_backspace(&mut self)
        ensures
            final(self)@ == old(self)@.asked(
                if old(self)@.query.len() > 0 {
                    old(self)@.query.drop_last()
                } else {
                    Seq::empty()
                },
            ),
            old(self).wf() ==> final(self).wf(),
    {
        let c = text::to_chars(self.query.as_str());
        if c.len() > 0 {
            self.query = text::slice_text(&c, 0, c.len() - 1);
            assert(self.query@ =~= old(self)@.query.drop_last());
        } else {
            assert(self.query@ =~= Seq::empty());
        }
        self.selected = 0;
    }

    /// Looks for nothing in particular.
    pub fn hist_query_clear(&mut self)
        ensures
            final(self)@ == old(self)@.asked(Seq::empty()),
            old(self).wf() ==> final(self).wf(),
    {
        self.query = String::new();
        self.selected = 0;
        assert(self@ =~= old(self)@.asked(Seq::empty()));
    }

    /// Looks for one word less.
    pub fn hist_query_drop_word(&mut self)
        ensures
            final(self)@ == old(self)@.asked(last_word_cut(old(self)@.query)),
            old(self).wf() ==> final(self).wf(),
    {
        let trimmed = scan::trim_end_text(self.query.as_str());
        let c = text::to_chars(trimmed.as_str());
        let mut i: usize = c.len();
        while i > 0 && !text::is_white(c[i - 1])
            invariant
                i <= c@.len(),
                word_cut(c@, c@.len() as int) == word_cut(c@, i as int),
            decreases i,
        {
            i = i - 1;
        }
        let head = text::slice_text(&c, 0, i);
        assert(head@ =~= c@.take(i as int));
        self.query = scan::trim_end_text(head.as_str());
        self.selected = 0;
    }
}

impl PaneView {
    /// A search closed: the highlighted match is taken, or the draft restored.
    pub open spec fn search_closed(
        self,
        s: SearchView,
        accept: bool,
        matches: Seq<Seq<char>>,
        now: u64,
    ) -> PaneView {
        if accept && 0 <= s.selected < matches.len() {
            self.composed(self.composer.match_taken(matches[s.selected], now)).said("History"@)
        } else {
            let v = self.composed(self.composer.restored(s));
            if accept {
                v.said("No history match"@)
            } else {
                v
            }
        }
    }
}

/// An open search after a key, and what the key did to it.
pub open spec fn search_key(s: SearchView, key: Key, count: int) -> (SearchView, SearchStep) {
    match key.code {
        KeyCode::Up => (s.moved(false, count), SearchStep::Same),
        KeyCode::Down => (s.moved(true, count), SearchStep::Same),
        KeyCode::Backspace => (
            s.asked(
                if s.query.len() > 0 {
                    s.query.drop_last()
                } else {
                    Seq::empty()
                },
            ),
            SearchStep::Changed,
        ),
        KeyCode::Char(c) => if key.ctrl && (c == 'r' || c == 'R') {
            (s.moved(true, count), SearchStep::Same)
        } else if key.ctrl && (c == 'u' || c == 'U') {
            (s.asked(Seq::empty()), SearchStep::Changed)
        } else if key.ctrl && (c == 'w' || c == 'W') {
            (s.asked(last_word_cut(s.query)), SearchStep::Changed)
        } else if !key.ctrl && !key.alt {
            (s.asked(s.query.push(c)), SearchStep::Changed)
        } else {
            (s, SearchStep::Ignored)
        },
        KeyCode::Esc => (s, SearchStep::Closed),
        KeyCode::Enter => (s, SearchStep::Closed),
        _ => (s, SearchStep::Ignored),
    }
}

impl HistSearch {
    fn typed(&mut self, key: &Key, count: usize) -> (r: SearchStep)
        requires
            old(self).wf(),
        ensures
            final(self).wf(),
            (final(self)@, r) == search_key(old(self)@, *key, count as int),
    {
        match key.code {
            KeyCode::Up => {
                self.hist_move(false, count);
                SearchStep::Same
            },
            KeyCode::Down => {
                self.hist_move(true, count);
                SearchStep::Same
            },
            KeyCode::Backspace => {
                self.hist_query_backspace();
                SearchStep::Changed
            },
            KeyCode::Char(c) => {
                if key.ctrl && (c == 'r' || c == 'R') {
                    self.hist_move(true, count);
                    SearchStep::Same
                } else if key.ctrl && (c == 'u' || c == 'U') {
                    self.hist_query_clear();
                    SearchStep::Changed
                } else if key.ctrl && (c == 'w' || c == 'W') {
                    self.hist_query_drop_word();
                    SearchStep::Changed
                } else if !key.ctrl && !key.alt {
                    self.hist_query_push(c);
                    SearchStep::Changed
                } else {
                    SearchStep::Ignored
                }
            },
            KeyCode::Esc => SearchStep::Closed,
            KeyCode::Enter => SearchStep::Closed,
            _ => SearchStep::Ignored,
        }
    }
}

impl Pane {
    /// Closes a search: takes the highlighted match, or restores the draft.
    pub fn close_hist_search(
        &mut self,
        search: HistSearch,
        accept: bool,
        matches: &Vec<String>,
        now: u64,
    )
        requires
            old(self).wf(),
            search.wf(),
        ensures
            final(self).wf(),
            final(self)@ == old(self)@.search_closed(search@, accept, text::texts(matches@), now),
    {
        assert(text::texts(matches@).len() == matches@.len());
        if accept && search.selected < matches.len() {
            assert(text::texts(matches@)[search.selected as int] == matches@[search.selected as int]@);
            let pick = text::copy_text(matches[search.selected].as_str());
            self.composer.ghost_seen_input = text::copy_text(pick.as_str());
            self.composer.set_input(pick);
            self.composer.ghost_text = None;
            self.composer.ghost_changed_at = now;
            self.say("History");
            assert(self@ =~= old(self)@.search_closed(search@, accept, text::texts(matches@), now));
            return;
        }
        let chars = text::to_chars(search.restore.as_str());
        self.composer.put(&chars, search.restore_at);
        if accept {
            self.say("No history match");
        }
    }

    /// A key while a search is open: `matches` are the matches of what it looks for.
    pub fn handle_hist_key(
        &mut self,
        search: &mut HistSearch,
        key: &Key,
        matches: &Vec<String>,
        now: u64,
    ) -> (r: SearchStep)
        requires
            old(self).wf(),
            old(search).wf(),
        ensures
            final(self).wf(),
            final(search).wf(),
            (final(search)@, r) == search_key(old(search)@, *key, matches@.len() as int),
            final(self)@ == (match r {
                SearchStep::Closed => old(self)@.search_closed(
                    old(search)@,
                    key.code is Enter,
                    text::texts(matches@),
                    now,
                ),
                SearchStep::Same => old(self)@.composed(
                    previewed(old(self)@.composer, final(search)@, text::texts(matches@)),
                ),
                SearchStep::Changed => old(self)@,
                SearchStep::Ignored => old(self)@,
            }),
    {
        let step = search.typed(key, matches.len());
        match step {
            SearchStep::Closed => {
                let accept = matches!(key.code, KeyCode::Enter);
                let done = HistSearch {
                    query: text::copy_text(search.query.as_str()),
                    selected: search.selected,
                    restore: text::copy_text(search.restore.as_str()),
                    restore_at: search.restore_at,
                };
                self.close_hist_search(done, accept, matches, now);
            },
            SearchStep::Same => {
                search.preview_hist_selection(&mut self.composer, matches);
            },
            SearchStep::Changed => {},
            SearchStep::Ignored => {},
        }
        step
    }
}

// ---------------------------------------------------------------------------
// Laws
// ---------------------------------------------------------------------------

/// Esc after opening a search restores the draft and its cursor, whatever was previewed
/// in between.
pub proof fn escape_restores_the_draft(
    v: PaneView,
    previews: Seq<Seq<char>>,
    query: Seq<char>,
    selected: int,
    now: u64,
)
    ensures
        ({
            let s = SearchView { query, selected, ..SearchView::opened(v.composer) };
            let w = v.composed(previewed(v.composer, s, previews)).search_closed(
                s,
                false,
                previews,
                now,
            );
            w.composer == v.composer && w.log == v.log
        }),
{
    let s = SearchView { query, selected, ..SearchView::opened(v.composer) };
    assert(previewed(v.composer, s, previews).restored(s) =~= v.composer);
}

/// The highlight stays within the matches.
pub proof fn highlight_stays_within(s: SearchView, forward: bool, count: int)
    requires
        0 <= s.selected < count,
    ensures
        0 <= s.moved(forward, count).selected < count,
{
}

// ---------------------------------------------------------------------------
// The panel of matches
// ---------------------------------------------------------------------------

/// A match in the panel, and whether it is highlighted.
pub open spec fn match_rows(matches: Seq<Seq<char>>, selected: int) -> Seq<(Seq<char>, bool)> {
    Seq::new(matches.len(), |i: int| (matches[i], i == selected))
}

/// What rows of the panel hold.
pub open spec fn match_rows_view(list: Seq<(String, bool)>) -> Seq<(Seq<char>, bool)> {
    list.map_values(|p: (String, bool)| (p.0@, p.1))
}

impl SearchView {
    /// The highlight three matches on or back.
    pub open spec fn wheeled(self, down: bool, count: int) -> SearchView {
        self.moved(down, count).moved(down, count).moved(down, count)
    }
}

/// What a click on the panel does.
pub enum PanelClick {
    /// It lands elsewhere.
    Outside,
    /// It highlights another match.
    Highlights(int),
    /// It takes the highlighted match.
    Takes,
}

/// What a click does on a panel of `count` matches.
pub open spec fn panel_click(s: SearchView, r: Rect, column: u16, row: u16, count: int) -> PanelClick {
    match mouse::framed_item(r, column, row, panel_scroll(s, r, count), count) {
        None => PanelClick::Outside,
        Some(i) => if i == s.selected {
            PanelClick::Takes
        } else {
            PanelClick::Highlights(i)
        },
    }
}

impl HistSearch {
    /// The matches in the panel, and which of them is highlighted.
    pub fn hist_rows(&self, matches: &Vec<String>) -> (r: Vec<(String, bool)>)
        ensures
            match_rows_view(r@) == match_rows(text::texts(matches@), self@.selected),
    {
        let mut r: Vec<(String, bool)> = Vec::new();
        for i in 0..matches.len()
            invariant
                r@.len() == i,
                forall|j: int|
                    0 <= j < i ==> (#[trigger] r@[j]).0@ == matches@[j]@ && r@[j].1 == (j
                        == self.selected),
        {
            r.push((text::copy_text(matches[i].as_str()), i == self.selected));
        }
        assert(match_rows_view(r@) =~= match_rows(text::texts(matches@), self@.selected));
        r
    }

    /// The wheel over the panel moves the highlight, and the draft shows it.
    pub fn hist_wheel(&mut self, composer: &mut Composer, down: bool, matches: &Vec<String>)
        requires
            old(self).wf(),
            old(composer).wf(),
        ensures
            final(self).wf(),
            final(composer).wf(),
            final(self)@ == old(self)@.wheeled(down, matches@.len() as int),
            final(composer)@ == if matches@.len() == 0 {
                old(composer)@
            } else {
                previewed(old(composer)@, final(self)@, text::texts(matches@))
            },
    {
        self.hist_move(down, matches.len());
        self.hist_move(down, matches.len());
        self.hist_move(down, matches.len());
        if matches.len() > 0 {
            self.preview_hist_selection(composer, matches);
        }
    }
}

/// From which match on a panel is drawn: the highlighted one is in view. A panel has room
/// for a match at least.
pub open spec fn panel_scroll(s: SearchView, r: Rect, count: int) -> int {
    let room = panels::room_in(r.height);
    panels::scroll_for(
        s.selected,
        0,
        if room < 1 {
            1
        } else {
            room
        },
        count,
    )
}

impl HistSearch {
    /// From which of `count` matches on a panel is drawn.
    pub fn hist_scroll(&self, panel: Rect, count: usize) -> (r: usize)
        ensures
            r == panel_scroll(self@, panel, count as int),
    {
        let room: usize = panels::viewport_of(panel.height);
        panels::ensure_visible(
            self.selected,
            0,
            if room < 1 {
                1
            } else {
                room
            },
            count,
        )
    }
}

impl Pane {
    /// Takes a click on the panel of matches. Gives back the search where it stays open, and
    /// says whether the click landed on the panel.
    pub fn click_hist_search(
        &mut self,
        search: HistSearch,
        panel: Rect,
        column: u16,
        row: u16,
        matches: &Vec<String>,
        now: u64,
    ) -> (r: (Option<HistSearch>, bool))
        requires
            old(self).wf(),
            search.wf(),
        ensures
            final(self).wf(),
            r.0 matches Some(s) ==> s.wf(),
            match panel_click(search@, panel, column, row, matches@.len() as int) {
                PanelClick::Outside => !r.1 && search_view(r.0) == Some(search@) && final(self)@
                    == old(self)@,
                PanelClick::Takes => r.1 && r.0 is None && final(self)@ == old(
                    self,
                )@.search_closed(search@, true, text::texts(matches@), now),
                PanelClick::Highlights(i) => {
                    let s = SearchView { selected: i, ..search@ };
                    r.1 && search_view(r.0) == Some(s) && final(self)@ == old(self)@.composed(
                        previewed(old(self)@.composer, s, text::texts(matches@)),
                    )
                },
            },
    {
        let scroll: usize = search.hist_scroll(panel, matches.len());
        match mouse::item_at(panel, column, row, scroll, matches.len()) {
            None => (Some(search), false),
            Some(i) => {
                if i == search.selected {
                    self.close_hist_search(search, true, matches, now);
                    (None, true)
                } else {
                    let mut s = search;
                    s.selected = i;
                    s.preview_hist_selection(&mut self.composer, matches);
                    (Some(s), true)
                }
            },
        }
    }
}

} // verus!
