//! What holds of drafts: how they are edited, completed and sent.

use crate::approvals::ApprovalVerdict;
use crate::composer::ComposerView;
use crate::desk::SceneView;
use crate::effects::EffectView;
use crate::files;
use crate::ghost;
use crate::input::KeyFacts;
use crate::keys::{Key, KeyCode};
use crate::keys;
use crate::laws_prompts;
use crate::menus;
use crate::model;
use crate::pane::PaneView;
use crate::replies;
use crate::scan;
use crate::skills::Skills;
use crate::text;
use crate::words;
use vstd::prelude::*;

verus! {

// ---------------------------------------------------------------------------
// Editing
// ---------------------------------------------------------------------------

/// A key that reaches the draft of a pane: nothing lies over the screen, and it comes without
/// control and alt.
pub open spec fn reaches_draft(s: SceneView, key: Key) -> bool {
    s.desk.overlay is Closed && !key.ctrl && !key.alt
}

/// A character that neither opens nor closes anything is put in where the cursor stands, and
/// the cursor goes behind it.
pub proof fn characters_go_where_the_cursor_is(s: SceneView, key: Key, f: KeyFacts, c: char)
    requires
        reaches_draft(s, key),
        key.code == KeyCode::Char(c),
        s.pane.composer.valid(),
        c != '(' && c != '[' && c != '{' && c != ')' && c != ']' && c != '}' && c != '"' && c != '\'',
    ensures
        ({
            let before = s.pane.composer;
            let after = s.keyed(key, f).pane.composer;
            &&& after.text == before.text.take(before.at).push(c) + before.text.skip(before.at)
            &&& after.at == before.at + 1
            &&& s.keyed(key, f).pane.log == s.pane.log
            &&& s.keyed(key, f).pane.out == s.pane.out
        }),
{
    reveal(SceneView::first_key);
    reveal(SceneView::pane_keyed);
    reveal(PaneView::pane_key);
    reveal(PaneView::draft_key_pressed);
    let before = s.pane.composer;
    assert(s.keyed(key, f).pane.composer.text =~= before.text.take(before.at).push(c) + before.text.skip(
        before.at,
    ));
}

/// Typed text is never lost: whatever the character, what stood before and behind the cursor
/// still stands there, around what was put in.
pub proof fn typing_keeps_the_rest(v: ComposerView, c: char)
    requires
        v.valid(),
    ensures
        v.typed(c).valid(),
        v.typed(c).text.take(v.at) == v.text.take(v.at),
        exists|k: int|
            v.at <= k <= v.typed(c).text.len() && #[trigger] v.typed(c).text.skip(k) == v.text.skip(v.at),
        v.at < v.typed(c).at <= v.typed(c).text.len(),
        v.typed(c).text[v.at] == c,
{
    let w = v.typed(c);
    let k = w.text.len() - (v.text.len() - v.at);
    assert(w.text.take(v.at) =~= v.text.take(v.at));
    assert(w.text.skip(k) =~= v.text.skip(v.at));
}

/// Backspace takes out the character before the cursor and delete the one behind it; without
/// one there they change nothing of the text.
pub proof fn deleting_takes_one_character(s: SceneView, key: Key, f: KeyFacts)
    requires
        reaches_draft(s, key),
        s.pane.composer.valid(),
    ensures
        ({
            let before = s.pane.composer;
            let after = s.keyed(key, f).pane.composer;
            &&& key.code == KeyCode::Backspace && before.at > 0 ==> after.text == before.text.take(
                before.at - 1,
            ) + before.text.skip(before.at) && after.at == before.at - 1
            &&& key.code == KeyCode::Backspace && before.at == 0 ==> after.text == before.text
            &&& key.code == KeyCode::Delete && before.at < before.text.len() ==> after.text
                == before.text.take(before.at) + before.text.skip(before.at + 1) && after.at == before.at
            &&& key.code == KeyCode::Delete && before.at == before.text.len() ==> after.text == before.text
        }),
{
    reveal(SceneView::first_key);
    reveal(SceneView::pane_keyed);
    reveal(PaneView::pane_key);
    reveal(PaneView::draft_key_pressed);
    let before = s.pane.composer;
    let after = s.keyed(key, f).pane.composer;
    if key.code == KeyCode::Backspace && before.at > 0 {
        assert(after.text =~= before.text.take(before.at - 1) + before.text.skip(before.at));
    }
    if key.code == KeyCode::Delete && before.at < before.text.len() {
        assert(after.text =~= before.text.take(before.at) + before.text.skip(before.at + 1));
    }
}

/// The arrows, Home and End move the cursor as far as they say and change no text.
pub proof fn moving_changes_no_text(s: SceneView, key: Key, f: KeyFacts)
    requires
        reaches_draft(s, key),
        s.pane.composer.valid(),
        s.pane.composer.offer is None,
        s.pane.correction is None,
    ensures
        ({
            let before = s.pane.composer;
            let after = s.keyed(key, f).pane.composer;
            &&& key.code == KeyCode::Left ==> after.text == before.text && after.at == if before.at > 0 {
                before.at - 1
            } else {
                0
            }
            &&& key.code == KeyCode::Right ==> after.text == before.text && after.at == if before.at
                < before.text.len() {
                before.at + 1
            } else {
                before.at
            }
            &&& key.code == KeyCode::Home ==> after.text == before.text && after.at == 0
            &&& key.code == KeyCode::End ==> after.text == before.text && after.at == before.text.len()
        }),
{
    reveal(SceneView::first_key);
    reveal(SceneView::pane_keyed);
    reveal(PaneView::pane_key);
    reveal(PaneView::draft_key_pressed);
    reveal(PaneView::right_pressed);
}

/// Deleting to an end of the draft leaves the other side of the cursor; deleting a word takes
/// what is no word before the cursor and the word before that.
pub proof fn deleting_to_an_end_keeps_the_other(v: ComposerView)
    requires
        v.valid(),
    ensures
        v.start_deleted().text == v.text.skip(v.at),
        v.start_deleted().at == 0,
        v.end_deleted().text == v.text.take(v.at),
        v.end_deleted().at == v.at,
        exists|k: int, m: int|
            0 <= k <= m <= v.at && v.word_deleted().at == k && #[trigger] v.text.take(k) + v.text.skip(v.at)
                == v.word_deleted().text && (forall|j: int|
                #![trigger v.text[j]]
                (k <= j < m ==> words::word_char(v.text[j])) && (m <= j < v.at ==> !words::word_char(
                    v.text[j],
                ))) && (k > 0 ==> !words::word_char(v.text[k - 1]) || k == m) && #[trigger] in_order(k, m),
{
    assert(v.start_deleted().text =~= v.text.skip(v.at));
    assert(v.end_deleted().text =~= v.text.take(v.at));
    let m = words::back_over(v.text, v.at, false);
    words::back_over_bounds(v.text, v.at, false);
    let k = words::back_over(v.text, m, true);
    words::back_over_bounds(v.text, m, true);
    assert(v.word_deleted().text =~= v.text.take(k) + v.text.skip(v.at));
    assert(in_order(k, m));
}

/// One place is not behind another.
pub open spec fn in_order(a: int, b: int) -> bool {
    a <= b
}

// ---------------------------------------------------------------------------
// Completing
// ---------------------------------------------------------------------------

proof fn last_mark(s: Seq<char>, c: char, i: int, k: int)
    requires
        0 <= k < s.len(),
        k <= i <= s.len(),
        s[k] == c,
        forall|j: int| k < j < s.len() ==> s[j] != c,
    ensures
        replies::rfind_upto(s, seq![c], i) == Some(k),
    decreases i,
{
    if i == k {
        assert(s.subrange(k, k + 1) =~= seq![c]);
    } else {
        if scan::occurs_at(s, seq![c], i) {
            assert(s.subrange(i, i + 1)[0] == c);
        }
        last_mark(s, c, i - 1, k);
    }
}

/// After a file is accepted the draft refers to it: what stood before the reference and
/// behind the cursor is unchanged, between them stands the path behind its mark and before a
/// blank, the cursor is behind the blank, and the path is one of the references of the draft.
pub proof fn accepted_files_are_referred_to(v: ComposerView, k: int, pick: Seq<char>)
    requires
        v.valid(),
        0 <= k < v.at,
        v.text[k] == '@',
        k == 0 || files::ascii_space(v.text[k - 1]),
        forall|j: int| k < j < v.at ==> v.text[j] != '@',
        pick.len() > 0,
        forall|j: int| 0 <= j < pick.len() ==> files::path_char(#[trigger] pick[j]),
    ensures
        ({
            let w = v.file_accepted(pick, false);
            &&& w.text.take(k) == v.text.take(k)
            &&& w.at == k + 1 + pick.len() + 1
            &&& w.text.subrange(k, w.at) == seq!['@'] + pick + seq![' ']
            &&& w.text.skip(w.at) == v.text.skip(v.at)
            &&& files::refs_of(w.text).contains(pick)
        }),
{
    let w = v.file_accepted(pick, false);
    let before = v.text.take(v.at);
    assert forall|j: int| k < j < before.len() implies before[j] != '@' by {
        assert(before[j] == v.text[j]);
    }
    last_mark(before, '@', before.len() as int, k);
    reveal_strlit("@");
    reveal_strlit(" ");
    let with = "@"@ + pick + " "@;
    assert(with =~= seq!['@'] + pick + seq![' ']);
    assert(w.text == v.text.take(k) + with + v.text.skip(v.at));
    assert(w.text.take(k) =~= v.text.take(k));
    assert(w.text.subrange(k, w.at) =~= with);
    assert(w.text.skip(w.at) =~= v.text.skip(v.at));
    let end = k + 1 + pick.len();
    assert(w.text[k] == '@');
    assert forall|j: int| k < j < end implies files::path_char(#[trigger] w.text[j]) by {
        assert(w.text[j] == pick[j - k - 1]);
    }
    assert(w.text[end] == ' ');
    if k > 0 {
        assert(w.text[k - 1] == v.text[k - 1]);
    }
    laws_prompts::references_are_found(w.text, k, end);
    assert(w.text.subrange(k + 1, end) =~= pick);
}

/// An accepted directory stands behind its mark with a slash, ready to go on in it.
pub proof fn accepted_directories_stay_open(v: ComposerView, k: int, pick: Seq<char>)
    requires
        v.valid(),
        0 <= k < v.at,
        v.text[k] == '@',
        forall|j: int| k < j < v.at ==> v.text[j] != '@',
    ensures
        ({
            let w = v.file_accepted(pick, true);
            &&& w.text == v.text.take(k) + seq!['@'] + pick + seq!['/'] + v.text.skip(v.at)
            &&& w.at == k + 1 + pick.len() + 1
        }),
{
    let w = v.file_accepted(pick, true);
    let before = v.text.take(v.at);
    assert forall|j: int| k < j < before.len() implies before[j] != '@' by {
        assert(before[j] == v.text[j]);
    }
    last_mark(before, '@', before.len() as int, k);
    reveal_strlit("@");
    reveal_strlit("/");
    assert(w.text =~= v.text.take(k) + seq!['@'] + pick + seq!['/'] + v.text.skip(v.at));
}

/// Tab with the file menu up takes the selected file into the draft and closes the menu.
pub proof fn tab_accepts_the_selected_file(s: SceneView, key: Key, f: KeyFacts, k: int)
    requires
        reaches_draft(s, key),
        key.code == KeyCode::Tab,
        s.pane.composer.valid(),
        s.pane.at_up(),
        0 <= s.pane.at_menu.selected < s.pane.at_menu.items.len(),
        0 <= k < s.pane.composer.at,
        s.pane.composer.text[k] == '@',
        forall|j: int| k < j < s.pane.composer.at ==> s.pane.composer.text[j] != '@',
    ensures
        ({
            let c = s.pane.composer;
            let w = s.keyed(key, f).pane;
            let pick = s.pane.at_menu.items[s.pane.at_menu.selected];
            &&& w.composer.text == c.text.take(k) + seq!['@'] + pick + (if f.pick_is_dir {
                seq!['/']
            } else {
                seq![' ']
            }) + c.text.skip(c.at)
            &&& w.composer.at == k + pick.len() + 2
            &&& w.at_menu.items.len() == 0
        }),
{
    reveal(SceneView::first_key);
    reveal(SceneView::pane_keyed);
    reveal(PaneView::pane_key);
    reveal(PaneView::tabbed);
    let c = s.pane.composer;
    let before = c.text.take(c.at);
    assert forall|j: int| k < j < before.len() implies before[j] != '@' by {
        assert(before[j] == c.text[j]);
    }
    last_mark(before, '@', before.len() as int, k);
    reveal_strlit("@");
    reveal_strlit("/");
    reveal_strlit(" ");
    let pick = s.pane.at_menu.items[s.pane.at_menu.selected];
    assert(s.keyed(key, f).pane.composer.text =~= c.text.take(k) + seq!['@'] + pick + (if f.pick_is_dir {
        seq!['/']
    } else {
        seq![' ']
    }) + c.text.skip(c.at));
}

/// Tab with the value menu up puts the selected value and a blank in place of the last word.
pub proof fn tab_accepts_the_selected_value(s: SceneView, key: Key, f: KeyFacts, k: int)
    requires
        reaches_draft(s, key),
        key.code == KeyCode::Tab,
        !s.pane.at_up(),
        s.pane.arg_up(),
        0 <= s.pane.arg_menu.selected < s.pane.arg_menu.items.len(),
        0 <= k < s.pane.composer.text.len(),
        s.pane.composer.text[k] == ' ',
        forall|j: int| k < j < s.pane.composer.text.len() ==> s.pane.composer.text[j] != ' ',
    ensures
        ({
            let w = s.keyed(key, f).pane.composer;
            let pick = s.pane.arg_menu.items[s.pane.arg_menu.selected];
            &&& w.text == s.pane.composer.text.take(k + 1) + pick + seq![' ']
            &&& w.at == w.text.len()
        }),
{
    reveal(SceneView::first_key);
    reveal(SceneView::pane_keyed);
    reveal(PaneView::pane_key);
    reveal(PaneView::tabbed);
    let t = s.pane.composer.text;
    last_mark(t, ' ', t.len() as int, k);
    reveal_strlit(" ");
    let pick = s.pane.arg_menu.items[s.pane.arg_menu.selected];
    assert(s.keyed(key, f).pane.composer.text =~= t.take(k + 1) + pick + seq![' ']);
}

/// Tab with shell candidates takes the only one, or the selected one, as the line behind the
/// mark of the draft; with several to choose from it opens their menu and changes no text.
pub proof fn tab_completes_shell_lines(s: SceneView, key: Key, f: KeyFacts)
    requires
        reaches_draft(s, key),
        key.code == KeyCode::Tab,
        !s.pane.at_up(),
        !s.pane.arg_up(),
        s.pane.composer.text.len() > 0,
        s.pane.composer.text[0] == '!',
        !s.pane.composer.text.contains('\n'),
        !scan::blank(s.pane.composer.text.skip(1)),
        menus::token_before(s.pane.composer.text, s.pane.composer.at) is None,
    ensures
        ({
            let w = s.keyed(key, f).pane;
            &&& s.pane.sh_up() && 0 <= s.pane.sh_menu.selected < s.pane.sh_menu.items.len()
                ==> w.composer.text == seq!['!'] + s.pane.sh_menu.items[s.pane.sh_menu.selected].line@
                && !w.sh_menu.invoked
            &&& !s.pane.sh_menu.invoked && f.candidates@.len() == 1 ==> w.composer.text == seq!['!']
                + f.candidates@[0].line@
            &&& !s.pane.sh_menu.invoked && f.candidates@.len() > 1 ==> w.composer == s.pane.composer
                && w.sh_menu.invoked && w.sh_menu.items == f.candidates@ && w.sh_menu.selected == 0
        }),
{
    reveal(SceneView::first_key);
    reveal(SceneView::pane_keyed);
    reveal(PaneView::pane_key);
    reveal(PaneView::tabbed);
    assert(s.pane.composer.text.take(1) =~= seq!['!']);
}

/// Tab at the end of a draft with an offer takes the offer in full.
pub proof fn tab_accepts_the_offer(s: SceneView, key: Key, f: KeyFacts)
    requires
        reaches_draft(s, key),
        key.code == KeyCode::Tab,
        !s.pane.at_up() && !s.pane.arg_up() && !s.pane.sh_up(),
        f.candidates@.len() == 0,
        s.pane.composer.offer is Some,
        s.pane.composer.at == s.pane.composer.text.len(),
    ensures
        s.keyed(key, f).pane.composer.text == s.pane.composer.text + s.pane.composer.offer->0,
        s.keyed(key, f).pane.composer.at == s.keyed(key, f).pane.composer.text.len(),
        s.keyed(key, f).pane.composer.offer is None,
{
    reveal(SceneView::first_key);
    reveal(SceneView::pane_keyed);
    reveal(PaneView::pane_key);
    reveal(PaneView::tabbed);
}

proof fn beginning_is_filtered(list: Seq<Seq<char>>, token: Seq<char>, n: int)
    requires
        0 <= n <= list.len(),
    ensures
        menus::beginning(list, token, n) == list.take(n).filter(
            |t: Seq<char>| scan::begins(text::lower(t), text::lower(token)),
        ),
    decreases n,
{
    let f = |t: Seq<char>| scan::begins(text::lower(t), text::lower(token));
    reveal(Seq::filter);
    if n > 0 {
        beginning_is_filtered(list, token, n - 1);
        assert(list.take(n).drop_last() =~= list.take(n - 1));
        assert(list.take(n).last() == list[n - 1]);
    } else {
        assert(list.take(0) =~= Seq::empty());
    }
}

/// The values offered for an argument are the first twelve that begin with what is typed,
/// whatever the case, in their order.
pub proof fn values_begin_with_what_is_typed(list: Seq<Seq<char>>, token: Seq<char>)
    ensures
        ({
            let fit = list.filter(
                |t: Seq<char>|
                    text::lower(token).len() <= text::lower(t).len() && text::lower(t).take(
                        text::lower(token).len() as int,
                    ) == text::lower(token),
            );
            menus::arg_choices(list, token) == fit.take(
                if fit.len() <= 12 {
                    fit.len() as int
                } else {
                    12
                },
            )
        }),
{
    let f = |t: Seq<char>| scan::begins(text::lower(t), text::lower(token));
    let g = |t: Seq<char>|
        text::lower(token).len() <= text::lower(t).len() && text::lower(t).take(
            text::lower(token).len() as int,
        ) == text::lower(token);
    beginning_is_filtered(list, token, list.len() as int);
    assert(list.take(list.len() as int) =~= list);
    assert forall|t: Seq<char>| #[trigger] f(t) == g(t) by {
        let n = text::lower(token).len() as int;
        if n <= text::lower(t).len() {
            assert(text::lower(t).subrange(0, n) =~= text::lower(t).take(n));
        }
    }
    same_filter(list, f, g);
    let fit = list.filter(g);
    assert(fit.take(fit.len() as int) =~= fit);
}

proof fn same_filter(list: Seq<Seq<char>>, f: spec_fn(Seq<char>) -> bool, g: spec_fn(Seq<char>) -> bool)
    requires
        forall|t: Seq<char>| #[trigger] f(t) == g(t),
    ensures
        list.filter(f) == list.filter(g),
    decreases list.len(),
{
    reveal(Seq::filter);
    if list.len() > 0 {
        same_filter(list.drop_last(), f, g);
    }
}

proof fn scored_are_paths(paths: Seq<Seq<char>>, query: Seq<char>, n: int)
    requires
        0 <= n <= paths.len(),
    ensures
        forall|e: (int, Seq<char>)| #[trigger]
            files::scored(paths, query, n).contains(e) == (exists|i: int|
                0 <= i < n && #[trigger] paths[i] == e.1 && files::fit_score(e.1, query) == Some(e.0)
                    && !files::passed_over(e.1)),
    decreases n,
{
    let all = files::scored(paths, query, n);
    if n > 0 {
        scored_are_paths(paths, query, n - 1);
        let less = files::scored(paths, query, n - 1);
        assert forall|e: (int, Seq<char>)| #[trigger] all.contains(e) == (exists|i: int|
            0 <= i < n && #[trigger] paths[i] == e.1 && files::fit_score(e.1, query) == Some(e.0)
                && !files::passed_over(e.1)) by {
            if all.contains(e) {
                let k = all.index_of(e);
                if k < less.len() {
                    assert(less[k] == e);
                    assert(less.contains(e));
                    let i = choose|i: int|
                        0 <= i < n - 1 && #[trigger] paths[i] == e.1 && files::fit_score(e.1, query)
                            == Some(e.0) && !files::passed_over(e.1);
                    assert(paths[i] == e.1);
                } else {
                    assert(paths[n - 1] == e.1);
                }
            }
            if exists|i: int|
                0 <= i < n && #[trigger] paths[i] == e.1 && files::fit_score(e.1, query) == Some(e.0)
                    && !files::passed_over(e.1) {
                let i = choose|i: int|
                    0 <= i < n && #[trigger] paths[i] == e.1 && files::fit_score(e.1, query) == Some(e.0)
                        && !files::passed_over(e.1);
                if i < n - 1 {
                    assert(paths[i] == e.1);
                    assert(less.contains(e));
                    let k = less.index_of(e);
                    assert(all[k] == e);
                } else {
                    assert(all.last() == e);
                }
            }
        }
    }
}

proof fn ranks_order()
    ensures
        files::orders(|a: (int, Seq<char>), b: (int, Seq<char>)| files::ranks_before(a, b)),
{
    let before = |a: (int, Seq<char>), b: (int, Seq<char>)| files::ranks_before(a, b);
    assert forall|a: (int, Seq<char>), b: (int, Seq<char>)| #[trigger] before(a, b) implies !before(b, a) by {
        files::texts_are_ordered(a.1, b.1, b.1);
    }
    assert forall|a: (int, Seq<char>), b: (int, Seq<char>), c: (int, Seq<char>)| #[trigger]
        before(a, b) && !before(c, b) implies #[trigger] before(a, c) by {
        files::texts_are_ordered(a.1, b.1, c.1);
    }
}

proof fn ranked(paths: Seq<Seq<char>>, query: Seq<char>) -> (all: Seq<(int, Seq<char>)>)
    ensures
        ({
            let list = files::scored(paths, query, paths.len() as int);
            &&& forall|e: (int, Seq<char>)| #[trigger] all.contains(e) == list.contains(e)
            &&& forall|i: int, j: int|
                0 <= i < j < all.len() ==> !files::ranks_before(#[trigger] all[j], #[trigger] all[i])
            &&& all.len() == list.len()
            &&& files::best_paths(paths, query).len() == (if all.len() <= 8 {
                all.len() as int
            } else {
                8
            })
            &&& forall|k: int|
                0 <= k < files::best_paths(paths, query).len() ==> #[trigger] files::best_paths(paths, query)[k]
                    == all[k].1
        }),
{
    let list = files::scored(paths, query, paths.len() as int);
    let before = |a: (int, Seq<char>), b: (int, Seq<char>)| files::ranks_before(a, b);
    let all = files::ordered(list, before, list.len() as int);
    ranks_order();
    files::ordered_is_sorted(list, before, list.len() as int);
    assert(list.take(list.len() as int) =~= list);
    all.to_multiset_ensures();
    list.to_multiset_ensures();
    assert forall|e: (int, Seq<char>)| #[trigger] all.contains(e) == list.contains(e) by {
        assert(all.to_multiset().count(e) == list.to_multiset().count(e));
    }
    assert forall|i: int, j: int| 0 <= i < j < all.len() implies !files::ranks_before(
        #[trigger] all[j],
        #[trigger] all[i],
    ) by {
        assert(!before(all[j], all[i]));
    }
    all
}

/// Every path that is offered is one of the workspace that fits what is typed and is not
/// passed over.
pub proof fn offered_paths_fit(paths: Seq<Seq<char>>, query: Seq<char>, k: int)
    requires
        0 <= k < files::best_paths(paths, query).len(),
    ensures
        ({
            let path = files::best_paths(paths, query)[k];
            &&& paths.contains(path)
            &&& files::fit_score(path, query) is Some
            &&& !files::passed_over(path)
        }),
{
    let all = ranked(paths, query);
    scored_are_paths(paths, query, paths.len() as int);
    let e = all[k];
    assert(all.contains(e));
    let i = choose|i: int|
        0 <= i < paths.len() && #[trigger] paths[i] == e.1 && files::fit_score(e.1, query) == Some(e.0)
            && !files::passed_over(e.1);
    assert(paths[i] == e.1);
    assert(files::best_paths(paths, query)[k] == e.1);
}

/// The paths that are offered are the best: a better one never comes behind a worse one, and
/// one that fits and is not offered is no better than any of the eight that are.
pub proof fn offered_paths_are_the_best(paths: Seq<Seq<char>>, query: Seq<char>, path: Seq<char>)
    requires
        paths.contains(path),
        files::fit_score(path, query) is Some,
        !files::passed_over(path),
    ensures
        forall|i: int, j: int|
            0 <= i < j < files::best_paths(paths, query).len() ==> files::fit_score(
                #[trigger] files::best_paths(paths, query)[j],
                query,
            )->0 <= files::fit_score(#[trigger] files::best_paths(paths, query)[i], query)->0,
        files::best_paths(paths, query).contains(path) || (files::best_paths(paths, query).len() == 8
            && forall|i: int|
            0 <= i < 8 ==> files::fit_score(path, query)->0 <= files::fit_score(
                #[trigger] files::best_paths(paths, query)[i],
                query,
            )->0),
{
    let all = ranked(paths, query);
    let best = files::best_paths(paths, query);
    scored_are_paths(paths, query, paths.len() as int);
    assert forall|i: int| 0 <= i < best.len() implies files::fit_score(#[trigger] best[i], query) == Some(
        all[i].0,
    ) by {
        assert(all.contains(all[i]));
        assert(best[i] == all[i].1);
    }
    assert forall|i: int, j: int| 0 <= i < j < best.len() implies files::fit_score(#[trigger] best[j], query)->0
        <= files::fit_score(#[trigger] best[i], query)->0 by {
        assert(!files::ranks_before(all[j], all[i]));
    }
    let e = (files::fit_score(path, query)->0, path);
    let at = paths.index_of(path);
    assert(paths[at] == e.1);
    assert(all.contains(e));
    let k = all.index_of(e);
    if k < best.len() {
        assert(best[k] == path);
    } else {
        assert forall|i: int| 0 <= i < 8 implies files::fit_score(path, query)->0 <= files::fit_score(
            #[trigger] best[i],
            query,
        )->0 by {
            assert(!files::ranks_before(all[k], all[i]));
            assert(best[i] == all[i].1);
        }
    }
}

/// The arrows move the selection in a menu that is up by one, within its items, and change no
/// text.
pub proof fn arrows_move_in_menus(s: SceneView, key: Key, f: KeyFacts)
    requires
        reaches_draft(s, key),
        key.code == KeyCode::Down || key.code == KeyCode::Up,
    ensures
        ({
            let w = s.keyed(key, f).pane;
            let down = key.code == KeyCode::Down;
            &&& s.pane.at_up() && 0 <= s.pane.at_menu.selected < s.pane.at_menu.items.len() ==> {
                &&& w.composer == s.pane.composer
                &&& w.at_menu.items == s.pane.at_menu.items
                &&& down && s.pane.at_menu.selected + 1 < s.pane.at_menu.items.len()
                    ==> w.at_menu.selected == s.pane.at_menu.selected + 1
                &&& !down && s.pane.at_menu.selected > 0 ==> w.at_menu.selected
                    == s.pane.at_menu.selected - 1
                &&& 0 <= w.at_menu.selected < w.at_menu.items.len()
            }
            &&& !s.pane.at_up() && s.pane.arg_up() && 0 <= s.pane.arg_menu.selected
                < s.pane.arg_menu.items.len() ==> {
                &&& w.composer == s.pane.composer
                &&& down && s.pane.arg_menu.selected + 1 < s.pane.arg_menu.items.len()
                    ==> w.arg_menu.selected == s.pane.arg_menu.selected + 1
                &&& !down && s.pane.arg_menu.selected > 0 ==> w.arg_menu.selected
                    == s.pane.arg_menu.selected - 1
            }
        }),
{
    reveal(SceneView::first_key);
    reveal(SceneView::pane_keyed);
    reveal(PaneView::pane_key);
    reveal(SceneView::arrowed);
}

/// Without a menu the arrow up shows the latest prompt of the user, and the draft is kept to
/// come back.
pub proof fn arrow_up_shows_the_latest_prompt(s: SceneView, key: Key, f: KeyFacts)
    requires
        reaches_draft(s, key),
        key.code == KeyCode::Up,
        !s.pane.at_up() && !s.pane.arg_up() && !s.pane.sh_up(),
        !menus::is_palette(s.pane.composer.text),
        s.pane.composer.walk is None,
        model::user_texts(s.pane.log.history).len() > 0,
    ensures
        s.keyed(key, f).pane.composer.text == model::user_texts(s.pane.log.history).last(),
        s.keyed(key, f).pane.composer.stash == s.pane.composer.text,
        s.keyed(key, f).pane.out == s.pane.out,
{
    reveal(SceneView::first_key);
    reveal(SceneView::pane_keyed);
    reveal(PaneView::pane_key);
    reveal(SceneView::arrowed);
}

/// What the file menu looks for is the path behind the last `@` before the cursor.
pub proof fn the_menu_looks_for_what_is_typed(s: Seq<char>, at: int, k: int)
    requires
        0 <= k,
        k + 1 < at <= s.len(),
        s[k] == '@',
        k == 0 || text::white(s[k - 1]),
        forall|j: int| k < j < at ==> files::path_char(#[trigger] s[j]),
    ensures
        menus::token_before(s, at) == Some(s.subrange(k + 1, at)),
{
    let before = s.take(at);
    assert(!files::path_char('@'));
    assert forall|j: int| k < j < before.len() implies before[j] != '@' by {
        assert(before[j] == s[j]);
        assert(files::path_char(s[j]));
    }
    last_mark(before, '@', before.len() as int, k);
    assert(before.skip(k + 1) =~= s.subrange(k + 1, at));
    let token = before.skip(k + 1);
    assert forall|j: int| 0 <= j < token.len() implies files::path_char(#[trigger] token[j]) by {
        assert(token[j] == s[k + 1 + j]);
    }
}

/// The values of an argument come from what the command is about: names of sessions and
/// skills behind their subcommands, models, providers, and files.
pub proof fn values_come_from_what_the_command_is_about(list: Seq<Seq<char>>)
    requires
        list.len() == 2 || list.len() == 3,
    ensures
        list.len() == 3 && text::lower(list[0]) == "/session"@ && text::lower(list[1]) == "load"@
            ==> menus::source_of(list) is Sessions,
        list.len() == 3 && text::lower(list[0]) == "/skill"@ && text::lower(list[1]) == "use"@
            ==> menus::source_of(list) is Skills,
        list.len() == 2 && text::lower(list[0]) == "/model"@ ==> menus::source_of(list) is Models,
        list.len() == 2 && text::lower(list[0]) == "/connect"@ ==> menus::source_of(list) is Providers,
        list.len() == 2 && text::lower(list[0]) == "/preview"@ ==> menus::source_of(list)
            == menus::SourceView::Files(list[1]),
        list.len() == 2 && text::lower(list[0]) == "/theme"@ ==> menus::source_of(list)
            == menus::SourceView::Fixed("/theme"@),
{
    reveal_strlit("/session");
    reveal_strlit("/skill");
    reveal_strlit("/model");
    reveal_strlit("/connect");
    reveal_strlit("/preview");
    reveal_strlit("/theme");
    assert("/session"@[1] == 's' && "/session"@[2] == 'e' && "/skill"@[2] == 'k' && "/skill"@[1] == 's');
    assert("/model"@[1] == 'm' && "/connect"@[1] == 'c' && "/preview"@[1] == 'p' && "/theme"@[1] == 't');
}

/// What the model adds to a line is what its answer has more than the line.
pub proof fn answers_continue_the_line(prefix: Seq<char>, reply: Seq<char>, rest: Seq<char>)
    requires
        replies::draft_line(reply) == Some(prefix + rest),
        !scan::blank(rest),
        !rest.contains('\n'),
        rest.len() <= 120,
    ensures
        ghost::answer_suffix(prefix, reply) == Some(rest),
{
    let full = prefix + rest;
    assert(full.subrange(0, prefix.len() as int) =~= prefix);
    assert(full.skip(prefix.len() as int) =~= rest);
    assert(scan::first_chars(rest, 120) =~= rest);
}

/// An answer of the model becomes the offer of the draft that it was asked for, where nothing
/// else is offered and it was not dismissed.
pub proof fn answers_become_offers(v: ComposerView, suffix: Seq<char>)
    requires
        v.offer is None,
        v.dismissed != Some(v.text),
        suffix.len() > 0,
    ensures
        v.answered(v.seq, v.text, Some(suffix)).offer == Some(suffix),
        v.answered(v.seq, v.text, Some(suffix)).text == v.text,
{
}

// ---------------------------------------------------------------------------
// Sending
// ---------------------------------------------------------------------------

/// Enter sends a draft that is neither a command nor a shell line as a prompt: without the
/// white space around it, and the draft is empty afterwards.
pub proof fn enter_sends_the_draft(s: SceneView, key: Key, f: KeyFacts)
    requires
        reaches_draft(s, key),
        key.code == KeyCode::Enter,
        !key.shift,
        scan::trim(s.pane.composer.text).len() > 0,
        scan::trim(s.pane.composer.text)[0] != '!',
        scan::trim(s.pane.composer.text)[0] != '#',
        !menus::is_palette(s.pane.composer.text),
        f.parsed is None,
        !f.reads_as_shell,
        !s.pane.run.busy,
    ensures
        ({
            let w = s.keyed(key, f).pane;
            let value = scan::trim(s.pane.composer.text);
            &&& w.out == s.pane.out.push(EffectView::Send { prompt: value })
            &&& w.run.prompt == Some(value)
            &&& w.composer.text.len() == 0
            &&& w.composer.at == 0
        }),
{
    reveal(SceneView::first_key);
    reveal(SceneView::pane_keyed);
    reveal(PaneView::pane_key);
    reveal(SceneView::entered);
    reveal(SceneView::line_entered);
    reveal(PaneView::prompted);
}

/// Enter runs a draft behind `!` as a shell line, which stands in the conversation as it was
/// typed, unless permissions are off.
pub proof fn enter_runs_shell_lines(s: SceneView, key: Key, f: KeyFacts)
    requires
        reaches_draft(s, key),
        key.code == KeyCode::Enter,
        !key.shift,
        scan::trim(s.pane.composer.text).len() > 0,
        scan::trim(s.pane.composer.text)[0] == '!',
        scan::trim(scan::trim(s.pane.composer.text).skip(1)).len() > 0,
        !menus::is_palette(s.pane.composer.text),
        s.pane.settings.posture != "off"@,
    ensures
        ({
            let w = s.keyed(key, f).pane;
            let value = scan::trim(s.pane.composer.text);
            let command = scan::trim(value.skip(1));
            &&& w.out.len() > 0 && (w.out.last() matches EffectView::Shell { command: run, .. } && run
                == command)
            &&& w.log.history.len() == s.pane.log.history.len() + 1
            &&& w.log.history.last().role == "user"@
            &&& w.log.history.last().content == value
            &&& w.composer.text.len() == 0
        }),
{
    reveal(SceneView::first_key);
    reveal(SceneView::pane_keyed);
    reveal(PaneView::pane_key);
    reveal(SceneView::entered);
    reveal(SceneView::line_entered);
}

/// Enter has the model draft a command from what stands behind `#`.
pub proof fn enter_drafts_descriptions(s: SceneView, key: Key, f: KeyFacts)
    requires
        reaches_draft(s, key),
        key.code == KeyCode::Enter,
        !key.shift,
        scan::trim(s.pane.composer.text).len() > 0,
        scan::trim(s.pane.composer.text)[0] == '#',
        scan::trim(scan::trim(s.pane.composer.text).skip(1)).len() > 0,
        s.pane.settings.posture != "off"@,
        !s.pane.run.busy,
    ensures
        s.keyed(key, f).pane.out == s.pane.out.push(
            EffectView::Draft { request: scan::trim(scan::trim(s.pane.composer.text).skip(1)) },
        ),
        s.keyed(key, f).pane.composer.text.len() == 0,
{
    reveal(SceneView::first_key);
    reveal(SceneView::pane_keyed);
    reveal(PaneView::pane_key);
    reveal(SceneView::entered);
}

/// Enter with shift or alt puts a line feed into the draft and sends nothing.
pub proof fn shifted_enter_breaks_the_line(s: SceneView, key: Key, f: KeyFacts)
    requires
        s.desk.overlay is Closed,
        !key.ctrl,
        key.code == KeyCode::Enter,
        key.shift || key.alt,
        s.pane.composer.valid(),
    ensures
        ({
            let before = s.pane.composer;
            let w = s.keyed(key, f).pane;
            &&& w.composer.text == before.text.take(before.at).push('\n') + before.text.skip(before.at)
            &&& w.composer.at == before.at + 1
            &&& w.out == s.pane.out
        }),
{
    reveal(SceneView::first_key);
    reveal(SceneView::pane_keyed);
    reveal(PaneView::pane_key);
    reveal_strlit("\n");
    let before = s.pane.composer;
    assert(s.keyed(key, f).pane.composer.text =~= before.text.take(before.at).push('\n') + before.text.skip(
        before.at,
    ));
}

/// Escape stops a request that is running, and before that closes a menu of candidates or
/// brings back the draft that a walk replaced; a card that waits is denied.
pub proof fn escape_goes_one_step_back(s: SceneView, key: Key, f: KeyFacts)
    requires
        key.code == KeyCode::Esc,
        !key.ctrl,
    ensures
        s.pane.composer.walk is Some ==> s.keyed(key, f).pane.composer.text == s.pane.composer.stash
            && s.keyed(key, f).pane.out == s.pane.out,
        s.pane.composer.walk is None && s.desk.overlay is Approval ==> s.keyed(key, f) == s.resolved(
            ApprovalVerdict::Deny,
        ),
        s.pane.composer.walk is None && s.desk.overlay is Closed && s.pane.sh_menu.invoked ==> !s.keyed(
            key,
            f,
        ).pane.sh_menu.invoked && s.keyed(key, f).pane.out == s.pane.out,
        s.pane.composer.walk is None && s.desk.overlay is Closed && !s.pane.sh_menu.invoked
            && s.pane.run.busy && s.pane.tools is None && s.pane.run.stoppable ==> s.keyed(key, f).pane.out
            == s.pane.out.push(EffectView::Stop),
{
    reveal(SceneView::first_key);
    reveal(SceneView::escaped);
}

/// Control with A and E goes to the beginning and to the end of the draft, with K and U it
/// deletes up to these, and with W the word before the cursor, unless the user bound the key.
pub proof fn control_keys_edit_the_draft(s: SceneView, key: Key, f: KeyFacts)
    requires
        s.desk.overlay is Closed,
        key.ctrl,
        s.pane.composer.valid(),
        s.first_is_free(key),
    ensures
        ({
            let c = s.pane.composer;
            let w = s.keyed(key, f).pane.composer;
            &&& key.code == KeyCode::Char('a') ==> w.at == 0 && w.text == c.text
            &&& key.code == KeyCode::Char('e') ==> w.at == c.text.len() && w.text == c.text
            &&& key.code == KeyCode::Char('k') ==> w.text == c.text.take(c.at)
            &&& key.code == KeyCode::Char('u') ==> w.text == c.text.skip(c.at)
            &&& key.code == KeyCode::Char('w') ==> w == c.word_deleted()
        }),
{
    reveal(SceneView::first_key);
    reveal(SceneView::pane_keyed);
    reveal(PaneView::pane_key);
    deleting_to_an_end_keeps_the_other(s.pane.composer);
}

impl SceneView {
    /// No action of the user's bindings takes a key.
    pub open spec fn first_is_free(self, key: Key) -> bool {
        let b = self.pane.settings.bindings;
        &&& !keys::triggers(b, "cancel"@, key)
        &&& !keys::triggers(b, "details"@, key)
        &&& !keys::triggers(b, "tasks"@, key)
        &&& !keys::triggers(b, "redraw"@, key)
    }
}

} // verus!
