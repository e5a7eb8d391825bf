//! What holds of skill commands, offers of the model, counts, moved tabs and the lines that
//! say how things stand.

use crate::areas;
use crate::caret;
use crate::catalog::ListedView;
use crate::catalog;
use crate::commands::ConnectionText;
use crate::composer::ComposerView;
use crate::desk::{DeskView, SceneView};
use crate::desk;
use crate::effects::EffectView;
use crate::files;
use crate::ghost;
use crate::keys::{Key, KeyCode};
use crate::keys;
use crate::laws_commands;
use crate::laws_desk;
use crate::listing::SidebarLineView;
use crate::listing;
use crate::live::{LiveKey, LiveView};
use crate::live;
use crate::menus::ShellCandidate;
use crate::outside::KeepError;
use crate::outside;
use crate::paint::Style;
use crate::palette::{CustomView, ItemView};
use crate::pane::PaneView;
use crate::panels;
use crate::reports;
use crate::scan;
use crate::settings;
use crate::shell;
use crate::sidebar::SidebarView;
use crate::sidebar;
use crate::skills;
use crate::tabs::{StubNeedView, StubView};
use crate::tabs;
use crate::window::{WindowAskView, WindowView};
use vstd::prelude::*;

verus! {

// ---------------------------------------------------------------------------
// Skills
// ---------------------------------------------------------------------------

/// The first word of a skill command says what becomes of the named skill; any other word
/// leaves the skills as they are.
pub proof fn skill_commands_do_what_they_say(
    v: PaneView,
    word: Seq<char>,
    name: Seq<char>,
    path: Seq<char>,
    content: Result<Seq<char>, Seq<char>>,
)
    ensures
        ({
            let after = v.skill_commanded(seq![word, name], Some(name), path, true, content);
            &&& word == "use"@ ==> after.skills.active.contains(name)
            &&& word == "drop"@ ==> !after.skills.active.contains(name)
            &&& word == "clear"@ ==> after.skills.active.len() == 0
            &&& word == "show"@ ==> after.skills == v.skills && match content {
                Ok(text) => after.log == v.log.told("Skill: "@ + name + "\n\n"@ + text),
                Err(e) => scan::contains_text(after.log.status, e) && after.log.history == v.log.history,
            }
            &&& word != "use"@ && word != "drop"@ && word != "clear"@ ==> after.skills == v.skills
        }),
{
    reveal_strlit("use");
    reveal_strlit("show");
    reveal_strlit("drop");
    reveal_strlit("clear");
    assert("use"@[0] != "show"@[0] && "use"@[0] != "drop"@[0] && "use"@[0] != "clear"@[0]);
    assert("show"@[0] != "drop"@[0] && "show"@[0] != "clear"@[0] && "drop"@[0] != "clear"@[0]);
    let args = seq![word, name];
    laws_desk::skills_are_turned_on(v, args, name, path);
    if !v.skills.active.contains(name) {
        let on = v.skills.active.push(name);
        assert(on[on.len() - 1] == name);
    }
    laws_desk::skills_are_turned_off(v, name, name.push('x'));
    if let Err(e) = content {
        laws_commands::piece("Skill read failed: "@, e, Seq::empty());
        assert("Skill read failed: "@ + e + Seq::<char>::empty() =~= "Skill read failed: "@ + e);
    }
}

/// The skills of a directory are all listed, below its name.
pub proof fn skills_of_a_directory_are_listed(dir: Seq<char>, names: Seq<Seq<char>>)
    requires
        names.len() > 0,
    ensures
        skills::skills_listed(dir, names) == "Skills in "@ + dir + ":\n"@ + scan::join(
            files::sorted_texts(names),
            "\n"@,
        ),
        scan::contains_text(skills::skills_listed(dir, names), dir),
{
    let rest = ":\n"@ + scan::join(files::sorted_texts(names), "\n"@);
    laws_commands::piece("Skills in "@, dir, rest);
    assert("Skills in "@ + dir + rest =~= skills::skills_listed(dir, names));
}

// ---------------------------------------------------------------------------
// Offers
// ---------------------------------------------------------------------------

/// Clearing takes the offer away and leaves the text; the words behind `ai` turn offers of the
/// model on and off.
pub proof fn offers_are_switched_by_command(v: PaneView, remembered: nat)
    ensures
        v.completion_asked(seq!["clear"@], remembered).composer.offer is None,
        v.completion_asked(seq!["clear"@], remembered).composer.text == v.composer.text,
        v.completion_asked(seq!["ai"@, "on"@], remembered).ai_on,
        !v.completion_asked(seq!["ai"@, "off"@], remembered).ai_on,
        v.completion_on ==> scan::contains_text(
            v.completion_asked(Seq::empty(), remembered).log.status,
            scan::decimal(remembered),
        ),
        v.completion_asked(Seq::empty(), remembered).composer == v.composer,
{
    reveal_strlit("clear");
    reveal_strlit("ai");
    reveal_strlit("status");
    assert("ai"@.len() != "clear"@.len() && "status"@.len() != "clear"@.len() && "status"@.len()
        != "ai"@.len());
    laws_desk::model_offers_are_switched(v, "on"@);
    let tail = " remembered · model ghost "@ + settings::on_off(v.ai_on) + " · Tab accepts"@;
    laws_commands::piece("Suggestions on · "@, scan::decimal(remembered), tail);
    assert("Suggestions on · "@ + scan::decimal(remembered) + tail =~= "Suggestions on · "@
        + scan::decimal(remembered) + " remembered · model ghost "@ + settings::on_off(v.ai_on)
        + " · Tab accepts"@);
}

/// The model is asked for an offer only where offers of it are on, where something was typed
/// that is not a whole command, and not twice for one text; once it would be asked, waiting
/// longer does not change that.
pub proof fn the_model_is_asked_in_season(
    c: ComposerView,
    on: bool,
    prefix: Seq<char>,
    complete: bool,
    now: int,
    later: int,
)
    requires
        now <= later,
    ensures
        c.wants_model(on, prefix, complete, now) ==> c.wants_model(on, prefix, complete, later),
        !c.wants_model(false, prefix, complete, now),
        !c.wants_model(on, prefix, true, now),
        !c.wants_model(on, Seq::empty(), complete, now),
        !(ComposerView { pending: Some(prefix), ..c }).wants_model(on, prefix, complete, now),
        now <= c.changed_at ==> !c.wants_model(on, prefix, complete, now),
        caret::byte_len(scan::trim(prefix)) >= 3 && c.pending is None ==> exists|then: int|
            #[trigger] c.wants_model(true, prefix, false, then),
{
    assert(caret::byte_len(scan::trim(Seq::empty())) == 0) by {
        assert(scan::trim(Seq::empty()) =~= Seq::empty());
    }
    if caret::byte_len(scan::trim(prefix)) >= 3 && c.pending is None {
        assert(c.wants_model(true, prefix, false, c.changed_at + ghost::AI_DEBOUNCE_MS));
    }
}

/// The model is shown what was typed.
pub proof fn the_model_sees_what_was_typed(prefix: Seq<char>)
    ensures
        scan::contains_text(ghost::completion_prompt(prefix), prefix),
{
    laws_commands::piece(
        "The user typed this partial shell command:\n"@,
        prefix,
        "\nOutput ONLY the completed full command on one line: no fences, no explanation. If it is complete already or is not a shell command, repeat it unchanged."@,
    );
}

/// A draft that failed is told with the reason.
pub proof fn failed_drafts_are_told(error: Seq<char>)
    ensures
        shell::drafted_command(Err(error)) matches Err(said) && scan::contains_text(said, error),
{
    laws_commands::piece("Shell draft failed: "@, error, Seq::empty());
    assert("Shell draft failed: "@ + error + Seq::<char>::empty() =~= "Shell draft failed: "@ + error);
}

// ---------------------------------------------------------------------------
// Counts
// ---------------------------------------------------------------------------

/// Entries that are counted as visible are those that do not begin with a dot.
pub proof fn visible_entries_are_counted(names: Seq<Seq<char>>, n: int)
    requires
        0 <= n <= names.len(),
    ensures
        reports::visible_in(names, n) == names.take(n).filter(
            |name: Seq<char>| name.len() > 0 && name[0] != '.',
        ).len(),
    decreases n,
{
    reveal(Seq::filter);
    if n > 0 {
        visible_entries_are_counted(names, n - 1);
        assert(names.take(n).drop_last() =~= names.take(n - 1));
    } else {
        assert(names.take(n) =~= Seq::empty());
    }
}

/// No binding is told as invalid exactly where every one of a known action names a letter.
pub proof fn bindings_are_told_only_where_invalid(bindings: Seq<(String, String)>, n: int)
    requires
        0 <= n <= bindings.len(),
    ensures
        keys::invalid_in(bindings, n) <= n,
        keys::invalid_in(bindings, n) == 0 <==> (forall|i: int|
            0 <= i < n ==> (keys::default_letter((#[trigger] bindings[i]).0@) is Some
                ==> keys::bound_letter(bindings[i].1@) is Some)),
    decreases n,
{
    if n > 0 {
        bindings_are_told_only_where_invalid(bindings, n - 1);
        assert(bindings[n - 1] == bindings[n - 1]);
    }
}

/// The sizes that a provider tells of its models are kept under their names, all of them and
/// no others.
pub proof fn told_sizes_are_kept(list: Seq<ListedView>, n: int, i: int)
    requires
        0 <= n <= list.len(),
        0 <= i < n,
    ensures
        list[i].context is Some ==> catalog::contexts_in(list, n).contains(
            (list[i].id, list[i].context->0),
        ),
        catalog::contexts_in(list, n).len() <= n,
        list[n - 1].context is None ==> catalog::contexts_in(list, n) == catalog::contexts_in(
            list,
            n - 1,
        ),
    decreases n,
{
    if n > 1 {
        told_sizes_are_kept(list, n - 1, if i < n - 1 {
            i
        } else {
            0
        });
    }
    let all = catalog::contexts_in(list, n);
    let before = catalog::contexts_in(list, n - 1);
    if list[n - 1].context is Some {
        assert(all[all.len() - 1] == (list[n - 1].id, list[n - 1].context->0));
        if i < n - 1 && list[i].context is Some {
            let k = choose|k: int|
                0 <= k < before.len() && before[k] == (list[i].id, list[i].context->0);
            assert(all[k] == before[k]);
        }
    }
}

// ---------------------------------------------------------------------------
// Tabs and lists
// ---------------------------------------------------------------------------

/// A tab that is moved changes places with its neighbour and stays the active one; at the end
/// of the bar nothing moves.
pub proof fn moved_tabs_change_places(w: WindowView, forward: bool)
    requires
        0 <= w.bar.active < w.bar.tabs.len(),
    ensures
        ({
            let to = w.bar.active + (if forward {
                1int
            } else {
                -1int
            });
            let after = w.tab_moved(forward).bar;
            &&& 0 <= to < w.bar.tabs.len() ==> {
                &&& after.active == to
                &&& after.tabs.len() == w.bar.tabs.len()
                &&& after.tabs[to] == w.bar.tabs[w.bar.active as int]
                &&& after.tabs[w.bar.active as int] == w.bar.tabs[to]
                &&& forall|i: int|
                    0 <= i < w.bar.tabs.len() && i != to && i != w.bar.active ==> #[trigger] after.tabs[i]
                        == w.bar.tabs[i]
            }
            &&& !(0 <= to < w.bar.tabs.len()) ==> w.tab_moved(forward) == w
        }),
{
}

/// Zooming twice shows the panes as before, and never touches them; a tab with one pane does
/// not zoom.
pub proof fn zooming_twice_restores_the_panes(w: WindowView)
    requires
        w.valid(),
        0 <= w.bar.active < w.bar.tabs.len(),
    ensures
        w.panes.len() > 1 ==> w.zoom_toggled().bar.shown().zoomed == !w.bar.shown().zoomed,
        w.panes.len() > 1 ==> w.zoom_toggled().zoom_toggled().bar.shown().zoomed == w.bar.shown().zoomed,
        w.panes.len() <= 1 ==> w.zoom_toggled().bar == w.bar,
        w.zoom_toggled().panes.len() == w.panes.len(),
        w.zoom_toggled().focus == w.focus,
{
}

/// The keys for tabs ask for what they stand for: the neighbour comes round at the ends, and
/// a digit names the tab by its place.
pub proof fn tab_keys_ask_for_their_tab(w: WindowView, key: Key, n: int)
    requires
        0 <= w.bar.active < w.bar.tabs.len() <= usize::MAX,
    ensures
        key.ctrl && key.code == KeyCode::Tab && w.bar.tabs.len() > 1 ==> w.tab_key(key) == Some(
            Some(
                WindowAskView::SwitchTab(
                    (if key.shift {
                        (w.bar.active + w.bar.tabs.len() - 1) % (w.bar.tabs.len() as int)
                    } else {
                        (w.bar.active + 1) % (w.bar.tabs.len() as int)
                    }) as usize,
                ),
            ),
        ),
        key.alt && !key.ctrl && 1 <= n <= 9 && key.code == KeyCode::Char((48 + n) as char) ==> w.tab_key(
            key,
        ) == Some(Some(WindowAskView::SwitchTab((n - 1) as usize))),
        !key.ctrl && !key.alt ==> w.tab_key(key) is None,
{
    let count = w.bar.tabs.len() as int;
    let at = w.bar.active;
    vstd::arithmetic::div_mod::lemma_mod_self_0(count);
    if at + 1 < count {
        vstd::arithmetic::div_mod::lemma_small_mod((at + 1) as nat, count as nat);
    }
    if at == 0 {
        vstd::arithmetic::div_mod::lemma_small_mod((count - 1) as nat, count as nat);
    } else {
        vstd::arithmetic::div_mod::lemma_small_mod((at - 1) as nat, count as nat);
        vstd::arithmetic::div_mod::lemma_mod_add_multiples_vanish(at - 1, count);
        assert(count + (at - 1) == at + count - 1);
    }
}

/// A long way up ends at the top, any other way goes as far as it says, and the end is no
/// longer followed.
pub proof fn scrolling_goes_as_far_as_it_says(v: PaneView, by: int)
    requires
        0 <= v.log.scroll,
        0 <= by,
        v.log.scroll + by <= usize::MAX,
    ensures
        !v.scrolled_by(true, by).log.follow,
        !v.scrolled_by(false, by).log.follow,
        v.scrolled_by(false, by).log.scroll == v.log.scroll + by,
        by <= v.log.scroll ==> v.scrolled_by(true, by).log.scroll == v.log.scroll - by,
        by > v.log.scroll ==> v.scrolled_by(true, by).log.scroll == 0,
        v.scrolled_by(false, by).scrolled_by(true, by).log.scroll == v.log.scroll,
{
}

/// A pane comes back with its own session; of those without one the first keeps the
/// conversation at hand, and no other one does.
pub proof fn panes_come_back_with_their_sessions(stubs: Seq<StubView>, carried: bool, i: int, j: int)
    requires
        0 <= i < stubs.len(),
        0 <= j < stubs.len(),
    ensures
        ({
            let needs = tabs::stub_needs(stubs, carried);
            &&& needs.len() == stubs.len()
            &&& stubs[i].session matches Some(name) ==> needs[i] == StubNeedView::Session(name)
            &&& stubs[i].session is None ==> !(needs[i] is Session)
            &&& needs[i] is Carried && needs[j] is Carried ==> i == j
            &&& !carried ==> !(needs[i] is Carried)
            &&& carried && stubs[i].session is None ==> exists|k: int|
                0 <= k <= i && #[trigger] needs[k] is Carried
        }),
    decreases i,
{
    let needs = tabs::stub_needs(stubs, carried);
    if carried && stubs[i].session is None {
        if tabs::no_fresh(stubs, i) {
            assert(needs[i] is Carried);
        } else {
            let k = choose|k: int| 0 <= k < i && (#[trigger] stubs[k]).session is None;
            panes_come_back_with_their_sessions(stubs, carried, k, j);
        }
    }
}

/// The line of the selected row is the first one that shows it.
pub proof fn rows_are_found_on_their_line(lines: Seq<SidebarLineView>, row: usize, i: int, k: int)
    requires
        0 <= i <= k < lines.len(),
        lines[k].row == Some(row),
    ensures
        i <= listing::line_of_row(lines, row, i) <= k,
        lines[listing::line_of_row(lines, row, i)].row == Some(row),
    decreases lines.len() - i,
{
    if lines[i].row != Some(row) {
        rows_are_found_on_their_line(lines, row, i + 1, k);
    }
}

/// The list of sessions is scrolled so that the selected row can be seen.
pub proof fn the_selected_row_is_in_view(s: SidebarView, lines: Seq<SidebarLineView>, k: int)
    requires
        0 <= k < lines.len(),
        lines[k].row == Some(s.selected as usize),
        s.rect.height > 2,
        s.scroll >= 0,
    ensures
        ({
            let at = listing::line_of_row(lines, s.selected as usize, 0);
            let after = s.in_view(lines);
            &&& lines[at].row == Some(s.selected as usize)
            &&& after.scroll <= at < after.scroll + (s.rect.height - 2)
            &&& after.selected == s.selected
        }),
{
    rows_are_found_on_their_line(lines, s.selected as usize, 0, k);
}

/// Values that a tool answered with are kept under what was asked, and a failed answer leaves
/// what is known; either way nothing is awaited any more.
pub proof fn answers_are_kept_under_what_was_asked(
    v: LiveView,
    values: Seq<Seq<char>>,
    key: LiveKey,
    now: u64,
)
    ensures
        ({
            let got = v.answered(live::key_name(key), values, true, now);
            let missed = v.answered(live::key_name(key), values, false, now);
            &&& got.pods == if key is Pods {
                values
            } else {
                v.pods
            }
            &&& got.namespaces == if key is Namespaces {
                values
            } else {
                v.namespaces
            }
            &&& got.containers == if key is Containers {
                values
            } else {
                v.containers
            }
            &&& got.images == if key is Images {
                values
            } else {
                v.images
            }
            &&& missed.pods == v.pods && missed.namespaces == v.namespaces
            &&& missed.containers == v.containers && missed.images == v.images
            &&& !got.inflight.contains_key(live::key_name(key))
            &&& !missed.inflight.contains_key(live::key_name(key))
            &&& got.at.contains_key(live::key_name(key)) && got.at[live::key_name(key)] == now
            &&& missed.failed_at.contains_key(live::key_name(key)) && missed.failed_at[live::key_name(key)]
                == now
        }),
{
    reveal_strlit("k8s-ns");
    reveal_strlit("k8s-pods");
    reveal_strlit("docker-containers");
    reveal_strlit("docker-images");
    assert("k8s-ns"@.len() == 6 && "k8s-pods"@.len() == 8 && "docker-containers"@.len() == 17
        && "docker-images"@.len() == 13);
}

/// Each kind of value is asked for by its own name, and only read.
pub proof fn values_are_asked_for_by_name()
    ensures
        live::key_args(LiveKey::Namespaces)[0] == "get"@,
        live::key_args(LiveKey::Namespaces)[1] == "namespaces"@,
        live::key_args(LiveKey::Pods)[0] == "get"@,
        live::key_args(LiveKey::Pods)[1] == "pods"@,
        live::key_args(LiveKey::Containers)[0] == "ps"@,
        live::key_args(LiveKey::Images)[0] == "images"@,
{
}

/// Workflows that were read again take the place of those that were known, and nothing else
/// at hand changes.
pub proof fn workflows_are_replaced(s: SceneView, list: Seq<CustomView>)
    ensures
        s.customs_taken(list).desk.customs == list,
        s.customs_taken(list).desk == (DeskView { customs: list, ..s.desk }),
        s.customs_taken(list).pane.log == s.pane.log,
        s.customs_taken(list).pane.composer == s.pane.composer,
{
}

/// A place is shown by its last part, and by its whole path where it has none.
pub proof fn places_are_shown_by_their_last_part(path: Seq<char>, last: Seq<char>)
    ensures
        last.len() > 0 ==> sidebar::shown_name(path, Some(last)) == last,
        sidebar::shown_name(path, None) == path,
        path.len() > 0 ==> sidebar::shown_name(path, Some(last)).len() > 0,
{
}

/// A candidate is shown with its text, its kind and what is known of it.
pub proof fn candidates_are_shown_whole(c: ShellCandidate, style: Style)
    ensures
        scan::contains_text(panels::candidate_spans(c, style)[0].text, c.text@),
        scan::contains_text(panels::candidate_spans(c, style)[1].text, c.kind@),
        scan::contains_text(panels::candidate_spans(c, style)[1].text, c.detail@),
{
    let spans = panels::candidate_spans(c, style);
    reveal_strlit("");
    laws_commands::piece(" "@, c.text@, Seq::empty());
    assert(" "@ + c.text@ + Seq::<char>::empty() =~= spans[0].text);
    let rest = if c.detail@.len() == 0 {
        ""@
    } else {
        " · "@ + c.detail@
    };
    laws_commands::piece(" · "@, c.kind@, rest);
    let head = if c.detail@.len() == 0 {
        " · "@ + c.kind@
    } else {
        " · "@ + c.kind@ + " · "@
    };
    laws_commands::piece(head, c.detail@, Seq::empty());
    assert(head + c.detail@ + Seq::<char>::empty() =~= spans[1].text);
}

/// One list is shown at a time, and never an empty one while typing; a search goes before the
/// files, these before the values, and these before the candidates.
pub proof fn one_list_is_shown(searching: bool, files: int, values: int, candidates: int, matches: int)
    requires
        files >= 0,
        values >= 0,
        candidates >= 0,
        matches >= 0,
    ensures
        ({
            let shown = areas::menu_shown(searching, files, values, candidates, matches);
            &&& shown is Files ==> files > 0
            &&& shown is Values ==> values > 0 && files == 0
            &&& shown is Candidates ==> candidates > 0 && files == 0 && values == 0
            &&& shown is Matches ==> searching
            &&& searching && matches > 0 ==> shown is Matches
            &&& !searching && files > 0 ==> shown is Files
            &&& !searching && (files > 0 || values > 0 || candidates > 0) ==> !(shown is Nothing)
        }),
{
}

/// Only the focused pane shows lists, and matches only while it is searched.
pub proof fn lists_are_shown_in_the_focused_pane(w: WindowView, at: int, commands: usize, matches: usize)
    requires
        0 <= at < w.panes.len(),
        w.panes[at].at_menu.items.len() <= usize::MAX,
        w.panes[at].arg_menu.items.len() <= usize::MAX,
    ensures
        ({
            let shown = w.list_counts(at, commands, matches);
            &&& at != w.focus ==> shown.commands == 0 && shown.files == 0 && shown.values == 0
                && shown.candidates == 0 && shown.matches == 0
            &&& at == w.focus ==> shown.commands == commands && shown.files
                == w.panes[at].at_menu.items.len() && shown.values == w.panes[at].arg_menu.items.len()
            &&& w.search is None ==> shown.matches == 0
            &&& !w.panes[at].sh_menu.invoked ==> shown.candidates == 0
        }),
{
}

/// The highlight in the list of commands stays on one of them, and in view.
pub proof fn the_highlighted_command_is_in_view(d: DeskView, count: int, height: u16)
    requires
        count > 0,
        height > 2,
        0 <= d.palette_selected,
        0 <= d.palette_scroll,
    ensures
        ({
            let after = d.palette_clamped(count, height);
            &&& 0 <= after.palette_selected < count
            &&& d.palette_selected < count ==> after.palette_selected == d.palette_selected
            &&& after.palette_scroll <= after.palette_selected < after.palette_scroll + (height - 2)
        }),
{
}

/// A directory among the entries is told by the slash behind its name.
pub proof fn directories_end_with_a_slash(found: Seq<(String, bool)>, n: int, i: int)
    requires
        0 <= i < n <= found.len(),
    ensures
        ({
            let name = shell::entry_names(found, n)[i];
            &&& found[i].1 ==> name.last() == '/' && name.drop_last() == found[i].0@
            &&& !found[i].1 ==> name == found[i].0@
        }),
{
    reveal_strlit("/");
    let name = shell::entry_names(found, n)[i];
    if found[i].1 {
        assert(name =~= found[i].0@.push('/'));
        assert(name.drop_last() =~= found[i].0@);
    }
}

// ---------------------------------------------------------------------------
// How things stand
// ---------------------------------------------------------------------------

/// The header names the mode, the connection, the model, the workspace and the sandbox, and
/// says whether a reply is on its way.
pub proof fn the_header_says_how_things_stand(
    v: PaneView,
    connection: Seq<char>,
    sandbox: Seq<char>,
    skills: nat,
)
    ensures
        ({
            let first = v.header_first(connection);
            let second = v.header_second(sandbox, skills);
            &&& scan::contains_text(first[3].text, settings::mode_name(v.mode))
            &&& scan::contains_text(first[3].text, connection)
            &&& first[5].text == v.settings.model
            &&& scan::contains_text(second[1].text, v.workspace)
            &&& scan::contains_text(second[1].text, sandbox)
            &&& scan::contains_text(second[1].text, scan::decimal(skills))
            &&& second[3].text == if v.run.busy {
                "● working"@
            } else {
                "○ ready"@
            }
        }),
{
    let name = settings::mode_name(v.mode);
    let first = v.header_first(connection)[3].text;
    laws_commands::piece(Seq::empty(), name, " · "@ + connection);
    assert(Seq::<char>::empty() + name + (" · "@ + connection) =~= first);
    laws_commands::piece(name + " · "@, connection, Seq::empty());
    assert(name + " · "@ + connection + Seq::<char>::empty() =~= first);
    let unit = if skills == 1 {
        " skill"@
    } else {
        " skills"@
    };
    let count = scan::decimal(skills);
    let second = v.header_second(sandbox, skills)[1].text;
    laws_commands::piece(Seq::empty(), v.workspace, " · "@ + sandbox + " · "@ + count + unit);
    assert(Seq::<char>::empty() + v.workspace + (" · "@ + sandbox + " · "@ + count + unit) =~= second);
    laws_commands::piece(v.workspace + " · "@, sandbox, " · "@ + count + unit);
    assert(v.workspace + " · "@ + sandbox + (" · "@ + count + unit) =~= second);
    laws_commands::piece(v.workspace + " · "@ + sandbox + " · "@, count, unit);
}

/// A conversation that was saved at the end is told with its length, one that was not with the
/// reason; an empty one is passed over.
pub proof fn the_end_is_told(v: PaneView, e: Seq<char>)
    ensures
        v.log.history.len() == 0 ==> v.exit_note(None) is None && v.exit_note(Some(e)) is None,
        v.log.history.len() > 0 ==> {
            &&& v.exit_note(None) matches Some(said) && scan::contains_text(
                said,
                scan::decimal(v.log.history.len()),
            )
            &&& v.exit_note(Some(e)) matches Some(said) && scan::contains_text(said, e)
        },
{
    laws_commands::piece(
        "Autosaved session '__autosave__' ("@,
        scan::decimal(v.log.history.len()),
        " messages)"@,
    );
    laws_commands::piece("warning: could not save autosession: "@, e, Seq::empty());
    assert("warning: could not save autosession: "@ + e + Seq::<char>::empty()
        =~= "warning: could not save autosession: "@ + e);
}

/// A policy that cannot be read is told at the start, with the reason.
pub proof fn broken_policies_are_told(sandbox: Seq<char>, invalid: nat, customs: nat, e: Seq<char>)
    ensures
        scan::contains_text(reports::ready_note(sandbox, invalid, customs, Some(e)), e),
{
    let whole = reports::ready_note(sandbox, invalid, customs, Some(e));
    let head = reports::ready_note(sandbox, invalid, customs, None);
    let lead = " · approval policy invalid ("@;
    let tail = "); tools locked down"@;
    laws_commands::piece(head + lead, e, tail);
    reveal_strlit("");
    assert(head + lead + e + tail =~= whole);
}

/// A setting that could not be kept is told with the reason.
pub proof fn unkept_settings_are_told(connection: bool, e: String)
    ensures
        scan::contains_text(outside::keep_note(connection, KeepError::Unsaved(e)), e@),
        scan::contains_text(outside::keep_note(false, KeepError::Unread(e)), e@),
{
    let a = "connected, but could not save config: "@;
    let b = "Setting changed, but config save failed: "@;
    let c = "Setting changed, but config read failed: "@;
    laws_commands::piece(a, e@, Seq::empty());
    laws_commands::piece(b, e@, Seq::empty());
    laws_commands::piece(c, e@, Seq::empty());
    assert(a + e@ + Seq::<char>::empty() =~= a + e@);
    assert(b + e@ + Seq::<char>::empty() =~= b + e@);
    assert(c + e@ + Seq::<char>::empty() =~= c + e@);
}

/// A command in the list is shown by its name and by what it does.
pub proof fn commands_are_listed_by_name(item: ItemView)
    ensures
        scan::contains_text(panels::palette_text(item), item.description),
{
    let head = " "@ + scan::pad_right(
        item.name + (if item.custom {
            "*"@
        } else {
            ""@
        }),
        18,
    ) + " "@;
    laws_commands::piece(head, item.description, Seq::empty());
    assert(head + item.description + Seq::<char>::empty() =~= panels::palette_text(item));
}

/// A known provider is opened under its name, with the address that was given; an address
/// that cannot be one opens nothing.
pub proof fn named_providers_are_opened(
    s: SceneView,
    word: Seq<char>,
    url: Seq<char>,
    c: ConnectionText,
    provider: Seq<char>,
)
    requires
        word != "status"@,
        word != "show"@,
    ensures
        word != "url"@ && word != "custom"@ && desk::preset_from(s.desk.presets, provider, 0) is Some ==> {
            let opened = s.connect_asked(seq![word, url], c, true, provider);
            opened.pane.out == s.pane.out.push(
                EffectView::OpenProvider { id: provider, entered: Some(url) },
            )
        },
        word == "url"@ || word == "custom"@ ==> {
            &&& s.connect_asked(seq![word, url], c, true, provider).pane.out == s.pane.out.push(
                EffectView::OpenProvider { id: "custom"@, entered: Some(url) },
            )
            &&& s.connect_asked(seq![word, url], c, false, provider).pane.out == s.pane.out
        },
        word != "url"@ && word != "custom"@ && desk::preset_from(s.desk.presets, provider, 0) is None ==> {
            let refused = s.connect_asked(seq![word, url], c, true, provider);
            &&& refused.pane.out == s.pane.out
            &&& refused.desk == s.desk
            &&& scan::contains_text(refused.pane.log.status, provider)
        },
{
    laws_commands::piece("Unknown provider '"@, provider, "'; use /connect to browse"@);
}

/// A connection that fails is told with the reason, and only the status changes.
pub proof fn failed_connections_are_told(s: SceneView, id: Seq<char>, e: Seq<char>)
    ensures
        scan::contains_text(s.provider_begun(id, Some(e)).pane.log.status, e),
        s.provider_begun(id, Some(e)).pane.log.history == s.pane.log.history,
        s.provider_begun(id, Some(e)).desk == s.desk,
        s.provider_begun(id, None).desk == s.desk,
{
    laws_commands::piece("connection failed: "@, e, Seq::empty());
    assert("connection failed: "@ + e + Seq::<char>::empty() =~= "connection failed: "@ + e);
}

} // verus!
