//! What holds of what lies over the screen, of the list of commands, of skills, reports and
//! models, and of the mouse.

use crate::caret;
use crate::catalog::Json;
use crate::catalog;
use crate::desk::{OverlayView, SceneView};
use crate::desk;
use crate::effects::{EffectView, SavedView};
use crate::events::ModelView;
use crate::keys::{Key, KeyCode};
use crate::keys;
use crate::laws_commands;
use crate::laws_text;
use crate::mouse::{Mouse, MouseKind};
use crate::mouse;
use crate::outside::{EndpointOutcome, ReadConfig};
use crate::overlays;
use crate::palette::ItemView;
use crate::palette;
use crate::pane::PaneView;
use crate::reports::{DiffOutcome, FileOutcome, MapEntry};
use crate::reports;
use crate::scan;
use crate::settings::{Mode, SettingsView};
use crate::settings;
use crate::skills;
use crate::text;
use vstd::prelude::*;

verus! {

// ---------------------------------------------------------------------------
// Overlays
// ---------------------------------------------------------------------------

/// In a list the arrows move the selection by one and stay within the list, and every key but
/// Enter and Escape leaves what is set as it is.
pub proof fn selections_move_by_one(selected: int, count: int)
    requires
        0 <= selected < count,
    ensures
        overlays::selection_moved(KeyCode::Up, selected, 8, count) == (if selected > 0 {
            selected - 1
        } else {
            0
        }),
        overlays::selection_moved(KeyCode::Down, selected, 8, count) == (if selected + 1 < count {
            selected + 1
        } else {
            selected
        }),
        0 <= overlays::selection_moved(KeyCode::PageDown, selected, 8, count) < count,
        0 <= overlays::selection_moved(KeyCode::PageUp, selected, 8, count) <= selected,
{
}

/// Enter over the models takes the selected one and closes the list; Escape closes it and
/// changes nothing.
pub proof fn enter_takes_the_selected_model(
    s: SceneView,
    key: Key,
    items: Seq<ModelView>,
    selected: int,
    scroll: int,
    active: Seq<char>,
)
    requires
        s.desk.overlay == (OverlayView::Models { items, selected, scroll, active }),
        0 <= selected < items.len(),
    ensures
        key.code == KeyCode::Enter ==> {
            let w = s.overlay_key(key);
            &&& w.pane.settings == (SettingsView { model: items[selected].id, ..s.pane.settings })
            &&& w.pane.out == s.pane.out.push(
                EffectView::Keep {
                    setting: SavedView::Connection(Some(items[selected].id)),
                    report: false,
                },
            )
            &&& w.desk.overlay is Closed
        },
        key.code == KeyCode::Esc ==> s.overlay_key(key).pane == s.pane && s.overlay_key(key).desk.overlay
            is Closed,
        key.code == KeyCode::Down ==> s.overlay_key(key).pane == s.pane,
{
    reveal(SceneView::models_key);
}

/// Enter over the themes keeps the selected one, and moving shows each before it is kept.
pub proof fn enter_keeps_the_selected_theme(s: SceneView, key: Key, selected: int, original: Seq<char>)
    requires
        s.desk.overlay == (OverlayView::Theme { selected, original }),
        0 <= selected < s.desk.themes.len(),
    ensures
        key.code == KeyCode::Enter ==> {
            let w = s.overlay_key(key);
            &&& w.pane.settings == (SettingsView { theme: s.desk.themes[selected], ..s.pane.settings })
            &&& w.pane.out == s.pane.out.push(
                EffectView::Keep { setting: SavedView::Theme(s.desk.themes[selected]), report: false },
            )
            &&& w.desk.overlay is Closed
        },
        key.code == KeyCode::Down && selected + 1 < s.desk.themes.len() ==> {
            let w = s.overlay_key(key);
            &&& w.pane.settings == (SettingsView {
                theme: s.desk.themes[selected + 1],
                ..s.pane.settings
            })
            &&& w.pane.out == s.pane.out
            &&& w.desk.overlay == (OverlayView::Theme { selected: selected + 1, original })
        },
        key.code == KeyCode::Esc ==> s.overlay_key(key).pane.settings.theme == original && s.overlay_key(
            key,
        ).pane.out == s.pane.out,
{
    reveal(SceneView::theme_key);
}

/// A provider that is picked is opened at once where nothing more is needed, and else asks
/// for its address or its key first.
pub proof fn picked_providers_are_opened(s: SceneView, key: Key, selected: int, scroll: int)
    requires
        s.desk.overlay == (OverlayView::Providers { selected, scroll }),
        0 <= selected < s.desk.presets.len(),
        key.code == KeyCode::Enter,
    ensures
        ({
            let p = s.desk.presets[selected];
            let w = s.overlay_key(key);
            &&& p.asks_for_url ==> w.desk.overlay == (OverlayView::CustomUrl { provider: p.id })
                && w.pane.out == s.pane.out
            &&& !p.asks_for_url && p.key_required && !p.key_at_hand ==> w.desk.overlay == (
            OverlayView::ApiKey { provider: p.id }) && w.pane.out == s.pane.out
            &&& !p.asks_for_url && (!p.key_required || p.key_at_hand) ==> w.desk.overlay is Closed
                && w.pane.out == s.pane.out.push(EffectView::OpenProvider { id: p.id, entered: None })
        }),
{
    reveal(SceneView::providers_key);
}

/// A key that was typed goes to the provider that asked for it, without the white space around
/// it, and is gone from the draft.
pub proof fn typed_keys_go_to_their_provider(s: SceneView, key: Key, provider: Seq<char>)
    requires
        s.desk.overlay == (OverlayView::ApiKey { provider }),
        key.code == KeyCode::Enter,
        scan::trim(s.pane.composer.text).len() > 0,
    ensures
        s.overlay_key(key).pane.out == s.pane.out.push(
            EffectView::OpenProvider {
                id: provider,
                entered: Some(scan::trim(s.pane.composer.text)),
            },
        ),
        s.overlay_key(key).pane.composer.text.len() == 0,
        s.overlay_key(key).desk.overlay is Closed,
        s.overlay_key(key).pane.log.history == s.pane.log.history,
{
    reveal(SceneView::api_key_key);
}

/// An address that was typed is checked for the provider that asked for it; once it is good
/// that provider is opened with it, and a bad one is asked for again.
pub proof fn typed_addresses_are_checked(s: SceneView, key: Key, provider: Seq<char>, url: Seq<char>)
    requires
        s.desk.overlay == (OverlayView::CustomUrl { provider }),
        key.code == KeyCode::Enter,
        !scan::blank(s.pane.composer.text),
    ensures
        s.overlay_key(key).pane.out == s.pane.out.push(
            EffectView::CheckUrl { provider, url: scan::trim(s.pane.composer.text) },
        ),
        s.url_checked(provider, url, true).pane.out == s.pane.out.push(
            EffectView::OpenProvider { id: provider, entered: Some(url) },
        ),
        s.url_checked(provider, url, false).pane.out == s.pane.out,
        s.url_checked(provider, url, false).desk.overlay == (OverlayView::CustomUrl { provider }),
{
    reveal(SceneView::url_key);
}

/// A provider that is there is connected to by its id: an address that was typed as its
/// address, and a key that was typed as its key.
pub proof fn providers_are_connected_to(s: SceneView, id: Seq<char>, entered: Option<Seq<char>>, i: int)
    requires
        desk::preset_from(s.desk.presets, id, 0) == Some(i),
        s.desk.presets[i].id == id,
        id != "custom"@,
    ensures
        entered is Some ==> s.provider_tried(id, entered, true, false).pane.out == s.pane.out.push(
            EffectView::Connect { provider: id, address: entered, key: None },
        ),
        entered is Some ==> s.provider_tried(id, entered, false, false).pane.out == s.pane.out.push(
            EffectView::Connect { provider: id, address: None, key: entered },
        ),
        s.desk.presets[i].key_required ==> s.provider_tried(id, None, false, false).pane.out == s.pane.out,
        s.desk.presets[i].key_required ==> s.provider_tried(id, None, false, false).desk.overlay == (
        OverlayView::ApiKey { provider: id }),
        s.provider_tried(id, None, false, true).pane.out == s.pane.out.push(
            EffectView::Connect { provider: id, address: None, key: None },
        ),
{
}

// ---------------------------------------------------------------------------
// The list of commands
// ---------------------------------------------------------------------------

proof fn tier_holds(list: Seq<ItemView>, recent: Seq<Seq<char>>, tier: int, n: int, i: int)
    requires
        0 <= i < n <= list.len(),
        palette::recency(recent, list[i].name) == tier,
    ensures
        palette::tier_rows(list, recent, tier, n).contains(list[i]),
    decreases n,
{
    let all = palette::tier_rows(list, recent, tier, n);
    if i < n - 1 {
        tier_holds(list, recent, tier, n - 1, i);
        let less = palette::tier_rows(list, recent, tier, n - 1);
        let k = less.index_of(list[i]);
        assert(all[k] == list[i]);
    } else {
        assert(all.last() == list[i]);
    }
}

proof fn tiers_hold(list: Seq<ItemView>, recent: Seq<Seq<char>>, tiers: int, i: int)
    requires
        0 <= i < list.len(),
        0 <= palette::recency(recent, list[i].name) < tiers,
    ensures
        palette::by_recency(list, recent, tiers).contains(list[i]),
    decreases tiers,
{
    let all = palette::by_recency(list, recent, tiers);
    let less = palette::by_recency(list, recent, tiers - 1);
    let tier = palette::tier_rows(list, recent, tiers - 1, list.len() as int);
    if palette::recency(recent, list[i].name) == tiers - 1 {
        tier_holds(list, recent, tiers - 1, list.len() as int, i);
        let k = tier.index_of(list[i]);
        assert(all[less.len() + k] == list[i]);
    } else {
        tiers_hold(list, recent, tiers - 1, i);
        let k = less.index_of(list[i]);
        assert(all[k] == list[i]);
    }
}

/// Every command that fits the draft has a row, under its own name.
pub proof fn fitting_commands_have_rows(
    list: Seq<ItemView>,
    recent: Seq<Seq<char>>,
    s: SettingsView,
    mode: Mode,
    i: int,
)
    requires
        0 <= i < list.len(),
    ensures
        exists|k: int|
            0 <= k < palette::palette_rows(list, recent, s, mode).len() && (#[trigger] palette::palette_rows(
                list,
                recent,
                s,
                mode,
            )[k]).name == list[i].name,
{
    settings::place_means(recent, text::lower(list[i].name), 0);
    tiers_hold(list, recent, recent.len() as int + 1, i);
    let all = palette::by_recency(list, recent, recent.len() as int + 1);
    let k = all.index_of(list[i]);
    assert(palette::palette_rows(list, recent, s, mode)[k] == palette::decorated(list[i], s, mode));
}

/// The row that is taken from the list of commands becomes the draft: its name and a blank.
pub proof fn taken_rows_become_the_draft(s: SceneView, found: Seq<ItemView>)
    requires
        0 <= s.desk.palette_selected < palette::palette_rows(
            found,
            s.desk.recent,
            s.pane.settings,
            s.pane.mode,
        ).len(),
    ensures
        s.palette_taken(found).pane.composer.text == palette::palette_rows(
            found,
            s.desk.recent,
            s.pane.settings,
            s.pane.mode,
        )[s.desk.palette_selected].name + " "@,
        s.palette_taken(found).pane.out == s.pane.out,
{
}

// ---------------------------------------------------------------------------
// Skills
// ---------------------------------------------------------------------------

/// A skill that is there is turned on by its name, behind those that are on, and its arguments
/// become its parameters; one that is not there changes nothing.
pub proof fn skills_are_turned_on(v: PaneView, args: Seq<Seq<char>>, name: Seq<char>, path: Seq<char>)
    requires
        args.len() >= 2,
    ensures
        !v.skills.active.contains(name) ==> v.skill_used(args, Some(name), path, true).skills.active
            == v.skills.active.push(name),
        v.skills.active.contains(name) ==> v.skill_used(args, Some(name), path, true).skills == v.skills,
        v.skill_used(args, Some(name), path, false).skills == v.skills,
        v.skill_used(args, None, path, true).skills == v.skills,
        scan::contains_text(v.skill_used(args, Some(name), path, false).log.status, path),
{
    laws_commands::piece("Skill not found: "@, path, Seq::empty());
    assert("Skill not found: "@ + path + Seq::<char>::empty() =~= "Skill not found: "@ + path);
}

/// A parameter of a skill is what stands behind the first `=` of its argument, under the name
/// before it.
pub proof fn parameters_are_read(name: Seq<char>, value: Seq<char>)
    requires
        !name.contains('='),
    ensures
        skills::pair_of(name + seq!['='] + value) == Some((name, value)),
{
    let s = name + seq!['='] + value;
    scan::seek_spec(s, '=', 0);
    let k = scan::seek(s, '=', 0);
    assert(s[name.len() as int] == '=');
    if k < name.len() {
        assert(name[k] == s[k]);
        assert(name.contains(name[k]));
    }
    assert(k == name.len());
    assert(s.take(k) =~= name);
    assert(s.skip(k + 1) =~= value);
}

/// Dropping a skill turns it off and no other one, and clearing turns all of them off.
pub proof fn skills_are_turned_off(v: PaneView, name: Seq<char>, other: Seq<char>)
    requires
        other != name,
    ensures
        !v.skill_dropped(Some(name)).skills.active.contains(name),
        v.skills.active.contains(other) ==> v.skill_dropped(Some(name)).skills.active.contains(other),
{
    off_and_on(v.skills.active, name, other, v.skills.active.len() as int);
    assert(v.skills.active.take(v.skills.active.len() as int) =~= v.skills.active);
}

proof fn off_and_on(list: Seq<Seq<char>>, name: Seq<char>, other: Seq<char>, n: int)
    requires
        0 <= n <= list.len(),
        other != name,
    ensures
        !skills::list_without(list, name, n).contains(name),
        list.take(n).contains(other) ==> skills::list_without(list, name, n).contains(other),
    decreases n,
{
    let all = skills::list_without(list, name, n);
    if n > 0 {
        off_and_on(list, name, other, n - 1);
        let less = skills::list_without(list, name, n - 1);
        if all.contains(name) {
            let k = all.index_of(name);
            assert(k < less.len() ==> less[k] == name);
        }
        if list.take(n).contains(other) {
            let k = list.take(n).index_of(other);
            if k < n - 1 {
                assert(list.take(n - 1)[k] == other);
                let m = less.index_of(other);
                assert(all[m] == other);
            } else {
                assert(all.last() == other);
            }
        }
    }
}

proof fn markdown_is_kept(names: Seq<Seq<char>>, n: int, i: int)
    requires
        0 <= i < n <= names.len(),
        skills::is_markdown(names[i]),
    ensures
        skills::markdown_in(names, n).contains(names[i]),
    decreases n,
{
    let all = skills::markdown_in(names, n);
    if i < n - 1 {
        markdown_is_kept(names, n - 1, i);
        let less = skills::markdown_in(names, n - 1);
        let k = less.index_of(names[i]);
        assert(all[k] == names[i]);
    } else {
        assert(all.last() == names[i]);
    }
}

proof fn only_markdown_is_kept(names: Seq<Seq<char>>, n: int)
    requires
        0 <= n <= names.len(),
    ensures
        forall|k: int|
            0 <= k < skills::markdown_in(names, n).len() ==> skills::is_markdown(
                #[trigger] skills::markdown_in(names, n)[k],
            ),
    decreases n,
{
    if n > 0 {
        only_markdown_is_kept(names, n - 1);
        let all = skills::markdown_in(names, n);
        let less = skills::markdown_in(names, n - 1);
        assert forall|k: int| 0 <= k < all.len() implies skills::is_markdown(#[trigger] all[k]) by {
            if k < less.len() {
                assert(all[k] == less[k]);
            }
        }
    }
}

/// Every Markdown file of the directory is a skill, and nothing else is.
pub proof fn markdown_files_are_the_skills(names: Seq<Seq<char>>, i: int)
    requires
        0 <= i < names.len(),
    ensures
        names[i].len() > 3 && names[i].skip(names[i].len() - 3) == ".md"@ ==> skills::markdown_in(
            names,
            names.len() as int,
        ).contains(names[i]),
        forall|k: int|
            0 <= k < skills::markdown_in(names, names.len() as int).len() ==> {
                let one = #[trigger] skills::markdown_in(names, names.len() as int)[k];
                one.len() > 3 && one.skip(one.len() - 3) == ".md"@
            },
{
    reveal_strlit(".md");
    let all = skills::markdown_in(names, names.len() as int);
    if names[i].len() > 3 && names[i].skip(names[i].len() - 3) == ".md"@ {
        assert(names[i].subrange(names[i].len() - 3, names[i].len() as int) =~= names[i].skip(
            names[i].len() - 3,
        ));
        markdown_is_kept(names, names.len() as int, i);
    }
    only_markdown_is_kept(names, names.len() as int);
    assert forall|k: int| 0 <= k < all.len() implies ({
        let one = #[trigger] all[k];
        one.len() > 3 && one.skip(one.len() - 3) == ".md"@
    }) by {
        let one = all[k];
        assert(one.subrange(one.len() - 3, one.len() as int) =~= one.skip(one.len() - 3));
    }
}

// ---------------------------------------------------------------------------
// Reports and configuration
// ---------------------------------------------------------------------------

/// An export goes to the path that was given, in the format that was given, and nothing is
/// exported in a format that there is not.
pub proof fn exports_go_where_they_are_asked(v: PaneView, args: Seq<Seq<char>>)
    requires
        args.len() >= 1,
    ensures
        reports::export_ending(args[0]) is Some ==> {
            let r = v.export_asked(args);
            &&& r.0 == v
            &&& r.1 is Some
            &&& r.1->0.format == args[0]
            &&& r.1->0.path == (if args.len() >= 2 {
                Some(args[1])
            } else {
                None
            })
        },
        reports::export_ending(args[0]) is None ==> v.export_asked(args).1 is None,
{
}

/// A preview shows the path and the beginning of the file.
pub proof fn previews_show_the_file(v: PaneView, requested: Seq<char>, content: String)
    requires
        content@.len() <= 2_000,
        !v.log.repeats("--- "@ + requested + " ---\n"@ + content@),
    ensures
        v.previewed(requested, FileOutcome::Done(content)).log.history.last().content == "--- "@ + requested
            + " ---\n"@ + content@,
        v.previewed(requested, FileOutcome::Done(content)).log.history.len() == v.log.history.len() + 1,
{
    assert(scan::first_chars(content@, 2_000) =~= content@);
}

/// The map of a workspace shows each of its entries, up to a limit, in order.
pub proof fn maps_show_each_entry(entries: Seq<MapEntry>, i: int)
    requires
        0 <= i < entries.len(),
        i < 80,
    ensures
        scan::contains_text(reports::map_report(entries), entries[i].path@),
{
    let lines = reports::map_lines(entries);
    assert(lines[i] == reports::map_line(entries[i]));
    laws_text::joined_parts_stand_in_order(lines, "\n"@, i);
    let all = reports::map_report(entries);
    let p = laws_text::part_start(lines, "\n"@, i);
    let mark = if entries[i].is_dir {
        "▸ "@
    } else {
        "· "@
    };
    let path = entries[i].path@;
    assert(lines[i] == mark + path);
    assert(all.subrange(p, p + lines[i].len()) == lines[i]);
    assert(all.subrange(p + mark.len(), p + mark.len() + path.len()) =~= lines[i].subrange(
        mark.len() as int,
        lines[i].len() as int,
    ));
    assert(lines[i].subrange(mark.len() as int, lines[i].len() as int) =~= path);
    assert(scan::occurs_at(all, path, p + mark.len()));
}

/// What changed is shown as it was printed, without the white space around it; nothing
/// printed means that nothing changed.
pub proof fn changes_are_shown_as_printed(out: String)
    ensures
        scan::trim(out@).len() > 0 ==> reports::diff_report(DiffOutcome::Done(out)) == scan::trim(out@),
        scan::trim(out@).len() == 0 ==> reports::diff_report(DiffOutcome::Done(out)) == "No Git changes"@,
        scan::trim(out@).len() > 0 && scan::trim(out@) != "HEAD"@ ==> reports::branch_in(out@) == Some(
            scan::trim(out@),
        ),
        scan::trim(out@) == "HEAD"@ ==> reports::branch_in(out@) is None,
{
}

/// A configuration that was read is taken over in full, and keeps the model where it names
/// none.
pub proof fn configurations_are_taken_over(s: SceneView, c: ReadConfig, e: Seq<char>)
    ensures
        ({
            let w = s.config_asked(Seq::empty(), Ok(c), EndpointOutcome::Same);
            &&& w.pane.settings.theme == c.theme@
            &&& w.pane.settings.posture == c.permission_posture@
            &&& w.pane.settings.reasoning == c.reasoning_effort@
            &&& w.pane.settings.auto_compact == c.auto_compact
            &&& w.pane.settings.cache_prompt == c.cache_prompt
            &&& w.pane.settings.show_thinking == c.show_thinking
            &&& w.pane.settings.thinking_open == c.thinking_default_expanded
            &&& w.pane.settings.bindings == c.keybindings@
            &&& c.model matches Some(m) ==> w.pane.settings.model == m@
            &&& c.model is None ==> w.pane.settings.model == s.pane.settings.model
            &&& w.desk.bell == c.attention_bell
            &&& w.desk.mouse == c.mouse
            &&& w.pane.log.history == s.pane.log.history
        }),
        ({
            let w = s.config_asked(Seq::empty(), Err(e), EndpointOutcome::Same);
            w.pane.settings == s.pane.settings && w.desk == s.desk
        }),
{
    reveal_strlit("reload");
    reveal_strlit("show");
    assert("reload"@.len() != "show"@.len());
}

/// Offers of the model are turned on and off by these words, and by no other.
pub proof fn model_offers_are_switched(v: PaneView, word: Seq<char>)
    ensures
        v.model_offers_asked("on"@).ai_on,
        !v.model_offers_asked("off"@).ai_on,
        word != "on"@ && word != "off"@ ==> v.model_offers_asked(word).ai_on == v.ai_on,
{
    reveal_strlit("on");
    reveal_strlit("off");
    assert("on"@.len() != "off"@.len());
}

// ---------------------------------------------------------------------------
// Models
// ---------------------------------------------------------------------------

proof fn named_models_are_met(items: Seq<Json>, n: int, i: int)
    requires
        0 <= i < n <= items.len(),
        catalog::listed_in(items[i]) is Some,
    ensures
        catalog::has_id(catalog::distinct_models(items, n), catalog::listed_in(items[i])->0.id),
    decreases n,
{
    let id = catalog::listed_in(items[i])->0.id;
    let all = catalog::distinct_models(items, n);
    let less = catalog::distinct_models(items, n - 1);
    if i < n - 1 {
        named_models_are_met(items, n - 1, i);
        let k = choose|k: int| 0 <= k < less.len() && (#[trigger] less[k]).id == id;
        assert(all[k].id == id);
    } else if !catalog::has_id(less, id) {
        assert(all.last().id == id);
    }
}

/// Every model that an answer names is listed.
pub proof fn named_models_are_listed(value: Json, i: int)
    requires
        0 <= i < catalog::model_items(value).len(),
        catalog::listed_in(catalog::model_items(value)[i]) is Some,
    ensures
        exists|k: int|
            0 <= k < catalog::catalogued(value).len() && (#[trigger] catalog::catalogued(value)[k]).id
                == catalog::listed_in(catalog::model_items(value)[i])->0.id,
{
    let items = catalog::model_items(value);
    let id = catalog::listed_in(items[i])->0.id;
    let all = catalog::distinct_models(items, items.len() as int);
    named_models_are_met(items, items.len() as int, i);
    let k = choose|k: int| 0 <= k < all.len() && (#[trigger] all[k]).id == id;
    catalog::models_are_listed_once(value);
    let sorted = catalog::catalogued(value);
    sorted.to_multiset_ensures();
    all.to_multiset_ensures();
    assert(all.contains(all[k]));
    assert(all.to_multiset().count(all[k]) > 0);
    assert(sorted.to_multiset() == all.to_multiset());
    assert(sorted.contains(all[k]));
    let m = sorted.index_of(all[k]);
    assert(sorted[m].id == id);
}

/// A model is listed under the text that names it, and under its `id` where it is an object.
pub proof fn models_are_listed_under_their_id(name: String, item: Json)
    ensures
        catalog::listed_in(Json::Text(name)) matches Some(m) && m.id == name@,
        item is Object ==> (item.text_field("id"@) matches Some(id) ==> (catalog::listed_in(item) matches Some(
            m,
        ) && m.id == id)),
{
}

/// The room of a model is the first that its provider names, under the names that there are.
pub proof fn rooms_are_read(m: Json, n: u64)
    ensures
        m.positive_field("context_length"@) == Some(n) ==> catalog::room_of(m) == Some(n),
        m.positive_field("context_length"@) is None && m.positive_field("context_window"@) == Some(n)
            ==> catalog::room_of(m) == Some(n),
        m.positive_field("context_length"@) is None && m.positive_field("context_window"@) is None
            && m.positive_field("max_context_length"@) is None && m.positive_field("max_model_len"@) is None
            && m.positive_field("n_ctx"@) == Some(n) ==> catalog::room_of(m) == Some(n),
{
}

proof fn tools_differ()
    ensures
        "write_file"@ != "edit_file"@,
        "write_file"@ != "apply_patch"@,
        "edit_file"@ != "apply_patch"@,
{
    reveal_strlit("write_file");
    reveal_strlit("edit_file");
    reveal_strlit("apply_patch");
    assert("write_file"@[0] == 'w' && "edit_file"@[0] == 'e' && "apply_patch"@[0] == 'a');
}

/// A call that writes a new file is told by its path and its size.
pub proof fn new_files_are_told_by_their_size(
    args: Json,
    path: Seq<char>,
    edit: Option<Seq<char>>,
    patch: Option<Seq<char>>,
)
    requires
        args.text_field("path"@) == Some(path),
    ensures
        ({
            let p = catalog::previewed_call("write_file"@, args, Seq::empty(), edit, patch);
            &&& p is Some
            &&& scan::contains_text(p->0, path)
            &&& scan::contains_text(
                p->0,
                scan::decimal(caret::byte_len(args.text_or_empty("content"@))),
            )
        }),
{
    let size = scan::decimal(caret::byte_len(args.text_or_empty("content"@)));
    let a = "create "@ + path + " ("@;
    laws_commands::piece("create "@, path, " ("@ + size + " bytes)"@);
    assert(a + size + " bytes)"@ =~= "create "@ + path + (" ("@ + size + " bytes)"@));
    laws_commands::piece(a, size, " bytes)"@);
}

/// A call that writes over a file is told by its path and the lines before and after.
pub proof fn changed_files_are_told_by_their_lines(
    args: Json,
    path: Seq<char>,
    current: Seq<char>,
    edit: Option<Seq<char>>,
    patch: Option<Seq<char>>,
)
    requires
        args.text_field("path"@) == Some(path),
        current.len() > 0,
    ensures
        ({
            let p = catalog::previewed_call("write_file"@, args, current, edit, patch);
            &&& p is Some
            &&& scan::contains_text(p->0, path)
            &&& scan::contains_text(
                p->0,
                scan::decimal(scan::lines(current).len()) + " -> "@ + scan::decimal(
                    scan::lines(args.text_or_empty("content"@)).len(),
                ),
            )
        }),
{
    let x = scan::decimal(scan::lines(current).len());
    let y = scan::decimal(scan::lines(args.text_or_empty("content"@)).len());
    let all = path + ": "@ + x + " -> "@ + y + " lines"@;
    laws_commands::piece(path + ": "@, x + " -> "@ + y, " lines"@);
    assert(all =~= path + ": "@ + (x + " -> "@ + y) + " lines"@);
    laws_commands::piece(Seq::empty(), path, ": "@ + x + " -> "@ + y + " lines"@);
    assert(all =~= Seq::<char>::empty() + path + (": "@ + x + " -> "@ + y + " lines"@));
}

/// A call that edits a file is told by its path and what changes, and a patch by what it
/// changes.
pub proof fn edits_are_told_by_what_changes(
    args: Json,
    path: Seq<char>,
    current: Seq<char>,
    diff: Seq<char>,
    patch: Option<Seq<char>>,
)
    requires
        args.text_field("path"@) == Some(path),
    ensures
        ({
            let p = catalog::previewed_call("edit_file"@, args, current, Some(diff), patch);
            p is Some && scan::contains_text(p->0, path) && scan::contains_text(p->0, diff)
        }),
        catalog::previewed_call("apply_patch"@, args, current, Some(diff), patch) == patch,
{
    tools_differ();
    laws_commands::piece(Seq::empty(), path, ": "@ + diff);
    assert(path + ": "@ + diff =~= Seq::<char>::empty() + path + (": "@ + diff));
    laws_commands::piece(path + ": "@, diff, Seq::empty());
    assert(path + ": "@ + diff =~= path + ": "@ + diff + Seq::<char>::empty());
}

// ---------------------------------------------------------------------------
// The mouse and keys
// ---------------------------------------------------------------------------

/// The wheel scrolls the conversation, further with shift, and changes nothing else.
pub proof fn wheels_scroll(s: SceneView, m: Mouse, found: Seq<ItemView>)
    requires
        s.pane.log.scroll >= 12,
        s.pane.log.scroll + 12 <= usize::MAX,
    ensures
        ({
            let w = s.moused(m, found);
            let step = if m.shift {
                12int
            } else {
                4
            };
            &&& m.kind == MouseKind::WheelUp ==> w.pane.log.scroll == s.pane.log.scroll - step
                && !w.pane.log.follow
            &&& m.kind == MouseKind::WheelDown ==> w.pane.log.scroll == s.pane.log.scroll + step
            &&& m.kind == MouseKind::WheelUp || m.kind == MouseKind::WheelDown ==> w.pane.composer
                == s.pane.composer && w.pane.log.history == s.pane.log.history && w.desk == s.desk
        }),
{
}

/// What an editor left behind becomes the draft, without the line feeds at its end.
pub proof fn edited_drafts_come_back(v: PaneView, program: Seq<char>, text: Seq<char>, n: nat)
    requires
        text.len() == 0 || text.last() != '\n',
    ensures
        v.edited_outside(program, text + Seq::new(n, |i: int| '\n')).composer.text == text,
        v.edited_outside(program, text + Seq::new(n, |i: int| '\n')).composer.at == text.len(),
    decreases n,
{
    breaks_drop(text, n);
}

proof fn breaks_drop(text: Seq<char>, n: nat)
    requires
        text.len() == 0 || text.last() != '\n',
    ensures
        mouse::drop_end_breaks(text + Seq::new(n, |i: int| '\n')) == text,
    decreases n,
{
    let s = text + Seq::new(n, |i: int| '\n');
    if n > 0 {
        assert(s.drop_last() =~= text + Seq::new((n - 1) as nat, |i: int| '\n'));
        breaks_drop(text, (n - 1) as nat);
    } else {
        assert(s =~= text);
    }
}

/// A binding of the user's takes the place of the letter that an action has, and only control
/// with its letter then means the action.
pub proof fn bindings_take_the_place_of_letters(
    bindings: Seq<(String, String)>,
    action: Seq<char>,
    key: Key,
    letter: char,
)
    requires
        bindings.len() > 0,
        bindings[0].0@ == action,
        bindings[0].1@ == seq!['c', 't', 'r', 'l', '+', letter],
        'a' <= letter <= 'z',
        text::lower(bindings[0].1@) == bindings[0].1@,
        scan::trim(bindings[0].1@) == bindings[0].1@,
    ensures
        keys::triggers(bindings, action, key) == (key.is_ctrl(letter) && !key.alt && !key.shift
            && !key.extra),
{
    let t = bindings[0].1@;
    reveal_strlit("ctrl+");
    assert(t.subrange(0, 5) =~= "ctrl+"@);
    assert(t.last() == letter);
}

} // verus!
