//! The list of commands: what it shows for a query, in which order, and the commands
//! that the user added.

use crate::composer;
use crate::settings::{Mode, Settings, SettingsView};
use crate::settings;
use crate::text;
use vstd::prelude::*;

verus! {

/// How many commands are remembered as recent.
pub const MAX_RECENT_COMMANDS: usize = 8;

/// A row of the list of commands.
#[derive(Debug, Clone, PartialEq, Eq)]
pub struct PaletteItem {
    pub name: String,
    pub description: String,
    /// The user added the command.
    pub custom: bool,
}

/// What a row holds.
#[verifier::ext_equal]
pub struct ItemView {
    pub name: Seq<char>,
    pub description: Seq<char>,
    pub custom: bool,
}

impl View for PaletteItem {
    type V = ItemView;

    open spec fn view(&self) -> ItemView {
        ItemView { name: self.name@, description: self.description@, custom: self.custom }
    }
}

/// What the rows of a list hold.
pub open spec fn items_view(list: Seq<PaletteItem>) -> Seq<ItemView> {
    list.map_values(|i: PaletteItem| i@)
}

/// A command that the user added, as a prompt with places for arguments.
#[derive(Debug, Clone, PartialEq, Eq)]
pub struct CustomCommand {
    pub name: String,
    pub description: String,
    pub argument_hint: Option<String>,
    pub content: String,
    pub source: String,
    pub path: String,
}

/// What an added command holds.
#[verifier::ext_equal]
pub struct CustomView {
    pub name: Seq<char>,
    pub description: Seq<char>,
    pub hint: Option<Seq<char>>,
    pub content: Seq<char>,
    pub source: Seq<char>,
    pub path: Seq<char>,
}

impl View for CustomCommand {
    type V = CustomView;

    open spec fn view(&self) -> CustomView {
        CustomView {
            name: self.name@,
            description: self.description@,
            hint: composer::opt_text(self.argument_hint),
            content: self.content@,
            source: self.source@,
            path: self.path@,
        }
    }
}

/// What the added commands of a list hold.
pub open spec fn customs_view(list: Seq<CustomCommand>) -> Seq<CustomView> {
    list.map_values(|c: CustomCommand| c@)
}

/// A text without the given first character.
pub open spec fn without_first(s: Seq<char>, c: char) -> Seq<char> {
    if s.len() > 0 && s[0] == c {
        s.skip(1)
    } else {
        s
    }
}

/// The first added command with a name, at or after `i`.
pub open spec fn custom_from(list: Seq<CustomView>, name: Seq<char>, i: int) -> Option<int>
    decreases list.len() - i,
{
    if i < 0 || i >= list.len() {
        None
    } else if list[i].name == name {
        Some(i)
    } else {
        custom_from(list, name, i + 1)
    }
}

/// The added command that a text names, with or without a slash, whatever the case.
pub open spec fn custom_at(list: Seq<CustomView>, name: Seq<char>) -> Option<int> {
    custom_from(list, text::lower(without_first(name, '/')), 0)
}

/// Whether a text is a slash and the name of an added command.
pub open spec fn is_custom(list: Seq<CustomView>, value: Seq<char>) -> bool {
    exists|i: int| 0 <= i < list.len() && "/"@ + (#[trigger] list[i]).name == text::lower(value)
}

/// The added command that a text names.
pub fn find_custom_command(list: &Vec<CustomCommand>, name: &str) -> (r: Option<usize>)
    ensures
        match r {
            Some(i) => custom_at(customs_view(list@), name@) == Some(i as int) && i < list@.len(),
            None => custom_at(customs_view(list@), name@) is None,
        },
{
    let chars = text::to_chars(name);
    let bare = if chars.len() > 0 && chars[0] == '/' {
        text::slice_text(&chars, 1, chars.len())
    } else {
        text::copy_text(name)
    };
    assert(bare@ =~= without_first(name@, '/'));
    let want = text::lower_text(bare.as_str());
    let ghost all = customs_view(list@);
    let mut i: usize = 0;
    while i < list.len()
        invariant
            all == customs_view(list@),
            want@ == text::lower(without_first(name@, '/')),
            i <= list@.len(),
            custom_from(all, want@, 0) == custom_from(all, want@, i as int),
        decreases list.len() - i,
    {
        assert(all[i as int] == list@[i as int]@);
        if text::same_text(list[i].name.as_str(), want.as_str()) {
            return Some(i);
        }
        i = i + 1;
    }
    None
}

/// Whether a text is a slash and the name of an added command.
pub fn is_custom_command(list: &Vec<CustomCommand>, value: &str) -> (r: bool)
    ensures
        r == is_custom(customs_view(list@), value@),
{
    let want = text::lower_text(value);
    let ghost all = customs_view(list@);
    let mut i: usize = 0;
    while i < list.len()
        invariant
            all == customs_view(list@),
            want@ == text::lower(value@),
            i <= list@.len(),
            forall|j: int| 0 <= j < i ==> "/"@ + (#[trigger] all[j]).name != want@,
        decreases list.len() - i,
    {
        assert(all[i as int] == list@[i as int]@);
        let slashed = text::cat2("/", list[i].name.as_str());
        if text::same_text(slashed.as_str(), want.as_str()) {
            assert("/"@ + all[i as int].name == text::lower(value@));
            return true;
        }
        i = i + 1;
    }
    false
}

// ---------------------------------------------------------------------------
// Order
// ---------------------------------------------------------------------------

/// The first `n` texts of a list without one.
pub open spec fn texts_without(list: Seq<Seq<char>>, s: Seq<char>, n: int) -> Seq<Seq<char>>
    decreases n,
{
    if n <= 0 {
        Seq::empty()
    } else if list[n - 1] == s {
        texts_without(list, s, n - 1)
    } else {
        texts_without(list, s, n - 1).push(list[n - 1])
    }
}

/// The recent commands after a name was used. A command stands first, once, and eight
/// are kept; a name that is no command leaves them alone.
pub open spec fn recents_noted(list: Seq<Seq<char>>, name: Seq<char>, known: bool) -> Seq<
    Seq<char>,
> {
    if known {
        recents_with(list, name)
    } else {
        list
    }
}

/// The recent commands after one more: it stands first, once, and eight are kept.
pub open spec fn recents_with(list: Seq<Seq<char>>, name: Seq<char>) -> Seq<Seq<char>> {
    let all = seq![text::lower(name)] + texts_without(list, text::lower(name), list.len() as int);
    if all.len() <= MAX_RECENT_COMMANDS {
        all
    } else {
        all.take(MAX_RECENT_COMMANDS as int)
    }
}

/// Puts a command before all other recent ones. A name that is not `known` as one is
/// never kept.
pub fn note_recent(list: &mut Vec<String>, name: &str, known: bool)
    ensures
        text::texts(final(list)@) == recents_noted(text::texts(old(list)@), name@, known),
{
    if !known {
        return;
    }
    let ghost all = text::texts(list@);
    let small = text::lower_text(name);
    let ghost first = small@;
    let mut next: Vec<String> = Vec::new();
    next.push(small);
    assert(text::texts(next@) =~= seq![first] + texts_without(all, first, 0));
    for i in 0..list.len()
        invariant
            all == text::texts(list@),
            next@.len() > 0,
            next@[0]@ == first,
            text::texts(next@) == seq![first] + texts_without(all, first, i as int),
    {
        assert(all[i as int] == list@[i as int]@);
        if !text::same_text(list[i].as_str(), next[0].as_str()) {
            let one = text::copy_text(list[i].as_str());
            proof {
                text::texts_push(next@, one);
            }
            next.push(one);
            assert(text::texts(next@) =~= seq![first] + texts_without(all, first, i + 1));
        }
    }
    let ghost full = text::texts(next@);
    next.truncate(MAX_RECENT_COMMANDS);
    assert(text::texts(next@) =~= recents_with(all, name@));
    *list = next;
}

/// How recently a command was used: the lower, the more recently; the number of recent
/// commands stands for never.
pub open spec fn recency(recent: Seq<Seq<char>>, name: Seq<char>) -> int {
    match settings::place_of(recent, text::lower(name)) {
        Some(k) => k,
        None => recent.len() as int,
    }
}

/// The rows of the first `n` whose command was used as recently as `tier` says.
pub open spec fn tier_rows(list: Seq<ItemView>, recent: Seq<Seq<char>>, tier: int, n: int) -> Seq<
    ItemView,
>
    decreases n,
{
    if n <= 0 {
        Seq::empty()
    } else if recency(recent, list[n - 1].name) == tier {
        tier_rows(list, recent, tier, n - 1).push(list[n - 1])
    } else {
        tier_rows(list, recent, tier, n - 1)
    }
}

/// Rows by how recently their commands were used, the latest first; among equals they
/// keep their order.
pub open spec fn by_recency(list: Seq<ItemView>, recent: Seq<Seq<char>>, tiers: int) -> Seq<ItemView>
    decreases tiers,
{
    if tiers <= 0 {
        Seq::empty()
    } else {
        by_recency(list, recent, tiers - 1) + tier_rows(
            list,
            recent,
            tiers - 1,
            list.len() as int,
        )
    }
}

/// What a row says about the state that its command changes.
pub open spec fn badge(name: Seq<char>, settings: SettingsView, mode: Mode) -> Option<Seq<char>> {
    if name == "/theme"@ {
        Some("now "@ + settings.theme)
    } else if name == "/model"@ {
        Some("now "@ + settings.model)
    } else if name == "/quality"@ {
        Some("now "@ + or_auto(settings.quality))
    } else if name == "/profile"@ {
        Some("now "@ + or_auto(settings.profile))
    } else if name == "/reasoning"@ {
        Some("now "@ + settings.reasoning)
    } else if (name == "/plan"@ && mode == Mode::Plan) || (name == "/build"@ && mode
        == Mode::Build) || (name == "/ask"@ && mode == Mode::Ask) {
        Some("active"@)
    } else {
        None
    }
}

/// A choice, or `auto` where none was made.
pub open spec fn or_auto(o: Option<Seq<char>>) -> Seq<char> {
    match o {
        Some(s) => s,
        None => "auto"@,
    }
}

/// A choice, or `auto` where none was made.
pub fn choice_or_auto(o: &Option<String>) -> (r: String)
    ensures
        r@ == or_auto(composer::opt_text(*o)),
{
    match o {
        Some(s) => text::copy_text(s.as_str()),
        None => text::copy_text("auto"),
    }
}

/// A row with what it says about the state that its command changes.
pub open spec fn decorated(item: ItemView, settings: SettingsView, mode: Mode) -> ItemView {
    match badge(item.name, settings, mode) {
        Some(text) => ItemView { description: item.description + " · "@ + text, ..item },
        None => item,
    }
}

/// The list of commands: by how recently they were used, with what they say about the
/// state.
pub open spec fn palette_rows(
    list: Seq<ItemView>,
    recent: Seq<Seq<char>>,
    settings: SettingsView,
    mode: Mode,
) -> Seq<ItemView> {
    by_recency(list, recent, recent.len() as int + 1).map_values(
        |i: ItemView| decorated(i, settings, mode),
    )
}

impl PaletteItem {
    /// A copy of the row.
    pub fn copy(&self) -> (r: PaletteItem)
        ensures
            r@ == self@,
    {
        PaletteItem {
            name: text::copy_text(self.name.as_str()),
            description: text::copy_text(self.description.as_str()),
            custom: self.custom,
        }
    }
}

/// Adds to a row what it says about the state that its command changes.
pub fn decorate_palette_item(item: &PaletteItem, settings: &Settings, mode: Mode) -> (r: PaletteItem)
    ensures
        r@ == decorated(item@, settings@, mode),
{
    let name = item.name.as_str();
    let text = if text::same_text(name, "/theme") {
        Some(text::cat2("now ", settings.theme.as_str()))
    } else if text::same_text(name, "/model") {
        Some(text::cat2("now ", settings.model.as_str()))
    } else if text::same_text(name, "/quality") {
        let value = choice_or_auto(&settings.quality);
        Some(text::cat2("now ", value.as_str()))
    } else if text::same_text(name, "/profile") {
        let value = choice_or_auto(&settings.profile);
        Some(text::cat2("now ", value.as_str()))
    } else if text::same_text(name, "/reasoning") {
        Some(text::cat2("now ", settings.reasoning_effort.as_str()))
    } else if (text::same_text(name, "/plan") && mode == Mode::Plan) || (text::same_text(name, "/build") && mode
        == Mode::Build) || (text::same_text(name, "/ask") && mode == Mode::Ask) {
        Some(text::copy_text("active"))
    } else {
        None
    };
    let mut r = item.copy();
    if let Some(t) = text {
        r.description = text::cat3(item.description.as_str(), " · ", t.as_str());
    }
    r
}

fn push_tier(
    out: &mut Vec<PaletteItem>,
    found: &Vec<PaletteItem>,
    recent: &Vec<String>,
    settings: &Settings,
    mode: Mode,
    tier: usize,
)
    requires
        tier <= recent@.len(),
    ensures
        items_view(final(out)@) == items_view(old(out)@) + tier_rows(
            items_view(found@),
            text::texts(recent@),
            tier as int,
            found@.len() as int,
        ).map_values(|i: ItemView| decorated(i, settings@, mode)),
{
    let ghost list = items_view(found@);
    let ghost names = text::texts(recent@);
    let ghost before = items_view(out@);
    let ghost f = |i: ItemView| decorated(i, settings@, mode);
    assert(before + tier_rows(list, names, tier as int, 0).map_values(f) =~= before);
    for i in 0..found.len()
        invariant
            list == items_view(found@),
            names == text::texts(recent@),
            f == (|i: ItemView| decorated(i, settings@, mode)),
            items_view(out@) == before + tier_rows(list, names, tier as int, i as int).map_values(
                f,
            ),
    {
        assert(list[i as int] == found@[i as int]@);
        let small = text::lower_text(found[i].name.as_str());
        let at: usize = match settings::position_of(recent, small.as_str()) {
            Some(k) => k,
            None => recent.len(),
        };
        assert(at == recency(names, list[i as int].name));
        if at == tier {
            let ghost sofar = out@;
            let row = decorate_palette_item(&found[i], settings, mode);
            out.push(row);
            assert(items_view(out@) =~= items_view(sofar).push(row@));
            assert(tier_rows(list, names, tier as int, i + 1).map_values(f) =~= tier_rows(
                list,
                names,
                tier as int,
                i as int,
            ).map_values(f).push(row@));
            assert(items_view(out@) =~= before + tier_rows(
                list,
                names,
                tier as int,
                i + 1,
            ).map_values(f));
        }
    }
}

/// The list of commands for the rows that fit the draft.
pub fn palette_items(
    found: &Vec<PaletteItem>,
    recent: &Vec<String>,
    settings: &Settings,
    mode: Mode,
) -> (r: Vec<PaletteItem>)
    ensures
        items_view(r@) == palette_rows(items_view(found@), text::texts(recent@), settings@, mode),
{
    let ghost list = items_view(found@);
    let ghost names = text::texts(recent@);
    let ghost f = |i: ItemView| decorated(i, settings@, mode);
    let mut out: Vec<PaletteItem> = Vec::new();
    assert(items_view(out@) =~= by_recency(list, names, 0).map_values(f));
    for tier in 0..recent.len()
        invariant
            list == items_view(found@),
            names == text::texts(recent@),
            f == (|i: ItemView| decorated(i, settings@, mode)),
            items_view(out@) == by_recency(list, names, tier as int).map_values(f),
    {
        push_tier(&mut out, found, recent, settings, mode, tier);
        assert(items_view(out@) =~= by_recency(list, names, tier + 1).map_values(f));
    }
    push_tier(&mut out, found, recent, settings, mode, recent.len());
    assert(items_view(out@) =~= by_recency(list, names, names.len() as int + 1).map_values(f));
    out
}

// ---------------------------------------------------------------------------
// Laws
// ---------------------------------------------------------------------------

/// A command that was used just now stands first among the recent ones, and no more
/// than eight are kept.
pub proof fn latest_command_is_first(list: Seq<Seq<char>>, name: Seq<char>)
    ensures
        recents_with(list, name)[0] == text::lower(name),
        recents_with(list, name).len() <= MAX_RECENT_COMMANDS,
        recency(recents_with(list, name), name) == 0,
{
    let next = recents_with(list, name);
    assert(next[0] == text::lower(name));
    assert(settings::place_from(next, text::lower(name), 0) == Some(0int));
}

/// A name that is no command, such as a misspelt one, is never kept.
pub proof fn unknown_names_are_not_kept(list: Seq<Seq<char>>, name: Seq<char>, other: Seq<char>)
    ensures
        recents_noted(list, name, false) == list,
        recents_noted(recents_noted(list, name, true), other, false) == recents_with(list, name),
{
}

/// A row whose command was used just now stands first in the list of commands, if it
/// fits the query at all.
pub proof fn latest_row_is_first(
    list: Seq<ItemView>,
    recent: Seq<Seq<char>>,
    settings: SettingsView,
    mode: Mode,
    i: int,
)
    requires
        0 <= i < list.len(),
        recency(recent, list[i].name) == 0,
    ensures
        palette_rows(list, recent, settings, mode).len() > 0,
        recency(recent, palette_rows(list, recent, settings, mode)[0].name) == 0,
{
    let top = tier_rows(list, recent, 0, list.len() as int);
    tier_has(list, recent, 0, list.len() as int, i);
    tier_only(list, recent, 0, list.len() as int);
    first_tier(list, recent, recent.len() as int + 1);
    let all = by_recency(list, recent, recent.len() as int + 1);
    assert(all[0] == top[0]);
    assert(palette_rows(list, recent, settings, mode)[0] == decorated(all[0], settings, mode));
}

proof fn tier_has(list: Seq<ItemView>, recent: Seq<Seq<char>>, tier: int, n: int, i: int)
    requires
        0 <= i < n <= list.len(),
        recency(recent, list[i].name) == tier,
    ensures
        tier_rows(list, recent, tier, n).len() > 0,
    decreases n,
{
    if i < n - 1 {
        tier_has(list, recent, tier, n - 1, i);
    }
}

proof fn tier_only(list: Seq<ItemView>, recent: Seq<Seq<char>>, tier: int, n: int)
    ensures
        forall|k: int|
            0 <= k < tier_rows(list, recent, tier, n).len() ==> recency(
                recent,
                (#[trigger] tier_rows(list, recent, tier, n)[k]).name,
            ) == tier,
    decreases n,
{
    if n > 0 {
        tier_only(list, recent, tier, n - 1);
        let rows = tier_rows(list, recent, tier, n);
        let before = tier_rows(list, recent, tier, n - 1);
        assert forall|k: int| 0 <= k < rows.len() implies recency(
            recent,
            (#[trigger] rows[k]).name,
        ) == tier by {
            if k < before.len() {
                assert(rows[k] == before[k]);
            }
        }
    }
}

proof fn first_tier(list: Seq<ItemView>, recent: Seq<Seq<char>>, tiers: int)
    requires
        tiers >= 1,
    ensures
        by_recency(list, recent, tiers).len() >= tier_rows(
            list,
            recent,
            0,
            list.len() as int,
        ).len(),
        forall|k: int|
            0 <= k < tier_rows(list, recent, 0, list.len() as int).len() ==> #[trigger] by_recency(
                list,
                recent,
                tiers,
            )[k] == tier_rows(list, recent, 0, list.len() as int)[k],
    decreases tiers,
{
    if tiers == 1 {
        assert(by_recency(list, recent, 0) + tier_rows(list, recent, 0, list.len() as int)
            =~= tier_rows(list, recent, 0, list.len() as int));
    } else {
        first_tier(list, recent, tiers - 1);
    }
}

} // verus!
