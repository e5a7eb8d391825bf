//! What the panes of a window share: the overlay, the list of commands, the choices
//! that can be made, and switches of the whole window.

use crate::composer;
use crate::events::{ModelView, Overlay};
use crate::events;
use crate::live::{Live, LiveView};
use crate::live;
use crate::palette::{CustomCommand, CustomView};
use crate::palette;
use crate::pane::{Pane, PaneView};
use crate::settings::Settings;
use crate::text;
use vstd::prelude::*;

verus! {

/// A provider that can be connected to.
#[derive(Debug, Clone, PartialEq, Eq)]
pub struct Preset {
    pub id: String,
    pub label: String,
    pub description: String,
    pub base_url: Option<String>,
    /// The user types an address for the provider.
    pub asks_for_url: bool,
    pub api_key_required: bool,
    /// The variable that holds the key of the provider.
    pub api_key_env: Option<String>,
    /// That variable is there and holds more than white space.
    pub key_at_hand: bool,
}

/// What a provider holds.
#[verifier::ext_equal]
pub struct PresetView {
    pub id: Seq<char>,
    pub label: Seq<char>,
    pub description: Seq<char>,
    pub base_url: Option<Seq<char>>,
    pub asks_for_url: bool,
    pub key_required: bool,
    pub key_env: Option<Seq<char>>,
    pub key_at_hand: bool,
}

impl View for Preset {
    type V = PresetView;

    open spec fn view(&self) -> PresetView {
        PresetView {
            id: self.id@,
            label: self.label@,
            description: self.description@,
            base_url: composer::opt_text(self.base_url),
            asks_for_url: self.asks_for_url,
            key_required: self.api_key_required,
            key_env: composer::opt_text(self.api_key_env),
            key_at_hand: self.key_at_hand,
        }
    }
}

/// What the providers of a list hold.
pub open spec fn presets_view(list: Seq<Preset>) -> Seq<PresetView> {
    list.map_values(|p: Preset| p@)
}

/// The first provider with an id, at or after `i`.
pub open spec fn preset_from(list: Seq<PresetView>, id: Seq<char>, i: int) -> Option<int>
    decreases list.len() - i,
{
    if i < 0 || i >= list.len() {
        None
    } else if list[i].id == id {
        Some(i)
    } else {
        preset_from(list, id, i + 1)
    }
}

/// The first provider with an id.
pub fn find_preset(list: &Vec<Preset>, id: &str) -> (r: Option<usize>)
    ensures
        match r {
            Some(i) => preset_from(presets_view(list@), id@, 0) == Some(i as int) && i
                < list@.len(),
            None => preset_from(presets_view(list@), id@, 0) is None,
        },
{
    let ghost all = presets_view(list@);
    let mut i: usize = 0;
    while i < list.len()
        invariant
            all == presets_view(list@),
            i <= list@.len(),
            preset_from(all, id@, 0) == preset_from(all, id@, i as int),
        decreases list.len() - i,
    {
        assert(all[i as int] == list@[i as int]@);
        if text::same_text(list[i].id.as_str(), id) {
            return Some(i);
        }
        i = i + 1;
    }
    None
}

/// How a provider is listed.
pub open spec fn preset_row(p: PresetView) -> Seq<char> {
    p.label + "  ·  "@ + p.description + "  ["@ + p.id + "]"@
}

/// How a provider is listed.
pub fn provider_label(preset: &Preset) -> (r: String)
    ensures
        r@ == preset_row(preset@),
{
    let head = text::cat3(preset.label.as_str(), "  ·  ", preset.description.as_str());
    text::cat4(head.as_str(), "  [", preset.id.as_str(), "]")
}

/// What an overlay holds.
#[verifier::ext_equal]
pub enum OverlayView {
    Closed,
    Providers { selected: int, scroll: int },
    Models { items: Seq<ModelView>, selected: int, scroll: int, active: Seq<char> },
    ApiKey { provider: Seq<char> },
    CustomUrl { provider: Seq<char> },
    Theme { selected: int, original: Seq<char> },
    Settings { selected: int },
    Approval,
}

impl View for Overlay {
    type V = OverlayView;

    open spec fn view(&self) -> OverlayView {
        match *self {
            Overlay::Closed => OverlayView::Closed,
            Overlay::Providers { selected, scroll } => OverlayView::Providers {
                selected: selected as int,
                scroll: scroll as int,
            },
            Overlay::Models { items, selected, scroll, active } => OverlayView::Models {
                items: events::models_view(items@),
                selected: selected as int,
                scroll: scroll as int,
                active: active@,
            },
            Overlay::ApiKey { provider } => OverlayView::ApiKey { provider: provider@ },
            Overlay::CustomUrl { provider } => OverlayView::CustomUrl { provider: provider@ },
            Overlay::Theme { selected, original } => OverlayView::Theme {
                selected: selected as int,
                original: original@,
            },
            Overlay::Settings { selected } => OverlayView::Settings { selected: selected as int },
            Overlay::Approval => OverlayView::Approval,
        }
    }
}

/// What the panes of a window share.
pub struct Desk {
    pub overlay: Overlay,
    pub palette_selected: usize,
    pub palette_scroll: usize,
    /// Commands that were used, the latest first.
    pub recent_commands: Vec<String>,
    pub custom_commands: Vec<CustomCommand>,
    /// The names of the models that were last listed.
    pub known_models: Vec<String>,
    pub quit: bool,
    /// The draft is to be edited in an outside editor.
    pub editor_requested: bool,
    pub attention_bell: bool,
    pub mouse_enabled: bool,
    pub themes: Vec<String>,
    pub presets: Vec<Preset>,
    pub live: Live,
}

/// What a desk holds.
pub struct DeskView {
    pub overlay: OverlayView,
    pub palette_selected: int,
    pub palette_scroll: int,
    pub recent: Seq<Seq<char>>,
    pub customs: Seq<CustomView>,
    pub known_models: Seq<Seq<char>>,
    pub quit: bool,
    pub editor: bool,
    pub bell: bool,
    pub mouse: bool,
    pub themes: Seq<Seq<char>>,
    pub presets: Seq<PresetView>,
    pub live: LiveView,
}

impl View for Desk {
    type V = DeskView;

    open spec fn view(&self) -> DeskView {
        DeskView {
            overlay: self.overlay@,
            palette_selected: self.palette_selected as int,
            palette_scroll: self.palette_scroll as int,
            recent: text::texts(self.recent_commands@),
            customs: palette::customs_view(self.custom_commands@),
            known_models: text::texts(self.known_models@),
            quit: self.quit,
            editor: self.editor_requested,
            bell: self.attention_bell,
            mouse: self.mouse_enabled,
            themes: text::texts(self.themes@),
            presets: presets_view(self.presets@),
            live: self.live@,
        }
    }
}

impl Desk {
    /// There are themes and providers to choose from, and what an overlay points at exists.
    pub open spec fn wf(self) -> bool {
        &&& self.themes@.len() > 0
        &&& self.presets@.len() > 0
        &&& self.live.wf()
        &&& self.overlay matches Overlay::Providers { selected, .. } ==> selected
            < self.presets@.len()
        &&& self.overlay matches Overlay::Theme { selected, .. } ==> selected < self.themes@.len()
        &&& self.overlay matches Overlay::Settings { selected } ==> selected < 7
    }

    /// A desk with nothing on it.
    pub fn new(themes: Vec<String>, presets: Vec<Preset>, bell: bool, mouse: bool) -> (r: Desk)
        requires
            themes@.len() > 0,
            presets@.len() > 0,
        ensures
            r.wf(),
            r@ == (DeskView {
                overlay: OverlayView::Closed,
                palette_selected: 0,
                palette_scroll: 0,
                recent: Seq::empty(),
                customs: Seq::empty(),
                known_models: Seq::empty(),
                quit: false,
                editor: false,
                bell,
                mouse,
                themes: text::texts(themes@),
                presets: presets_view(presets@),
                live: live::no_values(),
            }),
    {
        let r = Desk {
            overlay: Overlay::Closed,
            palette_selected: 0,
            palette_scroll: 0,
            recent_commands: Vec::new(),
            custom_commands: Vec::new(),
            known_models: Vec::new(),
            quit: false,
            editor_requested: false,
            attention_bell: bell,
            mouse_enabled: mouse,
            themes,
            presets,
            live: Live::new(),
        };
        assert(r@.recent =~= Seq::empty());
        assert(r@.customs =~= Seq::empty());
        assert(r@.known_models =~= Seq::empty());
        r
    }

    /// Whether nothing lies over the screen.
    pub fn overlay_closed(&self) -> (r: bool)
        ensures
            r == (self@.overlay is Closed),
    {
        matches!(self.overlay, Overlay::Closed)
    }

    /// Takes away what lies over the screen.
    pub fn close_overlay(&mut self)
        ensures
            final(self)@ == (DeskView { overlay: OverlayView::Closed, ..old(self)@ }),
            old(self).wf() ==> final(self).wf(),
    {
        self.overlay = Overlay::Closed;
    }
}

/// A pane and what it shares with the others.
pub struct SceneView {
    pub pane: PaneView,
    pub desk: DeskView,
}

/// A pane and what it shares with the others.
pub open spec fn scene(pane: Pane, desk: Desk) -> SceneView {
    SceneView { pane: pane@, desk: desk@ }
}

impl SceneView {
    /// The pane changed.
    pub open spec fn with(self, pane: PaneView) -> SceneView {
        SceneView { pane, ..self }
    }

    /// Something laid over the screen.
    pub open spec fn covered(self, overlay: OverlayView) -> SceneView {
        SceneView { desk: DeskView { overlay, ..self.desk }, ..self }
    }

    /// Nothing lies over the screen any more.
    pub open spec fn uncovered(self) -> SceneView {
        self.covered(OverlayView::Closed)
    }
}

} // verus!
