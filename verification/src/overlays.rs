//! What lies over the screen: choosing providers, models, themes and settings, typing
//! keys and addresses, and deciding on tool calls.

use crate::approvals::ApprovalVerdict;
use crate::composer::ComposerView;
use crate::composer;
use crate::desk::{Desk, OverlayView, SceneView};
use crate::desk;
use crate::effects::{Effect, EffectView};
use crate::events::{ModelInfo, ModelView, Overlay};
use crate::events;
use crate::keys::{Key, KeyCode};
use crate::paint;
use crate::pane::{Pane, PaneView};
use crate::panels;
use crate::scan;
use crate::settings::SettingsView;
use crate::text;
use vstd::prelude::*;

verus! {

/// A number one less, but not below zero.
pub open spec fn less_by(n: int, k: int) -> int {
    if n >= k {
        n - k
    } else {
        0
    }
}

/// A number more, but not past the last of `count`.
pub open spec fn more_by(n: int, k: int, count: int) -> int {
    paint::least(n + k, if count > 0 {
        count - 1
    } else {
        0
    })
}

pub(crate) fn step_less(n: usize, k: usize) -> (r: usize)
    ensures
        r == less_by(n as int, k as int),
{
    if n >= k {
        n - k
    } else {
        0
    }
}

pub(crate) fn step_more(n: usize, k: usize, count: usize) -> (r: usize)
    ensures
        r == more_by(n as int, k as int, count as int),
{
    let last: usize = if count > 0 {
        count - 1
    } else {
        0
    };
    if n < last && k <= last - n {
        n + k
    } else {
        last
    }
}

/// A selection after a key that moves it, in steps of one or `page`.
pub open spec fn selection_moved(code: KeyCode, selected: int, page: int, count: int) -> int {
    match code {
        KeyCode::Up => less_by(selected, 1),
        KeyCode::Down => more_by(selected, 1, count),
        KeyCode::PageUp => less_by(selected, page),
        KeyCode::PageDown => more_by(selected, page, count),
        _ => selected,
    }
}

fn move_selection(code: KeyCode, selected: usize, page: usize, count: usize) -> (r: usize)
    ensures
        r == selection_moved(code, selected as int, page as int, count as int),
{
    match code {
        KeyCode::Up => step_less(selected, 1),
        KeyCode::Down => step_more(selected, 1, count),
        KeyCode::PageUp => step_less(selected, page),
        KeyCode::PageDown => step_more(selected, page, count),
        _ => selected,
    }
}

impl PaneView {
    /// The draft edited; a proposal to mend a shell line is dropped.
    pub open spec fn edited(self, composer: ComposerView) -> PaneView {
        PaneView { composer, correction: None, ..self }
    }
}

impl SceneView {
    /// The user asked for the address of a provider.
    pub open spec fn url_asked(self, provider: Seq<char>) -> SceneView {
        let text = match desk::preset_from(self.desk.presets, provider, 0) {
            Some(i) => if self.desk.presets[i].base_url is Some {
                "Enter "@ + self.desk.presets[i].label
                    + " base URL; Enter uses the local default"@
            } else {
                "Enter an OpenAI-compatible http(s) base URL"@
            },
            None => "Enter an OpenAI-compatible http(s) base URL"@,
        };
        self.with(self.pane.undrafted().said(text)).covered(OverlayView::CustomUrl { provider })
    }

    /// A provider to be tried, with what was typed for it.
    pub open spec fn provider_opened(self, id: Seq<char>, entered: Option<Seq<char>>) -> SceneView {
        self.with(self.pane.asking(EffectView::OpenProvider { id, entered }))
    }

    /// The provider of row `selected` chosen.
    pub open spec fn provider_picked(self, selected: int) -> SceneView {
        let preset = self.desk.presets[selected];
        if preset.asks_for_url {
            self.url_asked(preset.id)
        } else if preset.key_required && !preset.key_at_hand {
            self.with(self.pane.undrafted()).covered(OverlayView::ApiKey { provider: preset.id })
        } else {
            self.uncovered().provider_opened(preset.id, None)
        }
    }

    /// A key over the list of providers.
    #[verifier::opaque]
    pub open spec fn providers_key(self, key: Key, selected: int, scroll: int) -> SceneView {
        match key.code {
            KeyCode::Enter => self.provider_picked(selected),
            KeyCode::Esc => self.uncovered(),
            _ => {
                let count = self.desk.presets.len() as int;
                let next = selection_moved(key.code, selected, 6, count);
                self.covered(
                    OverlayView::Providers {
                        selected: next,
                        scroll: panels::scroll_for(next, scroll, 8, count),
                    },
                )
            },
        }
    }

    /// A key over the list of models.
    #[verifier::opaque]
    pub open spec fn models_key(
        self,
        key: Key,
        items: Seq<ModelView>,
        selected: int,
        scroll: int,
        active: Seq<char>,
    ) -> SceneView {
        match key.code {
            KeyCode::Enter => if selected < items.len() {
                self.uncovered().with(self.pane.model_chosen(items[selected].id))
            } else {
                self.uncovered()
            },
            KeyCode::Esc => self.uncovered(),
            _ => {
                let count = items.len() as int;
                let next = selection_moved(key.code, selected, 8, count);
                self.covered(
                    OverlayView::Models {
                        items,
                        selected: next,
                        scroll: panels::scroll_for(next, scroll, 10, count),
                        active,
                    },
                )
            },
        }
    }

    /// A key while the key of a provider is typed.
    #[verifier::opaque]
    pub open spec fn api_key_key(self, key: Key, provider: Seq<char>) -> SceneView {
        match key.code {
            KeyCode::Enter => {
                let value = scan::trim(self.pane.composer.text);
                let s = self.with(self.pane.undrafted()).uncovered();
                if value.len() == 0 {
                    s.with(s.pane.failed("API key was not entered"@))
                } else {
                    s.provider_opened(provider, Some(value))
                }
            },
            KeyCode::Char(c) => self.with(
                self.pane.edited(self.pane.composer.inserted(seq![c])),
            ),
            KeyCode::Backspace => self.with(self.pane.edited(self.pane.composer.backspaced())),
            _ => self,
        }
    }

    /// A key while the address of a provider is typed.
    #[verifier::opaque]
    pub open spec fn url_key(self, key: Key, provider: Seq<char>) -> SceneView {
        let v = self.pane;
        match key.code {
            KeyCode::Enter => {
                let url = if scan::blank(v.composer.text) {
                    match desk::preset_from(self.desk.presets, provider, 0) {
                        Some(i) => match self.desk.presets[i].base_url {
                            Some(url) => url,
                            None => Seq::empty(),
                        },
                        None => Seq::empty(),
                    }
                } else {
                    scan::trim(v.composer.text)
                };
                self.with(v.undrafted().asking(EffectView::CheckUrl { provider, url })).uncovered()
            },
            KeyCode::Char(c) => if key.ctrl && (c == 'a' || c == 'A') {
                self.with(v.undrafted())
            } else {
                self.with(v.edited(v.composer.inserted(seq![c])))
            },
            KeyCode::Backspace => self.with(v.edited(v.composer.backspaced())),
            KeyCode::Delete => self.with(v.edited(v.composer.deleted())),
            KeyCode::Left => self.with(v.composed(v.composer.stepped_left())),
            KeyCode::Right => self.with(v.composed(v.composer.stepped_right())),
            KeyCode::Home => self.with(v.composed(v.composer.moved(0))),
            KeyCode::End => self.with(v.composed(v.composer.moved(v.composer.text.len() as int))),
            _ => self,
        }
    }

    /// The theme of row `selected` shown before it is chosen.
    pub open spec fn theme_previewed(self, selected: int, original: Seq<char>) -> SceneView {
        self.with(
            self.pane.set_up(
                SettingsView { theme: self.desk.themes[selected], ..self.pane.settings },
            ),
        ).covered(OverlayView::Theme { selected, original })
    }

    /// A key over the list of themes.
    #[verifier::opaque]
    pub open spec fn theme_key(self, key: Key, selected: int, original: Seq<char>) -> SceneView {
        let v = self.pane;
        let count = self.desk.themes.len() as int;
        match key.code {
            KeyCode::Up | KeyCode::Down => self.theme_previewed(
                selection_moved(key.code, selected, 1, count),
                original,
            ),
            KeyCode::Enter => self.uncovered().with(v.theme_chosen(self.desk.themes[selected])),
            KeyCode::Esc => self.uncovered().with(
                v.set_up(SettingsView { theme: original, ..v.settings }),
            ),
            _ => self,
        }
    }

    /// A key over the settings list.
    #[verifier::opaque]
    pub open spec fn settings_key(self, key: Key, selected: int) -> SceneView {
        match key.code {
            KeyCode::Up => self.covered(OverlayView::Settings { selected: less_by(selected, 1) }),
            KeyCode::Down => self.covered(
                OverlayView::Settings { selected: more_by(selected, 1, 7) },
            ),
            KeyCode::Left => self.setting_cycled(selected, false),
            KeyCode::Right | KeyCode::Enter => self.setting_cycled(selected, true),
            KeyCode::Esc => self.uncovered(),
            _ => self,
        }
    }

    /// A key over a card: anything but a decision keeps the card.
    #[verifier::opaque]
    pub open spec fn approval_key(self, key: Key) -> SceneView {
        match key.code {
            KeyCode::Char(c) => if c == 'y' || c == 'Y' {
                self.uncovered().resolved(ApprovalVerdict::Once)
            } else if c == 'a' || c == 'A' {
                self.uncovered().resolved(ApprovalVerdict::Always)
            } else if c == 'n' || c == 'N' {
                self.uncovered().resolved(ApprovalVerdict::Deny)
            } else {
                self
            },
            _ => self,
        }
    }

    /// A key over what lies on the screen.
    pub open spec fn overlay_key(self, key: Key) -> SceneView {
        match self.desk.overlay {
            OverlayView::Closed => self,
            OverlayView::Providers { selected, scroll } => self.providers_key(
                key,
                selected,
                scroll,
            ),
            OverlayView::Models { items, selected, scroll, active } => self.models_key(
                key,
                items,
                selected,
                scroll,
                active,
            ),
            OverlayView::ApiKey { provider } => self.api_key_key(key, provider),
            OverlayView::CustomUrl { provider } => self.url_key(key, provider),
            OverlayView::Theme { selected, original } => self.theme_key(key, selected, original),
            OverlayView::Settings { selected } => self.settings_key(key, selected),
            OverlayView::Approval => self.approval_key(key),
        }
    }

    /// An address that was typed turned out to be one, or not.
    pub open spec fn url_checked(self, provider: Seq<char>, url: Seq<char>, valid: bool) -> SceneView {
        if valid {
            self.provider_opened(provider, Some(url))
        } else {
            self.with(
                self.pane.said("Enter an http:// or https:// URL without credentials"@),
            ).covered(OverlayView::CustomUrl { provider })
        }
    }

    /// A connection to a provider begun, or refused at once.
    pub open spec fn provider_begun(self, id: Seq<char>, error: Option<Seq<char>>) -> SceneView {
        let label = match desk::preset_from(self.desk.presets, id, 0) {
            Some(i) => self.desk.presets[i].label,
            None => id,
        };
        self.with(
            match error {
                None => self.pane.said("Checking "@ + label + " and loading models…"@),
                Some(e) => self.pane.failed("connection failed: "@ + e),
            },
        )
    }

    /// A provider tried: what is missing is asked for, else it is connected to.
    /// `url_valid` says that what was typed is an address, `key_known` that the key of
    /// the provider is known without typing it.
    pub open spec fn provider_tried(
        self,
        id: Seq<char>,
        entered: Option<Seq<char>>,
        url_valid: bool,
        key_known: bool,
    ) -> SceneView {
        match desk::preset_from(self.desk.presets, id, 0) {
            None => self.with(self.pane.failed("Unknown provider '"@ + id + "'"@)),
            Some(i) => {
                let preset = self.desk.presets[i];
                let url = if url_valid {
                    entered
                } else {
                    None
                };
                if preset.key_required && entered is None && !key_known {
                    self.with(
                        self.pane.said(
                            preset.label + " requires "@ + (match preset.key_env {
                                Some(name) => name,
                                None => "an API key"@,
                            }) + " (the key stays in memory)"@,
                        ),
                    ).covered(OverlayView::ApiKey { provider: preset.id })
                } else if preset.id == "custom"@ && url is None {
                    self.with(self.pane.said("Custom connections require a valid URL"@))
                } else {
                    self.with(
                        self.pane.asking(
                            EffectView::Connect {
                                provider: preset.id,
                                address: url,
                                key: if preset.id != "custom"@ && url is None {
                                    entered
                                } else {
                                    None
                                },
                            },
                        ),
                    )
                }
            },
        }
    }
}

impl Pane {
    /// Asks for the address of a provider.
    #[verifier::spinoff_prover]
    pub fn open_url_overlay(&mut self, desk: &mut Desk, provider: String)
        requires
            old(self).wf(),
            old(desk).wf(),
        ensures
            final(self).wf(),
            final(desk).wf(),
            desk::scene(*final(self), *final(desk)) == desk::scene(*old(self), *old(desk)).url_asked(
                provider@,
            ),
    {
        self.undraft();
        let text = match desk::find_preset(&desk.presets, provider.as_str()) {
            Some(i) => {
                assert(desk@.presets[i as int] == desk.presets@[i as int]@);
                if desk.presets[i].base_url.is_some() {
                    text::cat3(
                        "Enter ",
                        desk.presets[i].label.as_str(),
                        " base URL; Enter uses the local default",
                    )
                } else {
                    text::copy_text("Enter an OpenAI-compatible http(s) base URL")
                }
            },
            None => text::copy_text("Enter an OpenAI-compatible http(s) base URL"),
        };
        self.set_status(text);
        desk.overlay = Overlay::CustomUrl { provider };
    }

    pub(crate) fn open_provider(&mut self, id: String, entered: Option<String>)
        ensures
            final(self)@ == old(self)@.asking(
                EffectView::OpenProvider { id: id@, entered: composer::opt_text(entered) },
            ),
            old(self).wf() ==> final(self).wf(),
    {
        self.ask(Effect::OpenProvider { id, entered });
    }

    fn pick_provider(&mut self, desk: &mut Desk, selected: usize)
        requires
            old(self).wf(),
            old(desk).wf(),
            selected < old(desk).presets@.len(),
        ensures
            final(self).wf(),
            final(desk).wf(),
            desk::scene(*final(self), *final(desk)) == desk::scene(*old(self), *old(desk)).provider_picked(
                selected as int,
            ),
    {
        assert(desk@.presets[selected as int] == desk.presets@[selected as int]@);
        let id = text::copy_text(desk.presets[selected].id.as_str());
        if desk.presets[selected].asks_for_url {
            self.open_url_overlay(desk, id);
        } else if desk.presets[selected].api_key_required && !desk.presets[selected].key_at_hand {
            self.undraft();
            desk.overlay = Overlay::ApiKey { provider: id };
        } else {
            desk.overlay = Overlay::Closed;
            self.open_provider(id, None);
        }
    }

    #[verifier::spinoff_prover]
    fn providers_key(&mut self, desk: &mut Desk, key: &Key, selected: usize, scroll: usize)
        requires
            old(self).wf(),
            old(desk).wf(),
            selected < old(desk).presets@.len(),
        ensures
            final(self).wf(),
            final(desk).wf(),
            desk::scene(*final(self), *final(desk)) == desk::scene(*old(self), *old(desk)).providers_key(
                *key,
                selected as int,
                scroll as int,
            ),
    {
        reveal(SceneView::providers_key);
        assert(desk@.presets.len() == desk.presets@.len());
        match key.code {
            KeyCode::Enter => self.pick_provider(desk, selected),
            KeyCode::Esc => desk.close_overlay(),
            _ => {
                let count: usize = desk.presets.len();
                let next: usize = move_selection(key.code, selected, 6, count);
                let from: usize = panels::ensure_visible(next, scroll, 8, count);
                desk.overlay = Overlay::Providers { selected: next, scroll: from };
            },
        }
    }

    fn models_key(
        &mut self,
        desk: &mut Desk,
        key: &Key,
        items: Vec<ModelInfo>,
        selected: usize,
        scroll: usize,
        active: String,
    )
        requires
            old(self).wf(),
            old(desk).wf(),
        ensures
            final(self).wf(),
            final(desk).wf(),
            desk::scene(*final(self), *final(desk)) == desk::scene(*old(self), *old(desk)).models_key(
                *key,
                events::models_view(items@),
                selected as int,
                scroll as int,
                active@,
            ),
    {
        reveal(SceneView::models_key);
        assert(events::models_view(items@).len() == items@.len());
        match key.code {
            KeyCode::Enter => {
                desk.overlay = Overlay::Closed;
                if selected < items.len() {
                    assert(events::models_view(items@)[selected as int] == items@[selected as int]@);
                    self.choose_model(text::copy_text(items[selected].id.as_str()));
                }
            },
            KeyCode::Esc => desk.close_overlay(),
            _ => {
                let count: usize = items.len();
                let next: usize = move_selection(key.code, selected, 8, count);
                let from: usize = panels::ensure_visible(next, scroll, 10, count);
                desk.overlay = Overlay::Models { items, selected: next, scroll: from, active };
            },
        }
    }

    /// Inserts text at the cursor.
    pub fn insert_text(&mut self, value: &str)
        requires
            old(self).wf(),
        ensures
            final(self).wf(),
            final(self)@ == old(self)@.edited(old(self)@.composer.inserted(value@)),
    {
        self.composer.insert_text(value);
        self.pending_correction = None;
    }

    fn insert_char(&mut self, c: char)
        requires
            old(self).wf(),
        ensures
            final(self).wf(),
            final(self)@ == old(self)@.edited(old(self)@.composer.inserted(seq![c])),
    {
        let mut one = String::new();
        one.push(c);
        assert(one@ =~= seq![c]);
        self.insert_text(one.as_str());
    }

    /// Deletes the character before the cursor.
    pub fn backspace(&mut self)
        requires
            old(self).wf(),
        ensures
            final(self).wf(),
            final(self)@ == old(self)@.edited(old(self)@.composer.backspaced()),
    {
        self.composer.backspace();
        self.pending_correction = None;
    }

    /// Deletes the character behind the cursor.
    pub fn delete(&mut self)
        requires
            old(self).wf(),
        ensures
            final(self).wf(),
            final(self)@ == old(self)@.edited(old(self)@.composer.deleted()),
    {
        self.composer.delete();
        self.pending_correction = None;
    }

    fn api_key_key(&mut self, desk: &mut Desk, key: &Key, provider: String)
        requires
            old(self).wf(),
            old(desk).wf(),
            old(desk)@.overlay == (OverlayView::ApiKey { provider: provider@ }),
        ensures
            final(self).wf(),
            final(desk).wf(),
            desk::scene(*final(self), *final(desk)) == desk::scene(*old(self), *old(desk)).api_key_key(
                *key,
                provider@,
            ),
    {
        reveal(SceneView::api_key_key);
        match key.code {
            KeyCode::Enter => {
                let value = scan::trim_text(self.composer.input.as_str());
                self.undraft();
                desk.overlay = Overlay::Closed;
                if value.as_str().is_empty() {
                    self.fail("API key was not entered");
                } else {
                    self.open_provider(provider, Some(value));
                }
            },
            KeyCode::Char(c) => self.insert_char(c),
            KeyCode::Backspace => self.backspace(),
            _ => {},
        }
    }

    #[verifier::spinoff_prover]
    fn url_key(&mut self, desk: &mut Desk, key: &Key, provider: String)
        requires
            old(self).wf(),
            old(desk).wf(),
        ensures
            final(self).wf(),
            final(desk).wf(),
            desk::scene(*final(self), *final(desk)) == desk::scene(*old(self), *old(desk)).url_key(
                *key,
                provider@,
            ),
    {
        reveal(SceneView::url_key);
        match key.code {
            KeyCode::Enter => {
                let url = if scan::is_blank(self.composer.input.as_str()) {
                    match desk::find_preset(&desk.presets, provider.as_str()) {
                        Some(i) => {
                            assert(desk@.presets[i as int] == desk.presets@[i as int]@);
                            match composer::copy_opt(&desk.presets[i].base_url) {
                                Some(url) => url,
                                None => String::new(),
                            }
                        },
                        None => String::new(),
                    }
                } else {
                    scan::trim_text(self.composer.input.as_str())
                };
                self.undraft();
                desk.overlay = Overlay::Closed;
                self.ask(Effect::CheckUrl { provider, url });
            },
            KeyCode::Char(c) => {
                if key.ctrl && (c == 'a' || c == 'A') {
                    self.undraft();
                } else {
                    self.insert_char(c);
                }
            },
            KeyCode::Backspace => self.backspace(),
            KeyCode::Delete => self.delete(),
            KeyCode::Left => self.composer.left(),
            KeyCode::Right => self.composer.right(),
            KeyCode::Home => self.composer.home(),
            KeyCode::End => self.composer.end(),
            _ => {},
        }
    }

    #[verifier::spinoff_prover]
    fn preview_theme(&mut self, desk: &mut Desk, selected: usize, original: String)
        requires
            old(self).wf(),
            old(desk).wf(),
            selected < old(desk).themes@.len(),
        ensures
            final(self).wf(),
            final(desk).wf(),
            desk::scene(*final(self), *final(desk)) == desk::scene(*old(self), *old(desk)).theme_previewed(
                selected as int,
                original@,
            ),
    {
        assert(desk@.themes[selected as int] == desk.themes@[selected as int]@);
        self.settings.theme = text::copy_text(desk.themes[selected].as_str());
        desk.overlay = Overlay::Theme { selected, original };
    }

    #[verifier::spinoff_prover]
    fn theme_key(&mut self, desk: &mut Desk, key: &Key, selected: usize, original: String)
        requires
            old(self).wf(),
            old(desk).wf(),
            selected < old(desk).themes@.len(),
            old(desk)@.overlay == (OverlayView::Theme {
                selected: selected as int,
                original: original@,
            }),
        ensures
            final(self).wf(),
            final(desk).wf(),
            desk::scene(*final(self), *final(desk)) == desk::scene(*old(self), *old(desk)).theme_key(
                *key,
                selected as int,
                original@,
            ),
    {
        reveal(SceneView::theme_key);
        assert(desk@.themes.len() == desk.themes@.len());
        match key.code {
            KeyCode::Up | KeyCode::Down => {
                let next: usize = move_selection(key.code, selected, 1, desk.themes.len());
                self.preview_theme(desk, next, original);
            },
            KeyCode::Enter => {
                assert(desk@.themes[selected as int] == desk.themes@[selected as int]@);
                self.choose_theme(text::copy_text(desk.themes[selected].as_str()));
                desk.overlay = Overlay::Closed;
            },
            KeyCode::Esc => {
                self.settings.theme = original;
                desk.overlay = Overlay::Closed;
            },
            _ => {},
        }
    }

    #[verifier::spinoff_prover]
    fn settings_key(&mut self, desk: &mut Desk, key: &Key, selected: usize)
        requires
            old(self).wf(),
            old(desk).wf(),
            selected < 7,
            old(desk)@.overlay == (OverlayView::Settings { selected: selected as int }),
        ensures
            final(self).wf(),
            final(desk).wf(),
            desk::scene(*final(self), *final(desk)) == desk::scene(*old(self), *old(desk)).settings_key(
                *key,
                selected as int,
            ),
    {
        reveal(SceneView::settings_key);
        match key.code {
            KeyCode::Up => {
                desk.overlay = Overlay::Settings { selected: step_less(selected, 1) };
            },
            KeyCode::Down => {
                desk.overlay = Overlay::Settings { selected: step_more(selected, 1, 7) };
            },
            KeyCode::Left => self.cycle_setting(desk, selected, false),
            KeyCode::Right | KeyCode::Enter => self.cycle_setting(desk, selected, true),
            KeyCode::Esc => desk.close_overlay(),
            _ => {},
        }
    }

    fn approval_key(&mut self, desk: &mut Desk, key: &Key)
        requires
            old(self).wf(),
            old(desk).wf(),
        ensures
            final(self).wf(),
            final(desk).wf(),
            desk::scene(*final(self), *final(desk)) == desk::scene(*old(self), *old(desk)).approval_key(*key),
    {
        reveal(SceneView::approval_key);
        if let KeyCode::Char(c) = key.code {
            if c == 'y' || c == 'Y' {
                desk.close_overlay();
                self.resolve_approval(desk, ApprovalVerdict::Once);
            } else if c == 'a' || c == 'A' {
                desk.close_overlay();
                self.resolve_approval(desk, ApprovalVerdict::Always);
            } else if c == 'n' || c == 'N' {
                desk.close_overlay();
                self.resolve_approval(desk, ApprovalVerdict::Deny);
            }
        }
    }

    /// A key over what lies on the screen.
    #[verifier::spinoff_prover]
    pub fn handle_overlay_key(&mut self, desk: &mut Desk, key: &Key)
        requires
            old(self).wf(),
            old(desk).wf(),
        ensures
            final(self).wf(),
            final(desk).wf(),
            desk::scene(*final(self), *final(desk)) == desk::scene(*old(self), *old(desk)).overlay_key(*key),
    {
        match desk.overlay.copy() {
            Overlay::Closed => {},
            Overlay::Providers { selected, scroll } => self.providers_key(
                desk,
                key,
                selected,
                scroll,
            ),
            Overlay::Models { items, selected, scroll, active } => self.models_key(
                desk,
                key,
                items,
                selected,
                scroll,
                active,
            ),
            Overlay::ApiKey { provider } => self.api_key_key(desk, key, provider),
            Overlay::CustomUrl { provider } => self.url_key(desk, key, provider),
            Overlay::Theme { selected, original } => self.theme_key(desk, key, selected, original),
            Overlay::Settings { selected } => self.settings_key(desk, key, selected),
            Overlay::Approval => self.approval_key(desk, key),
        }
    }

    /// An address that was typed turned out to be one, or not.
    pub fn url_checked(&mut self, desk: &mut Desk, provider: String, url: String, valid: bool)
        requires
            old(self).wf(),
            old(desk).wf(),
        ensures
            final(self).wf(),
            final(desk).wf(),
            desk::scene(*final(self), *final(desk)) == desk::scene(*old(self), *old(desk)).url_checked(
                provider@,
                url@,
                valid,
            ),
    {
        if valid {
            self.open_provider(provider, Some(url));
        } else {
            self.say("Enter an http:// or https:// URL without credentials");
            desk.overlay = Overlay::CustomUrl { provider };
        }
    }

    /// Says that a connection to a provider is being made, or why it cannot be.
    pub fn provider_begun(&mut self, desk: &Desk, id: &str, error: Option<String>)
        requires
            old(self).wf(),
        ensures
            final(self).wf(),
            desk::scene(*final(self), *desk) == desk::scene(*old(self), *desk).provider_begun(
                id@,
                composer::opt_text(error),
            ),
    {
        match error {
            None => {
                let label = match desk::find_preset(&desk.presets, id) {
                    Some(i) => {
                        assert(desk@.presets[i as int] == desk.presets@[i as int]@);
                        text::copy_text(desk.presets[i].label.as_str())
                    },
                    None => text::copy_text(id),
                };
                self.set_status(text::cat3("Checking ", label.as_str(), " and loading models…"));
            },
            Some(e) => self.set_error(text::cat2("connection failed: ", e.as_str())),
        }
    }

    /// Tries a provider: asks for what is missing, else connects.
    #[verifier::spinoff_prover]
    pub fn start_provider(
        &mut self,
        desk: &mut Desk,
        id: &str,
        entered: Option<String>,
        url_valid: bool,
        key_known: bool,
    )
        requires
            old(self).wf(),
            old(desk).wf(),
        ensures
            final(self).wf(),
            final(desk).wf(),
            desk::scene(*final(self), *final(desk)) == desk::scene(*old(self), *old(desk)).provider_tried(
                id@,
                composer::opt_text(entered),
                url_valid,
                key_known,
            ),
    {
        let i: usize = match desk::find_preset(&desk.presets, id) {
            None => {
                self.set_error(text::cat3("Unknown provider '", id, "'"));
                return;
            },
            Some(i) => i,
        };
        assert(desk@.presets[i as int] == desk.presets@[i as int]@);
        let name = text::copy_text(desk.presets[i].id.as_str());
        if desk.presets[i].api_key_required && entered.is_none() && !key_known {
            let what = match composer::copy_opt(&desk.presets[i].api_key_env) {
                Some(env) => env,
                None => text::copy_text("an API key"),
            };
            self.set_status(
                text::cat4(
                    desk.presets[i].label.as_str(),
                    " requires ",
                    what.as_str(),
                    " (the key stays in memory)",
                ),
            );
            desk.overlay = Overlay::ApiKey { provider: name };
            return;
        }
        let url = if url_valid {
            composer::copy_opt(&entered)
        } else {
            None
        };
        let custom = text::same_text(name.as_str(), "custom");
        if custom && url.is_none() {
            self.say("Custom connections require a valid URL");
            return;
        }
        let typed = if !custom && url.is_none() {
            entered
        } else {
            None
        };
        self.ask(Effect::Connect { provider: name, address: url, key: typed });
    }
}

impl Overlay {
    /// A copy of what lies over the screen.
    pub fn copy(&self) -> (r: Overlay)
        ensures
            r@ == self@,
    {
        match self {
            Overlay::Closed => Overlay::Closed,
            Overlay::Providers { selected, scroll } => Overlay::Providers {
                selected: *selected,
                scroll: *scroll,
            },
            Overlay::Models { items, selected, scroll, active } => {
                let mut list: Vec<ModelInfo> = Vec::new();
                for i in 0..items.len()
                    invariant
                        list@.len() == i,
                        forall|j: int| 0 <= j < i ==> (#[trigger] list@[j])@ == items@[j]@,
                {
                    list.push(items[i].copy());
                }
                assert(events::models_view(list@) =~= events::models_view(items@));
                Overlay::Models {
                    items: list,
                    selected: *selected,
                    scroll: *scroll,
                    active: text::copy_text(active.as_str()),
                }
            },
            Overlay::ApiKey { provider } => Overlay::ApiKey {
                provider: text::copy_text(provider.as_str()),
            },
            Overlay::CustomUrl { provider } => Overlay::CustomUrl {
                provider: text::copy_text(provider.as_str()),
            },
            Overlay::Theme { selected, original } => Overlay::Theme {
                selected: *selected,
                original: text::copy_text(original.as_str()),
            },
            Overlay::Settings { selected } => Overlay::Settings { selected: *selected },
            Overlay::Approval => Overlay::Approval,
        }
    }
}

// ---------------------------------------------------------------------------
// Laws
// ---------------------------------------------------------------------------

/// Leaving the list of themes with Esc restores the theme that was there before,
/// whatever was previewed.
pub proof fn escape_reverts_theme(s: SceneView, key: Key, selected: int, original: Seq<char>)
    requires
        s.desk.overlay == (OverlayView::Theme { selected, original }),
        key.code == KeyCode::Esc,
    ensures
        s.overlay_key(key).pane.settings.theme == original,
        s.overlay_key(key).desk.overlay is Closed,
        s.overlay_key(key).pane.out == s.pane.out,
{
    reveal(SceneView::theme_key);
}

/// A card can only be decided: any key but those for a decision leaves everything as it
/// is.
pub proof fn cards_are_only_decided(s: SceneView, key: Key)
    requires
        s.desk.overlay is Approval,
        !(key.code matches KeyCode::Char(c) && (c == 'y' || c == 'Y' || c == 'a' || c == 'A' || c
            == 'n' || c == 'N')),
    ensures
        s.overlay_key(key) == s,
{
    reveal(SceneView::approval_key);
}

/// A typed key never reaches the transcript or the status line.
pub proof fn typed_keys_stay_secret(s: SceneView, key: Key, provider: Seq<char>)
    requires
        s.desk.overlay == (OverlayView::ApiKey { provider }),
    ensures
        s.overlay_key(key).pane.log.history == s.pane.log.history,
        key.code != KeyCode::Enter ==> s.overlay_key(key).pane.log == s.pane.log,
{
    reveal(SceneView::api_key_key);
}

} // verus!
