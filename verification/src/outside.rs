//! Commands whose work is done outside the panes: reading the configuration, writing
//! files, and looking at the workspace. What is decided about them is here.

use crate::composer;
use crate::desk::{Desk, DeskView, SceneView};
use crate::desk;
use crate::effects::{Effect, EffectView};
use crate::pane::Pane;
use crate::sessions;
use crate::settings::{Settings, SettingsView};
use crate::text;
use vstd::prelude::*;
use vstd::string::*;

verus! {

// ---------------------------------------------------------------------------
// The configuration
// ---------------------------------------------------------------------------

/// Where requests go.
#[derive(Debug, PartialEq, Eq)]
pub struct Endpoint {
    pub backend: String,
    pub base_url: String,
    pub provider_id: Option<String>,
    pub api_key: Option<String>,
}

/// What an endpoint holds.
#[verifier::ext_equal]
pub struct EndpointView {
    pub backend: Seq<char>,
    pub base_url: Seq<char>,
    pub provider_id: Option<Seq<char>>,
    pub api_key: Option<Seq<char>>,
}

impl View for Endpoint {
    type V = EndpointView;

    open spec fn view(&self) -> EndpointView {
        EndpointView {
            backend: self.backend@,
            base_url: self.base_url@,
            provider_id: composer::opt_text(self.provider_id),
            api_key: composer::opt_text(self.api_key),
        }
    }
}

impl EndpointView {
    /// Whether requests go to another place than before.
    pub open spec fn elsewhere(self, previous: EndpointView) -> bool {
        self.backend != previous.backend || self.base_url != previous.base_url || self.provider_id
            != previous.provider_id
    }

    /// The endpoint with the key that was typed for it before, where the configuration has
    /// none and the place is the same.
    pub open spec fn keyed_as(self, previous: EndpointView) -> EndpointView {
        EndpointView {
            api_key: if self.api_key is None && self.base_url == previous.base_url
                && self.provider_id == previous.provider_id {
                previous.api_key
            } else {
                self.api_key
            },
            ..self
        }
    }
}

fn same_texts_or_none(a: &Option<String>, b: &Option<String>) -> (r: bool)
    ensures
        r == (composer::opt_text(*a) == composer::opt_text(*b)),
{
    match (a, b) {
        (Some(x), Some(y)) => text::same_text(x.as_str(), y.as_str()),
        (None, None) => true,
        _ => false,
    }
}

impl Endpoint {
    /// The endpoint with the key that was typed for it before, and whether it is another
    /// one than before.
    pub fn replacing(self, previous: &Endpoint) -> (r: (Endpoint, bool))
        ensures
            r.0@ == self@.keyed_as(previous@),
            r.1 == self@.elsewhere(previous@),
    {
        let same_url = text::same_text(self.base_url.as_str(), previous.base_url.as_str());
        let same_provider = same_texts_or_none(&self.provider_id, &previous.provider_id);
        let changed = !text::same_text(self.backend.as_str(), previous.backend.as_str()) || !same_url
            || !same_provider;
        let api_key = if self.api_key.is_none() && same_url && same_provider {
            composer::copy_opt(&previous.api_key)
        } else {
            self.api_key
        };
        (Endpoint { api_key, ..self }, changed)
    }
}

/// A key that was typed is never handed to another place than the one it was typed for.
pub proof fn typed_keys_stay_where_they_were_typed(new: EndpointView, previous: EndpointView)
    ensures
        new.base_url != previous.base_url || new.provider_id != previous.provider_id
            ==> new.keyed_as(previous).api_key == new.api_key,
        new.api_key is Some ==> new.keyed_as(previous) == new,
{
}

/// The configuration as it was read.
pub struct ReadConfig {
    pub theme: String,
    pub quality: Option<String>,
    pub profile: Option<String>,
    pub model: Option<String>,
    pub auto_compact: bool,
    pub cache_prompt: bool,
    pub reasoning_effort: String,
    pub show_thinking: bool,
    pub thinking_default_expanded: bool,
    pub permission_posture: String,
    pub keybindings: Vec<(String, String)>,
    pub attention_bell: bool,
    pub mouse: bool,
    /// The configuration as text, or why it could not be written out.
    pub shown: Result<String, String>,
}

/// What came of the endpoint that the configuration names.
#[derive(Debug, PartialEq, Eq)]
pub enum EndpointOutcome {
    Same,
    Changed,
    Rejected(String),
}

impl SettingsView {
    /// The settings taken from a configuration.
    pub open spec fn configured(self, c: ReadConfig) -> SettingsView {
        SettingsView {
            theme: c.theme@,
            quality: composer::opt_text(c.quality),
            profile: composer::opt_text(c.profile),
            model: match c.model {
                Some(m) => m@,
                None => self.model,
            },
            auto_compact: c.auto_compact,
            cache_prompt: c.cache_prompt,
            reasoning: c.reasoning_effort@,
            show_thinking: c.show_thinking,
            thinking_open: c.thinking_default_expanded,
            posture: c.permission_posture@,
            bindings: c.keybindings@,
            ..self
        }
    }
}

impl Settings {
    fn configure(&mut self, c: ReadConfig)
        ensures
            final(self)@ == old(self)@.configured(c),
    {
        self.theme = c.theme;
        self.quality = c.quality;
        self.profile = c.profile;
        if let Some(model) = c.model {
            self.model = model;
        }
        self.auto_compact = c.auto_compact;
        self.cache_prompt = c.cache_prompt;
        self.reasoning_effort = c.reasoning_effort;
        self.show_thinking = c.show_thinking;
        self.thinking_default_expanded = c.thinking_default_expanded;
        self.permission_posture = c.permission_posture;
        self.keybindings = c.keybindings;
    }
}

impl SceneView {
    /// A pane and its surroundings with the settings taken from a configuration.
    pub open spec fn configured(self, c: ReadConfig, changed: bool) -> SceneView {
        let s = self.pane.settings;
        let turned = c.mouse != self.desk.mouse;
        let v = self.pane.set_up(s.configured(c));
        let w = if turned {
            v.asking(EffectView::Mouse { on: c.mouse })
        } else {
            v
        };
        SceneView {
            pane: w.did(
                "Config reloaded"@ + (if changed {
                    ", connection updated"@
                } else {
                    ""@
                }) + (if turned {
                    " · mouse updated"@
                } else {
                    ""@
                }),
            ),
            desk: DeskView { bell: c.attention_bell, mouse: c.mouse, ..self.desk },
        }
    }

    /// A command on the configuration: shows it, or takes the settings from it.
    pub open spec fn config_asked(
        self,
        args: Seq<Seq<char>>,
        config: Result<ReadConfig, Seq<char>>,
        endpoint: EndpointOutcome,
    ) -> SceneView {
        let action = sessions::arg_or(args, 0, "reload"@);
        match config {
            Err(e) => self.with(self.pane.failed("Config read failed: "@ + e)),
            Ok(c) => if action == "show"@ {
                self.with(
                    match c.shown {
                        Ok(text) => self.pane.told(text@),
                        Err(e) => self.pane.failed("Config formatting failed: "@ + e@),
                    },
                )
            } else if action != "reload"@ {
                self.with(self.pane.said("Usage: /config show|reload"@))
            } else {
                match endpoint {
                    EndpointOutcome::Rejected(e) => self.with(
                        self.pane.failed("Config connection rejected: "@ + e@),
                    ),
                    EndpointOutcome::Changed => self.configured(c, true),
                    EndpointOutcome::Same => self.configured(c, false),
                }
            },
        }
    }
}

/// What came of reading the configuration.
pub open spec fn config_view(r: Result<ReadConfig, String>) -> Result<ReadConfig, Seq<char>> {
    match r {
        Ok(c) => Ok(c),
        Err(e) => Err(e@),
    }
}

/// Whether `/config` takes the settings from a configuration: it was read, and asked for with
/// `reload` or without a word.
pub fn reload_due(args: &Vec<String>, config: &Result<ReadConfig, String>) -> (r: bool)
    ensures
        r == (config is Ok && sessions::arg_or(text::texts(args@), 0, "reload"@) == "reload"@),
{
    let action = sessions::arg_text(args, 0, "reload");
    config.is_ok() && text::same_text(action.as_str(), "reload")
}

impl Pane {
    fn configure(&mut self, desk: &mut Desk, c: ReadConfig, changed: bool)
        requires
            old(self).wf(),
            old(desk).wf(),
        ensures
            final(self).wf(),
            final(desk).wf(),
            desk::scene(*final(self), *final(desk)) == desk::scene(*old(self), *old(desk)).configured(
                c,
                changed,
            ),
    {
        let turned = c.mouse != desk.mouse_enabled;
        let mouse = c.mouse;
        desk.attention_bell = c.attention_bell;
        desk.mouse_enabled = mouse;
        self.settings.configure(c);
        if turned {
            self.ask(Effect::Mouse { on: mouse });
        }
        let note = text::cat3(
            "Config reloaded",
            if changed {
                ", connection updated"
            } else {
                ""
            },
            if turned {
                " · mouse updated"
            } else {
                ""
            },
        );
        self.set_ok(note);
    }

    /// `/config`: shows the configuration, or takes the settings from it.
    pub fn command_config(
        &mut self,
        desk: &mut Desk,
        args: &Vec<String>,
        config: Result<ReadConfig, String>,
        endpoint: EndpointOutcome,
    )
        requires
            old(self).wf(),
            old(desk).wf(),
        ensures
            final(self).wf(),
            final(desk).wf(),
            desk::scene(*final(self), *final(desk)) == desk::scene(*old(self), *old(desk)).config_asked(
                text::texts(args@),
                config_view(config),
                endpoint,
            ),
    {
        let action = sessions::arg_text(args, 0, "reload");
        match config {
            Err(e) => self.set_error(text::cat2("Config read failed: ", e.as_str())),
            Ok(c) => {
                if text::same_text(action.as_str(), "show") {
                    match &c.shown {
                        Ok(text) => self.push_system(text.as_str()),
                        Err(e) => self.set_error(text::cat2("Config formatting failed: ", e.as_str())),
                    }
                } else if !text::same_text(action.as_str(), "reload") {
                    self.say("Usage: /config show|reload");
                } else {
                    match endpoint {
                        EndpointOutcome::Rejected(e) => self.set_error(
                            text::cat2("Config connection rejected: ", e.as_str()),
                        ),
                        EndpointOutcome::Changed => self.configure(desk, c, true),
                        EndpointOutcome::Same => self.configure(desk, c, false),
                    }
                }
            },
        }
    }
}

/// A rejected endpoint leaves every setting as it was.
pub proof fn rejected_endpoints_change_nothing(
    s: SceneView,
    args: Seq<Seq<char>>,
    c: ReadConfig,
    e: String,
)
    requires
        sessions::arg_or(args, 0, "reload"@) == "reload"@,
    ensures
        s.config_asked(args, Ok(c), EndpointOutcome::Rejected(e)).pane.settings == s.pane.settings,
        s.config_asked(args, Ok(c), EndpointOutcome::Rejected(e)).desk == s.desk,
{
    reveal_strlit("reload");
    reveal_strlit("show");
    assert("reload"@.len() != "show"@.len());
}

/// Why a setting that was changed could not be kept.
#[derive(Debug, PartialEq, Eq)]
pub enum KeepError {
    Unread(String),
    Unsaved(String),
}

/// Why a setting that was changed could not be kept, in words.
pub open spec fn keep_note(connection: bool, e: KeepError) -> Seq<char> {
    if connection {
        match e {
            KeepError::Unread(_) => "connected, but could not read config to persist connection"@,
            KeepError::Unsaved(e) => "connected, but could not save config: "@ + e@,
        }
    } else {
        match e {
            KeepError::Unread(e) => "Setting changed, but config read failed: "@ + e@,
            KeepError::Unsaved(e) => "Setting changed, but config save failed: "@ + e@,
        }
    }
}

impl Pane {
    /// Says why a setting, or the connection, could not be kept.
    pub fn keep_failed(&mut self, connection: bool, e: KeepError)
        ensures
            final(self)@ == old(self)@.failed(keep_note(connection, e)),
            old(self).wf() ==> final(self).wf(),
    {
        if connection {
            match e {
                KeepError::Unread(_) => self.fail(
                    "connected, but could not read config to persist connection",
                ),
                KeepError::Unsaved(e) => self.set_error(
                    text::cat2("connected, but could not save config: ", e.as_str()),
                ),
            }
        } else {
            match e {
                KeepError::Unread(e) => self.set_error(
                    text::cat2("Setting changed, but config read failed: ", e.as_str()),
                ),
                KeepError::Unsaved(e) => self.set_error(
                    text::cat2("Setting changed, but config save failed: ", e.as_str()),
                ),
            }
        }
    }
}

} // verus!
