//! Commands that change settings.

use crate::composer;
use crate::desk::{Desk, DeskView, OverlayView, SceneView};
use crate::desk;
use crate::effects::{Effect, EffectView, Saved, SavedView};
use crate::events::Overlay;
use crate::palette;
use crate::pane::{Pane, PaneView};
use crate::scan;
use crate::settings::{Mode, SettingsView};
use crate::settings;
use crate::text;
use vstd::prelude::*;

verus! {

/// A value named in any case, as it is kept.
pub open spec fn named_value(arg: Seq<char>, values: Seq<Seq<char>>) -> Option<Seq<char>> {
    if values.contains(text::lower(arg)) {
        Some(text::lower(arg))
    } else {
        None
    }
}

/// A value named in any case, as it is kept.
pub fn read_value(arg: &str, values: &Vec<String>) -> (r: Option<String>)
    ensures
        composer::opt_text(r) == named_value(arg@, text::texts(values@)),
{
    let small = text::lower_text(arg);
    if text::has_text(values, small.as_str()) {
        Some(small)
    } else {
        None
    }
}

impl PaneView {
    /// The mode changed.
    pub open spec fn moded(self, mode: Mode) -> PaneView {
        PaneView { mode, ..self }.did("Mode: "@ + settings::mode_name(mode))
    }

    /// A setting kept for the next start; a failure to keep it is not shown.
    pub open spec fn keeping(self, setting: SavedView) -> PaneView {
        self.asking(EffectView::Keep { setting, report: false })
    }

    /// The settings changed.
    pub open spec fn set_up(self, settings: SettingsView) -> PaneView {
        PaneView { settings, ..self }
    }

    /// `/quality`.
    pub open spec fn quality_asked(self, args: Seq<Seq<char>>) -> PaneView {
        match settings::first_of(args) {
            None => self.told("quality="@ + palette::or_auto(self.settings.quality)),
            Some(arg) => match named_value(arg, settings::quality_values()) {
                None => self.failed("Unknown quality; choose "@ + scan::join(settings::quality_values(), ", "@)),
                Some(value) => self.set_up(
                    SettingsView { quality: Some(value), ..self.settings },
                ).keeping(SavedView::Quality(Some(value))).did("Quality: "@ + value),
            },
        }
    }

    /// The router profile left to the router.
    pub open spec fn profile_auto(self) -> PaneView {
        self.set_up(SettingsView { profile: None, ..self.settings }).keeping(
            SavedView::Profile(None),
        ).did("Router profile: auto"@)
    }

    /// `/profile`.
    pub open spec fn profile_asked(self, args: Seq<Seq<char>>) -> PaneView {
        match settings::first_of(args) {
            None => self.profile_auto(),
            Some(arg) => if text::lower(arg) == "auto"@ {
                self.profile_auto()
            } else {
                match named_value(arg, settings::profile_values()) {
                    Some(value) => self.set_up(
                        SettingsView { profile: Some(value), ..self.settings },
                    ).keeping(SavedView::Profile(Some(value))).did("Router profile: "@ + value),
                    None => self.failed(
                        "Unknown profile; choose auto, "@ + scan::join(settings::profile_values(), ", "@),
                    ),
                }
            },
        }
    }

    /// `/reasoning`.
    pub open spec fn reasoning_asked(self, args: Seq<Seq<char>>) -> PaneView {
        match settings::first_of(args) {
            None => self.told("reasoning_effort="@ + self.settings.reasoning),
            Some(arg) => match named_value(arg, settings::reasoning_values()) {
                None => self.failed(
                    "Unknown reasoning effort; choose "@ + scan::join(settings::reasoning_values(), ", "@),
                ),
                Some(value) => self.reasoning_chosen(value),
            },
        }
    }

    /// A reasoning effort chosen.
    pub open spec fn reasoning_chosen(self, value: Seq<char>) -> PaneView {
        self.set_up(SettingsView { reasoning: value, ..self.settings }).keeping(
            SavedView::Reasoning(value),
        ).did("Reasoning: "@ + value)
    }

    /// `/permissions`.
    pub open spec fn permissions_asked(self, args: Seq<Seq<char>>) -> PaneView {
        match settings::first_of(args) {
            None => self.told(
                "permission_posture="@ + self.settings.posture + " (valid: "@ + scan::join(
                    settings::posture_values(),
                    ", "@,
                ) + ")"@,
            ),
            Some(arg) => match named_value(arg, settings::posture_values()) {
                None => self.failed(
                    "Unknown permission posture; choose "@ + scan::join(settings::posture_values(), ", "@),
                ),
                Some(value) => self.permissions_chosen(value),
            },
        }
    }

    /// A permission posture chosen.
    pub open spec fn permissions_chosen(self, value: Seq<char>) -> PaneView {
        self.set_up(SettingsView { posture: value, ..self.settings }).keeping(
            SavedView::Permissions(value),
        ).did("Permissions: "@ + value)
    }

    /// A theme chosen.
    pub open spec fn theme_chosen(self, theme: Seq<char>) -> PaneView {
        self.set_up(SettingsView { theme, ..self.settings }).keeping(
            SavedView::Theme(theme),
        ).did("Theme: "@ + theme)
    }

    /// `/json`.
    pub open spec fn json_asked(self, args: Seq<Seq<char>>) -> PaneView {
        let on = settings::toggled_to(settings::first_of(args), self.settings.json_mode);
        self.set_up(SettingsView { json_mode: on, ..self.settings }).did(
            "JSON response mode: "@ + settings::on_off(on),
        )
    }

    /// `/max`.
    pub open spec fn max_asked(self, args: Seq<Seq<char>>) -> PaneView {
        match settings::first_of(args) {
            None => self.set_up(SettingsView { max_tokens: None, ..self.settings }).did(
                "Maximum completion tokens: auto"@,
            ),
            Some(arg) => match scan::parse_up_to(arg, u32::MAX as nat) {
                Some(n) => if n > 0 {
                    self.set_up(
                        SettingsView { max_tokens: Some(n as u32), ..self.settings },
                    ).did("Maximum completion tokens: "@ + scan::decimal(n))
                } else {
                    self.said("Usage: /max <positive token count>"@)
                },
                None => self.said("Usage: /max <positive token count>"@),
            },
        }
    }

    /// `/autocompact`.
    pub open spec fn autocompact_asked(self, args: Seq<Seq<char>>) -> PaneView {
        let on = settings::toggled_to(settings::first_of(args), self.settings.auto_compact);
        self.set_up(SettingsView { auto_compact: on, ..self.settings }).keeping(
            SavedView::AutoCompact(on),
        ).did("Autocompact "@ + settings::on_off(on))
    }

    /// Thinking shown or hidden.
    pub open spec fn thinking_set(self, on: bool) -> PaneView {
        self.set_up(SettingsView { show_thinking: on, ..self.settings }).keeping(
            SavedView::ShowThinking(on),
        ).did("Thinking "@ + settings::shown_hidden(on))
    }

    /// `/thinking`.
    pub open spec fn thinking_asked(self, args: Seq<Seq<char>>) -> PaneView {
        self.thinking_set(settings::toggled_to(settings::first_of(args), self.settings.show_thinking))
    }

    /// `/cache-prompt`: anything but `off` turns it on.
    pub open spec fn cache_asked(self, args: Seq<Seq<char>>) -> PaneView {
        let on = match settings::first_of(args) {
            Some(arg) => arg != "off"@,
            None => !self.settings.cache_prompt,
        };
        self.set_up(SettingsView { cache_prompt: on, ..self.settings }).did(
            "Prompt cache "@ + settings::on_off(on),
        ).asking(EffectView::Keep { setting: SavedView::CachePrompt(on), report: true })
    }

    /// A model chosen.
    pub open spec fn model_chosen(self, model: Seq<char>) -> PaneView {
        self.set_up(SettingsView { model, ..self.settings }).keeping(
            SavedView::Connection(Some(model)),
        ).did("Model: "@ + model)
    }

    /// `/model`: a model named, or the models listed to choose from.
    pub open spec fn model_asked(self, args: Seq<Seq<char>>) -> PaneView {
        match settings::first_of(args) {
            Some(model) => self.model_chosen(model),
            None => self.models_asked(),
        }
    }

    /// The models asked for.
    pub open spec fn models_asked(self) -> PaneView {
        self.said("Refreshing model list…"@).asking(EffectView::ListModels)
    }
}

impl SceneView {
    /// The bell turned on or off.
    pub open spec fn bell_set(self, on: bool) -> SceneView {
        SceneView {
            desk: DeskView { bell: on, ..self.desk },
            pane: self.pane.keeping(SavedView::Bell(on)).did("Bell "@ + settings::on_off(on)),
        }
    }

    /// The mouse turned on or off.
    pub open spec fn mouse_set(self, on: bool) -> SceneView {
        SceneView {
            desk: DeskView { mouse: on, ..self.desk },
            pane: self.pane.keeping(SavedView::Mouse(on)).asking(EffectView::Mouse { on }).did(
                if on {
                    "Mouse on · Shift+drag selects"@
                } else {
                    "Mouse off"@
                },
            ),
        }
    }

    /// `/theme`: a theme named, or the themes shown to choose from.
    pub open spec fn theme_asked(self, args: Seq<Seq<char>>) -> SceneView {
        match settings::first_of(args) {
            Some(theme) => if self.desk.themes.contains(theme) {
                self.with(self.pane.theme_chosen(theme))
            } else {
                self.with(
                    self.pane.failed("Unknown theme; choose "@ + scan::join(self.desk.themes, ", "@)),
                )
            },
            None => self.with(
                self.pane.said(
                    "Choose a theme — preview is live, Enter keeps it, Esc reverts"@,
                ),
            ).covered(
                OverlayView::Theme {
                    selected: match settings::place_of(self.desk.themes, self.pane.settings.theme) {
                        Some(k) => k,
                        None => 0,
                    },
                    original: self.pane.settings.theme,
                },
            ),
        }
    }

    /// Row `index` of the settings list one value on or back.
    pub open spec fn setting_cycled(self, index: int, on: bool) -> SceneView {
        let v = self.pane;
        let s = v.settings;
        if index == 0 {
            self.with(v.theme_chosen(settings::stepped_value(self.desk.themes, s.theme, 0, on)))
        } else if index == 1 {
            self.with(v.permissions_chosen(settings::stepped_value(settings::posture_values(), s.posture, 2, on)))
        } else if index == 2 {
            self.with(v.reasoning_chosen(settings::stepped_value(settings::reasoning_steps(), s.reasoning, 0, on)))
        } else if index == 3 {
            self.with(
                v.set_up(SettingsView { auto_compact: !s.auto_compact, ..s }).keeping(
                    SavedView::AutoCompact(!s.auto_compact),
                ).said("Autocompact "@ + settings::on_off(!s.auto_compact)),
            )
        } else if index == 4 {
            self.with(v.thinking_set(!s.show_thinking))
        } else if index == 5 {
            self.bell_set(!self.desk.bell)
        } else if index == 6 {
            self.mouse_set(!self.desk.mouse)
        } else {
            self
        }
    }

    /// The settings list.
    pub open spec fn setting_rows(self) -> Seq<(Seq<char>, Seq<char>)> {
        let s = self.pane.settings;
        seq![
            ("Theme"@, s.theme),
            ("Permissions"@, s.posture),
            ("Reasoning"@, s.reasoning),
            ("Autocompact"@, settings::on_off(s.auto_compact)),
            ("Show thinking"@, settings::on_off(s.show_thinking)),
            ("Bell"@, settings::on_off(self.desk.bell)),
            ("Mouse"@, settings::on_off(self.desk.mouse)),
        ]
    }
}

/// What the rows of a settings list hold.
pub open spec fn pairs_view(list: Seq<(String, String)>) -> Seq<(Seq<char>, Seq<char>)> {
    list.map_values(|p: (String, String)| (p.0@, p.1@))
}

pub(crate) fn first_arg(args: &Vec<String>) -> (r: Option<&String>)
    ensures
        match r {
            Some(s) => settings::first_of(text::texts(args@)) == Some(s@),
            None => settings::first_of(text::texts(args@)) is None,
        },
{
    assert(text::texts(args@).len() == args@.len());
    if args.len() > 0 {
        assert(text::texts(args@)[0] == args@[0]@);
        Some(&args[0])
    } else {
        None
    }
}

impl Pane {
    /// Changes the mode.
    pub fn set_mode(&mut self, mode: Mode)
        ensures
            final(self)@ == old(self)@.moded(mode),
            old(self).wf() ==> final(self).wf(),
    {
        self.mode = mode;
        self.set_ok(text::cat2("Mode: ", mode.as_str()));
    }

    fn keep(&mut self, setting: Saved)
        ensures
            final(self)@ == old(self)@.keeping(setting@),
            old(self).wf() ==> final(self).wf(),
    {
        self.ask(Effect::Keep { setting, report: false });
    }

    /// `/quality`: says the quality, or chooses one.
    #[verifier::spinoff_prover]
    pub fn command_quality(&mut self, args: &Vec<String>)
        ensures
            final(self)@ == old(self)@.quality_asked(text::texts(args@)),
            old(self).wf() ==> final(self).wf(),
    {
        match first_arg(args) {
            None => {
                let value = palette::choice_or_auto(&self.settings.quality);
                let text = text::cat2("quality=", value.as_str());
                self.push_system(text.as_str());
            },
            Some(arg) => {
                let values = settings::quality_list();
                match read_value(arg.as_str(), &values) {
                    None => {
                        let list = scan::join_texts(&values, ", ");
                        self.set_error(text::cat2("Unknown quality; choose ", list.as_str()));
                    },
                    Some(value) => {
                        self.settings.quality = Some(text::copy_text(value.as_str()));
                        self.keep(Saved::Quality(Some(text::copy_text(value.as_str()))));
                        self.set_ok(text::cat2("Quality: ", value.as_str()));
                    },
                }
            },
        }
    }

    fn leave_profile(&mut self)
        ensures
            final(self)@ == old(self)@.profile_auto(),
            old(self).wf() ==> final(self).wf(),
    {
        self.settings.profile = None;
        self.keep(Saved::Profile(None));
        self.did("Router profile: auto");
    }

    /// `/profile`: chooses a router profile, or leaves it to the router.
    #[verifier::spinoff_prover]
    pub fn command_profile(&mut self, args: &Vec<String>)
        ensures
            final(self)@ == old(self)@.profile_asked(text::texts(args@)),
            old(self).wf() ==> final(self).wf(),
    {
        match first_arg(args) {
            None => {
                self.leave_profile();
            },
            Some(arg) => {
                let small = text::lower_text(arg.as_str());
                if text::same_text(small.as_str(), "auto") {
                    self.leave_profile();
                    return;
                }
                let values = settings::profile_list();
                match read_value(arg.as_str(), &values) {
                    Some(value) => {
                        self.settings.profile = Some(text::copy_text(value.as_str()));
                        self.keep(Saved::Profile(Some(text::copy_text(value.as_str()))));
                        self.set_ok(text::cat2("Router profile: ", value.as_str()));
                    },
                    None => {
                        let list = scan::join_texts(&values, ", ");
                        self.set_error(text::cat2("Unknown profile; choose auto, ", list.as_str()));
                    },
                }
            },
        }
    }

    fn choose_reasoning(&mut self, value: String)
        ensures
            final(self)@ == old(self)@.reasoning_chosen(value@),
            old(self).wf() ==> final(self).wf(),
    {
        self.settings.reasoning_effort = text::copy_text(value.as_str());
        self.keep(Saved::Reasoning(text::copy_text(value.as_str())));
        self.set_ok(text::cat2("Reasoning: ", value.as_str()));
    }

    /// `/reasoning`: says the reasoning effort, or chooses one.
    pub fn command_reasoning(&mut self, args: &Vec<String>)
        ensures
            final(self)@ == old(self)@.reasoning_asked(text::texts(args@)),
            old(self).wf() ==> final(self).wf(),
    {
        match first_arg(args) {
            None => {
                let text = text::cat2("reasoning_effort=", self.settings.reasoning_effort.as_str());
                self.push_system(text.as_str());
            },
            Some(arg) => {
                let values = settings::reasoning_list();
                match read_value(arg.as_str(), &values) {
                    None => {
                        let list = scan::join_texts(&values, ", ");
                        self.set_error(
                            text::cat2("Unknown reasoning effort; choose ", list.as_str()),
                        );
                    },
                    Some(value) => {
                        self.choose_reasoning(value);
                    },
                }
            },
        }
    }

    fn choose_permissions(&mut self, value: String)
        ensures
            final(self)@ == old(self)@.permissions_chosen(value@),
            old(self).wf() ==> final(self).wf(),
    {
        self.settings.permission_posture = text::copy_text(value.as_str());
        self.keep(Saved::Permissions(text::copy_text(value.as_str())));
        self.set_ok(text::cat2("Permissions: ", value.as_str()));
    }

    /// `/permissions`: says the permission posture, or chooses one.
    pub fn command_permissions(&mut self, args: &Vec<String>)
        ensures
            final(self)@ == old(self)@.permissions_asked(text::texts(args@)),
            old(self).wf() ==> final(self).wf(),
    {
        let values = settings::posture_list();
        let list = scan::join_texts(&values, ", ");
        match first_arg(args) {
            None => {
                let text = text::cat5(
                    "permission_posture=",
                    self.settings.permission_posture.as_str(),
                    " (valid: ",
                    list.as_str(),
                    ")",
                );
                self.push_system(text.as_str());
            },
            Some(arg) => {
                match read_value(arg.as_str(), &values) {
                    None => {
                        self.set_error(
                            text::cat2("Unknown permission posture; choose ", list.as_str()),
                        );
                    },
                    Some(value) => {
                        self.choose_permissions(value);
                    },
                }
            },
        }
    }

    /// `/json`: turns replies in JSON on or off.
    pub fn command_json(&mut self, args: &Vec<String>)
        ensures
            final(self)@ == old(self)@.json_asked(text::texts(args@)),
            old(self).wf() ==> final(self).wf(),
    {
        let on = settings::toggle_value(first_arg(args), self.settings.json_mode);
        self.settings.json_mode = on;
        self.set_ok(text::cat2("JSON response mode: ", settings::switch_word(on)));
    }

    /// `/max`: limits the length of replies, or lifts the limit.
    pub fn command_max(&mut self, args: &Vec<String>)
        ensures
            final(self)@ == old(self)@.max_asked(text::texts(args@)),
            old(self).wf() ==> final(self).wf(),
    {
        match first_arg(args) {
            None => {
                self.settings.max_tokens = None;
                self.did("Maximum completion tokens: auto");
            },
            Some(arg) => {
                match scan::parse_number(arg.as_str(), 4294967295) {
                    Some(n) if n > 0 => {
                        self.settings.max_tokens = Some(n as u32);
                        let text = scan::decimal_text(n);
                        self.set_ok(text::cat2("Maximum completion tokens: ", text.as_str()));
                    },
                    _ => {
                        self.say("Usage: /max <positive token count>");
                    },
                }
            },
        }
    }

    /// `/autocompact`: turns summing up near the limit on or off.
    pub fn command_autocompact(&mut self, args: &Vec<String>)
        ensures
            final(self)@ == old(self)@.autocompact_asked(text::texts(args@)),
            old(self).wf() ==> final(self).wf(),
    {
        let on = settings::toggle_value(first_arg(args), self.settings.auto_compact);
        self.settings.auto_compact = on;
        self.keep(Saved::AutoCompact(on));
        self.set_ok(text::cat2("Autocompact ", settings::switch_word(on)));
    }

    fn set_thinking(&mut self, on: bool)
        ensures
            final(self)@ == old(self)@.thinking_set(on),
            old(self).wf() ==> final(self).wf(),
    {
        self.settings.show_thinking = on;
        self.keep(Saved::ShowThinking(on));
        self.set_ok(text::cat2("Thinking ", settings::shown_word(on)));
    }

    /// `/thinking`: shows or hides what the model thinks.
    pub fn command_thinking(&mut self, args: &Vec<String>)
        ensures
            final(self)@ == old(self)@.thinking_asked(text::texts(args@)),
            old(self).wf() ==> final(self).wf(),
    {
        let on = settings::toggle_value(first_arg(args), self.settings.show_thinking);
        self.set_thinking(on);
    }

    /// `/cache-prompt`: turns caching of prompts on or off.
    pub fn command_cache_prompt(&mut self, args: &Vec<String>)
        ensures
            final(self)@ == old(self)@.cache_asked(text::texts(args@)),
            old(self).wf() ==> final(self).wf(),
    {
        let on = match first_arg(args) {
            Some(arg) => !text::same_text(arg.as_str(), "off"),
            None => !self.settings.cache_prompt,
        };
        self.settings.cache_prompt = on;
        self.set_ok(text::cat2("Prompt cache ", settings::switch_word(on)));
        self.ask(Effect::Keep { setting: Saved::CachePrompt(on), report: true });
    }

    /// Chooses a model.
    pub fn choose_model(&mut self, model: String)
        ensures
            final(self)@ == old(self)@.model_chosen(model@),
            old(self).wf() ==> final(self).wf(),
    {
        self.settings.model = text::copy_text(model.as_str());
        self.keep(Saved::Connection(Some(text::copy_text(model.as_str()))));
        self.set_ok(text::cat2("Model: ", model.as_str()));
    }

    /// Asks for the models.
    pub fn start_model_list(&mut self)
        ensures
            final(self)@ == old(self)@.models_asked(),
            old(self).wf() ==> final(self).wf(),
    {
        self.say("Refreshing model list…");
        self.ask(Effect::ListModels);
    }

    /// `/model`: chooses a model, or lists the models to choose from.
    pub fn command_model(&mut self, args: &Vec<String>)
        ensures
            final(self)@ == old(self)@.model_asked(text::texts(args@)),
            old(self).wf() ==> final(self).wf(),
    {
        match first_arg(args) {
            Some(model) => {
                self.choose_model(text::copy_text(model.as_str()));
            },
            None => {
                self.start_model_list();
            },
        }
    }

    pub(crate) fn choose_theme(&mut self, theme: String)
        ensures
            final(self)@ == old(self)@.theme_chosen(theme@),
            old(self).wf() ==> final(self).wf(),
    {
        self.settings.theme = text::copy_text(theme.as_str());
        self.keep(Saved::Theme(text::copy_text(theme.as_str())));
        self.set_ok(text::cat2("Theme: ", theme.as_str()));
    }

    /// `/theme`: chooses a theme, or shows the themes to choose from.
    pub fn command_theme(&mut self, desk: &mut Desk, args: &Vec<String>)
        requires
            old(desk).wf(),
        ensures
            final(desk).wf(),
            desk::scene(*final(self), *final(desk)) == desk::scene(*old(self), *old(desk)).theme_asked(
                text::texts(args@),
            ),
            old(self).wf() ==> final(self).wf(),
    {
        match first_arg(args) {
            Some(theme) => {
                if text::has_text(&desk.themes, theme.as_str()) {
                    self.choose_theme(text::copy_text(theme.as_str()));
                } else {
                    let list = scan::join_texts(&desk.themes, ", ");
                    self.set_error(text::cat2("Unknown theme; choose ", list.as_str()));
                }
            },
            None => {
                let selected: usize = match settings::position_of(
                    &desk.themes,
                    self.settings.theme.as_str(),
                ) {
                    Some(k) => k,
                    None => 0,
                };
                desk.overlay = Overlay::Theme {
                    selected,
                    original: text::copy_text(self.settings.theme.as_str()),
                };
                self.say("Choose a theme — preview is live, Enter keeps it, Esc reverts");
            },
        }
    }

    fn set_bell(&mut self, desk: &mut Desk, on: bool)
        ensures
            desk::scene(*final(self), *final(desk)) == desk::scene(*old(self), *old(desk)).bell_set(on),
            old(self).wf() ==> final(self).wf(),
            old(desk).wf() ==> final(desk).wf(),
    {
        desk.attention_bell = on;
        self.keep(Saved::Bell(on));
        self.set_ok(text::cat2("Bell ", settings::switch_word(on)));
    }

    /// `/attention`: turns the bell on or off.
    pub fn command_attention(&mut self, desk: &mut Desk, args: &Vec<String>)
        ensures
            desk::scene(*final(self), *final(desk)) == desk::scene(*old(self), *old(desk)).bell_set(
                settings::toggled_to(settings::first_of(text::texts(args@)), old(desk)@.bell),
            ),
            old(self).wf() ==> final(self).wf(),
            old(desk).wf() ==> final(desk).wf(),
    {
        let on = settings::toggle_value(first_arg(args), desk.attention_bell);
        self.set_bell(desk, on);
    }

    /// Turns the mouse on or off.
    pub fn set_mouse(&mut self, desk: &mut Desk, on: bool)
        ensures
            desk::scene(*final(self), *final(desk)) == desk::scene(*old(self), *old(desk)).mouse_set(on),
            old(self).wf() ==> final(self).wf(),
            old(desk).wf() ==> final(desk).wf(),
    {
        desk.mouse_enabled = on;
        self.keep(Saved::Mouse(on));
        self.ask(Effect::Mouse { on });
        if on {
            self.did("Mouse on · Shift+drag selects");
        } else {
            self.did("Mouse off");
        }
    }

    /// `/mouse`: turns the mouse on or off.
    pub fn command_mouse(&mut self, desk: &mut Desk, args: &Vec<String>)
        ensures
            desk::scene(*final(self), *final(desk)) == desk::scene(*old(self), *old(desk)).mouse_set(
                settings::toggled_to(settings::first_of(text::texts(args@)), old(desk)@.mouse),
            ),
            old(self).wf() ==> final(self).wf(),
            old(desk).wf() ==> final(desk).wf(),
    {
        let on = settings::toggle_value(first_arg(args), desk.mouse_enabled);
        self.set_mouse(desk, on);
    }

    /// Moves row `index` of the settings list one value on or back.
    #[verifier::spinoff_prover]
    pub fn cycle_setting(&mut self, desk: &mut Desk, index: usize, on: bool)
        requires
            old(desk).wf(),
        ensures
            desk::scene(*final(self), *final(desk)) == desk::scene(*old(self), *old(desk)).setting_cycled(
                index as int,
                on,
            ),
            old(self).wf() ==> final(self).wf(),
            final(desk).wf(),
    {
        if index == 0 {
            let theme = settings::step_value(&desk.themes, self.settings.theme.as_str(), 0, on);
            self.choose_theme(theme);
        } else if index == 1 {
            let list = settings::posture_list();
            assert(text::texts(list@).len() == list@.len());
            let value = settings::step_value(&list, self.settings.permission_posture.as_str(), 2, on);
            self.choose_permissions(value);
        } else if index == 2 {
            let list = settings::reasoning_step_list();
            assert(text::texts(list@).len() == list@.len());
            let value = settings::step_value(&list, self.settings.reasoning_effort.as_str(), 0, on);
            self.choose_reasoning(value);
        } else if index == 3 {
            let next = !self.settings.auto_compact;
            self.settings.auto_compact = next;
            self.keep(Saved::AutoCompact(next));
            self.set_status(text::cat2("Autocompact ", settings::switch_word(next)));
        } else if index == 4 {
            let next = !self.settings.show_thinking;
            self.set_thinking(next);
        } else if index == 5 {
            let next = !desk.attention_bell;
            self.set_bell(desk, next);
        } else if index == 6 {
            let next = !desk.mouse_enabled;
            self.set_mouse(desk, next);
        }
    }

    /// The settings list: what each row is called, and its value.
    pub fn settings_rows(&self, desk: &Desk) -> (r: Vec<(String, String)>)
        ensures
            pairs_view(r@) == desk::scene(*self, *desk).setting_rows(),
    {
        let mut r: Vec<(String, String)> = Vec::new();
        r.push((text::copy_text("Theme"), text::copy_text(self.settings.theme.as_str())));
        r.push(
            (text::copy_text("Permissions"), text::copy_text(self.settings.permission_posture.as_str())),
        );
        r.push((text::copy_text("Reasoning"), text::copy_text(self.settings.reasoning_effort.as_str())));
        r.push((text::copy_text("Autocompact"), text::copy_text(settings::switch_word(self.settings.auto_compact))));
        r.push(
            (text::copy_text("Show thinking"), text::copy_text(settings::switch_word(self.settings.show_thinking))),
        );
        r.push((text::copy_text("Bell"), text::copy_text(settings::switch_word(desk.attention_bell))));
        r.push((text::copy_text("Mouse"), text::copy_text(settings::switch_word(desk.mouse_enabled))));
        assert(pairs_view(r@) =~= desk::scene(*self, *desk).setting_rows());
        r
    }
}

// ---------------------------------------------------------------------------
// Laws
// ---------------------------------------------------------------------------

/// A setting that cannot be read is refused and nothing changes but the status line.
pub proof fn unknown_values_change_nothing(v: PaneView, arg: Seq<char>)
    ensures
        !settings::quality_values().contains(text::lower(arg)) ==> v.quality_asked(seq![arg]).settings
            == v.settings && v.quality_asked(seq![arg]).out == v.out,
        !settings::reasoning_values().contains(text::lower(arg)) ==> v.reasoning_asked(seq![arg]).settings
            == v.settings && v.reasoning_asked(seq![arg]).out == v.out,
        !settings::posture_values().contains(text::lower(arg)) ==> v.permissions_asked(seq![arg]).settings
            == v.settings && v.permissions_asked(seq![arg]).out == v.out,
{
}

/// Turning permissions off forbids code and the network; any other posture that can be
/// chosen allows code.
pub proof fn off_forbids_everything(v: PaneView)
    ensures
        !v.permissions_chosen("off"@).limits().code,
        !v.permissions_chosen("off"@).limits().network,
        !v.permissions_chosen("restricted"@).limits().network,
        v.permissions_chosen("restricted"@).limits().code,
        v.permissions_chosen("full-access"@).limits().network,
{
    reveal_strlit("off");
    reveal_strlit("restricted");
    reveal_strlit("full-access");
    assert("off"@.len() == 3 && "restricted"@.len() == 10 && "full-access"@.len() == 11);
}

} // verus!
