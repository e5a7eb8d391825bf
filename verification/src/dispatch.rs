//! Which command does what.

use crate::choices;
use crate::commands::{CommandFacts, ParsedCommand};
use crate::commands;
use crate::composer;
use crate::desk::{Desk, DeskView, OverlayView, SceneView};
use crate::desk;
use crate::effects::Effect;
use crate::events::{Overlay, StatusTone};
use crate::files;
use crate::palette;
use crate::pane::{Pane, PaneView};
use crate::pane;
use crate::settings::Mode;
use crate::settings;
use crate::text;
use vstd::prelude::*;
use vstd::string::*;

verus! {

/// Whether a text is one of two.
pub open spec fn either(s: Seq<char>, a: Seq<char>, b: Seq<char>) -> bool {
    s == a || s == b
}

impl PaneView {
    /// `/mcp`.
    pub open spec fn mcp_asked(self, args: Seq<Seq<char>>) -> PaneView {
        match settings::first_of(args) {
            None => self.passed_on("/mcp"@, args),
            Some(word) => if word == "reconnect"@ {
                self.said(
                    if args.len() > 1 {
                        "Reconnecting MCP server "@ + args[1] + "…"@
                    } else {
                        "Reconnecting MCP servers…"@
                    },
                ).passed_on("/mcp"@, args)
            } else if word == "tools"@ || either(word, "list"@, "status"@) {
                self.passed_on("/mcp"@, args)
            } else {
                self.said("Usage: /mcp list|tools|reconnect [server] (got "@ + word + ")"@)
            },
        }
    }
}

impl DeskView {
    /// A command that was used just now, if it is one.
    pub open spec fn remembered(self, name: Seq<char>, builtin: bool) -> DeskView {
        let known = builtin || palette::is_custom(self.customs, name);
        DeskView { recent: palette::recents_noted(self.recent, name, known), ..self }
    }
}

impl Desk {
    fn remember(&mut self, name: &str, builtin: bool)
        ensures
            final(self)@ == old(self)@.remembered(name@, builtin),
            final(self).custom_commands == old(self).custom_commands,
            old(self).wf() ==> final(self).wf(),
    {
        let known = builtin || palette::is_custom_command(&self.custom_commands, name);
        palette::note_recent(&mut self.recent_commands, name, known);
    }
}

impl SceneView {
    /// A command that was used just now, if it is one.
    pub open spec fn remembered(self, name: Seq<char>, builtin: bool) -> SceneView {
        SceneView { desk: self.desk.remembered(name, builtin), ..self }
    }

    /// Commands that choose a model, a mode or how to reply.
    #[verifier::opaque]
    pub open spec fn model_command(self, name: Seq<char>, args: Seq<Seq<char>>) -> Option<SceneView> {
        let v = self.pane;
        if name == "/model"@ {
            Some(self.with(v.model_asked(args)))
        } else if name == "/models"@ {
            Some(self.with(v.models_asked()))
        } else if name == "/plan"@ {
            Some(self.with(v.moded(Mode::Plan)))
        } else if name == "/build"@ {
            Some(self.with(v.moded(Mode::Build)))
        } else if name == "/ask"@ {
            Some(self.with(v.moded(Mode::Ask)))
        } else if name == "/quality"@ {
            Some(self.with(v.quality_asked(args)))
        } else if name == "/profile"@ {
            Some(self.with(v.profile_asked(args)))
        } else if name == "/json"@ {
            Some(self.with(v.json_asked(args)))
        } else if name == "/max"@ {
            Some(self.with(v.max_asked(args)))
        } else if name == "/cache-prompt"@ {
            Some(self.with(v.cache_asked(args)))
        } else {
            None
        }
    }

    /// Commands that change other settings.
    #[verifier::opaque]
    pub open spec fn setting_command(self, name: Seq<char>, args: Seq<Seq<char>>) -> Option<SceneView> {
        let v = self.pane;
        if name == "/theme"@ {
            Some(self.theme_asked(args))
        } else if name == "/autocompact"@ {
            Some(self.with(v.autocompact_asked(args)))
        } else if name == "/reasoning"@ {
            Some(self.with(v.reasoning_asked(args)))
        } else if name == "/permissions"@ {
            Some(self.with(v.permissions_asked(args)))
        } else if name == "/thinking"@ {
            Some(self.with(v.thinking_asked(args)))
        } else if name == "/attention"@ {
            Some(self.bell_set(settings::toggled_to(settings::first_of(args), self.desk.bell)))
        } else if name == "/mouse"@ {
            Some(self.mouse_set(settings::toggled_to(settings::first_of(args), self.desk.mouse)))
        } else if name == "/settings"@ {
            Some(self.with(v.said("Settings"@)).covered(OverlayView::Settings { selected: 0 }))
        } else {
            None
        }
    }

    /// Commands that show something.
    #[verifier::opaque]
    pub open spec fn show_command(
        self,
        name: Seq<char>,
        args: Seq<Seq<char>>,
        f: CommandFacts,
    ) -> Option<SceneView> {
        let v = self.pane;
        if either(name, "/"@, "/help"@) {
            Some(
                self.with(v.help_asked(args, f.help@, commands::opt_pair(f.topic), self.desk.customs)),
            )
        } else if name == "/state"@ {
            Some(
                self.with(
                    v.state_asked(f.connection, f.sandbox@, f.approvals@, self.desk.bell),
                ),
            )
        } else if name == "/tokens"@ {
            Some(self.with(v.told(commands::context_note(f.context))))
        } else if name == "/tasks"@ {
            Some(self.with(v.tasks_asked()))
        } else if name == "/commands"@ && settings::first_of(args) != Some("reload"@) {
            Some(
                self.with(
                    v.told(
                        commands::customs_note(
                            self.desk.customs,
                            f.shadowed@,
                            f.commands_dir@,
                            f.project_dir@,
                        ),
                    ),
                ),
            )
        } else if name == "/workflows"@ && settings::first_of(args) != Some("reload"@) {
            Some(self.with(v.told(commands::workflows_note(self.desk.customs))))
        } else if either(name, "/connect"@, "/provider"@) {
            Some(self.connect_asked(args, f.connection, f.url_valid, f.provider@))
        } else {
            None
        }
    }

    /// Commands on the transcript.
    #[verifier::opaque]
    pub open spec fn block_command(self, name: Seq<char>, args: Seq<Seq<char>>) -> Option<SceneView> {
        let v = self.pane;
        if name == "/history"@ {
            Some(self.with(PaneView { log: v.log.history_shown(), ..v }))
        } else if name == "/filter"@ {
            Some(self.with(PaneView { log: v.log.filtered_by(args), ..v }))
        } else if name == "/block"@ {
            Some(self.with(PaneView { log: v.log.block_shown(args), ..v }))
        } else if name == "/expand"@ {
            Some(self.with(PaneView { log: v.log.expanded(args), ..v }))
        } else if name == "/copy"@ {
            Some(self.with(v.copy_asked(args)))
        } else {
            None
        }
    }

    /// Commands on the conversation.
    #[verifier::opaque]
    pub open spec fn flow_command(
        self,
        name: Seq<char>,
        args: Seq<Seq<char>>,
        editor_set: bool,
        now: u64,
    ) -> Option<SceneView> {
        let v = self.pane;
        if name == "/compact"@ {
            Some(self.with(v.compaction_asked()))
        } else if name == "/retry"@ {
            Some(self.with(v.retried(now)))
        } else if name == "/undo"@ {
            Some(self.with(v.undo_asked()))
        } else if name == "/redo"@ {
            Some(self.with(v.redo_asked()))
        } else if name == "/rewind"@ {
            Some(self.with(v.rewind_asked(args)))
        } else if name == "/rerun"@ {
            Some(self.with(v.rerun_asked(args)))
        } else if name == "/clear"@ {
            Some(self.with(v.clear_asked()))
        } else if name == "/exit"@ {
            Some(SceneView { desk: DeskView { quit: true, ..self.desk }, ..self })
        } else if name == "/editor"@ {
            if editor_set {
                Some(SceneView { desk: DeskView { editor: true, ..self.desk }, ..self })
            } else {
                Some(
                    self.with(
                        v.said(
                            "Set $EDITOR to compose prompts externally (e.g. EDITOR=nvim)"@,
                        ),
                    ),
                )
            }
        } else {
            None
        }
    }

    /// Commands whose work is outside the pane.
    #[verifier::opaque]
    pub open spec fn outside_command(self, name: Seq<char>, args: Seq<Seq<char>>) -> Option<SceneView> {
        let v = self.pane;
        if name == "/health"@ {
            Some(self.with(v.said("Checking backend…"@).passed_on(name, args)))
        } else if name == "/profiles"@ {
            Some(self.with(v.said("Loading router profiles…"@).passed_on(name, args)))
        } else if name == "/mcp"@ {
            Some(self.with(v.mcp_asked(args)))
        } else if outside_names().contains(name) {
            Some(self.with(v.passed_on(name, args)))
        } else {
            None
        }
    }

    /// A command of the user.
    pub open spec fn commanded(
        self,
        name: Seq<char>,
        args: Seq<Seq<char>>,
        f: CommandFacts,
    ) -> SceneView {
        let s = self.remembered(name, f.builtin);
        if let Some(t) = s.model_command(name, args) {
            t
        } else if let Some(t) = s.setting_command(name, args) {
            t
        } else if let Some(t) = s.show_command(name, args, f) {
            t
        } else if let Some(t) = s.block_command(name, args) {
            t
        } else if let Some(t) = s.flow_command(name, args, f.editor_set, f.now) {
            t
        } else if let Some(t) = s.outside_command(name, args) {
            t
        } else {
            s.other_asked(
                name,
                composer::opt_text(f.expansion),
                pane::headers_view(f.found@),
                composer::opt_text(f.suggestion),
                f.now,
            )
        }
    }
}

/// Commands that are left to the surroundings as they are.
pub open spec fn outside_names() -> Seq<Seq<char>> {
    seq![
        "/completion"@,
        "/skills"@,
        "/skill"@,
        "/config"@,
        "/workspace"@,
        "/session"@,
        "/export"@,
        "/plugin"@,
        "/preview"@,
        "/map"@,
        "/diff"@,
        "/commands"@,
        "/workflows"@,
    ]
}

fn outside_list() -> (r: Vec<String>)
    ensures
        text::texts(r@) == outside_names(),
{
    let r = settings::own_strs(
        &vec![
            "/completion",
            "/skills",
            "/skill",
            "/config",
            "/workspace",
            "/session",
            "/export",
            "/plugin",
            "/preview",
            "/map",
            "/diff",
            "/commands",
            "/workflows",
        ],
    );
    assert(text::texts(r@) =~= outside_names());
    r
}

fn first_is(args: &Vec<String>, word: &str) -> (r: bool)
    ensures
        r == (settings::first_of(text::texts(args@)) == Some(word@)),
{
    match choices::first_arg(args) {
        Some(s) => text::same_text(s.as_str(), word),
        None => false,
    }
}

impl Pane {
    /// `/mcp`: asks for the servers, their tools, or a new connection to them.
    pub fn command_mcp(&mut self, args: &Vec<String>)
        ensures
            final(self)@ == old(self)@.mcp_asked(text::texts(args@)),
            old(self).wf() ==> final(self).wf(),
    {
        assert(text::texts(args@).len() == args@.len());
        if args.len() > 0 {
            assert(text::texts(args@)[0] == args@[0]@);
            let word = args[0].as_str();
            if text::same_text(word, "reconnect") {
                let text = if args.len() > 1 {
                    assert(text::texts(args@)[1] == args@[1]@);
                    text::cat3("Reconnecting MCP server ", args[1].as_str(), "…")
                } else {
                    text::copy_text("Reconnecting MCP servers…")
                };
                self.set_status(text);
            } else if !text::same_text(word, "tools") && !text::same_text(word, "list") && !text::same_text(
                word,
                "status",
            ) {
                self.set_status(
                    text::cat3("Usage: /mcp list|tools|reconnect [server] (got ", word, ")"),
                );
                return;
            }
        }
        self.pass_on("/mcp", args);
    }

    fn pass_on(&mut self, name: &str, args: &Vec<String>)
        ensures
            final(self)@ == old(self)@.passed_on(name@, text::texts(args@)),
            old(self).wf() ==> final(self).wf(),
    {
        self.ask(Effect::Command { name: text::copy_text(name), args: text::copy_texts(args) });
    }

    fn run_model_command(&mut self, desk: &Desk, name: &str, args: &Vec<String>) -> (r: bool)
        requires
            old(self).wf(),
        ensures
            final(self).wf(),
            match desk::scene(*old(self), *desk).model_command(name@, text::texts(args@)) {
                Some(t) => r && desk::scene(*final(self), *desk) == t,
                None => !r && *final(self) == *old(self),
            },
    {
        reveal(SceneView::model_command);
        if text::same_text(name, "/model") {
            self.command_model(args);
        } else if text::same_text(name, "/models") {
            self.start_model_list();
        } else if text::same_text(name, "/plan") {
            self.set_mode(Mode::Plan);
        } else if text::same_text(name, "/build") {
            self.set_mode(Mode::Build);
        } else if text::same_text(name, "/ask") {
            self.set_mode(Mode::Ask);
        } else if text::same_text(name, "/quality") {
            self.command_quality(args);
        } else if text::same_text(name, "/profile") {
            self.command_profile(args);
        } else if text::same_text(name, "/json") {
            self.command_json(args);
        } else if text::same_text(name, "/max") {
            self.command_max(args);
        } else if text::same_text(name, "/cache-prompt") {
            self.command_cache_prompt(args);
        } else {
            return false;
        }
        true
    }

    fn run_setting_command(&mut self, desk: &mut Desk, name: &str, args: &Vec<String>) -> (r: bool)
        requires
            old(self).wf(),
            old(desk).wf(),
        ensures
            final(self).wf(),
            final(desk).wf(),
            match desk::scene(*old(self), *old(desk)).setting_command(name@, text::texts(args@)) {
                Some(t) => r && desk::scene(*final(self), *final(desk)) == t,
                None => !r && *final(self) == *old(self) && *final(desk) == *old(desk),
            },
    {
        reveal(SceneView::setting_command);
        if text::same_text(name, "/theme") {
            self.command_theme(desk, args);
        } else if text::same_text(name, "/autocompact") {
            self.command_autocompact(args);
        } else if text::same_text(name, "/reasoning") {
            self.command_reasoning(args);
        } else if text::same_text(name, "/permissions") {
            self.command_permissions(args);
        } else if text::same_text(name, "/thinking") {
            self.command_thinking(args);
        } else if text::same_text(name, "/attention") {
            self.command_attention(desk, args);
        } else if text::same_text(name, "/mouse") {
            self.command_mouse(desk, args);
        } else if text::same_text(name, "/settings") {
            desk.overlay = Overlay::Settings { selected: 0 };
            self.say("Settings");
        } else {
            return false;
        }
        true
    }

    fn run_show_command(
        &mut self,
        desk: &mut Desk,
        name: &str,
        args: &Vec<String>,
        f: &CommandFacts,
    ) -> (r: bool)
        requires
            old(self).wf(),
            old(desk).wf(),
            f.shadowed@.len() == old(desk).custom_commands@.len(),
        ensures
            final(self).wf(),
            final(desk).wf(),
            match desk::scene(*old(self), *old(desk)).show_command(name@, text::texts(args@), *f) {
                Some(t) => r && desk::scene(*final(self), *final(desk)) == t,
                None => !r && *final(self) == *old(self) && *final(desk) == *old(desk),
            },
    {
        reveal(SceneView::show_command);
        if text::same_text(name, "/") || text::same_text(name, "/help") {
            self.command_help(args, f.help.as_str(), &f.topic, &desk.custom_commands);
        } else if text::same_text(name, "/state") {
            self.command_state(
                &f.connection,
                f.sandbox.as_str(),
                f.approvals.as_str(),
                desk.attention_bell,
            );
        } else if text::same_text(name, "/tokens") {
            let text = commands::tokens_text(&f.context);
            self.push_system(text.as_str());
        } else if text::same_text(name, "/tasks") {
            self.command_tasks();
        } else if text::same_text(name, "/commands") && !first_is(args, "reload") {
            self.command_custom_commands(
                desk,
                false,
                &f.shadowed,
                f.commands_dir.as_str(),
                f.project_dir.as_str(),
            );
        } else if text::same_text(name, "/workflows") && !first_is(args, "reload") {
            self.command_workflows(desk);
        } else if text::same_text(name, "/connect") || text::same_text(name, "/provider") {
            self.command_connect(desk, args, &f.connection, f.url_valid, f.provider.as_str());
        } else {
            return false;
        }
        true
    }

    fn run_block_command(&mut self, desk: &Desk, name: &str, args: &Vec<String>) -> (r: bool)
        requires
            old(self).wf(),
        ensures
            final(self).wf(),
            match desk::scene(*old(self), *desk).block_command(name@, text::texts(args@)) {
                Some(t) => r && desk::scene(*final(self), *desk) == t,
                None => !r && *final(self) == *old(self),
            },
    {
        reveal(SceneView::block_command);
        if text::same_text(name, "/history") {
            self.log.command_history();
        } else if text::same_text(name, "/filter") {
            self.log.command_filter(args);
        } else if text::same_text(name, "/block") {
            self.log.command_block(args);
        } else if text::same_text(name, "/expand") {
            self.log.command_expand(args);
        } else if text::same_text(name, "/copy") {
            self.command_copy(args);
        } else {
            return false;
        }
        true
    }

    fn run_flow_command(
        &mut self,
        desk: &mut Desk,
        name: &str,
        args: &Vec<String>,
        editor_set: bool,
        now: u64,
    ) -> (r: bool)
        requires
            old(self).wf(),
            old(desk).wf(),
        ensures
            final(self).wf(),
            final(desk).wf(),
            match desk::scene(*old(self), *old(desk)).flow_command(
                name@,
                text::texts(args@),
                editor_set,
                now,
            ) {
                Some(t) => r && desk::scene(*final(self), *final(desk)) == t,
                None => !r && *final(self) == *old(self) && *final(desk) == *old(desk),
            },
    {
        reveal(SceneView::flow_command);
        if text::same_text(name, "/compact") {
            self.command_compact();
        } else if text::same_text(name, "/retry") {
            self.command_retry(now);
        } else if text::same_text(name, "/undo") {
            self.command_undo();
        } else if text::same_text(name, "/redo") {
            self.command_redo();
        } else if text::same_text(name, "/rewind") {
            self.command_rewind(args);
        } else if text::same_text(name, "/rerun") {
            self.command_rerun(args);
        } else if text::same_text(name, "/clear") {
            self.command_clear();
        } else if text::same_text(name, "/exit") {
            desk.quit = true;
        } else if text::same_text(name, "/editor") {
            if editor_set {
                desk.editor_requested = true;
            } else {
                self.say("Set $EDITOR to compose prompts externally (e.g. EDITOR=nvim)");
            }
        } else {
            return false;
        }
        true
    }

    fn run_outside_command(&mut self, desk: &Desk, name: &str, args: &Vec<String>) -> (r: bool)
        requires
            old(self).wf(),
        ensures
            final(self).wf(),
            match desk::scene(*old(self), *desk).outside_command(name@, text::texts(args@)) {
                Some(t) => r && desk::scene(*final(self), *desk) == t,
                None => !r && *final(self) == *old(self),
            },
    {
        reveal(SceneView::outside_command);
        let names = outside_list();
        if text::same_text(name, "/health") {
            self.say("Checking backend…");
            self.pass_on(name, args);
        } else if text::same_text(name, "/profiles") {
            self.say("Loading router profiles…");
            self.pass_on(name, args);
        } else if text::same_text(name, "/mcp") {
            self.command_mcp(args);
        } else if text::has_text(&names, name) {
            self.pass_on(name, args);
        } else {
            return false;
        }
        true
    }

    /// Runs a command of the user.
    pub fn handle_command(&mut self, desk: &mut Desk, parsed: &ParsedCommand, f: &CommandFacts)
        requires
            old(self).wf(),
            old(desk).wf(),
            f.shadowed@.len() == old(desk).custom_commands@.len(),
            f.expansion matches Some(p) ==> f.found@.len() == files::refs_of(p@).len(),
        ensures
            final(self).wf(),
            final(desk).wf(),
            desk::scene(*final(self), *final(desk)) == desk::scene(*old(self), *old(desk)).commanded(
                parsed.name@,
                text::texts(parsed.args@),
                *f,
            ),
    {
        let name = parsed.name.as_str();
        let args = &parsed.args;
        desk.remember(name, f.builtin);
        if self.run_model_command(desk, name, args) {
            return;
        }
        if self.run_setting_command(desk, name, args) {
            return;
        }
        if self.run_show_command(desk, name, args, f) {
            return;
        }
        if self.run_block_command(desk, name, args) {
            return;
        }
        if self.run_flow_command(desk, name, args, f.editor_set, f.now) {
            return;
        }
        if self.run_outside_command(desk, name, args) {
            return;
        }
        let expansion = composer::copy_opt(&f.expansion);
        self.run_other(desk, name, expansion, &f.found, &f.suggestion, f.now);
    }
}

// ---------------------------------------------------------------------------
// Laws
// ---------------------------------------------------------------------------

/// A misspelt command changes nothing but the status line: it is not remembered, and
/// nothing is asked for.
pub proof fn unknown_commands_change_nothing(s: SceneView, name: Seq<char>, f: CommandFacts)
    requires
        !f.builtin,
        !palette::is_custom(s.desk.customs, name),
        palette::custom_at(s.desk.customs, name) is None,
        s.model_command(name, Seq::empty()) is None,
        s.setting_command(name, Seq::empty()) is None,
        s.show_command(name, Seq::empty(), f) is None,
        s.block_command(name, Seq::empty()) is None,
        s.flow_command(name, Seq::empty(), f.editor_set, f.now) is None,
        s.outside_command(name, Seq::empty()) is None,
    ensures
        ({
            let t = s.commanded(name, Seq::empty(), f);
            &&& t.desk == s.desk
            &&& t.pane.out == s.pane.out
            &&& t.pane.log.history == s.pane.log.history
            &&& t.pane.log.tone == StatusTone::Error
        }),
{
}

} // verus!
