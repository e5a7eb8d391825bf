//! Commands of the user: what each does to the pane, and what it asks of the
//! surroundings.

use crate::choices;
use crate::composer;
use crate::desk::{Desk, DeskView, OverlayView, SceneView};
use crate::desk;
use crate::effects::{BackupReason, CopiedPart, Effect, EffectView};
use crate::events::Overlay;
use crate::files;
use crate::filters;
use crate::menus::MenuView;
use crate::palette::{CustomCommand, CustomView};
use crate::palette;
use crate::pane::{Pane, PaneView};
use crate::pane;
use crate::replies;
use crate::run::RunView;
use crate::scan;
use crate::settings;
use crate::text;
use crate::transcript::TranscriptView;
use crate::transcript;
use vstd::prelude::*;
use vstd::string::*;

verus! {

/// A command and its arguments.
#[derive(Debug, Clone, PartialEq, Eq)]
pub struct ParsedCommand {
    pub name: String,
    pub args: Vec<String>,
}

/// The connection in use, in words.
#[derive(Debug, Clone, PartialEq, Eq)]
pub struct ConnectionText {
    pub name: String,
    pub backend: String,
    pub url: String,
}

/// How much of the context of the model is used, in words.
#[derive(Debug, Clone, PartialEq, Eq)]
pub struct ContextText {
    pub used: u64,
    pub total: u64,
    /// The share that is used, in percent with one decimal.
    pub percent: String,
    /// How the numbers are known.
    pub source: String,
    pub cache_hit: Option<u64>,
    pub cache_miss: Option<u64>,
}

/// What the surroundings know about a command.
#[derive(Debug, Clone)]
pub struct CommandFacts {
    /// The name is that of a built-in command.
    pub builtin: bool,
    /// The list of all commands.
    pub help: String,
    /// How the built-in command that the first argument names is used, and what it does.
    pub topic: Option<(String, String)>,
    /// The prompt of an added command, with the arguments in place.
    pub expansion: Option<String>,
    /// What the references of that prompt stand for.
    pub found: Vec<Option<String>>,
    /// The command that the name is closest to.
    pub suggestion: Option<String>,
    pub connection: ConnectionText,
    pub sandbox: String,
    pub approvals: String,
    pub context: ContextText,
    /// The second argument is the address of a provider.
    pub url_valid: bool,
    /// The provider that the first argument names.
    pub provider: String,
    /// There is an outside editor.
    pub editor_set: bool,
    /// Where the added commands of the user and of the workspace are.
    pub commands_dir: String,
    pub project_dir: String,
    /// For each added command, whether a built-in command hides it.
    pub shadowed: Vec<bool>,
    pub now: u64,
}

// ---------------------------------------------------------------------------
// Texts
// ---------------------------------------------------------------------------

/// What is said of the use of the prompt cache.
pub open spec fn cache_note(hit: Option<u64>, miss: Option<u64>) -> Seq<char> {
    match hit {
        Some(h) => match miss {
            Some(m) => " · cache hit "@ + scan::decimal(h as nat) + " / miss "@ + scan::decimal(m as nat),
            None => " · cache hit "@ + scan::decimal(h as nat),
        },
        None => Seq::empty(),
    }
}

/// What is said of the use of the context.
pub open spec fn context_note(c: ContextText) -> Seq<char> {
    "Context: "@ + scan::decimal(c.used as nat) + " / "@ + scan::decimal(c.total as nat) + " tokens ("@
        + c.percent@ + "%, "@ + c.source@ + " confidence)"@ + cache_note(c.cache_hit, c.cache_miss)
}

/// What is said of the use of the context.
pub fn tokens_text(c: &ContextText) -> (r: String)
    ensures
        r@ == context_note(*c),
{
    let cache = match c.cache_hit {
        Some(h) => {
            let a = scan::decimal_text(h);
            match c.cache_miss {
                Some(m) => {
                    let b = scan::decimal_text(m);
                    text::cat4(" · cache hit ", a.as_str(), " / miss ", b.as_str())
                },
                None => text::cat2(" · cache hit ", a.as_str()),
            }
        },
        None => String::new(),
    };
    assert(c.cache_hit is None ==> cache@ =~= Seq::empty());
    let used = scan::decimal_text(c.used);
    let total = scan::decimal_text(c.total);
    let head = text::cat5("Context: ", used.as_str(), " / ", total.as_str(), " tokens (");
    let mid = text::cat5(head.as_str(), c.percent.as_str(), "%, ", c.source.as_str(), " confidence)");
    text::cat2(mid.as_str(), cache.as_str())
}

/// What `/help` says of an added command.
pub open spec fn custom_help(c: CustomView) -> Seq<char> {
    "/"@ + c.name + "\n  "@ + c.description + (match c.hint {
        Some(hint) => "\n  arguments: "@ + hint,
        None => Seq::empty(),
    }) + "\n  source: "@ + c.source + " ("@ + c.path + ")"@
}

fn custom_help_text(c: &CustomCommand) -> (r: String)
    ensures
        r@ == custom_help(c@),
{
    let head = text::cat4("/", c.name.as_str(), "\n  ", c.description.as_str());
    let hint = match &c.argument_hint {
        Some(hint) => text::cat2("\n  arguments: ", hint.as_str()),
        None => String::new(),
    };
    assert(c.argument_hint is None ==> hint@ =~= Seq::empty());
    let tail = text::cat5("\n  source: ", c.source.as_str(), " (", c.path.as_str(), ")");
    let r = text::cat3(head.as_str(), hint.as_str(), tail.as_str());
    assert(r@ =~= custom_help(c@));
    r
}

/// The rows of the first `n` added commands, with a note on those that are hidden.
pub open spec fn custom_rows(list: Seq<CustomView>, shadowed: Seq<bool>, n: int) -> Seq<Seq<char>>
    decreases n,
{
    if n <= 0 {
        Seq::empty()
    } else {
        let c = list[n - 1];
        custom_rows(list, shadowed, n - 1).push(
            "  /"@ + scan::pad_right(c.name, 18) + " "@ + c.description + " ("@ + c.source + ")"@ + (
            if shadowed[n - 1] {
                " (shadowed by built-in)"@
            } else {
                Seq::empty()
            }),
        )
    }
}

/// The list of the added commands.
pub open spec fn customs_note(
    list: Seq<CustomView>,
    shadowed: Seq<bool>,
    dir: Seq<char>,
    project: Seq<char>,
) -> Seq<char> {
    if list.len() == 0 {
        "No saved workflows. Add name.md files in\n  "@ + dir + "\n  "@ + project
    } else {
        scan::join(
            seq!["Saved workflows"@, Seq::empty()] + custom_rows(
                list,
                shadowed,
                list.len() as int,
            ),
            "\n"@,
        )
    }
}

/// How many of the first `n` marks are set.
pub open spec fn marked(list: Seq<bool>, n: int) -> nat
    decreases n,
{
    if n <= 0 {
        0
    } else {
        marked(list, n - 1) + (if list[n - 1] {
            1nat
        } else {
            0nat
        })
    }
}

/// What is said when the added commands were read anew.
pub open spec fn reload_note(count: nat, hidden: nat) -> Seq<char> {
    "Reloaded "@ + scan::decimal(count) + (if hidden == 0 {
        " workflow(s)"@
    } else {
        " workflow(s); "@ + scan::decimal(hidden) + " shadowed by built-ins"@
    })
}

/// The rows of the first `n` added commands, as workflows.
pub open spec fn workflow_rows(list: Seq<CustomView>, n: int) -> Seq<Seq<char>>
    decreases n,
{
    if n <= 0 {
        Seq::empty()
    } else {
        workflow_rows(list, n - 1).push(
            "/"@ + scan::pad_right(list[n - 1].name, 18) + " "@ + list[n - 1].description,
        )
    }
}

/// The list of workflows.
pub open spec fn workflows_note(list: Seq<CustomView>) -> Seq<char> {
    if list.len() == 0 {
        "No saved workflows yet. Add name.md files to the commands directories, then /workflows reload."@
    } else {
        scan::join(
            (seq!["Saved workflows"@, Seq::empty()] + workflow_rows(list, list.len() as int)).push(
                Seq::empty(),
            ).push("Run with /<name> [args] · Ctrl+P to find"@),
            "\n"@,
        )
    }
}

fn customs_text(list: &Vec<CustomCommand>, shadowed: &Vec<bool>, dir: &str, project: &str) -> (r:
    String)
    requires
        shadowed@.len() == list@.len(),
    ensures
        r@ == customs_note(palette::customs_view(list@), shadowed@, dir@, project@),
{
    let ghost all = palette::customs_view(list@);
    assert(all.len() == list@.len());
    if list.len() == 0 {
        return text::cat4("No saved workflows. Add name.md files in\n  ", dir, "\n  ", project);
    }
    let mut rows: Vec<String> = Vec::new();
    rows.push(text::copy_text("Saved workflows"));
    rows.push(String::new());
    let ghost top = seq!["Saved workflows"@, Seq::<char>::empty()];
    assert(text::texts(rows@) =~= top + custom_rows(all, shadowed@, 0));
    for i in 0..list.len()
        invariant
            shadowed@.len() == list@.len(),
            all == palette::customs_view(list@),
            text::texts(rows@) == top + custom_rows(all, shadowed@, i as int),
    {
        assert(all[i as int] == list@[i as int]@);
        let name = scan::pad_right_text(list[i].name.as_str(), 18);
        let head = text::cat5("  /", name.as_str(), " ", list[i].description.as_str(), " (");
        let tail = if shadowed[i] {
            ") (shadowed by built-in)"
        } else {
            ")"
        };
        proof {
            reveal_strlit(")");
            reveal_strlit(" (shadowed by built-in)");
            reveal_strlit(") (shadowed by built-in)");
            assert(") (shadowed by built-in)"@ =~= ")"@ + " (shadowed by built-in)"@);
            assert(")"@ + Seq::<char>::empty() =~= ")"@);
        }
        let row = text::cat3(head.as_str(), list[i].source.as_str(), tail);
        let ghost want = custom_rows(all, shadowed@, i + 1).last();
        assert(row@ =~= want);
        proof {
            text::texts_push(rows@, row);
        }
        rows.push(row);
        assert(text::texts(rows@) =~= top + custom_rows(all, shadowed@, i + 1));
    }
    scan::join_texts(&rows, "\n")
}

fn workflows_text(list: &Vec<CustomCommand>) -> (r: String)
    ensures
        r@ == workflows_note(palette::customs_view(list@)),
{
    let ghost all = palette::customs_view(list@);
    assert(all.len() == list@.len());
    if list.len() == 0 {
        return text::copy_text(
            "No saved workflows yet. Add name.md files to the commands directories, then /workflows reload.",
        );
    }
    let mut rows: Vec<String> = Vec::new();
    rows.push(text::copy_text("Saved workflows"));
    rows.push(String::new());
    let ghost top = seq!["Saved workflows"@, Seq::<char>::empty()];
    assert(text::texts(rows@) =~= top + workflow_rows(all, 0));
    for i in 0..list.len()
        invariant
            all == palette::customs_view(list@),
            text::texts(rows@) == top + workflow_rows(all, i as int),
    {
        assert(all[i as int] == list@[i as int]@);
        let name = scan::pad_right_text(list[i].name.as_str(), 18);
        let row = text::cat4("/", name.as_str(), " ", list[i].description.as_str());
        proof {
            text::texts_push(rows@, row);
        }
        rows.push(row);
        assert(text::texts(rows@) =~= top + workflow_rows(all, i + 1));
    }
    rows.push(String::new());
    rows.push(text::copy_text("Run with /<name> [args] · Ctrl+P to find"));
    assert(text::texts(rows@) =~= (top + workflow_rows(all, all.len() as int)).push(Seq::empty()).push(
        "Run with /<name> [args] · Ctrl+P to find"@,
    ));
    scan::join_texts(&rows, "\n")
}

// ---------------------------------------------------------------------------
// Single commands
// ---------------------------------------------------------------------------

impl PaneView {
    /// `/help`: all commands, or one.
    pub open spec fn help_asked(
        self,
        args: Seq<Seq<char>>,
        help: Seq<char>,
        topic: Option<(Seq<char>, Seq<char>)>,
        customs: Seq<CustomView>,
    ) -> PaneView {
        match settings::first_of(args) {
            None => self.told(help),
            Some(name) => match topic {
                Some((usage, description)) => self.told(usage + "\n  "@ + description),
                None => match palette::custom_at(customs, name) {
                    Some(i) => self.told(custom_help(customs[i])),
                    None => self.told(help),
                },
            },
        }
    }

    /// `/state`.
    pub open spec fn state_asked(
        self,
        c: ConnectionText,
        sandbox: Seq<char>,
        approvals: Seq<char>,
        bell: bool,
    ) -> PaneView {
        let s = self.settings;
        self.told(
            "Mode: "@ + settings::mode_name(self.mode) + " · Model: "@ + s.model + " ("@ + c.name@ + ")\nBackend: "@
                + c.backend@ + " · "@ + c.url@ + "\nPermissions: "@ + s.posture + " · Sandbox: "@
                + sandbox + " · Approvals: "@ + approvals + "\nThinking: "@ + settings::shown_hidden(
                s.show_thinking,
            ) + " · Reasoning: "@ + s.reasoning + " · Bell: "@ + settings::on_off(bell) + "\nQuality: "@
                + palette::or_auto(s.quality) + " · Profile: "@ + palette::or_auto(s.profile),
        )
    }

    /// `/tasks`.
    pub open spec fn tasks_asked(self) -> PaneView {
        self.told(
            "busy="@ + (if self.run.busy {
                "true"@
            } else {
                "false"@
            }) + " queued="@ + scan::decimal(self.run.queue.len()) + " tool_round="@ + scan::decimal(
                self.run.round as nat,
            ),
        )
    }

    /// `/undo`: the last exchange taken back, its prompt in the draft again.
    pub open spec fn undo_asked(self) -> PaneView {
        if self.run.busy {
            self.failed("Finish the active request before undoing"@)
        } else {
            let v = PaneView { log: self.log.undone(), ..self };
            match transcript::user_back(self.log.history, self.log.history.len() as int, 1) {
                Some(index) => PaneView {
                    at_menu: MenuView { key: Seq::empty(), ..v.at_menu },
                    ..v.drafted(self.log.history[index].content)
                },
                None => v,
            }
        }
    }

    /// `/redo`: the latest undone exchange put back.
    pub open spec fn redo_asked(self) -> PaneView {
        if self.run.busy {
            self.failed("Finish the active request before redoing"@)
        } else {
            PaneView { log: self.log.redone(), ..self }
        }
    }

    /// `/rewind`: the last turns cut off, once there is a copy.
    pub open spec fn rewind_asked(self, args: Seq<Seq<char>>) -> PaneView {
        match self.log.rewind_at(self.run.busy, args) {
            Ok(index) => self.asking(
                EffectView::Backup { reason: BackupReason::Rewind { index: index as usize } },
            ),
            Err(text) => self.failed(text),
        }
    }

    /// `/clear`: the conversation emptied, once there is a copy.
    pub open spec fn clear_asked(self) -> PaneView {
        if self.log.history.len() == 0 {
            self.emptied().did("Cleared"@)
        } else {
            self.asking(EffectView::Backup { reason: BackupReason::Clear })
        }
    }

    /// The conversation emptied.
    pub open spec fn emptied(self) -> PaneView {
        PaneView {
            log: TranscriptView {
                history: Seq::empty(),
                redo: Seq::empty(),
                ..self.log
            }.pruned(),
            run: RunView { reply: Seq::empty(), reasoning: Seq::empty(), ..self.run },
            ..self
        }
    }

    /// What a copy was made for goes on; without a copy nothing is lost.
    pub open spec fn backed_up(
        self,
        reason: BackupReason,
        backup: Result<Seq<char>, Seq<char>>,
        now: u64,
    ) -> PaneView {
        match reason {
            BackupReason::Compact { automatic } => self.compaction_backed_up(
                backup,
                automatic,
                now,
            ),
            BackupReason::Rewind { index } => match backup {
                Ok(name) => PaneView { log: self.log.rewound(index as int, name), ..self },
                Err(error) => self.failed("Rewind backup failed, session kept: "@ + error),
            },
            BackupReason::Clear => match backup {
                Ok(name) => self.emptied().did("Cleared · backup "@ + name),
                Err(error) => self.failed("Clear backup failed, session kept: "@ + error),
            },
        }
    }

    /// `/rerun`: an earlier prompt sent again; a command is only put into the draft.
    pub open spec fn rerun_asked(self, args: Seq<Seq<char>>) -> PaneView {
        if self.run.busy {
            self.failed("Finish the active request before rerunning"@)
        } else if args.len() > 0 && filters::block_number(args[0]) is None {
            self.said("Usage: /rerun [n]"@)
        } else {
            let arg = if args.len() > 0 {
                Some(filters::block_number(args[0])->0 as int)
            } else {
                None
            };
            match replies::rerun_outcome(self.log.history, arg) {
                Err(error) => self.failed(error),
                Ok(prompt) => {
                    let v = self.drafted(prompt);
                    let w = PaneView {
                        at_menu: MenuView { key: Seq::empty(), ..v.at_menu },
                        ..v
                    };
                    if scan::begins(prompt, "/"@) {
                        w.said("Rerun prefilled — Enter re-dispatches the command"@)
                    } else {
                        w.asking(EffectView::Submit)
                    }
                },
            }
        }
    }

    /// `/copy n`.
    #[verifier::opaque]
    pub open spec fn code_copied(self, arg: Seq<char>) -> PaneView {
        match scan::parse_up_to(arg, filters::index_max()) {
            Some(n) => if n == 0 {
                self.said("Usage: /copy [n] (nth fenced code block)"@)
            } else {
                let blocks = replies::fenced(self.run.last);
                if n <= blocks.len() {
                    self.asking(
                        EffectView::Copy {
                            text: blocks[n - 1],
                            what: CopiedPart::Code { number: n as usize },
                        },
                    )
                } else {
                    self.failed(
                        "Code block "@ + scan::decimal(n) + " not found ("@ + scan::decimal(blocks.len())
                            + " fenced block(s) in last response)"@,
                    )
                }
            },
            None => self.said("Usage: /copy [n] (nth fenced code block)"@),
        }
    }

    /// `/copy out`.
    #[verifier::opaque]
    pub open spec fn block_copied(self, arg: Option<Seq<char>>) -> PaneView {
        let v = PaneView { log: self.log.copy_prepared(arg), ..self };
        match self.log.copy_index(arg) {
            Some(index) => v.asking(
                EffectView::Copy {
                    text: self.log.copy_text_of(index),
                    what: CopiedPart::Block { number: (index + 1) as usize },
                },
            ),
            None => v,
        }
    }

    /// `/copy`: the last reply, one of its code blocks, or a block of the transcript.
    pub open spec fn copy_asked(self, args: Seq<Seq<char>>) -> PaneView {
        if args.len() > 0 && args[0] == "out"@ {
            self.block_copied(
                if args.len() > 1 {
                    Some(args[1])
                } else {
                    None
                },
            )
        } else if self.run.last.len() == 0 {
            self.failed("There is no response to copy"@)
        } else if args.len() == 0 {
            self.asking(EffectView::Copy { text: self.run.last, what: CopiedPart::Reply })
        } else {
            self.code_copied(args[0])
        }
    }

    /// A text was put on the clipboard, or not.
    pub open spec fn copied(self, what: CopiedPart, count: nat, done: bool) -> PaneView {
        if !done {
            self.failed("Clipboard unavailable (try pbcopy, wl-copy, xclip, or clip)"@)
        } else {
            self.did(
                match what {
                    CopiedPart::Reply => "Copied "@ + scan::decimal(count) + " characters"@,
                    CopiedPart::Code { number } => "Copied code block "@ + scan::decimal(number as nat)
                        + " ("@ + scan::decimal(count) + " characters)"@,
                    CopiedPart::Block { number } => "Copied block "@ + scan::decimal(number as nat)
                        + " ("@ + scan::decimal(count) + " characters)"@,
                },
            )
        }
    }

    /// A command left to the surroundings.
    pub open spec fn passed_on(self, name: Seq<char>, args: Seq<Seq<char>>) -> PaneView {
        self.asking(EffectView::Command { name, args })
    }
}

impl SceneView {
    /// `/connect`.
    pub open spec fn connect_asked(
        self,
        args: Seq<Seq<char>>,
        c: ConnectionText,
        url_valid: bool,
        provider: Seq<char>,
    ) -> SceneView {
        let v = self.pane;
        match settings::first_of(args) {
            None => self.with(v.said("Choose a provider; credentials stay in memory"@)).covered(
                OverlayView::Providers { selected: 0, scroll: 0 },
            ),
            Some(word) => if word == "status"@ || word == "show"@ {
                self.with(
                    v.told(
                        "provider="@ + c.name@ + " backend="@ + c.backend@ + " url="@ + c.url@
                            + " model="@ + v.settings.model,
                    ),
                )
            } else if word == "url"@ || word == "custom"@ {
                if args.len() > 1 {
                    if url_valid {
                        self.provider_opened("custom"@, Some(args[1]))
                    } else {
                        self.with(v.failed("Invalid custom URL"@))
                    }
                } else {
                    self.url_asked("custom"@)
                }
            } else {
                match desk::preset_from(self.desk.presets, provider, 0) {
                    Some(i) => if self.desk.presets[i].asks_for_url && args.len() <= 1 {
                        self.url_asked(provider)
                    } else {
                        self.provider_opened(
                            provider,
                            if args.len() > 1 {
                                Some(args[1])
                            } else {
                                None
                            },
                        )
                    },
                    None => self.with(
                        v.noted(
                            "Unknown provider '"@ + provider + "'; use /connect to browse"@,
                            v.log.tone,
                        ),
                    ),
                }
            },
        }
    }

    /// The added commands taken anew.
    pub open spec fn customs_taken(self, list: Seq<CustomView>) -> SceneView {
        SceneView {
            desk: DeskView { customs: list, ..self.desk },
            pane: PaneView {
                arg_menu: MenuView { key: Seq::empty(), ..self.pane.arg_menu },
                ..self.pane
            },
        }
    }

    /// A command that is not built in: an added one is sent as a prompt, any other is
    /// refused, with the closest command where there is one.
    pub open spec fn other_asked(
        self,
        name: Seq<char>,
        expansion: Option<Seq<char>>,
        found: Seq<Option<Seq<char>>>,
        suggestion: Option<Seq<char>>,
        now: u64,
    ) -> SceneView {
        match palette::custom_at(self.desk.customs, name) {
            Some(i) => match expansion {
                Some(prompt) => {
                    let custom = self.desk.customs[i];
                    let v = self.pane.submitted(prompt, found, now);
                    self.with(
                        v.said(
                            "Expanded /"@ + custom.name + " ("@ + custom.source + ") · "@
                                + v.log.status,
                        ),
                    )
                },
                None => self,
            },
            None => self.with(
                match suggestion {
                    Some(hit) => self.pane.failed(
                        "Unknown command "@ + name + "; did you mean "@ + hit + "?"@,
                    ),
                    None => self.pane.failed("Unknown command "@ + name + "; type /help"@),
                },
            ),
        }
    }
}

/// What an optional pair of texts holds.
pub open spec fn opt_pair(o: Option<(String, String)>) -> Option<(Seq<char>, Seq<char>)> {
    match o {
        Some(p) => Some((p.0@, p.1@)),
        None => None,
    }
}

impl Pane {
    /// `/help`: lists all commands, or says how one is used.
    pub fn command_help(
        &mut self,
        args: &Vec<String>,
        help: &str,
        topic: &Option<(String, String)>,
        customs: &Vec<CustomCommand>,
    )
        ensures
            final(self)@ == old(self)@.help_asked(
                text::texts(args@),
                help@,
                opt_pair(*topic),
                palette::customs_view(customs@),
            ),
            old(self).wf() ==> final(self).wf(),
    {
        match choices::first_arg(args) {
            None => {
                self.push_system(help);
            },
            Some(name) => match topic {
                Some(pair) => {
                    let text = text::cat3(pair.0.as_str(), "\n  ", pair.1.as_str());
                    self.push_system(text.as_str());
                },
                None => match palette::find_custom_command(customs, name.as_str()) {
                    Some(i) => {
                        assert(palette::customs_view(customs@)[i as int] == customs@[i as int]@);
                        let text = custom_help_text(&customs[i]);
                        self.push_system(text.as_str());
                    },
                    None => {
                        self.push_system(help);
                    },
                },
            },
        }
    }

    /// `/state`: says how the pane is set up.
    pub fn command_state(
        &mut self,
        connection: &ConnectionText,
        sandbox: &str,
        approvals: &str,
        bell: bool,
    )
        ensures
            final(self)@ == old(self)@.state_asked(*connection, sandbox@, approvals@, bell),
            old(self).wf() ==> final(self).wf(),
    {
        let quality = palette::choice_or_auto(&self.settings.quality);
        let profile = palette::choice_or_auto(&self.settings.profile);
        let a = text::cat5(
            "Mode: ",
            self.mode.as_str(),
            " · Model: ",
            self.settings.model.as_str(),
            " (",
        );
        let b = text::cat5(
            a.as_str(),
            connection.name.as_str(),
            ")\nBackend: ",
            connection.backend.as_str(),
            " · ",
        );
        let c = text::cat5(
            b.as_str(),
            connection.url.as_str(),
            "\nPermissions: ",
            self.settings.permission_posture.as_str(),
            " · Sandbox: ",
        );
        let d = text::cat5(c.as_str(), sandbox, " · Approvals: ", approvals, "\nThinking: ");
        let e = text::cat5(
            d.as_str(),
            settings::shown_word(self.settings.show_thinking),
            " · Reasoning: ",
            self.settings.reasoning_effort.as_str(),
            " · Bell: ",
        );
        let f = text::cat5(
            e.as_str(),
            settings::switch_word(bell),
            "\nQuality: ",
            quality.as_str(),
            " · Profile: ",
        );
        let text = text::cat2(f.as_str(), profile.as_str());
        self.push_system(text.as_str());
    }

    /// `/tasks`: says what is going on.
    pub fn command_tasks(&mut self)
        ensures
            final(self)@ == old(self)@.tasks_asked(),
            old(self).wf() ==> final(self).wf(),
    {
        assert(self.run@.queue.len() == self.run.queue@.len());
        let busy = if self.run.busy {
            "true"
        } else {
            "false"
        };
        let n = scan::decimal_text(self.run.queue.len() as u64);
        let r = scan::decimal_text(self.run.tool_round as u64);
        let head = text::cat4("busy=", busy, " queued=", n.as_str());
        let text = text::cat3(head.as_str(), " tool_round=", r.as_str());
        self.push_system(text.as_str());
    }

    /// `/undo`: takes the last exchange back.
    pub fn command_undo(&mut self)
        requires
            old(self).wf(),
        ensures
            final(self).wf(),
            final(self)@ == old(self)@.undo_asked(),
    {
        if self.run.busy {
            self.fail("Finish the active request before undoing");
            return;
        }
        match self.log.undo() {
            None => {},
            Some(prompt) => {
                self.draft(prompt);
                self.at_menu.forget();
            },
        }
    }

    /// `/redo`: puts the latest undone exchange back.
    pub fn command_redo(&mut self)
        requires
            old(self).wf(),
        ensures
            final(self).wf(),
            final(self)@ == old(self)@.redo_asked(),
    {
        if self.run.busy {
            self.fail("Finish the active request before redoing");
            return;
        }
        self.log.redo();
    }

    /// `/rewind`: begins to cut off the last turns.
    pub fn command_rewind(&mut self, args: &Vec<String>)
        requires
            old(self).wf(),
        ensures
            final(self).wf(),
            final(self)@ == old(self)@.rewind_asked(text::texts(args@)),
    {
        let busy = self.run.busy;
        match self.log.rewind_plan(busy, args) {
            Some(index) => {
                self.ask(Effect::Backup { reason: BackupReason::Rewind { index } });
            },
            None => {},
        }
    }

    #[verifier::spinoff_prover]
    fn empty_out(&mut self)
        requires
            old(self).wf(),
        ensures
            final(self).wf(),
            final(self)@ == old(self)@.emptied(),
    {
        self.log.history = Vec::new();
        self.log.redo_stack = Vec::new();
        self.run.streaming = String::new();
        self.run.streaming_reasoning = String::new();
        assert(self.log@.history =~= Seq::empty());
        assert(self.log@.redo =~= Seq::empty());
        assert(self.run@ =~= (RunView {
            reply: Seq::empty(),
            reasoning: Seq::empty(),
            ..old(self)@.run
        }));
        self.log.prune_sections();
    }

    /// `/clear`: empties the conversation, or begins to.
    pub fn command_clear(&mut self)
        requires
            old(self).wf(),
        ensures
            final(self).wf(),
            final(self)@ == old(self)@.clear_asked(),
    {
        assert(self.log@.history.len() == self.log.history@.len());
        if self.log.history.len() == 0 {
            self.empty_out();
            self.did("Cleared");
        } else {
            self.ask(Effect::Backup { reason: BackupReason::Clear });
        }
    }

    /// Goes on with what a copy was made for: `backup` is the name of the copy, or why
    /// there is none.
    pub fn backup_done(&mut self, reason: BackupReason, backup: Result<String, String>, now: u64)
        requires
            old(self).wf(),
            reason matches BackupReason::Rewind { index } ==> index < old(self).log.history@.len(),
        ensures
            final(self).wf(),
            final(self)@ == old(self)@.backed_up(reason, replies::result_text(backup), now),
    {
        match reason {
            BackupReason::Compact { automatic } => {
                self.finish_backup(backup, automatic, now);
            },
            BackupReason::Rewind { index } => {
                self.log.rewind_finish(index, backup);
            },
            BackupReason::Clear => {
                match backup {
                    Ok(name) => {
                        self.empty_out();
                        self.set_ok(text::cat2("Cleared · backup ", name.as_str()));
                    },
                    Err(error) => {
                        self.set_error(
                            text::cat2("Clear backup failed, session kept: ", error.as_str()),
                        );
                    },
                }
            },
        }
    }

    /// `/rerun`: sends an earlier prompt again.
    #[verifier::spinoff_prover]
    pub fn command_rerun(&mut self, args: &Vec<String>)
        requires
            old(self).wf(),
        ensures
            final(self).wf(),
            final(self)@ == old(self)@.rerun_asked(text::texts(args@)),
    {
        assert(text::texts(args@).len() == args@.len());
        if self.run.busy {
            self.fail("Finish the active request before rerunning");
            return;
        }
        let arg = if args.len() > 0 {
            assert(text::texts(args@)[0] == args@[0]@);
            match filters::parse_block_number(args[0].as_str()) {
                Some(n) => Some(n),
                None => {
                    self.say("Usage: /rerun [n]");
                    return;
                },
            }
        } else {
            None
        };
        match replies::rerun_target(&self.log.history, arg) {
            Err(error) => {
                self.set_error(error);
            },
            Ok(prompt) => {
                let slashed = scan::text_begins(prompt.as_str(), "/");
                self.draft(prompt);
                self.at_menu.forget();
                if slashed {
                    self.say("Rerun prefilled — Enter re-dispatches the command");
                } else {
                    self.ask(Effect::Submit);
                }
            },
        }
    }

    #[verifier::spinoff_prover]
    fn copy_code(&mut self, arg: &str)
        ensures
            final(self)@ == old(self)@.code_copied(arg@),
            old(self).wf() ==> final(self).wf(),
    {
        reveal(PaneView::code_copied);
        let n: usize = match filters::parse_index(arg) {
            Some(n) => n,
            None => {
                self.say("Usage: /copy [n] (nth fenced code block)");
                return;
            },
        };
        if n == 0 {
            self.say("Usage: /copy [n] (nth fenced code block)");
            return;
        }
        let blocks = replies::code_blocks(self.run.last_response.as_str());
        assert(text::texts(blocks@).len() == blocks@.len());
        if n <= blocks.len() {
            assert(text::texts(blocks@)[n - 1] == blocks@[n - 1]@);
            self.ask(
                Effect::Copy {
                    text: text::copy_text(blocks[n - 1].as_str()),
                    what: CopiedPart::Code { number: n },
                },
            );
        } else {
            let a = scan::decimal_text(n as u64);
            let b = scan::decimal_text(blocks.len() as u64);
            self.set_error(
                text::cat5(
                    "Code block ",
                    a.as_str(),
                    " not found (",
                    b.as_str(),
                    " fenced block(s) in last response)",
                ),
            );
        }
    }

    fn copy_out(&mut self, arg: Option<&String>)
        requires
            old(self).wf(),
        ensures
            final(self).wf(),
            final(self)@ == old(self)@.block_copied(
                match arg {
                    Some(s) => Some(s@),
                    None => None,
                },
            ),
    {
        reveal(PaneView::block_copied);
        match self.log.copy_block(arg) {
            Some((number, text)) => {
                self.ask(Effect::Copy { text, what: CopiedPart::Block { number } });
            },
            None => {},
        }
    }

    /// `/copy`: asks for a text to be put on the clipboard.
    #[verifier::spinoff_prover]
    pub fn command_copy(&mut self, args: &Vec<String>)
        requires
            old(self).wf(),
        ensures
            final(self).wf(),
            final(self)@ == old(self)@.copy_asked(text::texts(args@)),
    {
        assert(text::texts(args@).len() == args@.len());
        if args.len() > 0 {
            assert(text::texts(args@)[0] == args@[0]@);
            if text::same_text(args[0].as_str(), "out") {
                let arg = if args.len() > 1 {
                    assert(text::texts(args@)[1] == args@[1]@);
                    Some(&args[1])
                } else {
                    None
                };
                self.copy_out(arg);
                return;
            }
        }
        if self.run.last_response.as_str().is_empty() {
            self.fail("There is no response to copy");
        } else if args.len() == 0 {
            self.ask(
                Effect::Copy {
                    text: text::copy_text(self.run.last_response.as_str()),
                    what: CopiedPart::Reply,
                },
            );
        } else {
            self.copy_code(args[0].as_str());
        }
    }

    /// A text of `count` characters was put on the clipboard, or not.
    pub fn copy_done(&mut self, what: CopiedPart, count: usize, done: bool)
        ensures
            final(self)@ == old(self)@.copied(what, count as nat, done),
            old(self).wf() ==> final(self).wf(),
    {
        if !done {
            self.fail("Clipboard unavailable (try pbcopy, wl-copy, xclip, or clip)");
            return;
        }
        let n = scan::decimal_text(count as u64);
        match what {
            CopiedPart::Reply => {
                self.set_ok(text::cat3("Copied ", n.as_str(), " characters"));
            },
            CopiedPart::Code { number } => {
                let k = scan::decimal_text(number as u64);
                self.set_ok(
                    text::cat5("Copied code block ", k.as_str(), " (", n.as_str(), " characters)"),
                );
            },
            CopiedPart::Block { number } => {
                let k = scan::decimal_text(number as u64);
                self.set_ok(text::cat5("Copied block ", k.as_str(), " (", n.as_str(), " characters)"));
            },
        }
    }

    /// `/connect`: chooses a provider, or says which is connected.
    #[verifier::spinoff_prover]
    pub fn command_connect(
        &mut self,
        desk: &mut Desk,
        args: &Vec<String>,
        connection: &ConnectionText,
        url_valid: bool,
        provider: &str,
    )
        requires
            old(self).wf(),
            old(desk).wf(),
        ensures
            final(self).wf(),
            final(desk).wf(),
            desk::scene(*final(self), *final(desk)) == desk::scene(*old(self), *old(desk)).connect_asked(
                text::texts(args@),
                *connection,
                url_valid,
                provider@,
            ),
    {
        assert(text::texts(args@).len() == args@.len());
        assert(args@.len() > 0 ==> text::texts(args@)[0] == args@[0]@);
        assert(args@.len() > 1 ==> text::texts(args@)[1] == args@[1]@);
        if args.len() == 0 {
            desk.overlay = Overlay::Providers { selected: 0, scroll: 0 };
            self.say("Choose a provider; credentials stay in memory");
            return;
        }
        let word = args[0].as_str();
        if text::same_text(word, "status") || text::same_text(word, "show") {
            let a = text::cat5(
                "provider=",
                connection.name.as_str(),
                " backend=",
                connection.backend.as_str(),
                " url=",
            );
            let text = text::cat4(
                a.as_str(),
                connection.url.as_str(),
                " model=",
                self.settings.model.as_str(),
            );
            self.push_system(text.as_str());
        } else if text::same_text(word, "url") || text::same_text(word, "custom") {
            if args.len() > 1 {
                if url_valid {
                    self.open_provider(text::copy_text("custom"), Some(text::copy_text(args[1].as_str())));
                } else {
                    self.fail("Invalid custom URL");
                }
            } else {
                self.open_url_overlay(desk, text::copy_text("custom"));
            }
        } else {
            match desk::find_preset(&desk.presets, provider) {
                Some(i) => {
                    assert(desk@.presets[i as int] == desk.presets@[i as int]@);
                    if desk.presets[i].asks_for_url && args.len() <= 1 {
                        self.open_url_overlay(desk, text::copy_text(provider));
                    } else {
                        let entered = if args.len() > 1 {
                            Some(text::copy_text(args[1].as_str()))
                        } else {
                            None
                        };
                        self.open_provider(text::copy_text(provider), entered);
                    }
                },
                None => {
                    self.log.status = text::cat3(
                        "Unknown provider '",
                        provider,
                        "'; use /connect to browse",
                    );
                },
            }
        }
    }

    /// Takes the added commands anew.
    pub fn refresh_custom_commands(&mut self, desk: &mut Desk, loaded: Vec<CustomCommand>)
        ensures
            desk::scene(*final(self), *final(desk)) == desk::scene(*old(self), *old(desk)).customs_taken(
                palette::customs_view(loaded@),
            ),
            old(self).wf() ==> final(self).wf(),
            old(desk).wf() ==> final(desk).wf(),
    {
        desk.custom_commands = loaded;
        self.arg_menu.forget();
    }

    /// `/commands`: lists the added commands. `reloaded` says that they were just read
    /// anew.
    pub fn command_custom_commands(
        &mut self,
        desk: &Desk,
        reloaded: bool,
        shadowed: &Vec<bool>,
        dir: &str,
        project: &str,
    )
        requires
            shadowed@.len() == desk.custom_commands@.len(),
        ensures
            final(self)@ == (if reloaded {
                old(self)@.did(
                    reload_note(
                        desk@.customs.len(),
                        marked(shadowed@, shadowed@.len() as int),
                    ),
                )
            } else {
                old(self)@
            }).told(customs_note(desk@.customs, shadowed@, dir@, project@)),
            old(self).wf() ==> final(self).wf(),
    {
        assert(desk@.customs.len() == desk.custom_commands@.len());
        if reloaded {
            let mut hidden: usize = 0;
            for i in 0..shadowed.len()
                invariant
                    hidden == marked(shadowed@, i as int),
                    hidden <= i,
            {
                if shadowed[i] {
                    hidden = hidden + 1;
                }
            }
            let n = scan::decimal_text(desk.custom_commands.len() as u64);
            let tail = if hidden == 0 {
                text::copy_text(" workflow(s)")
            } else {
                let h = scan::decimal_text(hidden as u64);
                text::cat3(" workflow(s); ", h.as_str(), " shadowed by built-ins")
            };
            self.set_ok(text::cat3("Reloaded ", n.as_str(), tail.as_str()));
        }
        let text = customs_text(&desk.custom_commands, shadowed, dir, project);
        self.push_system(text.as_str());
    }

    /// `/workflows`: lists the added commands as workflows.
    pub fn command_workflows(&mut self, desk: &Desk)
        ensures
            final(self)@ == old(self)@.told(workflows_note(desk@.customs)),
            old(self).wf() ==> final(self).wf(),
    {
        let text = workflows_text(&desk.custom_commands);
        self.push_system(text.as_str());
    }

    pub(crate) fn run_other(
        &mut self,
        desk: &Desk,
        name: &str,
        expansion: Option<String>,
        found: &Vec<Option<String>>,
        suggestion: &Option<String>,
        now: u64,
    )
        requires
            old(self).wf(),
            expansion matches Some(p) ==> found@.len() == files::refs_of(p@).len(),
        ensures
            final(self).wf(),
            desk::scene(*final(self), *desk) == desk::scene(*old(self), *desk).other_asked(
                name@,
                composer::opt_text(expansion),
                pane::headers_view(found@),
                composer::opt_text(*suggestion),
                now,
            ),
    {
        match palette::find_custom_command(&desk.custom_commands, name) {
            Some(i) => {
                assert(desk@.customs[i as int] == desk.custom_commands@[i as int]@);
                match expansion {
                    Some(prompt) => {
                        self.submit_prompt(prompt, found, now);
                        let head = text::cat5(
                            "Expanded /",
                            desk.custom_commands[i].name.as_str(),
                            " (",
                            desk.custom_commands[i].source.as_str(),
                            ") · ",
                        );
                        let text = text::cat2(head.as_str(), self.log.status.as_str());
                        self.set_status(text);
                    },
                    None => {},
                }
            },
            None => {
                match suggestion {
                    Some(hit) => {
                        self.set_error(
                            text::cat5("Unknown command ", name, "; did you mean ", hit.as_str(), "?"),
                        );
                    },
                    None => {
                        self.set_error(text::cat3("Unknown command ", name, "; type /help"));
                    },
                }
            },
        }
    }
}

/// A command that is run again is only put into the draft; any other prompt is sent.
pub proof fn commands_are_only_prefilled(v: PaneView, args: Seq<Seq<char>>, prompt: Seq<char>)
    requires
        !v.run.busy,
        args.len() > 0 ==> filters::block_number(args[0]) is Some,
        replies::rerun_outcome(
            v.log.history,
            if args.len() > 0 {
                Some(filters::block_number(args[0])->0 as int)
            } else {
                None
            },
        ) == Ok::<Seq<char>, Seq<char>>(prompt),
    ensures
        v.rerun_asked(args).composer.text == prompt,
        v.rerun_asked(args).out == (if scan::begins(prompt, "/"@) {
            v.out
        } else {
            v.out.push(EffectView::Submit)
        }),
{
}

} // verus!
