//! Exports, previews, suggestions and reports on the workspace: which ones are made, and
//! what is said of them.

use crate::composer::ComposerView;
use crate::composer;
use crate::keys;
use crate::paint;
use crate::pane::{Pane, PaneView};
use crate::scan;
use crate::sessions;
use crate::settings;
use crate::text;
use vstd::prelude::*;
use vstd::string::*;

verus! {

// ---------------------------------------------------------------------------
// Exports and previews
// ---------------------------------------------------------------------------

/// The ending of a file in an export format; none for an unknown format.
pub open spec fn export_ending(format: Seq<char>) -> Option<Seq<char>> {
    if format == "md"@ || format == "markdown"@ {
        Some("md"@)
    } else if format == "txt"@ || format == "text"@ {
        Some("txt"@)
    } else if format == "json"@ {
        Some("json"@)
    } else if format == "html"@ {
        Some("html"@)
    } else if format == "pdf"@ {
        Some("pdf"@)
    } else {
        None
    }
}

fn ending_of(format: &str) -> (r: Option<String>)
    ensures
        composer::opt_text(r) == export_ending(format@),
{
    if text::same_text(format, "md") || text::same_text(format, "markdown") {
        Some(text::copy_text("md"))
    } else if text::same_text(format, "txt") || text::same_text(format, "text") {
        Some(text::copy_text("txt"))
    } else if text::same_text(format, "json") {
        Some(text::copy_text("json"))
    } else if text::same_text(format, "html") {
        Some(text::copy_text("html"))
    } else if text::same_text(format, "pdf") {
        Some(text::copy_text("pdf"))
    } else {
        None
    }
}

/// An export: in which format, and to which file. Without a path it goes into the
/// workspace under `name`.
#[derive(Debug, PartialEq, Eq)]
pub struct ExportPlan {
    pub format: String,
    pub path: Option<String>,
    pub name: String,
}

/// What a plan of an export holds.
#[verifier::ext_equal]
pub struct ExportView {
    pub format: Seq<char>,
    pub path: Option<Seq<char>>,
    pub name: Seq<char>,
}

impl View for ExportPlan {
    type V = ExportView;

    open spec fn view(&self) -> ExportView {
        ExportView { format: self.format@, path: composer::opt_text(self.path), name: self.name@ }
    }
}

/// What an optional plan holds.
pub open spec fn plan_view(o: Option<ExportPlan>) -> Option<ExportView> {
    match o {
        Some(p) => Some(p@),
        None => None,
    }
}

/// What came of an export or a preview.
#[derive(Debug, PartialEq, Eq)]
pub enum FileOutcome {
    /// The path leads out of the workspace.
    Rejected(String),
    Failed(String),
    Done(String),
}

impl PaneView {
    /// The export that a command asks for.
    pub open spec fn export_asked(self, args: Seq<Seq<char>>) -> (PaneView, Option<ExportView>) {
        let format = sessions::arg_or(args, 0, "markdown"@);
        match export_ending(format) {
            None => (self.said("Unsupported export format: "@ + format), None),
            Some(ending) => (
                self,
                Some(
                    ExportView {
                        format,
                        path: sessions::nth_arg(args, 1),
                        name: "r105-export."@ + ending,
                    },
                ),
            ),
        }
    }

    /// An export finished: `Done` holds the path.
    pub open spec fn exported(self, r: FileOutcome) -> PaneView {
        match r {
            FileOutcome::Rejected(e) => self.failed("Export path rejected: "@ + e@),
            FileOutcome::Failed(e) => self.failed("Export failed: "@ + e@),
            FileOutcome::Done(path) => self.did("Exported "@ + path@),
        }
    }

    /// A file shown: `Done` holds its content, of which the beginning is shown.
    pub open spec fn previewed(self, requested: Seq<char>, r: FileOutcome) -> PaneView {
        match r {
            FileOutcome::Rejected(e) => self.failed("Preview path rejected: "@ + e@),
            FileOutcome::Failed(e) => self.failed("Preview failed: "@ + e@),
            FileOutcome::Done(content) => self.told(
                "--- "@ + requested + " ---\n"@ + scan::first_chars(content@, 2_000),
            ),
        }
    }
}

impl Pane {
    /// `/export`: the export that is asked for.
    pub fn command_export(&mut self, args: &Vec<String>) -> (r: Option<ExportPlan>)
        requires
            old(self).wf(),
        ensures
            final(self).wf(),
            (final(self)@, plan_view(r)) == old(self)@.export_asked(text::texts(args@)),
    {
        let format = sessions::arg_text(args, 0, "markdown");
        match ending_of(format.as_str()) {
            None => {
                self.set_status(text::cat2("Unsupported export format: ", format.as_str()));
                None
            },
            Some(ending) => {
                assert(text::texts(args@).len() == args@.len());
                let path = if args.len() > 1 {
                    assert(text::texts(args@)[1] == args@[1]@);
                    Some(text::copy_text(args[1].as_str()))
                } else {
                    None
                };
                Some(ExportPlan { format, path, name: text::cat2("r105-export.", ending.as_str()) })
            },
        }
    }

    /// Tells what came of an export.
    pub fn export_done(&mut self, r: FileOutcome)
        ensures
            final(self)@ == old(self)@.exported(r),
            old(self).wf() ==> final(self).wf(),
    {
        match r {
            FileOutcome::Rejected(e) => self.set_error(text::cat2("Export path rejected: ", e.as_str())),
            FileOutcome::Failed(e) => self.set_error(text::cat2("Export failed: ", e.as_str())),
            FileOutcome::Done(path) => self.set_ok(text::cat2("Exported ", path.as_str())),
        }
    }

    /// `/preview`: the file that is asked for.
    pub fn command_preview(&mut self, args: &Vec<String>) -> (r: Option<String>)
        ensures
            composer::opt_text(r) == sessions::nth_arg(text::texts(args@), 0),
            args@.len() == 0 ==> final(self)@ == old(self)@.said("Usage: /preview <filename>"@),
            args@.len() > 0 ==> *final(self) == *old(self),
            old(self).wf() ==> final(self).wf(),
    {
        assert(text::texts(args@).len() == args@.len());
        if args.len() > 0 {
            assert(text::texts(args@)[0] == args@[0]@);
            Some(text::copy_text(args[0].as_str()))
        } else {
            self.say("Usage: /preview <filename>");
            None
        }
    }

    /// Shows the beginning of a file, or says why it could not be read.
    pub fn preview_done(&mut self, requested: &str, r: FileOutcome)
        ensures
            final(self)@ == old(self)@.previewed(requested@, r),
            old(self).wf() ==> final(self).wf(),
    {
        match r {
            FileOutcome::Rejected(e) => self.set_error(text::cat2("Preview path rejected: ", e.as_str())),
            FileOutcome::Failed(e) => self.set_error(text::cat2("Preview failed: ", e.as_str())),
            FileOutcome::Done(content) => {
                let head = scan::take_chars(content.as_str(), 2_000);
                let text = text::cat4("--- ", requested, " ---\n", head.as_str());
                self.push_system(text.as_str());
            },
        }
    }
}

// ---------------------------------------------------------------------------
// Suggestions
// ---------------------------------------------------------------------------

impl PaneView {
    /// A command on the continuations that the model offers.
    pub open spec fn model_offers_asked(self, word: Seq<char>) -> PaneView {
        if word == "on"@ {
            PaneView { ai_on: true, ..self }.said("Model ghost on"@)
        } else if word == "off"@ {
            PaneView { ai_on: false, ..self }.said("Model ghost off"@)
        } else if word == "status"@ {
            self.said(
                if self.ai_on {
                    "Model ghost on · local cascade first"@
                } else {
                    "Model ghost off"@
                },
            )
        } else {
            self.failed("Usage: /completion ai [on|off] (got "@ + word + ")"@)
        }
    }

    /// A command on suggestions; `remembered` is the number of lines that they come from.
    pub open spec fn completion_asked(self, args: Seq<Seq<char>>, remembered: nat) -> PaneView {
        let word = sessions::arg_or(args, 0, "status"@);
        if word == "clear"@ {
            self.composed(ComposerView { offer: None, ..self.composer }).said(
                "Suggestions cleared"@,
            )
        } else if word == "ai"@ {
            self.model_offers_asked(sessions::arg_or(args, 1, "status"@))
        } else if word == "status"@ {
            self.said(
                if self.completion_on {
                    "Suggestions on · "@ + scan::decimal(remembered) + " remembered · model ghost "@
                        + settings::on_off(self.ai_on) + " · Tab accepts"@
                } else {
                    "Suggestions off"@
                },
            )
        } else {
            self.failed("Usage: /completion [status|clear|ai on|ai off] (got "@ + word + ")"@)
        }
    }
}

impl Pane {
    fn command_model_offers(&mut self, word: &str)
        ensures
            final(self)@ == old(self)@.model_offers_asked(word@),
            old(self).wf() ==> final(self).wf(),
    {
        if text::same_text(word, "on") {
            self.ai_suggest_on = true;
            self.say("Model ghost on");
        } else if text::same_text(word, "off") {
            self.ai_suggest_on = false;
            self.say("Model ghost off");
        } else if text::same_text(word, "status") {
            if self.ai_suggest_on {
                self.say("Model ghost on · local cascade first");
            } else {
                self.say("Model ghost off");
            }
        } else {
            self.set_error(text::cat3("Usage: /completion ai [on|off] (got ", word, ")"));
        }
    }

    /// `/completion`. Says whether the remembered lines are to be forgotten.
    pub fn command_completion(&mut self, args: &Vec<String>, remembered: usize) -> (r: bool)
        ensures
            final(self)@ == old(self)@.completion_asked(text::texts(args@), remembered as nat),
            r == (sessions::arg_or(text::texts(args@), 0, "status"@) == "clear"@),
            old(self).wf() ==> final(self).wf(),
    {
        let word = sessions::arg_text(args, 0, "status");
        if text::same_text(word.as_str(), "clear") {
            self.composer.ghost_text = None;
            self.say("Suggestions cleared");
            return true;
        }
        if text::same_text(word.as_str(), "ai") {
            let what = sessions::arg_text(args, 1, "status");
            self.command_model_offers(what.as_str());
        } else if text::same_text(word.as_str(), "status") {
            if self.completion_on {
                let n = scan::decimal_text(remembered as u64);
                self.set_status(
                    text::cat5(
                        "Suggestions on · ",
                        n.as_str(),
                        " remembered · model ghost ",
                        settings::switch_word(self.ai_suggest_on),
                        " · Tab accepts",
                    ),
                );
            } else {
                self.say("Suggestions off");
            }
        } else {
            self.set_error(
                text::cat3("Usage: /completion [status|clear|ai on|ai off] (got ", word.as_str(), ")"),
            );
        }
        false
    }
}

// ---------------------------------------------------------------------------
// The workspace
// ---------------------------------------------------------------------------

/// A file or directory of the workspace, by its path within it.
#[derive(Debug, PartialEq, Eq)]
pub struct MapEntry {
    pub path: String,
    pub is_dir: bool,
}

/// The line of an entry.
pub open spec fn map_line(e: MapEntry) -> Seq<char> {
    (if e.is_dir {
        "▸ "@
    } else {
        "· "@
    }) + e.path@
}

/// The lines of the first entries.
pub open spec fn map_lines(entries: Seq<MapEntry>) -> Seq<Seq<char>> {
    entries.take(paint::least(entries.len() as int, 80)).map_values(|e: MapEntry| map_line(e))
}

/// What the workspace holds, a line for each of the first entries.
pub open spec fn map_report(entries: Seq<MapEntry>) -> Seq<char> {
    if entries.len() == 0 {
        "Workspace is empty"@
    } else {
        scan::join(map_lines(entries), "\n"@)
    }
}

/// What the workspace holds.
pub fn workspace_map(entries: &Vec<MapEntry>) -> (r: String)
    ensures
        r@ == map_report(entries@),
{
    if entries.len() == 0 {
        return text::copy_text("Workspace is empty");
    }
    let count: usize = if entries.len() <= 80 {
        entries.len()
    } else {
        80
    };
    let mut list: Vec<String> = Vec::new();
    for i in 0..count
        invariant
            count <= entries@.len(),
            list@.len() == i,
            forall|j: int| 0 <= j < i ==> (#[trigger] list@[j])@ == map_line(entries@[j]),
    {
        let line = text::cat2(
            if entries[i].is_dir {
                "▸ "
            } else {
                "· "
            },
            entries[i].path.as_str(),
        );
        list.push(line);
    }
    assert(text::texts(list@) =~= map_lines(entries@));
    scan::join_texts(&list, "\n")
}

/// What came of asking for the changes in the workspace.
#[derive(Debug, PartialEq, Eq)]
pub enum DiffOutcome {
    Done(String),
    Refused(String),
    Unavailable(String),
}

/// The changes in the workspace.
pub open spec fn diff_report(r: DiffOutcome) -> Seq<char> {
    match r {
        DiffOutcome::Done(out) => if scan::trim(out@).len() == 0 {
            "No Git changes"@
        } else {
            scan::trim(out@)
        },
        DiffOutcome::Refused(e) => scan::trim(e@),
        DiffOutcome::Unavailable(e) => "git diff unavailable: "@ + e@,
    }
}

/// The changes in the workspace.
pub fn workspace_diff(r: &DiffOutcome) -> (s: String)
    ensures
        s@ == diff_report(*r),
{
    match r {
        DiffOutcome::Done(out) => {
            let t = scan::trim_text(out.as_str());
            if t.as_str().is_empty() {
                text::copy_text("No Git changes")
            } else {
                t
            }
        },
        DiffOutcome::Refused(e) => scan::trim_text(e.as_str()),
        DiffOutcome::Unavailable(e) => text::cat2("git diff unavailable: ", e.as_str()),
    }
}

/// The branch that is checked out, from what was printed of it.
pub open spec fn branch_in(out: Seq<char>) -> Option<Seq<char>> {
    let t = scan::trim(out);
    if t.len() == 0 || t == "HEAD"@ {
        None
    } else {
        Some(t)
    }
}

/// The branch that is checked out, from what was printed of it; none where nothing is.
pub fn git_branch(out: &str) -> (r: Option<String>)
    ensures
        composer::opt_text(r) == branch_in(out@),
{
    let t = scan::trim_text(out);
    if t.as_str().is_empty() || text::same_text(t.as_str(), "HEAD") {
        None
    } else {
        Some(t)
    }
}

/// How many of the first `n` names are not those of hidden files.
pub open spec fn visible_in(names: Seq<Seq<char>>, n: int) -> nat
    decreases n,
{
    if n <= 0 || n > names.len() {
        0
    } else if names[n - 1].len() > 0 && names[n - 1][0] != '.' {
        visible_in(names, n - 1) + 1
    } else {
        visible_in(names, n - 1)
    }
}

/// How many names are not those of hidden files.
pub fn count_skills(names: &Vec<String>) -> (r: usize)
    ensures
        r == visible_in(text::texts(names@), names@.len() as int),
{
    let mut count: usize = 0;
    for i in 0..names.len()
        invariant
            count == visible_in(text::texts(names@), i as int),
            count <= i,
    {
        assert(text::texts(names@)[i as int] == names@[i as int]@);
        let c = text::to_chars(names[i].as_str());
        if c.len() > 0 && c[0] != '.' {
            count = count + 1;
        }
    }
    count
}

// ---------------------------------------------------------------------------
// Beginning and end
// ---------------------------------------------------------------------------

/// The status line at the beginning: how far tools are held apart, and what of the
/// configuration does not work.
pub open spec fn ready_note(
    sandbox: Seq<char>,
    invalid: nat,
    customs: nat,
    policy_error: Option<Seq<char>>,
) -> Seq<char> {
    (if sandbox == "rlimit"@ || sandbox == "none"@ {
        "Ready · sandbox '"@ + sandbox + "' (limited) — /state for details"@
    } else {
        "Ready"@
    }) + (if invalid > 0 {
        " · "@ + scan::decimal(invalid) + " invalid keybinding(s) ignored (want ctrl+<letter>)"@
    } else {
        ""@
    }) + (if customs > 0 {
        " · "@ + scan::decimal(customs) + " custom command"@ + (if customs == 1 {
            ""@
        } else {
            "s"@
        }) + " (/commands)"@
    } else {
        ""@
    }) + (match policy_error {
        Some(e) => " · approval policy invalid ("@ + e + "); tools locked down"@,
        None => ""@,
    })
}

/// The status line at the beginning.
pub fn startup_status(
    sandbox: &str,
    keybindings: &Vec<(String, String)>,
    customs: usize,
    policy_error: Option<String>,
) -> (r: String)
    ensures
        r@ == ready_note(
            sandbox@,
            keys::invalid_in(keybindings@, keybindings@.len() as int),
            customs as nat,
            composer::opt_text(policy_error),
        ),
{
    let ready = if text::same_text(sandbox, "rlimit") || text::same_text(sandbox, "none") {
        text::cat3("Ready · sandbox '", sandbox, "' (limited) — /state for details")
    } else {
        text::copy_text("Ready")
    };
    let invalid: usize = keys::count_invalid_bindings(keybindings);
    let keys = if invalid > 0 {
        let n = scan::decimal_text(invalid as u64);
        text::cat3(" · ", n.as_str(), " invalid keybinding(s) ignored (want ctrl+<letter>)")
    } else {
        text::copy_text("")
    };
    let commands = if customs > 0 {
        let n = scan::decimal_text(customs as u64);
        text::cat5(
            " · ",
            n.as_str(),
            " custom command",
            if customs == 1 {
                ""
            } else {
                "s"
            },
            " (/commands)",
        )
    } else {
        text::copy_text("")
    };
    let policy = match policy_error {
        Some(e) => text::cat3(" · approval policy invalid (", e.as_str(), "); tools locked down"),
        None => text::copy_text(""),
    };
    text::cat4(ready.as_str(), keys.as_str(), commands.as_str(), policy.as_str())
}

impl PaneView {
    /// What is said at the end: whether the conversation was saved.
    pub open spec fn exit_note(self, error: Option<Seq<char>>) -> Option<Seq<char>> {
        if self.log.history.len() == 0 {
            None
        } else {
            Some(
                match error {
                    None => "Autosaved session '__autosave__' ("@ + scan::decimal(self.log.history.len())
                        + " messages)"@,
                    Some(e) => "warning: could not save autosession: "@ + e,
                },
            )
        }
    }
}

impl Pane {
    /// What is said at the end.
    pub fn exit_notice(&self, error: Option<String>) -> (r: Option<String>)
        ensures
            composer::opt_text(r) == self@.exit_note(composer::opt_text(error)),
    {
        assert(self@.log.history.len() == self.log.history@.len());
        if self.log.history.len() == 0 {
            return None;
        }
        match error {
            None => {
                let n = scan::decimal_text(self.log.history.len() as u64);
                Some(text::cat3("Autosaved session '__autosave__' (", n.as_str(), " messages)"))
            },
            Some(e) => Some(text::cat2("warning: could not save autosession: ", e.as_str())),
        }
    }
}

/// A preview never shows more of a file than its beginning, and changes nothing else.
pub proof fn previews_are_bounded(v: PaneView, requested: Seq<char>, content: String)
    ensures
        scan::first_chars(content@, 2_000).len() <= 2_000,
        v.previewed(requested, FileOutcome::Done(content)).settings == v.settings,
        v.previewed(requested, FileOutcome::Done(content)).composer == v.composer,
{
}

} // verus!
