//! Shell lines and files: what a line asks for, and how output and attached files are
//! written down.

use crate::composer;
use crate::effects::{Effect, EffectView};
use crate::files;
use crate::model::Message;
use crate::model;
use crate::pane::{Pane, PaneView};
use crate::replies;
use crate::scan;
use crate::settings;
use crate::text;
use crate::transcript::TranscriptView;
use vstd::prelude::*;
use vstd::string::*;

verus! {

/// How many characters of a file are attached to a prompt.
pub const FILE_LIMIT: usize = 12_000;

/// How many characters of the output of a command are kept.
pub const OUTPUT_LIMIT: usize = 8_000;

/// The first characters of a text, with a note where there are more.
pub open spec fn bounded(s: Seq<char>, limit: int, note: Seq<char>) -> Seq<char> {
    scan::first_chars(s, limit) + (if s.len() > limit {
        note
    } else {
        Seq::empty()
    })
}

/// How a file is attached to a prompt.
pub open spec fn file_text(path: Seq<char>, content: Seq<char>) -> Seq<char> {
    "<file path=\""@ + path + "\">\n"@ + bounded(
        content,
        FILE_LIMIT as int,
        "\n⋯ truncated"@,
    ) + "\n</file>"@
}

/// How a directory is attached to a prompt.
pub open spec fn directory_text(path: Seq<char>, entries: Seq<Seq<char>>) -> Seq<char> {
    "<directory path=\""@ + path + "\">\n"@ + scan::join(files::sorted_texts(entries), "\n"@)
        + "\n</directory>"@
}

fn bound_text(s: &str, limit: usize, note: &str) -> (r: String)
    ensures
        r@ == bounded(s@, limit as int, note@),
{
    let n: usize = scan::count_chars(s);
    let head = scan::take_chars(s, limit);
    if n > limit {
        text::cat2(head.as_str(), note)
    } else {
        assert(head@ + Seq::<char>::empty() =~= head@);
        head
    }
}

/// How a file is attached to a prompt.
pub fn file_block(path: &str, content: &str) -> (r: String)
    ensures
        r@ == file_text(path@, content@),
{
    let body = bound_text(content, FILE_LIMIT, "\n⋯ truncated");
    text::cat5("<file path=\"", path, "\">\n", body.as_str(), "\n</file>")
}

/// How many entries of a directory are attached to a prompt.
pub const ENTRY_LIMIT: usize = 40;

/// The first `n` names that a directory holds, with a slash behind those of directories.
pub open spec fn entry_names(found: Seq<(String, bool)>, n: int) -> Seq<Seq<char>> {
    Seq::new(
        n as nat,
        |i: int|
            if found[i].1 {
                found[i].0@ + "/"@
            } else {
                found[i].0@
            },
    )
}

/// The names that a directory holds, as they are attached to a prompt. Each comes with
/// whether it is a directory itself.
pub fn directory_entries(found: &Vec<(String, bool)>) -> (r: Vec<String>)
    ensures
        text::texts(r@) == entry_names(
            found@,
            if found@.len() <= ENTRY_LIMIT {
                found@.len() as int
            } else {
                ENTRY_LIMIT as int
            },
        ),
{
    let count: usize = if found.len() <= ENTRY_LIMIT {
        found.len()
    } else {
        ENTRY_LIMIT
    };
    let mut r: Vec<String> = Vec::new();
    assert(text::texts(r@) =~= entry_names(found@, 0));
    for i in 0..count
        invariant
            count <= found@.len(),
            text::texts(r@) == entry_names(found@, i as int),
    {
        let ghost before = r@;
        let name = if found[i].1 {
            text::cat2(found[i].0.as_str(), "/")
        } else {
            text::copy_text(found[i].0.as_str())
        };
        r.push(name);
        assert(text::texts(r@) =~= text::texts(before).push(name@));
        assert(text::texts(r@) =~= entry_names(found@, i + 1));
    }
    r
}

/// The program and the arguments that the user set as editor; `None` where nothing is set.
pub fn editor_command(editor: &str) -> (r: Option<(String, Vec<String>)>)
    ensures
        match r {
            Some(run) => scan::words(editor@).len() > 0 && run.0@ == scan::words(editor@)[0]
                && text::texts(run.1@) == scan::words(editor@).skip(1),
            None => scan::words(editor@).len() == 0,
        },
{
    let mut words = scan::text_words(editor);
    let ghost all = text::texts(words@);
    assert(all.len() == words@.len());
    if words.len() == 0 {
        return None;
    }
    assert(all[0] == words@[0]@);
    let program = words.remove(0);
    assert(text::texts(words@) =~= all.skip(1));
    Some((program, words))
}

/// How a directory is attached to a prompt.
pub fn directory_block(path: &str, entries: &Vec<String>) -> (r: String)
    ensures
        r@ == directory_text(path@, text::texts(entries@)),
{
    let list = files::sort_texts(entries);
    let body = scan::join_texts(&list, "\n");
    text::cat5("<directory path=\"", path, "\">\n", body.as_str(), "\n</directory>")
}

/// The output of a command: what it printed, then what it printed as errors, or a word
/// where it printed nothing.
pub open spec fn output_body(stdout: Seq<char>, stderr: Seq<char>) -> Seq<char> {
    let out = scan::trim_end(stdout);
    let err = scan::trim_end(stderr);
    if out.len() == 0 && err.len() == 0 {
        "(no output)"@
    } else if err.len() == 0 {
        out
    } else if out.len() == 0 {
        "stderr:\n"@ + err
    } else {
        out + "\nstderr:\n"@ + err
    }
}

/// How a command that ran is noted in the transcript.
pub open spec fn run_note(command: Seq<char>, stdout: Seq<char>, stderr: Seq<char>) -> Seq<char> {
    "$ "@ + command + "\n"@ + bounded(
        output_body(stdout, stderr),
        OUTPUT_LIMIT as int,
        "\n⋯ output truncated"@,
    )
}

/// How a command that ran is noted in the transcript.
pub fn shell_notice(command: &str, stdout: &str, stderr: &str) -> (r: String)
    ensures
        r@ == run_note(command@, stdout@, stderr@),
{
    let out = scan::trim_end_text(stdout);
    let err = scan::trim_end_text(stderr);
    let body = if out.as_str().is_empty() && err.as_str().is_empty() {
        text::copy_text("(no output)")
    } else if err.as_str().is_empty() {
        out
    } else if out.as_str().is_empty() {
        text::cat2("stderr:\n", err.as_str())
    } else {
        text::cat3(out.as_str(), "\nstderr:\n", err.as_str())
    };
    let shown = bound_text(body.as_str(), OUTPUT_LIMIT, "\n⋯ output truncated");
    text::cat4("$ ", command, "\n", shown.as_str())
}

/// How a command that did not run is noted in the transcript.
pub fn shell_failure(command: &str, error: &str) -> (r: String)
    ensures
        r@ == "$ "@ + command@ + "\nfailed: "@ + error@,
{
    text::cat4("$ ", command, "\nfailed: ", error)
}

/// What the model is told when it drafts a shell command.
pub open spec fn draft_request(windows: bool, os: Seq<char>, request: Seq<char>) -> Seq<char> {
    "Translate the request into ONE shell command for "@ + (if windows {
        "Windows cmd.exe (run via `cmd /C`)"@
    } else {
        "POSIX sh (run via `sh -c`)"@
    }) + " on "@ + os
        + ".\nOutput ONLY the command: no fences, no surrounding quotes, no explanation, single line.\nRequest: "@
        + request
}

/// What the model is told when it drafts a shell command.
pub fn shell_draft_prompt(windows: bool, os: &str, request: &str) -> (r: String)
    ensures
        r@ == draft_request(windows, os@, request@),
{
    let shell = if windows {
        "Windows cmd.exe (run via `cmd /C`)"
    } else {
        "POSIX sh (run via `sh -c`)"
    };
    let head = text::cat4("Translate the request into ONE shell command for ", shell, " on ", os);
    text::cat3(
        head.as_str(),
        ".\nOutput ONLY the command: no fences, no surrounding quotes, no explanation, single line.\nRequest: ",
        request,
    )
}

/// What a reply of the model to such a request gives: a command, or why there is none.
pub open spec fn drafted_command(reply: Result<Seq<char>, Seq<char>>) -> Result<
    Seq<char>,
    Seq<char>,
> {
    match reply {
        Ok(content) => match replies::draft_line(content) {
            Some(command) => Ok(command),
            None => Err("The model returned no usable command"@),
        },
        Err(error) => Err("Shell draft failed: "@ + error),
    }
}

/// What a reply of the model to such a request gives.
pub fn shell_draft_outcome(reply: Result<String, String>) -> (r: Result<String, String>)
    ensures
        replies::result_text(r) == drafted_command(replies::result_text(reply)),
{
    match reply {
        Ok(content) => match replies::clean_shell_draft(content.as_str()) {
            Some(command) => Ok(command),
            None => Err(text::copy_text("The model returned no usable command")),
        },
        Err(error) => Err(text::cat2("Shell draft failed: ", error.as_str())),
    }
}

impl PaneView {
    /// A shell line run, unless permissions are off.
    pub open spec fn shell_run(self, command: Seq<char>) -> PaneView {
        if self.settings.posture == "off"@ {
            self.failed("Shell disabled (permissions off)"@)
        } else {
            self.said("Running: "@ + scan::first_chars(command, 60)).asking(
                EffectView::Shell { command, network: settings::allows_network(self.settings.posture) },
            )
        }
    }

    /// A shell line of the user: written down, remembered and run.
    pub open spec fn shell_entered(self, value: Seq<char>, command: Seq<char>) -> PaneView {
        PaneView {
            log: TranscriptView {
                redo: Seq::empty(),
                follow: true,
                ..self.log.pushed(model::plain_message("user"@, value))
            },
            ..self
        }.asking(EffectView::Learn { command }).shell_run(command)
    }

    /// A command to be drafted from a description.
    pub open spec fn draft_asked(self, request: Seq<char>) -> PaneView {
        if request.len() == 0 {
            self.said("Usage: #<text> · describe what you want"@)
        } else if self.settings.posture == "off"@ {
            self.failed("Shell disabled (permissions off)"@)
        } else if self.run.busy {
            self.said("Busy — try when idle"@)
        } else {
            self.said("Drafting…"@).asking(EffectView::Draft { request })
        }
    }

    /// Another directory entered, or not found.
    pub open spec fn dir_changed(self, asked: Seq<char>, found: Option<Seq<char>>) -> PaneView {
        match found {
            Some(path) => PaneView { workspace: path, ..self }.did("Workspace: "@ + path),
            None => self.failed("cd: no such directory: "@ + asked),
        }
    }
}

impl Pane {
    /// Runs a shell line, unless permissions are off.
    pub fn run_shell_command(&mut self, command: String)
        ensures
            final(self)@ == old(self)@.shell_run(command@),
            old(self).wf() ==> final(self).wf(),
    {
        if text::same_text(self.settings.permission_posture.as_str(), "off") {
            self.fail("Shell disabled (permissions off)");
            return;
        }
        let shown = scan::take_chars(command.as_str(), 60);
        let network = self.settings.network_allowed();
        self.set_status(text::cat2("Running: ", shown.as_str()));
        self.ask(Effect::Shell { command, network });
    }

    /// Takes a shell line of the user.
    pub fn enter_shell_line(&mut self, value: &str, command: String)
        ensures
            final(self)@ == old(self)@.shell_entered(value@, command@),
            old(self).wf() ==> final(self).wf(),
    {
        self.log.redo_stack = Vec::new();
        assert(self.log@.redo =~= Seq::empty());
        self.log.push(Message::user(value));
        self.log.follow_transcript = true;
        self.ask(Effect::Learn { command: text::copy_text(command.as_str()) });
        self.run_shell_command(command);
    }

    /// Has the model draft a command from a description.
    pub fn command_shell_draft(&mut self, request: String)
        ensures
            final(self)@ == old(self)@.draft_asked(request@),
            old(self).wf() ==> final(self).wf(),
    {
        if request.as_str().is_empty() {
            self.say("Usage: #<text> · describe what you want");
        } else if text::same_text(self.settings.permission_posture.as_str(), "off") {
            self.fail("Shell disabled (permissions off)");
        } else if self.run.busy {
            self.say("Busy — try when idle");
        } else {
            self.say("Drafting…");
            self.ask(Effect::Draft { request });
        }
    }

    /// Enters another directory: `found` is where it is, if it exists.
    pub fn change_dir(&mut self, asked: &str, found: Option<String>)
        ensures
            final(self)@ == old(self)@.dir_changed(asked@, composer::opt_text(found)),
            old(self).wf() ==> final(self).wf(),
    {
        match found {
            Some(path) => {
                self.set_ok(text::cat2("Workspace: ", path.as_str()));
                self.workspace = path;
            },
            None => {
                self.set_error(text::cat2("cd: no such directory: ", asked));
            },
        }
    }
}

// ---------------------------------------------------------------------------
// Laws
// ---------------------------------------------------------------------------

/// With permissions off no shell line is run and no command is drafted.
pub proof fn off_runs_nothing(v: PaneView, command: Seq<char>)
    requires
        v.settings.posture == "off"@,
    ensures
        v.shell_run(command).out == v.out,
        v.draft_asked(command).out == v.out,
{
}

/// What is kept of an output is bounded.
pub proof fn output_is_bounded(s: Seq<char>, limit: int, note: Seq<char>)
    requires
        limit >= 0,
    ensures
        bounded(s, limit, note).len() <= limit + note.len(),
        s.len() <= limit ==> bounded(s, limit, note) == s,
{
    if s.len() <= limit {
        assert(bounded(s, limit, note) =~= s);
    }
}

} // verus!
