//! Sessions of a pane: saving, loading, forking and deleting them, and moving between
//! workspaces.

use crate::composer;
use crate::filters;
use crate::model::{Message, MessageView};
use crate::model;
use crate::pane::{Pane, PaneView};
use crate::render::{TodoItem, TodoStatus};
use crate::render;
use crate::scan;
use crate::settings::{Mode, Settings, SettingsView};
use crate::settings;
use crate::skills::{Skills, SkillsView};
use crate::text;
use crate::transcript::TranscriptView;
use crate::transcript;
use vstd::prelude::*;
use vstd::string::*;

verus! {

/// An argument of a command, where it is there.
pub open spec fn nth_arg(args: Seq<Seq<char>>, i: int) -> Option<Seq<char>> {
    if 0 <= i < args.len() {
        Some(args[i])
    } else {
        None
    }
}

/// An argument of a command, or a text in its place.
pub open spec fn arg_or(args: Seq<Seq<char>>, i: int, text: Seq<char>) -> Seq<char> {
    if 0 <= i < args.len() {
        args[i]
    } else {
        text
    }
}

/// An argument of a command, or a text in its place.
pub fn arg_text(args: &Vec<String>, i: usize, text: &str) -> (r: String)
    ensures
        r@ == arg_or(text::texts(args@), i as int, text@),
{
    assert(text::texts(args@).len() == args@.len());
    if i < args.len() {
        assert(text::texts(args@)[i as int] == args@[i as int]@);
        text::copy_text(args[i].as_str())
    } else {
        text::copy_text(text)
    }
}

/// Whether an argument of a command is the given word.
pub fn arg_is(args: &Vec<String>, i: usize, word: &str) -> (r: bool)
    ensures
        r == (nth_arg(text::texts(args@), i as int) == Some(word@)),
{
    assert(text::texts(args@).len() == args@.len());
    if i < args.len() {
        assert(text::texts(args@)[i as int] == args@[i as int]@);
        text::same_text(args[i].as_str(), word)
    } else {
        false
    }
}

/// What a command on sessions asks of the place where they are kept.
#[derive(Debug, PartialEq, Eq)]
pub enum SessionRequest {
    Save { name: String },
    Load { name: String },
    List,
    Search { query: String },
    Delete { name: String },
    Diff { name: String },
    /// Keep the first `end` messages under another name; `turns` of them are the user's
    /// where a number was given.
    Fork { name: String, turns: Option<usize>, end: usize, parent: Option<String> },
    Tree,
}

/// What a request holds.
#[verifier::ext_equal]
pub enum SessionRequestView {
    Save { name: Seq<char> },
    Load { name: Seq<char> },
    List,
    Search { query: Seq<char> },
    Delete { name: Seq<char> },
    Diff { name: Seq<char> },
    Fork { name: Seq<char>, turns: Option<usize>, end: int, parent: Option<Seq<char>> },
    Tree,
}

impl View for SessionRequest {
    type V = SessionRequestView;

    open spec fn view(&self) -> SessionRequestView {
        match *self {
            SessionRequest::Save { name } => SessionRequestView::Save { name: name@ },
            SessionRequest::Load { name } => SessionRequestView::Load { name: name@ },
            SessionRequest::List => SessionRequestView::List,
            SessionRequest::Search { query } => SessionRequestView::Search { query: query@ },
            SessionRequest::Delete { name } => SessionRequestView::Delete { name: name@ },
            SessionRequest::Diff { name } => SessionRequestView::Diff { name: name@ },
            SessionRequest::Fork { name, turns, end, parent } => SessionRequestView::Fork {
                name: name@,
                turns,
                end: end as int,
                parent: composer::opt_text(parent),
            },
            SessionRequest::Tree => SessionRequestView::Tree,
        }
    }
}

/// What an optional request holds.
pub open spec fn request_view(o: Option<SessionRequest>) -> Option<SessionRequestView> {
    match o {
        Some(r) => Some(r@),
        None => None,
    }
}

/// Where the history is cut, from `i` on, so that `turns` more messages of the user stay.
pub open spec fn turns_end(history: Seq<MessageView>, turns: nat, i: int) -> int
    decreases history.len() - i,
{
    if i < 0 || i >= history.len() {
        history.len() as int
    } else if history[i].role == "user"@ {
        if turns == 0 {
            i
        } else {
            turns_end(history, (turns - 1) as nat, i + 1)
        }
    } else {
        turns_end(history, turns, i + 1)
    }
}

/// The number of turns that a text names; no number means none.
pub open spec fn turns_in(text: Seq<char>) -> nat {
    match scan::parse_up_to(text, filters::index_max()) {
        Some(n) => n,
        None => 0,
    }
}

/// The usage of a command on sessions.
pub open spec fn session_usage() -> Seq<char> {
    "Usage: /session save|load|list|search|delete|diff|fork|tree"@
}

/// The usage of a fork.
pub open spec fn fork_usage() -> Seq<char> {
    "Usage: /session fork <name> [turns]"@
}

impl PaneView {
    /// What a fork asks for; the usage where the arguments do not fit.
    pub open spec fn fork_asked(self, args: Seq<Seq<char>>) -> (
        PaneView,
        Option<SessionRequestView>,
    ) {
        if args.len() < 2 {
            (self.said(fork_usage()), None)
        } else if args.len() < 3 {
            (
                self,
                Some(
                    SessionRequestView::Fork {
                        name: args[1],
                        turns: None,
                        end: self.log.history.len() as int,
                        parent: self.session,
                    },
                ),
            )
        } else if turns_in(args[2]) == 0 {
            (self.failed(fork_usage()), None)
        } else {
            (
                self,
                Some(
                    SessionRequestView::Fork {
                        name: args[1],
                        turns: Some(turns_in(args[2]) as usize),
                        end: turns_end(self.log.history, turns_in(args[2]), 0),
                        parent: self.session,
                    },
                ),
            )
        }
    }

    /// What a command on sessions asks for.
    pub open spec fn session_asked(self, args: Seq<Seq<char>>) -> (
        PaneView,
        Option<SessionRequestView>,
    ) {
        let word = nth_arg(args, 0);
        if word == Some("save"@) {
            (self, Some(SessionRequestView::Save { name: arg_or(args, 1, "default"@) }))
        } else if word == Some("load"@) {
            (self, Some(SessionRequestView::Load { name: arg_or(args, 1, "default"@) }))
        } else if word == Some("list"@) {
            (self, Some(SessionRequestView::List))
        } else if word == Some("search"@) {
            (self, Some(SessionRequestView::Search { query: arg_or(args, 1, Seq::empty()) }))
        } else if word == Some("delete"@) {
            (self, Some(SessionRequestView::Delete { name: arg_or(args, 1, Seq::empty()) }))
        } else if word == Some("diff"@) {
            (self, Some(SessionRequestView::Diff { name: arg_or(args, 1, "default"@) }))
        } else if word == Some("fork"@) {
            self.fork_asked(args)
        } else if word == Some("tree"@) {
            (self, Some(SessionRequestView::Tree))
        } else {
            (self.said(session_usage()), None)
        }
    }
}

/// A session as it was read from where it is kept.
pub struct LoadedSession {
    pub settings: Settings,
    pub mode: String,
    pub history: Vec<Message>,
    pub todos: Vec<TodoItem>,
    pub skills: Skills,
    pub count: usize,
}

/// What a read session holds.
#[verifier::ext_equal]
pub struct LoadedView {
    pub settings: SettingsView,
    pub mode: Seq<char>,
    pub history: Seq<MessageView>,
    pub todos: Seq<(Seq<char>, TodoStatus)>,
    pub skills: SkillsView,
    pub count: nat,
}

impl View for LoadedSession {
    type V = LoadedView;

    open spec fn view(&self) -> LoadedView {
        LoadedView {
            settings: self.settings@,
            mode: self.mode@,
            history: model::messages(self.history@),
            todos: render::todos_view(self.todos@),
            skills: self.skills@,
            count: self.count as nat,
        }
    }
}

/// What came of reading a session.
pub open spec fn loaded_view(r: Result<LoadedSession, String>) -> Result<LoadedView, Seq<char>> {
    match r {
        Ok(l) => Ok(l@),
        Err(e) => Err(e@),
    }
}

/// What came of writing something.
pub open spec fn outcome_view(r: Result<String, String>) -> Result<Seq<char>, Seq<char>> {
    match r {
        Ok(s) => Ok(s@),
        Err(e) => Err(e@),
    }
}

/// What came of deleting something.
pub open spec fn deletion_view(r: Result<bool, String>) -> Result<bool, Seq<char>> {
    match r {
        Ok(b) => Ok(b),
        Err(e) => Err(e@),
    }
}

impl PaneView {
    /// The session taken over as it was read; what the user sees of it is kept where its
    /// messages are still there.
    pub open spec fn adopted(self, name: Seq<char>, l: LoadedView) -> PaneView {
        PaneView {
            settings: l.settings,
            mode: settings::mode_of(l.mode),
            todos: l.todos,
            skills: l.skills,
            session: Some(name),
            log: TranscriptView { history: l.history, ..self.log }.reseeded().pruned(),
            ..self
        }
    }

    /// The note that a session was loaded.
    pub open spec fn loaded_note(name: Seq<char>, count: nat) -> Seq<char> {
        "Loaded "@ + name + " ("@ + scan::decimal(count) + " messages)"@
    }

    /// A session loaded in place of the shown one.
    pub open spec fn session_loaded(
        self,
        name: Seq<char>,
        r: Result<LoadedView, Seq<char>>,
    ) -> PaneView {
        match r {
            Ok(l) => {
                let v = self.adopted(name, l);
                PaneView {
                    log: TranscriptView { redo: Seq::empty(), follow: true, ..v.log },
                    ..v
                }.did(PaneView::loaded_note(name, l.count))
            },
            Err(e) => self.failed("Session load failed: "@ + e),
        }
    }

    /// The session saved under a name.
    pub open spec fn session_saved(
        self,
        name: Seq<char>,
        r: Result<Seq<char>, Seq<char>>,
    ) -> PaneView {
        match r {
            Ok(path) => PaneView { session: Some(name), ..self }.did("Saved "@ + path),
            Err(e) => self.failed("Session save failed: "@ + e),
        }
    }

    /// A saved session deleted.
    pub open spec fn session_deleted(self, name: Seq<char>, r: Result<bool, Seq<char>>) -> PaneView {
        match r {
            Ok(true) => self.did("Deleted session "@ + name),
            Ok(false) => self.failed("Session not found: "@ + name),
            Err(e) => self.failed("Session delete failed: "@ + e),
        }
    }

    /// A saved session deleted from the list beside the panes: the one that is shown
    /// stays, without its name.
    pub open spec fn listed_session_deleted(
        self,
        name: Seq<char>,
        r: Result<bool, Seq<char>>,
    ) -> PaneView {
        match r {
            Ok(true) => PaneView {
                session: if self.session == Some(name) {
                    None
                } else {
                    self.session
                },
                ..self
            }.said("Deleted session "@ + name),
            _ => self.session_deleted(name, r),
        }
    }

    /// What a saved session and the shown one differ in.
    pub open spec fn session_compared(self, r: Result<Seq<char>, Seq<char>>) -> PaneView {
        match r {
            Ok(text) => self.told(text),
            Err(e) => self.failed("Session diff failed: "@ + e),
        }
    }

    /// The session kept under another name too.
    pub open spec fn session_forked(
        self,
        name: Seq<char>,
        turns: Option<usize>,
        kept: nat,
        r: Result<Seq<char>, Seq<char>>,
    ) -> PaneView {
        match r {
            Err(e) => self.failed("Session fork failed: "@ + e),
            Ok(path) => self.did(
                match turns {
                    Some(n) => "Forked first "@ + scan::decimal(n as nat) + " turn(s) as "@ + name + " ("@
                        + scan::decimal(kept) + " messages, "@ + path + ")"@,
                    None => "Forked current session as "@ + name + " ("@ + path
                        + "); keep working here or /session load "@ + name,
                },
            ),
        }
    }

    /// The name under which the session is saved by itself: its own, or one with the time.
    pub open spec fn autosave_name(self, seconds: Option<u64>) -> Option<Seq<char>> {
        if self.log.history.len() == 0 {
            None
        } else {
            Some(
                match self.session {
                    Some(name) => name,
                    None => match seconds {
                        Some(n) => "autosave-"@ + scan::decimal(n as nat),
                        None => "autosave"@,
                    },
                },
            )
        }
    }

    /// A new session begun; the one before was saved under a name, or held nothing.
    pub open spec fn session_begun(self, saved: Option<Seq<char>>) -> PaneView {
        let log = TranscriptView { history: Seq::empty(), redo: Seq::empty(), ..self.log };
        PaneView {
            session: None,
            log: TranscriptView { follow: true, ..log.reseeded().pruned() },
            ..self
        }.said(
            match saved {
                Some(name) => "New session · previous saved as "@ + name,
                None => "New session"@,
            },
        )
    }

    /// The workspace changed to a directory, unless it could not be made.
    pub open spec fn workspace_entered(self, path: Seq<char>, error: Option<Seq<char>>) -> PaneView {
        match error {
            Some(e) => self.failed("workspace error: "@ + e),
            None => PaneView { workspace: path, ..self }.did("Workspace: "@ + path),
        }
    }
}

impl Pane {
    fn ask_fork(&mut self, args: &Vec<String>) -> (r: Option<SessionRequest>)
        requires
            old(self).wf(),
        ensures
            final(self).wf(),
            (final(self)@, request_view(r)) == old(self)@.fork_asked(text::texts(args@)),
    {
        assert(text::texts(args@).len() == args@.len());
        if args.len() < 2 {
            self.say("Usage: /session fork <name> [turns]");
            return None;
        }
        assert(text::texts(args@)[1] == args@[1]@);
        let name = text::copy_text(args[1].as_str());
        let parent = composer::copy_opt(&self.current_session);
        assert(self@.log.history.len() == self.log.history@.len());
        if args.len() < 3 {
            return Some(
                SessionRequest::Fork { name, turns: None, end: self.log.history.len(), parent },
            );
        }
        assert(text::texts(args@)[2] == args@[2]@);
        let turns: usize = match filters::parse_index(args[2].as_str()) {
            Some(n) => n,
            None => 0,
        };
        if turns == 0 {
            self.fail("Usage: /session fork <name> [turns]");
            return None;
        }
        let end: usize = find_turns_end(&self.log.history, turns);
        Some(SessionRequest::Fork { name, turns: Some(turns), end, parent })
    }

    /// What a command on sessions asks for.
    pub fn command_session(&mut self, args: &Vec<String>) -> (r: Option<SessionRequest>)
        requires
            old(self).wf(),
        ensures
            final(self).wf(),
            (final(self)@, request_view(r)) == old(self)@.session_asked(text::texts(args@)),
    {
        proof {
            reveal_strlit("");
            assert(""@ =~= Seq::empty());
        }
        if arg_is(args, 0, "save") {
            Some(SessionRequest::Save { name: arg_text(args, 1, "default") })
        } else if arg_is(args, 0, "load") {
            Some(SessionRequest::Load { name: arg_text(args, 1, "default") })
        } else if arg_is(args, 0, "list") {
            Some(SessionRequest::List)
        } else if arg_is(args, 0, "search") {
            Some(SessionRequest::Search { query: arg_text(args, 1, "") })
        } else if arg_is(args, 0, "delete") {
            Some(SessionRequest::Delete { name: arg_text(args, 1, "") })
        } else if arg_is(args, 0, "diff") {
            Some(SessionRequest::Diff { name: arg_text(args, 1, "default") })
        } else if arg_is(args, 0, "fork") {
            self.ask_fork(args)
        } else if arg_is(args, 0, "tree") {
            Some(SessionRequest::Tree)
        } else {
            self.say("Usage: /session save|load|list|search|delete|diff|fork|tree");
            None
        }
    }

    pub(crate) fn adopt(&mut self, name: &str, l: LoadedSession)
        requires
            old(self).wf(),
            l.skills.wf(),
        ensures
            final(self).wf(),
            final(self)@ == old(self)@.adopted(name@, l@),
    {
        self.mode = Mode::named(l.mode.as_str());
        self.settings = l.settings;
        self.todos = l.todos;
        self.skills = l.skills;
        self.current_session = Some(text::copy_text(name));
        self.log.history = l.history;
        self.log.reseed_msg_ids();
        self.log.prune_sections();
    }

    /// Takes over a session that was read, or says why it could not be.
    pub fn load_session_named(&mut self, name: &str, r: Result<LoadedSession, String>)
        requires
            old(self).wf(),
            r matches Ok(l) ==> l.skills.wf(),
        ensures
            final(self).wf(),
            final(self)@ == old(self)@.session_loaded(name@, loaded_view(r)),
    {
        match r {
            Ok(l) => {
                let count = scan::decimal_text(l.count as u64);
                self.adopt(name, l);
                self.log.redo_stack = Vec::new();
                self.log.follow_transcript = true;
                assert(self@.log.redo =~= Seq::empty());
                self.set_ok(text::cat5("Loaded ", name, " (", count.as_str(), " messages)"));
            },
            Err(e) => {
                self.set_error(text::cat2("Session load failed: ", e.as_str()));
            },
        }
    }

    /// Tells what came of saving the session.
    pub fn session_saved(&mut self, name: &str, r: Result<String, String>)
        ensures
            final(self)@ == old(self)@.session_saved(name@, outcome_view(r)),
            old(self).wf() ==> final(self).wf(),
    {
        match r {
            Ok(path) => {
                self.current_session = Some(text::copy_text(name));
                self.set_ok(text::cat2("Saved ", path.as_str()));
            },
            Err(e) => self.set_error(text::cat2("Session save failed: ", e.as_str())),
        }
    }

    /// Tells what came of deleting a session.
    pub fn session_deleted(&mut self, name: &str, r: Result<bool, String>)
        ensures
            final(self)@ == old(self)@.session_deleted(name@, deletion_view(r)),
            old(self).wf() ==> final(self).wf(),
    {
        match r {
            Ok(true) => self.set_ok(text::cat2("Deleted session ", name)),
            Ok(false) => self.set_error(text::cat2("Session not found: ", name)),
            Err(e) => self.set_error(text::cat2("Session delete failed: ", e.as_str())),
        }
    }

    /// Tells what came of deleting a session from the list beside the panes.
    pub fn listed_session_deleted(&mut self, name: &str, r: Result<bool, String>)
        ensures
            final(self)@ == old(self)@.listed_session_deleted(name@, deletion_view(r)),
            old(self).wf() ==> final(self).wf(),
    {
        match r {
            Ok(true) => {
                let same = match &self.current_session {
                    Some(n) => text::same_text(n.as_str(), name),
                    None => false,
                };
                if same {
                    self.current_session = None;
                }
                self.set_status(text::cat2("Deleted session ", name));
            },
            _ => self.session_deleted(name, r),
        }
    }

    /// Shows what a saved session and the shown one differ in.
    pub fn session_compared(&mut self, r: Result<String, String>)
        ensures
            final(self)@ == old(self)@.session_compared(outcome_view(r)),
            old(self).wf() ==> final(self).wf(),
    {
        match r {
            Ok(text) => self.push_system(text.as_str()),
            Err(e) => self.set_error(text::cat2("Session diff failed: ", e.as_str())),
        }
    }

    /// Tells what came of a fork.
    pub fn session_forked(
        &mut self,
        name: &str,
        turns: Option<usize>,
        kept: usize,
        r: Result<String, String>,
    )
        ensures
            final(self)@ == old(self)@.session_forked(name@, turns, kept as nat, outcome_view(r)),
            old(self).wf() ==> final(self).wf(),
    {
        match r {
            Err(e) => self.set_error(text::cat2("Session fork failed: ", e.as_str())),
            Ok(path) => {
                let text = match turns {
                    Some(n) => {
                        let n = scan::decimal_text(n as u64);
                        let kept = scan::decimal_text(kept as u64);
                        let head = text::cat5("Forked first ", n.as_str(), " turn(s) as ", name, " (");
                        text::cat5(head.as_str(), kept.as_str(), " messages, ", path.as_str(), ")")
                    },
                    None => {
                        let head = text::cat4("Forked current session as ", name, " (", path.as_str());
                        text::cat3(head.as_str(), "); keep working here or /session load ", name)
                    },
                };
                self.set_ok(text);
            },
        }
    }

    /// The name under which the session is to be saved by itself; none where it is empty.
    pub fn autosave_name(&self, seconds: Option<u64>) -> (r: Option<String>)
        ensures
            composer::opt_text(r) == self@.autosave_name(seconds),
    {
        assert(self@.log.history.len() == self.log.history@.len());
        if self.log.history.len() == 0 {
            return None;
        }
        match &self.current_session {
            Some(name) => Some(text::copy_text(name.as_str())),
            None => match seconds {
                Some(n) => {
                    let n = scan::decimal_text(n);
                    Some(text::cat2("autosave-", n.as_str()))
                },
                None => Some(text::copy_text("autosave")),
            },
        }
    }

    /// Begins a new session.
    pub fn sidebar_new(&mut self, saved: Option<String>)
        requires
            old(self).wf(),
        ensures
            final(self).wf(),
            final(self)@ == old(self)@.session_begun(composer::opt_text(saved)),
    {
        self.log.history = Vec::new();
        self.log.redo_stack = Vec::new();
        assert(self@.log.history =~= Seq::empty());
        assert(self@.log.redo =~= Seq::empty());
        self.log.reseed_msg_ids();
        self.log.prune_sections();
        self.current_session = None;
        self.log.follow_transcript = true;
        match saved {
            Some(name) => self.set_status(text::cat2("New session · previous saved as ", name.as_str())),
            None => self.say("New session"),
        }
    }

    /// Whether a session other than the shown one is named: the shown one is saved before
    /// such a session is loaded.
    pub fn other_session(&self, name: &str) -> (r: bool)
        ensures
            r == (self@.session != Some(name@)),
    {
        match &self.current_session {
            Some(n) => !text::same_text(n.as_str(), name),
            None => true,
        }
    }

    /// The workspace that a command asks for; without one, the workspace is shown.
    pub fn command_workspace(&mut self, args: &Vec<String>) -> (r: Option<String>)
        ensures
            composer::opt_text(r) == nth_arg(text::texts(args@), 0),
            args@.len() == 0 ==> final(self)@ == old(self)@.told(
                "Workspace: "@ + old(self)@.workspace,
            ),
            args@.len() > 0 ==> *final(self) == *old(self),
            old(self).wf() ==> final(self).wf(),
    {
        assert(text::texts(args@).len() == args@.len());
        if args.len() > 0 {
            assert(text::texts(args@)[0] == args@[0]@);
            Some(text::copy_text(args[0].as_str()))
        } else {
            let text = text::cat2("Workspace: ", self.workspace.as_str());
            self.push_system(text.as_str());
            None
        }
    }

    /// Moves to a workspace that was made, or says why it could not be.
    pub fn enter_workspace(&mut self, path: String, error: Option<String>)
        ensures
            final(self)@ == old(self)@.workspace_entered(path@, composer::opt_text(error)),
            old(self).wf() ==> final(self).wf(),
    {
        match error {
            Some(e) => self.set_error(text::cat2("workspace error: ", e.as_str())),
            None => {
                let note = text::cat2("Workspace: ", path.as_str());
                self.workspace = path;
                self.set_ok(note);
            },
        }
    }
}

fn find_turns_end(history: &Vec<Message>, turns: usize) -> (r: usize)
    ensures
        r == turns_end(model::messages(history@), turns as nat, 0),
        r <= history@.len(),
{
    let mut left: usize = turns;
    let mut i: usize = 0;
    assert(model::messages(history@).len() == history@.len());
    while i < history.len()
        invariant
            i <= history@.len(),
            model::messages(history@).len() == history@.len(),
            turns_end(model::messages(history@), turns as nat, 0) == turns_end(
                model::messages(history@),
                left as nat,
                i as int,
            ),
        decreases history@.len() - i,
    {
        assert(model::messages(history@)[i as int] == history@[i as int]@);
        if text::same_text(history[i].role.as_str(), "user") {
            if left == 0 {
                return i;
            }
            left = left - 1;
        }
        i = i + 1;
    }
    i
}

proof fn turns_end_cuts(history: Seq<MessageView>, turns: nat, i: int)
    requires
        0 <= i <= history.len(),
    ensures
        i <= turns_end(history, turns, i) <= history.len(),
        turns_end(history, turns, i) < history.len() ==> history[turns_end(history, turns, i)].role
            == "user"@,
        transcript::users_in(history, turns_end(history, turns, i)) <= transcript::users_in(history, i) + turns,
        turns_end(history, turns, i) < history.len() ==> transcript::users_in(
            history,
            turns_end(history, turns, i),
        ) == transcript::users_in(history, i) + turns,
    decreases history.len() - i,
{
    if i < history.len() {
        if history[i].role == "user"@ {
            if turns > 0 {
                turns_end_cuts(history, (turns - 1) as nat, i + 1);
                assert(transcript::users_in(history, i + 1) == transcript::users_in(history, i) + 1);
            }
        } else {
            turns_end_cuts(history, turns, i + 1);
            assert(transcript::users_in(history, i + 1) == transcript::users_in(history, i));
        }
    }
}

/// A fork of a number of turns keeps that many messages of the user, or all there are, and
/// ends just before the next one.
pub proof fn forks_end_at_a_turn(history: Seq<MessageView>, turns: nat)
    ensures
        0 <= turns_end(history, turns, 0) <= history.len(),
        transcript::users_in(history, turns_end(history, turns, 0)) <= turns,
        turns_end(history, turns, 0) < history.len() ==> {
            &&& history[turns_end(history, turns, 0)].role == "user"@
            &&& transcript::users_in(history, turns_end(history, turns, 0)) == turns
        },
{
    turns_end_cuts(history, turns, 0);
}

/// A failed load leaves the conversation as it was.
pub proof fn failed_loads_keep_the_session(v: PaneView, name: Seq<char>, e: Seq<char>)
    ensures
        v.session_loaded(name, Err(e)).log.history == v.log.history,
        v.session_loaded(name, Err(e)).session == v.session,
{
}

/// Deleting a saved session never touches the conversation that is shown.
pub proof fn deleting_keeps_the_conversation(
    v: PaneView,
    name: Seq<char>,
    r: Result<bool, Seq<char>>,
)
    ensures
        v.listed_session_deleted(name, r).log.history == v.log.history,
        v.session_deleted(name, r).log.history == v.log.history,
        v.listed_session_deleted(name, r).session == v.session || v.session == Some(name),
{
}

/// A fork leaves the conversation and the session that it is kept in as they are.
pub proof fn forks_keep_the_session(
    v: PaneView,
    name: Seq<char>,
    turns: Option<usize>,
    kept: nat,
    r: Result<Seq<char>, Seq<char>>,
)
    ensures
        v.session_forked(name, turns, kept, r).session == v.session,
        v.session_forked(name, turns, kept, r).log.history == v.log.history,
{
}

} // verus!
