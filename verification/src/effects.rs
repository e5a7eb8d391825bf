//! What the interface asks of its surroundings.

use crate::composer;
use crate::model::{Message, MessageView, ToolCall, ToolCallView, ToolResult, ToolResultView};
use crate::model;
use crate::mouse::Mouse;
use crate::scan;
use crate::settings::Mode;
use crate::text;
use vstd::prelude::*;

verus! {

/// A setting and the value to keep for the next start.
#[derive(Debug, Clone, PartialEq, Eq)]
pub enum Saved {
    Theme(String),
    Quality(Option<String>),
    Profile(Option<String>),
    Reasoning(String),
    Permissions(String),
    AutoCompact(bool),
    CachePrompt(bool),
    ShowThinking(bool),
    Bell(bool),
    Mouse(bool),
    /// The connection in use, and the model where one was chosen.
    Connection(Option<String>),
}

/// What a saved setting holds.
pub enum SavedView {
    Theme(Seq<char>),
    Quality(Option<Seq<char>>),
    Profile(Option<Seq<char>>),
    Reasoning(Seq<char>),
    Permissions(Seq<char>),
    AutoCompact(bool),
    CachePrompt(bool),
    ShowThinking(bool),
    Bell(bool),
    Mouse(bool),
    Connection(Option<Seq<char>>),
}

impl View for Saved {
    type V = SavedView;

    open spec fn view(&self) -> SavedView {
        match *self {
            Saved::Theme(s) => SavedView::Theme(s@),
            Saved::Quality(s) => SavedView::Quality(composer::opt_text(s)),
            Saved::Profile(s) => SavedView::Profile(composer::opt_text(s)),
            Saved::Reasoning(s) => SavedView::Reasoning(s@),
            Saved::Permissions(s) => SavedView::Permissions(s@),
            Saved::AutoCompact(b) => SavedView::AutoCompact(b),
            Saved::CachePrompt(b) => SavedView::CachePrompt(b),
            Saved::ShowThinking(b) => SavedView::ShowThinking(b),
            Saved::Bell(b) => SavedView::Bell(b),
            Saved::Mouse(b) => SavedView::Mouse(b),
            Saved::Connection(s) => SavedView::Connection(composer::opt_text(s)),
        }
    }
}

/// What the tools of a round may do.
#[derive(Debug, Clone, Copy, PartialEq, Eq, Structural)]
pub struct ToolLimits {
    pub network: bool,
    pub code: bool,
    pub mode: Mode,
}

/// What a copy of the conversation is kept for.
#[derive(Debug, Clone, Copy, PartialEq, Eq, Structural)]
pub enum BackupReason {
    /// The conversation is summed up next; `automatic` says that nobody asked for it.
    Compact { automatic: bool },
    /// The conversation is cut at message `index` next.
    Rewind { index: usize },
    /// The conversation is emptied next.
    Clear,
}

/// The word for what a copy is kept for.
pub open spec fn reason_word(reason: BackupReason) -> Seq<char> {
    match reason {
        BackupReason::Compact { .. } => "compact"@,
        BackupReason::Rewind { .. } => "rewind"@,
        BackupReason::Clear => "clear"@,
    }
}

impl BackupReason {
    /// The word for what the copy is kept for.
    pub fn word(self) -> (r: &'static str)
        ensures
            r@ == reason_word(self),
    {
        match self {
            BackupReason::Compact { .. } => "compact",
            BackupReason::Rewind { .. } => "rewind",
            BackupReason::Clear => "clear",
        }
    }

    /// The name that the copy is kept under, by the second in which it is made.
    pub fn checkpoint_name(self, seconds: u64) -> (r: String)
        ensures
            r@ == "checkpoint-"@ + reason_word(self) + "-"@ + scan::decimal(seconds as nat),
    {
        let n = scan::decimal_text(seconds);
        text::cat4("checkpoint-", self.word(), "-", n.as_str())
    }
}

/// A request of a pane to its surroundings, in the order in which they are to be met.
#[derive(Debug)]
pub enum Effect {
    /// Send a prompt to the model.
    Send { prompt: String },
    /// Send the conversation as it stands to the model.
    Continue,
    /// Stop the running request.
    Stop,
    /// Ring the bell.
    Bell,
    /// Say of each of these calls whether it may run.
    Check { calls: Vec<ToolCall>, limits: ToolLimits },
    /// Run these calls. `order` has the place of each in the round, `slots` the results
    /// that the round already has, and `granted` the texts of the calls that the user
    /// allowed in this round.
    RunTools {
        calls: Vec<ToolCall>,
        order: Vec<usize>,
        slots: Vec<Option<ToolResult>>,
        limits: ToolLimits,
        granted: Vec<String>,
    },
    /// Hand these results back as those of the round.
    Deliver { results: Vec<ToolResult> },
    /// Allow calls with this text, for as long as the client runs.
    Allow { summary: String },
    /// Allow writing the files that a call touches, for as long as the client runs.
    AllowFiles { call: ToolCall },
    /// Keep a copy of the conversation under a name that says why.
    Backup { reason: BackupReason },
    /// Have the model sum up this text; `recent` stays as it is.
    Summarize { prompt: String, recent: Vec<Message> },
    /// Run a shell line.
    Shell { command: String, network: bool },
    /// Remember a shell line.
    Learn { command: String },
    /// Have the model draft a shell command.
    Draft { request: String },
    /// Move to another directory.
    ChangeDir { path: String },
    /// Keep a setting; `report` says whether a failure is shown.
    Keep { setting: Saved, report: bool },
    /// Find out whether a provider can be reached; `entered` is what was typed for it.
    OpenProvider { id: String, entered: Option<String> },
    /// Connect to a provider.
    Connect { provider: String, address: Option<String>, key: Option<String> },
    /// Find out whether a text is an address of a provider.
    CheckUrl { provider: String, url: String },
    /// List the models.
    ListModels,
    /// Put a text on the clipboard.
    Copy { text: String, what: CopiedPart },
    /// Turn the mouse on or off.
    Mouse { on: bool },
    /// Send the draft, as if Enter was pressed.
    Submit,
    /// Run a command whose work is outside the pane.
    Command { name: String, args: Vec<String> },
}

/// What was copied.
#[derive(Debug, Clone, Copy, PartialEq, Eq, Structural)]
pub enum CopiedPart {
    Reply,
    Code { number: usize },
    Block { number: usize },
}

/// What a request holds.
#[verifier::ext_equal]
pub enum EffectView {
    Send { prompt: Seq<char> },
    Continue,
    Stop,
    Bell,
    Check { calls: Seq<ToolCallView>, limits: ToolLimits },
    RunTools {
        calls: Seq<ToolCallView>,
        order: Seq<usize>,
        slots: Seq<Option<ToolResultView>>,
        limits: ToolLimits,
        granted: Seq<Seq<char>>,
    },
    Deliver { results: Seq<ToolResultView> },
    Allow { summary: Seq<char> },
    AllowFiles { call: ToolCallView },
    Backup { reason: BackupReason },
    Summarize { prompt: Seq<char>, recent: Seq<MessageView> },
    Shell { command: Seq<char>, network: bool },
    Learn { command: Seq<char> },
    Draft { request: Seq<char> },
    ChangeDir { path: Seq<char> },
    Keep { setting: SavedView, report: bool },
    OpenProvider { id: Seq<char>, entered: Option<Seq<char>> },
    Connect { provider: Seq<char>, address: Option<Seq<char>>, key: Option<Seq<char>> },
    CheckUrl { provider: Seq<char>, url: Seq<char> },
    ListModels,
    Copy { text: Seq<char>, what: CopiedPart },
    Mouse { on: bool },
    Submit,
    Command { name: Seq<char>, args: Seq<Seq<char>> },
}

impl View for Effect {
    type V = EffectView;

    open spec fn view(&self) -> EffectView {
        match *self {
            Effect::Send { prompt } => EffectView::Send { prompt: prompt@ },
            Effect::Continue => EffectView::Continue,
            Effect::Stop => EffectView::Stop,
            Effect::Bell => EffectView::Bell,
            Effect::Check { calls: list, limits } => EffectView::Check {
                calls: model::calls(list@),
                limits,
            },
            Effect::RunTools { calls: list, order, slots, limits, granted } => EffectView::RunTools {
                calls: model::calls(list@),
                order: order@,
                slots: slots_view(slots@),
                limits,
                granted: text::texts(granted@),
            },
            Effect::Deliver { results } => EffectView::Deliver { results: model::results_view(results@) },
            Effect::Allow { summary } => EffectView::Allow { summary: summary@ },
            Effect::AllowFiles { call } => EffectView::AllowFiles { call: call@ },
            Effect::Backup { reason } => EffectView::Backup { reason },
            Effect::Summarize { prompt, recent } => EffectView::Summarize {
                prompt: prompt@,
                recent: model::messages(recent@),
            },
            Effect::Shell { command, network } => EffectView::Shell { command: command@, network },
            Effect::Learn { command } => EffectView::Learn { command: command@ },
            Effect::Draft { request } => EffectView::Draft { request: request@ },
            Effect::ChangeDir { path } => EffectView::ChangeDir { path: path@ },
            Effect::Keep { setting, report } => EffectView::Keep { setting: setting@, report },
            Effect::OpenProvider { id, entered } => EffectView::OpenProvider {
                id: id@,
                entered: composer::opt_text(entered),
            },
            Effect::Connect { provider, address, key } => EffectView::Connect {
                provider: provider@,
                address: composer::opt_text(address),
                key: composer::opt_text(key),
            },
            Effect::CheckUrl { provider, url } => EffectView::CheckUrl {
                provider: provider@,
                url: url@,
            },
            Effect::ListModels => EffectView::ListModels,
            Effect::Copy { text, what } => EffectView::Copy { text: text@, what },
            Effect::Mouse { on } => EffectView::Mouse { on },
            Effect::Submit => EffectView::Submit,
            Effect::Command { name, args } => EffectView::Command {
                name: name@,
                args: text::texts(args@),
            },
        }
    }
}

/// What the slots of a round hold.
pub open spec fn slots_view(list: Seq<Option<ToolResult>>) -> Seq<Option<ToolResultView>> {
    list.map_values(
        |o: Option<ToolResult>|
            match o {
                Some(r) => Some(r@),
                None => None,
            },
    )
}

/// What the requests of a list hold.
pub open spec fn effects(list: Seq<Effect>) -> Seq<EffectView> {
    list.map_values(|e: Effect| e@)
}

/// Adding a request adds what it holds.
pub proof fn effects_push(list: Seq<Effect>, e: Effect)
    ensures
        effects(list.push(e)) == effects(list).push(e@),
{
    assert(effects(list.push(e)) =~= effects(list).push(e@));
}

} // verus!
