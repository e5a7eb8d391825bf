//! Events that reach the interface, overlays, and the tone of the status line.

use crate::composer;
use crate::model::{Message, ToolCall, ToolResult};
use crate::paint::Color;
use crate::settings::Settings;
use crate::text;
use vstd::prelude::*;

verus! {

/// One entry of a provider's model list. `status` says whether the model is loaded,
/// where the provider reports it.
#[derive(Debug, Clone, PartialEq, Eq)]
pub struct ModelInfo {
    pub id: String,
    pub status: Option<String>,
}

/// What a model entry holds.
#[verifier::ext_equal]
pub struct ModelView {
    pub id: Seq<char>,
    pub status: Option<Seq<char>>,
}

impl View for ModelInfo {
    type V = ModelView;

    open spec fn view(&self) -> ModelView {
        ModelView { id: self.id@, status: composer::opt_text(self.status) }
    }
}

/// What the entries of a list hold.
pub open spec fn models_view(list: Seq<ModelInfo>) -> Seq<ModelView> {
    list.map_values(|m: ModelInfo| m@)
}

/// The row of a model in a list whose active model is `active`.
pub open spec fn model_row(m: ModelView, active: Seq<char>) -> Seq<char> {
    (if m.id == active {
        "● "@ + m.id + " (active)"@
    } else {
        "  "@ + m.id
    }) + (match m.status {
        Some(status) => " · "@ + status,
        None => Seq::empty(),
    })
}

impl ModelInfo {
    /// The row of the model in a list: a mark and a note where it is the active one,
    /// and its load status where that is known.
    pub fn display(&self, active: &str) -> (r: String)
        ensures
            r@ == model_row(self@, active@),
    {
        let mut text = if text::same_text(self.id.as_str(), active) {
            text::cat3("● ", self.id.as_str(), " (active)")
        } else {
            text::cat2("  ", self.id.as_str())
        };
        if let Some(status) = &self.status {
            let tail = text::cat2(" · ", status.as_str());
            vstd::string::StringExecFns::append(&mut text, tail.as_str());
        }
        assert(text@ =~= model_row(self@, active@));
        text
    }

    /// A copy of the entry.
    pub fn copy(&self) -> (r: ModelInfo)
        ensures
            r@ == self@,
    {
        ModelInfo { id: text::copy_text(self.id.as_str()), status: composer::copy_opt(&self.status) }
    }
}

/// How many tokens a reply took, where the backend says so.
#[derive(Debug, Clone, Copy, PartialEq, Eq, Structural)]
pub struct Usage {
    pub prompt_tokens: Option<u64>,
    pub completion_tokens: Option<u64>,
    pub cached_tokens: Option<u64>,
}

impl Usage {
    /// Nothing known.
    pub fn none() -> (r: Usage)
        ensures
            r == (Usage { prompt_tokens: None, completion_tokens: None, cached_tokens: None }),
    {
        Usage { prompt_tokens: None, completion_tokens: None, cached_tokens: None }
    }
}

/// A finished reply. `wall_text` is the time that it took, in seconds with two
/// decimals.
#[derive(Debug, Clone, PartialEq, Eq)]
pub struct ChatResult {
    pub content: String,
    pub tool_calls: Vec<ToolCall>,
    pub usage: Usage,
    pub wall_text: String,
}

/// What a running request reports.
#[derive(Debug, Clone, PartialEq, Eq)]
pub enum BackendEvent {
    Token(String),
    Status(String),
}

/// What happens to the interface from outside.
#[derive(Debug)]
pub enum UiEvent {
    Backend(BackendEvent),
    ChatDone(ChatResult),
    ChatError(String),
    ToolsDone(Vec<ToolResult>),
    Compacted { summary: String, recent: Vec<Message> },
    /// A command was drafted from a description, or drafting it failed.
    ShellDraft(Result<String, String>),
    /// A shell line failed and there are proposals to mend it.
    ShellCorrection { failed: String, fixed: String, more: Vec<String> },
    /// A background query finished.
    LiveValues { key: String, values: Vec<String>, ok: bool },
    /// A continuation of the draft from the model, or none.
    AiGhost { seq: u64, for_input: String, suffix: Option<String> },
    ModelsLoaded { models: Vec<ModelInfo> },
    Notice(String),
}

/// An event for one pane, or for the window. Panes are addressed by an id that is
/// never used again.
#[derive(Debug)]
pub struct Routed {
    pub pane: Option<u64>,
    pub event: UiEvent,
}

impl UiEvent {
    /// The event, addressed to a pane.
    pub fn at(self, pane: u64) -> (r: Routed)
        ensures
            r.pane == Some(pane),
            r.event == self,
    {
        Routed { pane: Some(pane), event: self }
    }

    /// The event, addressed to the window.
    pub fn global(self) -> (r: Routed)
        ensures
            r.pane == None::<u64>,
            r.event == self,
    {
        Routed { pane: None, event: self }
    }
}

/// What lies over the screen.
#[derive(Debug)]
pub enum Overlay {
    /// Nothing.
    Closed,
    Providers { selected: usize, scroll: usize },
    Models { items: Vec<ModelInfo>, selected: usize, scroll: usize, active: String },
    ApiKey { provider: String },
    CustomUrl { provider: String },
    Theme { selected: usize, original: String },
    Settings { selected: usize },
    /// A tool call awaits a decision.
    Approval,
}

/// One exchange that can be redone: a message of the user and everything after it.
#[derive(Debug, Clone)]
pub struct UndoEntry {
    pub messages: Vec<Message>,
}

/// How serious the note in the status line is.
#[derive(Debug, Clone, Copy, PartialEq, Eq, Structural)]
pub enum StatusTone {
    Muted,
    Success,
    Error,
}

/// The colour of each tone.
pub open spec fn tone_color(tone: StatusTone) -> Color {
    match tone {
        StatusTone::Muted => Color::White,
        StatusTone::Success => Color::Green,
        StatusTone::Error => Color::Red,
    }
}

impl StatusTone {
    /// The colour of the tone.
    pub fn color(self) -> (r: Color)
        ensures
            r == tone_color(self),
    {
        match self {
            StatusTone::Muted => Color::White,
            StatusTone::Success => Color::Green,
            StatusTone::Error => Color::Red,
        }
    }
}

impl Default for StatusTone {
    fn default() -> (r: StatusTone)
        ensures
            r == StatusTone::Muted,
    {
        StatusTone::Muted
    }
}

} // verus!
