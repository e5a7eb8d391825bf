//! What work beside the interface ends in: the events that report it.

use crate::approvals;
use crate::catalog::Json;
use crate::catalog;
use crate::composer;
use crate::effects;
use crate::events::{ChatResult, Routed, UiEvent};
use crate::events;
use crate::ghost::GhostQuestion;
use crate::ghost;
use crate::live::LiveKey;
use crate::live;
use crate::model::{Message, ToolCall, ToolResult};
use crate::model;
use crate::scan;
use crate::text;
use vstd::prelude::*;
use vstd::string::*;

verus! {

/// A note for a pane.
pub open spec fn is_note(r: Routed, pane: u64, note: Seq<char>) -> bool {
    &&& r.pane == Some(pane)
    &&& r.event matches UiEvent::Notice(t) && t@ == note
}

/// A failure of the request of a pane.
pub open spec fn is_failure(r: Routed, pane: u64, error: Seq<char>) -> bool {
    &&& r.pane == Some(pane)
    &&& r.event matches UiEvent::ChatError(e) && e@ == error
}

/// The models of an answer, for the window.
pub open spec fn is_catalog(r: Routed, value: Json) -> bool {
    &&& r.pane is None
    &&& r.event matches UiEvent::ModelsLoaded { models } && events::models_view(models@)
        == catalog::without_context(catalog::catalogued(value))
}

/// The end of a request: its reply, or why there is none.
pub fn chat_ended(pane: u64, r: Result<ChatResult, String>) -> (e: Routed)
    ensures
        match r {
            Ok(reply) => e.pane == Some(pane) && e.event == UiEvent::ChatDone(reply),
            Err(error) => is_failure(e, pane, error@),
        },
{
    match r {
        Ok(reply) => UiEvent::ChatDone(reply).at(pane),
        Err(error) => UiEvent::ChatError(error).at(pane),
    }
}

/// The end of summing a conversation up; `recent` stays as it is.
pub fn summary_ended(pane: u64, r: Result<String, String>, recent: Vec<Message>) -> (e: Routed)
    ensures
        match r {
            Ok(summary) => e.pane == Some(pane) && e.event == (UiEvent::Compacted {
                summary,
                recent,
            }),
            Err(error) => is_failure(e, pane, error@),
        },
{
    match r {
        Ok(summary) => UiEvent::Compacted { summary, recent }.at(pane),
        Err(error) => UiEvent::ChatError(error).at(pane),
    }
}

/// The end of running tool calls: what came back goes into the slots of the round.
pub fn tools_ended(
    pane: u64,
    slots: Vec<Option<ToolResult>>,
    ran: &Vec<ToolCall>,
    order: &Vec<usize>,
    r: Result<Vec<ToolResult>, String>,
) -> (e: Routed)
    requires
        ran@.len() == order@.len(),
        forall|i: int| 0 <= i < order@.len() ==> #[trigger] order@[i] < slots@.len(),
    ensures
        match r {
            Ok(done) => {
                &&& e.pane == Some(pane)
                &&& e.event matches UiEvent::ToolsDone(all) && model::results_view(all@)
                    == approvals::merged(
                    effects::slots_view(slots@),
                    model::calls(ran@),
                    order@,
                    model::results_view(done@),
                )
            },
            Err(error) => is_failure(e, pane, "tool execution: "@ + error@),
        },
{
    match r {
        Ok(done) => {
            let all = approvals::merge_results(slots, ran, order, &done);
            UiEvent::ToolsDone(all).at(pane)
        },
        Err(error) => UiEvent::ChatError(text::cat2("tool execution: ", error.as_str())).at(pane),
    }
}

/// The end of connecting to a provider: its models, or why there is no connection.
pub fn provider_connected(pane: u64, r: Result<Json, String>) -> (e: Routed)
    ensures
        match r {
            Ok(value) => is_catalog(e, value),
            Err(error) => is_note(e, pane, "connection failed: "@ + error@),
        },
{
    match r {
        Ok(value) => UiEvent::ModelsLoaded { models: catalog::extract_models(&value) }.global(),
        Err(error) => UiEvent::Notice(text::cat2("connection failed: ", error.as_str())).at(pane),
    }
}

/// The end of listing the models of the provider in use; an empty list is no list.
pub fn models_listed(pane: u64, r: Result<Json, String>) -> (e: Routed)
    ensures
        match r {
            Ok(value) => if catalog::catalogued(value).len() == 0 {
                is_note(e, pane, "Provider returned no models"@)
            } else {
                is_catalog(e, value)
            },
            Err(error) => is_note(e, pane, "model list failed: "@ + error@),
        },
{
    match r {
        Ok(value) => {
            let models = catalog::extract_models(&value);
            assert(events::models_view(models@).len() == models@.len());
            if models.len() == 0 {
                UiEvent::Notice(text::copy_text("Provider returned no models")).at(pane)
            } else {
                UiEvent::ModelsLoaded { models }.global()
            }
        },
        Err(error) => UiEvent::Notice(text::cat2("model list failed: ", error.as_str())).at(pane),
    }
}

/// The end of an inquiry: what it found out, or that it failed.
pub fn inquiry_ended(pane: u64, what: &str, r: Result<String, String>) -> (e: Routed)
    ensures
        match r {
            Ok(found) => is_note(e, pane, found@),
            Err(error) => is_note(e, pane, what@ + " failed: "@ + error@),
        },
{
    match r {
        Ok(found) => UiEvent::Notice(found).at(pane),
        Err(error) => UiEvent::Notice(text::cat3(what, " failed: ", error.as_str())).at(pane),
    }
}

/// The end of asking the model how a shell line goes on. A failure is no answer.
pub fn line_continued(pane: u64, q: &GhostQuestion, reply: Option<String>) -> (e: Routed)
    ensures
        e.pane == Some(pane),
        e.event matches UiEvent::AiGhost { seq, for_input, suffix } && seq == q.seq && for_input@
            == q.for_input@ && composer::opt_text(suffix) == (match reply {
            Some(r) => ghost::answer_suffix(q.prefix@, r@),
            None => None,
        }),
{
    let suffix = match reply {
        Some(r) => ghost::ai_ghost_suffix(q.prefix.as_str(), r.as_str()),
        None => None,
    };
    UiEvent::AiGhost { seq: q.seq, for_input: text::copy_text(q.for_input.as_str()), suffix }.at(
        pane,
    )
}

/// How many values of a running service are kept at most.
pub const LIVE_CAP: usize = 200;

/// The values in what a program printed.
pub open spec fn printed_values(out: Seq<char>) -> Seq<Seq<char>> {
    let all = scan::words(out);
    if all.len() <= LIVE_CAP {
        all
    } else {
        all.take(LIVE_CAP as int)
    }
}

/// The end of asking a running service for its values; `out` is what its program printed
/// where it succeeded.
pub fn service_asked(pane: u64, key: LiveKey, out: Option<String>) -> (e: Routed)
    ensures
        e.pane == Some(pane),
        e.event matches UiEvent::LiveValues { key: name, values, ok } && name@ == live::key_name(key)
            && ok == out is Some && text::texts(values@) == (match out {
            Some(s) => printed_values(s@),
            None => Seq::empty(),
        }),
{
    let ok = out.is_some();
    let values = match out {
        Some(s) => {
            let mut values = scan::text_words(s.as_str());
            assert(text::texts(values@).len() == values@.len());
            values.truncate(LIVE_CAP);
            assert(text::texts(values@) =~= printed_values(s@));
            values
        },
        None => Vec::new(),
    };
    assert(out is None ==> text::texts(values@) =~= Seq::empty());
    UiEvent::LiveValues { key: text::copy_text(key.name()), values, ok }.at(pane)
}

// ---------------------------------------------------------------------------
// Laws
// ---------------------------------------------------------------------------

/// However many values a service has, no more than the cap are kept, and those are the
/// first ones that it printed, in order.
pub proof fn kept_values_are_the_first(out: Seq<char>, i: int)
    requires
        0 <= i < printed_values(out).len(),
    ensures
        printed_values(out).len() <= LIVE_CAP,
        printed_values(out)[i] == scan::words(out)[i],
{
}

} // verus!
