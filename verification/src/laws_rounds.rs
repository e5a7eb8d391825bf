//! What holds of rounds of tools and of what comes in from outside.

use crate::approvals::{ApprovalVerdict, CheckView, DecisionView, RoundView};
use crate::approvals;
use crate::desk::{OverlayView, SceneView};
use crate::effects::{EffectView, ToolLimits};
use crate::events::{BackendEvent, ModelView, UiEvent};
use crate::inbox;
use crate::keys::{Key, KeyCode};
use crate::laws_commands;
use crate::model::ToolCallView;
use crate::model;
use crate::pane::PaneView;
use crate::render::TodoStatus;
use crate::requests;
use crate::run::RunView;
use crate::scan;
use crate::settings;
use vstd::prelude::*;

verus! {

// ---------------------------------------------------------------------------
// Calls
// ---------------------------------------------------------------------------

/// A call that the policy refuses is answered under its own name and id, with the reason; one
/// that it asks about waits with the summary and the preview that the policy gave.
pub proof fn checked_calls_are_answered_or_wait(
    list: Seq<ToolCallView>,
    checks: Seq<CheckView>,
    limits: ToolLimits,
    i: int,
)
    requires
        checks.len() == list.len(),
        0 <= i < list.len() <= usize::MAX,
    ensures
        ({
            let round = approvals::sorted_out(list, checks, limits, list.len() as int);
            &&& round.calls == list && round.limits == limits && round.granted.len() == 0
            &&& checks[i].decision matches DecisionView::Deny(reason) ==> (round.results[i] matches Some(r)
                && r.name == list[i].name && r.call_id == list[i].id && scan::contains_text(
                r.content,
                reason,
            ) && scan::contains_text(r.content, "tool error:"@))
            &&& checks[i].decision is Ask ==> exists|k: int|
                0 <= k < round.queue.len() && (#[trigger] round.queue[k]).index == i && round.queue[k].name
                    == list[i].name && round.queue[k].summary == checks[i].summary
                    && round.queue[k].preview == checks[i].preview
        }),
{
    sorted_by(list, checks, limits, list.len() as int, i);
    if let DecisionView::Deny(reason) = checks[i].decision {
        let a = "tool error: "@;
        let b = "tool '"@ + list[i].name + "' denied: "@;
        let content = a + (b + reason);
        laws_commands::piece(a + b, reason, Seq::empty());
        assert(content =~= a + b + reason + Seq::<char>::empty());
        reveal_strlit("tool error: ");
        reveal_strlit("tool error:");
        assert(content.subrange(0, 11) =~= "tool error:"@);
        assert(scan::occurs_at(content, "tool error:"@, 0));
    }
}

proof fn sorted_by(list: Seq<ToolCallView>, checks: Seq<CheckView>, limits: ToolLimits, n: int, i: int)
    requires
        checks.len() == list.len(),
        0 <= i < n <= list.len() <= usize::MAX,
    ensures
        ({
            let round = approvals::sorted_out(list, checks, limits, n);
            &&& round.calls == list && round.limits == limits && round.granted.len() == 0
            &&& round.results.len() == n
            &&& round.results[i] == approvals::policy_refusal(list[i], checks[i])
            &&& checks[i].decision is Ask ==> exists|k: int|
                0 <= k < round.queue.len() && (#[trigger] round.queue[k]).index == i && round.queue[k].name
                    == list[i].name && round.queue[k].summary == checks[i].summary
                    && round.queue[k].preview == checks[i].preview
        }),
    decreases n,
{
    let round = approvals::sorted_out(list, checks, limits, n);
    let less = approvals::sorted_out(list, checks, limits, n - 1);
    slots_of(list, checks, limits, n - 1);
    if i < n - 1 {
        sorted_by(list, checks, limits, n - 1, i);
        if checks[i].decision is Ask {
            let k = choose|k: int|
                0 <= k < less.queue.len() && (#[trigger] less.queue[k]).index == i && less.queue[k].name
                    == list[i].name && less.queue[k].summary == checks[i].summary && less.queue[k].preview
                    == checks[i].preview;
            assert(round.queue[k] == less.queue[k]);
        }
    } else if checks[i].decision is Ask {
        assert(round.queue.last().index == i);
    }
}

proof fn slots_of(list: Seq<ToolCallView>, checks: Seq<CheckView>, limits: ToolLimits, n: int)
    requires
        0 <= n,
    ensures
        ({
            let round = approvals::sorted_out(list, checks, limits, n);
            round.results.len() == n && round.calls == list && round.limits == limits && round.granted.len()
                == 0
        }),
    decreases n,
{
    if n > 0 {
        slots_of(list, checks, limits, n - 1);
    }
}

/// A round without open questions runs exactly the calls that were allowed, in their order,
/// and hands back the refusals at once where none was.
pub proof fn rounds_run_what_was_allowed(s: SceneView, round: RoundView)
    requires
        round.queue.len() == 0,
    ensures
        ({
            let w = s.checked(round).pane;
            &&& w.out.len() == s.pane.out.len() + 1
            &&& round.approved.len() > 0 ==> (w.out.last() matches EffectView::RunTools {
                calls,
                order,
                slots,
                limits,
                granted,
            } && order == round.approved && slots == round.results && limits == round.limits && granted
                == round.granted && calls.len() == order.len() && forall|k: int|
                0 <= k < calls.len() ==> #[trigger] calls[k] == round.calls[order[k] as int])
            &&& round.approved.len() == 0 ==> (w.out.last() matches EffectView::Deliver { results }
                && results.len() == round.results.len() && forall|k: int|
                0 <= k < results.len() && round.results[k] is Some ==> #[trigger] results[k]
                    == round.results[k]->0)
        }),
{
}

/// `y` allows the call on the card once, `a` for good, and `n` denies it; no other key decides
/// anything.
pub proof fn cards_are_decided_by_their_keys(s: SceneView, key: Key, c: char)
    requires
        s.desk.overlay is Approval,
        key.code == KeyCode::Char(c),
    ensures
        c == 'y' || c == 'Y' ==> s.overlay_key(key) == s.uncovered().resolved(ApprovalVerdict::Once),
        c == 'a' || c == 'A' ==> s.overlay_key(key) == s.uncovered().resolved(ApprovalVerdict::Always),
        c == 'n' || c == 'N' ==> s.overlay_key(key) == s.uncovered().resolved(ApprovalVerdict::Deny),
        c != 'y' && c != 'Y' && c != 'a' && c != 'A' && c != 'n' && c != 'N' ==> s.overlay_key(key) == s,
{
    reveal(SceneView::approval_key);
}

/// A card names the call that it is about.
pub proof fn cards_name_their_call(v: PaneView, round: RoundView)
    requires
        v.tools == Some(round),
        round.queue.len() > 0,
    ensures
        scan::contains_text(v.carded().log.status, round.queue[0].summary),
{
    let rest = "`"@ + (if round.queue.len() - 1 > 0 {
        " (+"@ + scan::decimal((round.queue.len() - 1) as nat) + " more)"@
    } else {
        Seq::empty()
    }) + " · y once · a always · n deny"@;
    laws_commands::piece("Approve `"@, round.queue[0].summary, rest);
    assert(v.carded().log.status =~= "Approve `"@ + round.queue[0].summary + rest);
}

/// A decision is about the first call that waits and leaves the others waiting, in order.
pub proof fn decisions_take_the_first(round: RoundView, verdict: ApprovalVerdict)
    requires
        round.queue.len() > 0,
        0 <= round.queue[0].index < round.calls.len(),
        round.calls.len() <= usize::MAX,
        round.results.len() == round.calls.len(),
        round.orderly(),
    ensures
        ({
            let next = round.decided(verdict);
            let item = round.queue[0];
            &&& next.queue == round.queue.skip(1)
            &&& next.calls == round.calls && next.limits == round.limits
            &&& verdict != ApprovalVerdict::Deny ==> next.approved.contains(item.index as usize)
                && next.results == round.results && next.granted == round.granted.push(item.summary)
            &&& verdict == ApprovalVerdict::Deny ==> (next.results[item.index] matches Some(r) && r.call_id
                == round.calls[item.index].id && r.name == round.calls[item.index].name
                && scan::contains_text(r.content, "denied by user"@))
        }),
{
    let item = round.queue[0];
    if round.approved.contains(item.index as usize) {
        let k = round.approved.index_of(item.index as usize);
        assert(round.approved[k] == round.queue[0].index);
    }
    approvals::inserting_keeps_order(round.approved, item.index as usize);
    laws_commands::piece("tool error: "@, "denied by user"@, Seq::empty());
    assert("tool error: "@ + "denied by user"@ + Seq::<char>::empty() =~= "tool error: "@
        + "denied by user"@);
}

// ---------------------------------------------------------------------------
// Events
// ---------------------------------------------------------------------------

/// What comes in from the model ends up where it belongs: a piece of a reply behind the ones
/// before it, a status in the status line, and a note in the conversation.
#[verifier::spinoff_prover]
#[verifier::rlimit(40)]
pub proof fn pieces_end_up_where_they_belong(
    s: SceneView,
    token: String,
    todos: Seq<(Seq<char>, TodoStatus)>,
    due: bool,
    now: u64,
)
    ensures
        ({
            let w = s.received(UiEvent::Backend(BackendEvent::Token(token)), todos, due, now);
            &&& w.pane.run.reply == s.pane.run.reply + token@
            &&& w.pane.log.history == s.pane.log.history
            &&& w.pane.composer == s.pane.composer
            &&& !w.pane.run.awaiting
        }),
        ({
            let w = s.received(UiEvent::Backend(BackendEvent::Status(token)), todos, due, now);
            &&& w.pane.log.status == token@
            &&& w.pane.log.history == s.pane.log.history
        }),
        ({
            let w = s.received(UiEvent::Notice(token), todos, due, now);
            &&& w.pane.log == s.pane.told(token@).log
            &&& w.pane.composer == s.pane.composer
        }),
{
    reveal(SceneView::received);
}

/// What ends a request is handled as what it is: a reply, a failure, the results of tools or
/// a summary.
#[verifier::spinoff_prover]
#[verifier::rlimit(40)]
pub proof fn ends_are_handled_as_what_they_are(
    s: SceneView,
    event: UiEvent,
    todos: Seq<(Seq<char>, TodoStatus)>,
    due: bool,
    now: u64,
)
    ensures
        event matches UiEvent::ChatDone(r) ==> s.received(event, todos, due, now).pane == s.pane.finished(
            r.content@,
            model::calls(r.tool_calls@),
            r.usage,
            r.wall_text@,
            due,
            s.desk.bell,
            now,
        ),
        event matches UiEvent::ChatError(e) ==> s.received(event, todos, due, now).pane
            == s.pane.request_failed(e@, s.desk.bell, now),
        event matches UiEvent::ToolsDone(r) ==> s.received(event, todos, due, now).pane
            == s.pane.tools_finished(model::results_view(r@), todos, now),
        event matches UiEvent::Compacted { summary, recent } ==> (!scan::blank(summary@) ==> s.received(
            event,
            todos,
            due,
            now,
        ).pane.log.history.skip(1) == model::messages(recent@)),
{
    reveal(SceneView::received);
    if let UiEvent::Compacted { summary, recent } = event {
        if !scan::blank(summary@) {
            let v = PaneView { run: RunView { awaiting: false, ..s.pane.run }, ..s.pane };
            requests::summaries_keep_recent(v, summary@, model::messages(recent@));
            reveal(PaneView::prompted);
        }
    }
}

/// A drafted command becomes the draft where that is empty, and else stands in the
/// conversation; the draft of the user is never replaced.
pub proof fn drafted_commands_wait_for_review(v: PaneView, command: Seq<char>)
    ensures
        v.composer.text.len() == 0 ==> v.command_drafted(Ok(command)).composer.text == command,
        v.composer.text.len() > 0 ==> v.command_drafted(Ok(command)).composer == v.composer,
        v.command_drafted(Ok(command)).out == v.out,
        v.command_drafted(Err(command)).composer == v.composer,
        v.command_drafted(Err(command)).log.status == command,
{
}

/// A proposal waits in an empty draft, with what it mends, and never runs by itself.
pub proof fn proposals_wait(v: PaneView, failed: Seq<char>, fixed: Seq<char>, more: Seq<Seq<char>>)
    ensures
        v.corrected(failed, fixed, more).out == v.out,
        v.corrected(failed, fixed, more).composer == v.composer,
        scan::blank(v.composer.text) ==> (v.corrected(failed, fixed, more).correction matches Some(c)
            && c.failed == failed && c.fixed == fixed && c.more == more),
        scan::blank(v.composer.text) ==> scan::contains_text(v.corrected(failed, fixed, more).log.status, fixed),
{
    let rest = if more.len() == 0 {
        "`? → applies"@
    } else {
        "`? → applies · +"@ + scan::decimal(more.len()) + " more"@
    };
    laws_commands::piece("Did you mean `!"@, fixed, rest);
    assert(inbox::correction_note(fixed, more.len()) =~= "Did you mean `!"@ + fixed + rest);
}

/// The models that a provider lists are offered as they are, with the one in use selected,
/// and remembered by their ids.
pub proof fn listed_models_are_offered(s: SceneView, list: Seq<ModelView>)
    requires
        list.len() > 0,
    ensures
        ({
            let w = s.models_listed(list);
            &&& w.desk.known_models.len() == list.len()
            &&& forall|i: int| 0 <= i < list.len() ==> #[trigger] w.desk.known_models[i] == list[i].id
            &&& w.desk.overlay matches OverlayView::Models { items, selected, scroll, active } && items
                == list && active == s.pane.settings.model && (0 <= selected < list.len()) && (
            list[selected].id == active || forall|i: int| 0 <= i < list.len() ==> (#[trigger] list[i]).id
                != active)
        }),
{
    let ids = inbox::model_ids(list);
    settings::place_means(ids, s.pane.settings.model, 0);
    assert forall|i: int| 0 <= i < list.len() implies ids[i] == (#[trigger] list[i]).id by {}
}

} // verus!
