//! Deciding on the tool calls of a pane: cards come one after the other, and the round
//! goes on once the last one is decided.

use crate::approvals::{ApprovalVerdict, CallCheck, PendingApproval, PendingTools, RoundView};
use crate::approvals;
use crate::composer;
use crate::desk::{Desk, OverlayView, SceneView};
use crate::desk;
use crate::effects::{Effect, EffectView, ToolLimits};
use crate::effects;
use crate::events::Overlay;
use crate::model::{ToolCall, ToolCallView};
use crate::model;
use crate::pane::{Pane, PaneView};
use crate::scan;
use crate::text;
use vstd::prelude::*;

verus! {

/// What the card of a waiting call says.
pub open spec fn card_text(summary: Seq<char>, remaining: nat) -> Seq<char> {
    "Approve `"@ + summary + "`"@ + (if remaining > 0 {
        " (+"@ + scan::decimal(remaining) + " more)"@
    } else {
        Seq::empty()
    }) + " · y once · a always · n deny"@
}

impl PaneView {
    /// The card of the next waiting call announced.
    pub open spec fn carded(self) -> PaneView {
        match self.tools {
            None => self,
            Some(round) => if round.queue.len() == 0 {
                self
            } else {
                self.said(card_text(round.queue[0].summary, (round.queue.len() - 1) as nat))
            },
        }
    }

    /// A round without open decisions: its calls run, or, where none may, what it has
    /// is handed back.
    pub open spec fn round_released(self, round: RoundView) -> PaneView {
        if round.approved.len() == 0 {
            self.asking(EffectView::Deliver { results: approvals::filled(round.results) })
        } else {
            self.said("Running "@ + scan::decimal(round.approved.len()) + "…"@).asking(
                EffectView::RunTools {
                    calls: approvals::calls_at(round.calls, round.approved),
                    order: round.approved,
                    slots: round.results,
                    limits: round.limits,
                    granted: round.granted,
                },
            )
        }
    }
}

impl RoundView {
    /// A round after a decision on its next waiting call: one that is allowed, once or for
    /// good, runs at its place, and one that is denied is answered.
    pub open spec fn decided(self, verdict: ApprovalVerdict) -> RoundView {
        let item = self.queue[0];
        RoundView {
            approved: if verdict == ApprovalVerdict::Deny {
                self.approved
            } else {
                approvals::places_with(self.approved, item.index as usize)
            },
            granted: if verdict == ApprovalVerdict::Deny {
                self.granted
            } else {
                self.granted.push(item.summary)
            },
            results: if verdict == ApprovalVerdict::Deny {
                self.results.update(
                    item.index,
                    Some(approvals::refusal(self.calls[item.index], "denied by user"@)),
                )
            } else {
                self.results
            },
            queue: self.queue.skip(1),
            ..self
        }
    }
}

impl PaneView {
    /// A decision on a call announced; one for good is passed on to the policy.
    pub open spec fn verdict_told(
        self,
        summary: Seq<char>,
        call: ToolCallView,
        verdict: ApprovalVerdict,
    ) -> PaneView {
        match verdict {
            ApprovalVerdict::Once => self.did("Approved `"@ + summary + "`"@),
            ApprovalVerdict::Always => self.asking(EffectView::Allow { summary }).asking(
                EffectView::AllowFiles { call },
            ).did("Always allow `"@ + summary + "`"@),
            ApprovalVerdict::Deny => self.said("Denied `"@ + summary + "`"@),
        }
    }
}

impl SceneView {
    /// A round of calls that the policy has sorted: it goes on, or its first card is
    /// shown.
    pub open spec fn checked(self, round: RoundView) -> SceneView {
        if round.queue.len() == 0 {
            self.with(self.pane.round_released(round))
        } else {
            self.with(PaneView { tools: Some(round), ..self.pane }.carded()).covered(
                OverlayView::Approval,
            )
        }
    }

    /// A decision on the next waiting call: the next card, or the round goes on.
    #[verifier::opaque]
    pub open spec fn resolved(self, verdict: ApprovalVerdict) -> SceneView {
        match self.pane.tools {
            None => self.uncovered(),
            Some(round) => if round.queue.len() == 0 {
                self
            } else {
                let item = round.queue[0];
                let next = round.decided(verdict);
                let told = self.pane.verdict_told(item.summary, round.calls[item.index], verdict);
                if next.queue.len() == 0 {
                    self.with(PaneView { tools: None, ..told }.round_released(next)).uncovered()
                } else {
                    self.with(PaneView { tools: Some(next), ..told }.carded()).covered(
                        OverlayView::Approval,
                    )
                }
            },
        }
    }
}

impl PendingTools {
    fn allow(&mut self, item: &PendingApproval)
        ensures
            final(self).calls == old(self).calls,
            final(self).results == old(self).results,
            final(self).queue == old(self).queue,
            final(self).limits == old(self).limits,
            final(self).approved@ == approvals::places_with(old(self).approved@, item.index),
            text::texts(final(self).granted@) == text::texts(old(self).granted@).push(item.summary@),
    {
        approvals::insert_place(&mut self.approved, item.index);
        let summary = text::copy_text(item.summary.as_str());
        proof {
            text::texts_push(self.granted@, summary);
        }
        self.granted.push(summary);
    }

    fn deny(&mut self, item: &PendingApproval)
        requires
            item.index < old(self).calls@.len(),
            old(self).results@.len() == old(self).calls@.len(),
        ensures
            final(self).calls == old(self).calls,
            final(self).queue == old(self).queue,
            final(self).limits == old(self).limits,
            final(self).approved == old(self).approved,
            final(self).granted == old(self).granted,
            final(self).results@.len() == old(self).results@.len(),
            effects::slots_view(final(self).results@) == effects::slots_view(old(self).results@).update(
                item.index as int,
                Some(approvals::refusal(old(self).calls@[item.index as int]@, "denied by user"@)),
            ),
    {
        let ghost before = self.results@;
        let result = approvals::refused(&self.calls[item.index], "denied by user");
        self.results.set(item.index, Some(result));
        assert(effects::slots_view(self.results@) =~= effects::slots_view(before).update(
            item.index as int,
            Some(result@),
        ));
    }

    fn decide_next(&mut self, verdict: ApprovalVerdict) -> (r: PendingApproval)
        requires
            old(self).wf(),
            old(self).queue@.len() > 0,
        ensures
            final(self).wf(),
            final(self).calls == old(self).calls,
            r@ == old(self)@.queue[0],
            r.index < old(self).calls@.len(),
            final(self)@ == old(self)@.decided(verdict),
    {
        let ghost before = self@;
        let ghost waiting = self.queue@;
        let ghost chosen = self.approved@;
        assert(before.queue[0] == self.queue@[0]@);
        proof {
            decisions_keep_order(before, verdict);
        }
        let item = self.queue.remove(0);
        assert(self@.queue =~= before.queue.skip(1));
        assert forall|i: int| 0 <= i < self.queue@.len() implies (#[trigger] self.queue@[i]).index
            < self.calls@.len() by {
            assert(self.queue@[i] == waiting[i + 1]);
        }
        assert(before.calls[item.index as int] == self.calls@[item.index as int]@);
        match verdict {
            ApprovalVerdict::Once | ApprovalVerdict::Always => {
                self.allow(&item);
                proof {
                    place_is_new(before);
                    approvals::inserting_keeps_order(chosen, item.index);
                }
                assert forall|i: int| 0 <= i < self.approved@.len() implies #[trigger] self.approved@[i]
                    < self.calls@.len() by {
                    assert(self.approved@.contains(self.approved@[i]));
                    if chosen.contains(self.approved@[i]) {
                        let k = chosen.index_of(self.approved@[i]);
                        assert(chosen[k] == self.approved@[i]);
                    }
                }
            },
            ApprovalVerdict::Deny => self.deny(&item),
        }
        assert(self@ =~= before.decided(verdict));
        item
    }
}

proof fn place_is_new(round: RoundView)
    requires
        round.orderly(),
        round.queue.len() > 0,
    ensures
        !round.approved.contains(round.queue[0].index as usize),
{
    if round.approved.contains(round.queue[0].index as usize) {
        let k = round.approved.index_of(round.queue[0].index as usize);
        assert(round.approved[k] != round.queue[0].index);
    }
}

impl Pane {
    fn show_approval_card(&mut self)
        requires
            old(self).wf(),
        ensures
            final(self).wf(),
            final(self)@ == old(self)@.carded(),
    {
        let text = match &self.pending_tools {
            None => {
                return;
            },
            Some(pending) => {
                assert(pending@.queue.len() == pending.queue@.len());
                if pending.queue.len() == 0 {
                    return;
                }
                assert(pending@.queue[0] == pending.queue@[0]@);
                let remaining: usize = pending.queue.len() - 1;
                let more = if remaining > 0 {
                    let n = scan::decimal_text(remaining as u64);
                    text::cat3(" (+", n.as_str(), " more)")
                } else {
                    String::new()
                };
                assert(remaining == 0 ==> more@ =~= Seq::empty());
                text::cat5(
                    "Approve `",
                    pending.queue[0].summary.as_str(),
                    "`",
                    more.as_str(),
                    " · y once · a always · n deny",
                )
            },
        };
        self.set_status(text);
    }

    fn release_round(&mut self, round: PendingTools)
        requires
            old(self).wf(),
            round.wf(),
        ensures
            final(self).wf(),
            final(self)@ == old(self)@.round_released(round@),
    {
        if round.approved.len() == 0 {
            let results = approvals::fill_results(round.results);
            self.ask(Effect::Deliver { results });
        } else {
            let chosen = approvals::pick_calls(&round.calls, &round.approved);
            let n = scan::decimal_text(round.approved.len() as u64);
            self.set_status(text::cat3("Running ", n.as_str(), "…"));
            self.ask(
                Effect::RunTools {
                    calls: chosen,
                    order: round.approved,
                    slots: round.results,
                    limits: round.limits,
                    granted: round.granted,
                },
            );
        }
    }

    /// Begins a round of tool calls, given what the policy says of each. Where a call
    /// waits for a decision, its card is shown and the round waits with it.
    pub fn precheck_tool_calls(
        &mut self,
        desk: &mut Desk,
        list: Vec<ToolCall>,
        checks: &Vec<CallCheck>,
        limits: ToolLimits,
    )
        requires
            old(self).wf(),
            old(desk).wf(),
            checks@.len() == list@.len(),
        ensures
            final(self).wf(),
            final(desk).wf(),
            desk::scene(*final(self), *final(desk)) == desk::scene(*old(self), *old(desk)).checked(
                approvals::sorted_out(model::calls(list@), approvals::checks_view(checks@), limits, list@.len() as int),
            ),
    {
        let round = approvals::sort_calls(list, checks, limits);
        assert(round@.queue.len() == round.queue@.len());
        if round.queue.len() == 0 {
            self.release_round(round);
        } else {
            self.pending_tools = Some(round);
            self.show_approval_card();
            desk.overlay = Overlay::Approval;
        }
    }

    /// Decides on the next waiting call.
    #[verifier::spinoff_prover]
    pub fn resolve_approval(&mut self, desk: &mut Desk, verdict: ApprovalVerdict)
        requires
            old(self).wf(),
            old(desk).wf(),
        ensures
            final(self).wf(),
            final(desk).wf(),
            desk::scene(*final(self), *final(desk)) == desk::scene(*old(self), *old(desk)).resolved(verdict),
    {
        reveal(SceneView::resolved);
        let mut round = match self.pending_tools.take() {
            None => {
                desk.overlay = Overlay::Closed;
                return;
            },
            Some(round) => round,
        };
        assert(round@.queue.len() == round.queue@.len());
        if round.queue.len() == 0 {
            self.pending_tools = Some(round);
            return;
        }
        let ghost before = round@;
        let item = round.decide_next(verdict);
        assert(before.calls[item.index as int] == round.calls@[item.index as int]@);
        self.tell_verdict(item.summary.as_str(), &round.calls[item.index], verdict);
        self.go_on(desk, round);
    }

    fn go_on(&mut self, desk: &mut Desk, round: PendingTools)
        requires
            old(self).wf(),
            old(desk).wf(),
            round.wf(),
        ensures
            final(self).wf(),
            final(desk).wf(),
            desk::scene(*final(self), *final(desk)) == ({
                let s = desk::scene(*old(self), *old(desk));
                if round@.queue.len() == 0 {
                    s.with(s.pane.round_released(round@)).uncovered()
                } else {
                    s.with(PaneView { tools: Some(round@), ..s.pane }.carded()).covered(
                        OverlayView::Approval,
                    )
                }
            }),
    {
        assert(round@.queue.len() == round.queue@.len());
        if round.queue.len() == 0 {
            desk.overlay = Overlay::Closed;
            self.release_round(round);
        } else {
            self.pending_tools = Some(round);
            self.show_approval_card();
            desk.overlay = Overlay::Approval;
        }
    }

    fn tell_verdict(&mut self, summary: &str, call: &ToolCall, verdict: ApprovalVerdict)
        ensures
            final(self)@ == old(self)@.verdict_told(summary@, call@, verdict),
            old(self).wf() ==> final(self).wf(),
    {
        match verdict {
            ApprovalVerdict::Once => {
                self.set_ok(text::cat3("Approved `", summary, "`"));
            },
            ApprovalVerdict::Always => {
                self.ask(Effect::Allow { summary: text::copy_text(summary) });
                self.ask(Effect::AllowFiles { call: call.copy() });
                self.set_ok(text::cat3("Always allow `", summary, "`"));
            },
            ApprovalVerdict::Deny => {
                self.set_status(text::cat3("Denied `", summary, "`"));
            },
        }
    }

    /// What the card shows: the tool, the text of the call, what it would change, and
    /// how many calls wait behind it.
    pub fn approval_card(&self) -> (r: Option<(String, String, Option<String>, usize)>)
        ensures
            match r {
                None => self@.tools is None || self@.tools->0.queue.len() == 0,
                Some((name, summary, preview, remaining)) => self@.tools matches Some(round)
                    && round.queue.len() > 0 && name@ == round.queue[0].name && summary@
                    == round.queue[0].summary && composer::opt_text(preview) == round.queue[0].preview
                    && remaining == round.queue.len() - 1,
            },
    {
        match &self.pending_tools {
            None => None,
            Some(pending) => {
                assert(pending@.queue.len() == pending.queue@.len());
                if pending.queue.len() == 0 {
                    return None;
                }
                assert(pending@.queue[0] == pending.queue@[0]@);
                Some(
                    (
                        text::copy_text(pending.queue[0].name.as_str()),
                        text::copy_text(pending.queue[0].summary.as_str()),
                        composer::copy_opt(&pending.queue[0].preview),
                        pending.queue.len() - 1,
                    ),
                )
            },
        }
    }
}

// ---------------------------------------------------------------------------
// Laws
// ---------------------------------------------------------------------------

/// A card stays until its call is decided: as long as calls wait, the round neither runs
/// nor is handed back.
pub proof fn undecided_rounds_wait(s: SceneView, round: RoundView)
    requires
        round.queue.len() > 0,
    ensures
        s.checked(round).desk.overlay == OverlayView::Approval,
        s.checked(round).pane.tools == Some(round),
        s.checked(round).pane.out == s.pane.out,
{
}

/// A decision keeps a round in order: what may run stands in the order of the calls, and
/// what waits is not among it.
pub proof fn decisions_keep_order(round: RoundView, verdict: ApprovalVerdict)
    requires
        round.orderly(),
        round.queue.len() > 0,
    ensures
        round.decided(verdict).orderly(),
{
    let next = round.decided(verdict);
    let place = round.queue[0].index as usize;
    place_is_new(round);
    approvals::inserting_keeps_order(round.approved, place);
    assert forall|j: int| 0 <= j < next.queue.len() implies #[trigger] next.queue[j] == round.queue[j
        + 1] by {}
    assert forall|i: int, j: int|
        0 <= i < next.approved.len() && 0 <= j < next.queue.len() implies #[trigger] next.approved[i]
        != (#[trigger] next.queue[j]).index by {
        assert(next.approved.contains(next.approved[i]));
        if next.approved[i] != place {
            let k = round.approved.index_of(next.approved[i]);
            assert(round.approved[k] == next.approved[i]);
            assert(round.approved[k] != round.queue[j + 1].index);
        } else {
            assert(round.queue[0].index < round.queue[j + 1].index);
        }
    }
}

/// Tools run in the order in which they were asked for, whichever were allowed by the
/// policy and whichever by the user.
pub proof fn tools_run_in_order(s: SceneView, round: RoundView, verdict: ApprovalVerdict)
    requires
        s.pane.tools == Some(round),
        round.orderly(),
        round.queue.len() == 1,
    ensures
        ({
            let next = round.decided(verdict);
            let out = s.resolved(verdict).pane.out;
            &&& s.resolved(verdict).pane.tools is None
            &&& next.approved.len() > 0 ==> out.last() == (EffectView::RunTools {
                calls: approvals::calls_at(round.calls, next.approved),
                order: next.approved,
                slots: next.results,
                limits: round.limits,
                granted: next.granted,
            })
            &&& approvals::ascends(next.approved)
        }),
{
    reveal(SceneView::resolved);
    decisions_keep_order(round, verdict);
}

/// A call that is allowed runs, for good as well as once; only one for good is passed on
/// to the policy.
pub proof fn allowed_calls_run(s: SceneView, round: RoundView, verdict: ApprovalVerdict)
    requires
        s.pane.tools == Some(round),
        round.orderly(),
        round.queue.len() == 1,
        round.approved.len() == 0,
        verdict != ApprovalVerdict::Deny,
    ensures
        ({
            let item = round.queue[0];
            let next = s.resolved(verdict);
            let run = EffectView::RunTools {
                calls: seq![round.calls[item.index]],
                order: seq![item.index as usize],
                slots: round.results,
                limits: round.limits,
                granted: round.granted.push(item.summary),
            };
            &&& next.desk.overlay is Closed
            &&& next.pane.tools is None
            &&& verdict == ApprovalVerdict::Once ==> next.pane.out == s.pane.out.push(run)
            &&& verdict == ApprovalVerdict::Always ==> next.pane.out == s.pane.out.push(
                EffectView::Allow { summary: item.summary },
            ).push(EffectView::AllowFiles { call: round.calls[item.index] }).push(run)
        }),
{
    reveal(SceneView::resolved);
    let item = round.queue[0];
    let next = round.decided(verdict);
    assert(next.queue.len() == 0);
    assert(next.approved =~= seq![item.index as usize]);
    assert(approvals::calls_at(round.calls, next.approved) =~= seq![round.calls[item.index]]);
}

/// A denied call is answered with a refusal and never runs, and nothing is allowed.
pub proof fn denied_calls_never_run(round: RoundView)
    requires
        round.queue.len() > 0,
        0 <= round.queue[0].index < round.results.len(),
    ensures
        ({
            let item = round.queue[0];
            let next = round.decided(ApprovalVerdict::Deny);
            &&& next.approved == round.approved
            &&& next.granted == round.granted
            &&& next.results[item.index] == Some(
                approvals::refusal(round.calls[item.index], "denied by user"@),
            )
            &&& next.queue == round.queue.skip(1)
        }),
{
}

/// Denying the only call of a round hands back one result, which says so.
pub proof fn denying_the_only_call_answers(s: SceneView, round: RoundView)
    requires
        s.pane.tools == Some(round),
        round.queue.len() == 1,
        round.queue[0].index == 0,
        round.calls.len() == 1,
        round.results.len() == 1,
        round.approved.len() == 0,
    ensures
        ({
            let next = s.resolved(ApprovalVerdict::Deny);
            &&& next.desk.overlay is Closed
            &&& next.pane.tools is None
            &&& next.pane.out == s.pane.out.push(
                EffectView::Deliver {
                    results: seq![approvals::refusal(round.calls[0], "denied by user"@)],
                },
            )
        }),
{
    reveal(SceneView::resolved);
    let next = round.decided(ApprovalVerdict::Deny);
    assert(next.queue.len() == 0);
    assert(approvals::filled(next.results) =~= seq![approvals::refusal(round.calls[0], "denied by user"@)]);
}

} // verus!
