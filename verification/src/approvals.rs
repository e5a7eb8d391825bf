//! Approving the tool calls of a round: which run, which are refused, which wait for
//! a decision, and how the results come together again in the order of the calls.

use crate::composer;
use crate::effects::ToolLimits;
use crate::effects;
use crate::model::{ToolCall, ToolCallView, ToolResult, ToolResultView};
use crate::model;
use crate::text;
use vstd::prelude::*;

verus! {

/// What the policy says of a call.
#[derive(Debug, Clone, PartialEq, Eq)]
pub enum Decision {
    Allow,
    Deny(String),
    Ask,
}

/// What the policy says of a call, with the text that stands for the call and, where
/// the call writes, what it would change.
#[derive(Debug, Clone, PartialEq, Eq)]
pub struct CallCheck {
    pub decision: Decision,
    pub summary: String,
    pub preview: Option<String>,
}

/// What a decision holds.
#[verifier::ext_equal]
pub enum DecisionView {
    Allow,
    Deny(Seq<char>),
    Ask,
}

/// What a check holds.
#[verifier::ext_equal]
pub struct CheckView {
    pub decision: DecisionView,
    pub summary: Seq<char>,
    pub preview: Option<Seq<char>>,
}

impl View for Decision {
    type V = DecisionView;

    open spec fn view(&self) -> DecisionView {
        match *self {
            Decision::Allow => DecisionView::Allow,
            Decision::Deny(reason) => DecisionView::Deny(reason@),
            Decision::Ask => DecisionView::Ask,
        }
    }
}

impl View for CallCheck {
    type V = CheckView;

    open spec fn view(&self) -> CheckView {
        CheckView {
            decision: self.decision@,
            summary: self.summary@,
            preview: composer::opt_text(self.preview),
        }
    }
}

/// What the checks of a list hold.
pub open spec fn checks_view(list: Seq<CallCheck>) -> Seq<CheckView> {
    list.map_values(|c: CallCheck| c@)
}

/// A call that waits for a decision. `index` is its place in the round.
#[derive(Debug, Clone, PartialEq, Eq)]
pub struct PendingApproval {
    pub index: usize,
    pub name: String,
    pub summary: String,
    pub preview: Option<String>,
}

/// What a waiting call holds.
#[verifier::ext_equal]
pub struct ApprovalView {
    pub index: int,
    pub name: Seq<char>,
    pub summary: Seq<char>,
    pub preview: Option<Seq<char>>,
}

impl View for PendingApproval {
    type V = ApprovalView;

    open spec fn view(&self) -> ApprovalView {
        ApprovalView {
            index: self.index as int,
            name: self.name@,
            summary: self.summary@,
            preview: composer::opt_text(self.preview),
        }
    }
}

/// What the waiting calls of a list hold.
pub open spec fn approvals_view(list: Seq<PendingApproval>) -> Seq<ApprovalView> {
    list.map_values(|p: PendingApproval| p@)
}

/// A round of tools that waits for decisions.
#[derive(Debug)]
pub struct PendingTools {
    pub calls: Vec<ToolCall>,
    pub limits: ToolLimits,
    /// Places of the calls that may run, in the order of the calls.
    pub approved: Vec<usize>,
    /// The texts of the calls that the user allowed.
    pub granted: Vec<String>,
    /// The results that the round already has, by place.
    pub results: Vec<Option<ToolResult>>,
    /// Calls that wait for a decision, the next one first.
    pub queue: Vec<PendingApproval>,
}

/// What a waiting round holds.
#[verifier::ext_equal]
pub struct RoundView {
    pub calls: Seq<ToolCallView>,
    pub limits: ToolLimits,
    pub approved: Seq<usize>,
    pub granted: Seq<Seq<char>>,
    pub results: Seq<Option<ToolResultView>>,
    pub queue: Seq<ApprovalView>,
}

impl RoundView {
    /// The calls that may run and those that wait stand in the order of the round, and
    /// none is among both.
    pub open spec fn orderly(self) -> bool {
        &&& ascends(self.approved)
        &&& forall|i: int, j: int|
            0 <= i < j < self.queue.len() ==> (#[trigger] self.queue[i]).index < (
            #[trigger] self.queue[j]).index
        &&& forall|i: int|
            0 <= i < self.queue.len() ==> 0 <= (#[trigger] self.queue[i]).index <= usize::MAX
        &&& forall|i: int, j: int|
            0 <= i < self.approved.len() && 0 <= j < self.queue.len() ==> #[trigger] self.approved[i]
                != (#[trigger] self.queue[j]).index
    }
}

/// Whether places stand in ascending order, each once.
pub open spec fn ascends(list: Seq<usize>) -> bool {
    forall|i: int, j: int| 0 <= i < j < list.len() ==> #[trigger] list[i] < #[trigger] list[j]
}

impl View for PendingTools {
    type V = RoundView;

    open spec fn view(&self) -> RoundView {
        RoundView {
            calls: model::calls(self.calls@),
            limits: self.limits,
            approved: self.approved@,
            granted: text::texts(self.granted@),
            results: effects::slots_view(self.results@),
            queue: approvals_view(self.queue@),
        }
    }
}

/// What an optional round holds.
pub open spec fn round_view(o: Option<PendingTools>) -> Option<RoundView> {
    match o {
        Some(p) => Some(p@),
        None => None,
    }
}

/// A decision on a waiting call.
#[derive(Debug, Clone, Copy, PartialEq, Eq, Structural)]
pub enum ApprovalVerdict {
    Once,
    Always,
    Deny,
}

// ---------------------------------------------------------------------------
// The round
// ---------------------------------------------------------------------------

/// The result of a call that was refused.
pub open spec fn refusal(call: ToolCallView, reason: Seq<char>) -> ToolResultView {
    ToolResultView { name: call.name, call_id: call.id, content: "tool error: "@ + reason }
}

/// The result of a call of which nothing came back.
pub open spec fn dropped() -> ToolResultView {
    ToolResultView { name: Seq::empty(), call_id: Seq::empty(), content: "tool error: dropped"@ }
}

/// The result that the policy gives a call at once, if it refuses it.
pub open spec fn policy_refusal(call: ToolCallView, check: CheckView) -> Option<ToolResultView> {
    match check.decision {
        DecisionView::Deny(reason) => Some(
            refusal(call, "tool '"@ + call.name + "' denied: "@ + reason),
        ),
        _ => None,
    }
}

/// The round of the first `n` calls, as the policy sorts them.
pub open spec fn sorted_out(
    list: Seq<ToolCallView>,
    checks: Seq<CheckView>,
    limits: ToolLimits,
    n: int,
) -> RoundView
    decreases n,
{
    if n <= 0 {
        RoundView {
            calls: list,
            limits,
            approved: Seq::empty(),
            granted: Seq::empty(),
            results: Seq::empty(),
            queue: Seq::empty(),
        }
    } else {
        let before = sorted_out(list, checks, limits, n - 1);
        let call = list[n - 1];
        let check = checks[n - 1];
        RoundView {
            approved: if check.decision is Allow {
                before.approved.push((n - 1) as usize)
            } else {
                before.approved
            },
            results: before.results.push(policy_refusal(call, check)),
            queue: if check.decision is Ask {
                before.queue.push(
                    ApprovalView {
                        index: n - 1,
                        name: call.name,
                        summary: check.summary,
                        preview: check.preview,
                    },
                )
            } else {
                before.queue
            },
            ..before
        }
    }
}

/// The calls at the given places.
pub open spec fn calls_at(list: Seq<ToolCallView>, places: Seq<usize>) -> Seq<ToolCallView> {
    places.map_values(|i: usize| list[i as int])
}

/// Results in the order of the calls, with a word for each call without one.
pub open spec fn filled(slots: Seq<Option<ToolResultView>>) -> Seq<ToolResultView> {
    slots.map_values(
        |o: Option<ToolResultView>|
            match o {
                Some(r) => r,
                None => dropped(),
            },
    )
}

/// The place, in a list of places, of the first call with an id, at or after `i`.
pub open spec fn owner(list: Seq<ToolCallView>, id: Seq<char>, i: int) -> Option<int>
    decreases list.len() - i,
{
    if i < 0 || i >= list.len() {
        None
    } else if list[i].id == id {
        Some(i)
    } else {
        owner(list, id, i + 1)
    }
}

/// The slots of a round after the first `n` results of its run calls came in: each
/// goes to the call that has its id.
pub open spec fn slotted(
    slots: Seq<Option<ToolResultView>>,
    ran: Seq<ToolCallView>,
    order: Seq<usize>,
    done: Seq<ToolResultView>,
    n: int,
) -> Seq<Option<ToolResultView>>
    decreases n,
{
    if n <= 0 {
        slots
    } else {
        let before = slotted(slots, ran, order, done, n - 1);
        match owner(ran, done[n - 1].call_id, 0) {
            Some(k) => before.update(order[k] as int, Some(done[n - 1])),
            None => before,
        }
    }
}

/// The results of a round.
pub open spec fn merged(
    slots: Seq<Option<ToolResultView>>,
    ran: Seq<ToolCallView>,
    order: Seq<usize>,
    done: Seq<ToolResultView>,
) -> Seq<ToolResultView> {
    filled(slotted(slots, ran, order, done, done.len() as int))
}

impl PendingTools {
    /// There is a slot for each call, every place is one of a call, and the round is
    /// orderly.
    pub open spec fn wf(self) -> bool {
        &&& self@.orderly()
        &&& self.results@.len() == self.calls@.len()
        &&& forall|i: int|
            0 <= i < self.approved@.len() ==> #[trigger] self.approved@[i] < self.calls@.len()
        &&& forall|i: int|
            0 <= i < self.queue@.len() ==> (#[trigger] self.queue@[i]).index < self.calls@.len()
    }
}

pub(crate) fn refused(call: &ToolCall, reason: &str) -> (r: ToolResult)
    ensures
        r@ == refusal(call@, reason@),
{
    ToolResult {
        name: text::copy_text(call.function.name.as_str()),
        call_id: text::copy_text(call.id.as_str()),
        content: text::cat2("tool error: ", reason),
    }
}

/// Sorts the calls of a round by what the policy says of each: those that run, those
/// that are refused at once, and those that wait for a decision.
pub fn sort_calls(list: Vec<ToolCall>, checks: &Vec<CallCheck>, limits: ToolLimits) -> (r:
    PendingTools)
    requires
        checks@.len() == list@.len(),
    ensures
        r.wf(),
        r@ == sorted_out(model::calls(list@), checks_view(checks@), limits, list@.len() as int),
        r.calls@ == list@,
{
    let ghost all = model::calls(list@);
    let ghost said = checks_view(checks@);
    let mut approved: Vec<usize> = Vec::new();
    let mut results: Vec<Option<ToolResult>> = Vec::new();
    let mut queue: Vec<PendingApproval> = Vec::new();
    assert(effects::slots_view(results@) =~= Seq::empty());
    assert(approvals_view(queue@) =~= Seq::empty());
    for i in 0..list.len()
        invariant
            checks@.len() == list@.len(),
            all == model::calls(list@),
            said == checks_view(checks@),
            results@.len() == i,
            approved@ == sorted_out(all, said, limits, i as int).approved,
            effects::slots_view(results@) == sorted_out(all, said, limits, i as int).results,
            approvals_view(queue@) == sorted_out(all, said, limits, i as int).queue,
            sorted_out(all, said, limits, i as int).calls == all,
            sorted_out(all, said, limits, i as int).limits == limits,
            sorted_out(all, said, limits, i as int).granted == Seq::<Seq<char>>::empty(),
            forall|j: int| 0 <= j < approved@.len() ==> #[trigger] approved@[j] < list@.len(),
            forall|j: int| 0 <= j < queue@.len() ==> (#[trigger] queue@[j]).index < list@.len(),
    {
        assert(all[i as int] == list@[i as int]@);
        assert(said[i as int] == checks@[i as int]@);
        let ghost slots_before = effects::slots_view(results@);
        let ghost queue_before = approvals_view(queue@);
        match &checks[i].decision {
            Decision::Allow => {
                approved.push(i);
                results.push(None);
                assert(effects::slots_view(results@) =~= slots_before.push(None));
            },
            Decision::Deny(reason) => {
                let told = text::cat4(
                    "tool '",
                    list[i].function.name.as_str(),
                    "' denied: ",
                    reason.as_str(),
                );
                let result = refused(&list[i], told.as_str());
                assert(result@ == policy_refusal(all[i as int], said[i as int])->0);
                results.push(Some(result));
                assert(effects::slots_view(results@) =~= slots_before.push(Some(result@)));
            },
            Decision::Ask => {
                results.push(None);
                let waiting = PendingApproval {
                    index: i,
                    name: text::copy_text(list[i].function.name.as_str()),
                    summary: text::copy_text(checks[i].summary.as_str()),
                    preview: composer::copy_opt(&checks[i].preview),
                };
                queue.push(waiting);
                assert(effects::slots_view(results@) =~= slots_before.push(None));
                assert(approvals_view(queue@) =~= queue_before.push(waiting@));
            },
        }
    }
    let granted: Vec<String> = Vec::new();
    assert(text::texts(granted@) =~= Seq::empty());
    proof {
        sorted_calls_are_orderly(all, said, limits, list@.len() as int);
    }
    PendingTools { calls: list, limits, approved, granted, results, queue }
}

/// Where a place goes among the first `n` of ascending ones.
pub open spec fn slot_of(list: Seq<usize>, place: usize, n: int) -> int
    decreases n,
{
    if n > 0 && list[n - 1] > place {
        slot_of(list, place, n - 1)
    } else {
        n
    }
}

/// Ascending places with one more.
pub open spec fn places_with(list: Seq<usize>, place: usize) -> Seq<usize> {
    list.insert(slot_of(list, place, list.len() as int), place)
}

pub(crate) fn insert_place(list: &mut Vec<usize>, place: usize)
    ensures
        final(list)@ == places_with(old(list)@, place),
{
    let mut k: usize = list.len();
    while k > 0 && list[k - 1] > place
        invariant
            k <= list@.len(),
            list@ == old(list)@,
            slot_of(list@, place, list@.len() as int) == slot_of(list@, place, k as int),
        decreases k,
    {
        k = k - 1;
    }
    list.insert(k, place);
}

/// The calls at the given places.
pub fn pick_calls(list: &Vec<ToolCall>, places: &Vec<usize>) -> (r: Vec<ToolCall>)
    requires
        forall|i: int| 0 <= i < places@.len() ==> #[trigger] places@[i] < list@.len(),
    ensures
        model::calls(r@) == calls_at(model::calls(list@), places@),
        r@.len() == places@.len(),
{
    let mut r: Vec<ToolCall> = Vec::new();
    for i in 0..places.len()
        invariant
            r@.len() == i,
            forall|j: int| 0 <= j < places@.len() ==> #[trigger] places@[j] < list@.len(),
            forall|j: int| 0 <= j < i ==> (#[trigger] r@[j])@ == list@[places@[j] as int]@,
    {
        assert(places@[i as int] < list@.len());
        r.push(list[places[i]].copy());
    }
    assert(model::calls(r@) =~= calls_at(model::calls(list@), places@));
    r
}

/// Results in the order of the calls, with a word for each call without one.
pub fn fill_results(slots: Vec<Option<ToolResult>>) -> (r: Vec<ToolResult>)
    ensures
        model::results_view(r@) == filled(effects::slots_view(slots@)),
{
    let mut r: Vec<ToolResult> = Vec::new();
    for i in 0..slots.len()
        invariant
            r@.len() == i,
            forall|j: int|
                0 <= j < i ==> (#[trigger] r@[j])@ == filled(effects::slots_view(slots@))[j],
    {
        let one = match &slots[i] {
            Some(result) => result.copy(),
            None => ToolResult {
                name: String::new(),
                call_id: String::new(),
                content: text::copy_text("tool error: dropped"),
            },
        };
        assert(slots@[i as int] is None ==> one@ =~= dropped());
        assert(one@ == filled(effects::slots_view(slots@))[i as int]);
        r.push(one);
    }
    assert(model::results_view(r@) =~= filled(effects::slots_view(slots@)));
    r
}

/// Puts the results of the calls that ran into the slots of their round.
pub fn merge_results(
    slots: Vec<Option<ToolResult>>,
    ran: &Vec<ToolCall>,
    order: &Vec<usize>,
    done: &Vec<ToolResult>,
) -> (r: Vec<ToolResult>)
    requires
        ran@.len() == order@.len(),
        forall|i: int| 0 <= i < order@.len() ==> #[trigger] order@[i] < slots@.len(),
    ensures
        model::results_view(r@) == merged(effects::slots_view(slots@), model::calls(ran@), order@, model::results_view(done@)),
{
    let ghost first = effects::slots_view(slots@);
    let ghost who = model::calls(ran@);
    let ghost what = model::results_view(done@);
    let mut out = slots;
    for i in 0..done.len()
        invariant
            ran@.len() == order@.len(),
            forall|j: int| 0 <= j < order@.len() ==> #[trigger] order@[j] < out@.len(),
            who == model::calls(ran@),
            what == model::results_view(done@),
            effects::slots_view(out@) == slotted(first, who, order@, what, i as int),
    {
        assert(what[i as int] == done@[i as int]@);
        let ghost id = done@[i as int].call_id@;
        let ghost before = out@;
        let mut k: usize = 0;
        let mut found = false;
        while k < ran.len() && !found
            invariant
                i < done@.len(),
                ran@.len() == order@.len(),
                who == model::calls(ran@),
                id == done@[i as int].call_id@,
                k <= ran@.len(),
                found ==> k < ran@.len() && owner(who, id, 0) == Some(k as int),
                !found ==> owner(who, id, 0) == owner(who, id, k as int),
            decreases ran.len() - k + (if found {
                0int
            } else {
                1int
            }),
        {
            assert(who[k as int] == ran@[k as int]@);
            if text::same_text(ran[k].id.as_str(), done[i].call_id.as_str()) {
                found = true;
            } else {
                k = k + 1;
            }
        }
        if found {
            assert(order@[k as int] < out@.len());
            out.set(order[k], Some(done[i].copy()));
            assert(effects::slots_view(out@) =~= effects::slots_view(before).update(
                order@[k as int] as int,
                Some(what[i as int]),
            ));
        }
    }
    fill_results(out)
}

// ---------------------------------------------------------------------------
// Laws
// ---------------------------------------------------------------------------

/// Sorting a round keeps a slot for each call, and sends each call to exactly one
/// place: the calls that run, a result at once, or the waiting calls.
pub proof fn calls_are_sorted_once(
    list: Seq<ToolCallView>,
    checks: Seq<CheckView>,
    limits: ToolLimits,
    n: int,
    i: int,
)
    requires
        checks.len() == list.len(),
        0 <= i < n <= list.len() <= usize::MAX,
    ensures
        ({
            let round = sorted_out(list, checks, limits, n);
            &&& round.results.len() == n
            &&& round.approved.contains(i as usize) == (checks[i].decision is Allow)
            &&& (round.results[i] is Some) == (checks[i].decision is Deny)
            &&& (exists|k: int|
                0 <= k < round.queue.len() && (#[trigger] round.queue[k]).index == i) == (
            checks[i].decision is Ask)
        }),
    decreases n,
{
    let round = sorted_out(list, checks, limits, n);
    let before = sorted_out(list, checks, limits, n - 1);
    sorted_bounds(list, checks, limits, n - 1);
    if i < n - 1 {
        calls_are_sorted_once(list, checks, limits, n - 1, i);
        if before.approved.contains(i as usize) {
            let k = before.approved.index_of(i as usize);
            assert(round.approved[k] == i as usize);
        }
        if round.approved.contains(i as usize) {
            let k = round.approved.index_of(i as usize);
            assert(before.approved[k] == i as usize);
        }
        if exists|k: int| 0 <= k < before.queue.len() && (#[trigger] before.queue[k]).index == i {
            let k = choose|k: int|
                0 <= k < before.queue.len() && (#[trigger] before.queue[k]).index == i;
            assert(round.queue[k].index == i);
        }
        if exists|k: int| 0 <= k < round.queue.len() && (#[trigger] round.queue[k]).index == i {
            let k = choose|k: int|
                0 <= k < round.queue.len() && (#[trigger] round.queue[k]).index == i;
            assert(before.queue[k].index == i);
        }
    } else {
        if checks[i].decision is Allow {
            assert(round.approved[before.approved.len() as int] == i as usize);
        } else if round.approved.contains(i as usize) {
            let k = round.approved.index_of(i as usize);
            assert(before.approved[k] < n - 1);
        }
        if checks[i].decision is Ask {
            assert(round.queue[before.queue.len() as int].index == i);
        } else if exists|k: int|
            0 <= k < round.queue.len() && (#[trigger] round.queue[k]).index == i {
            let k = choose|k: int|
                0 <= k < round.queue.len() && (#[trigger] round.queue[k]).index == i;
            assert(before.queue[k].index < n - 1);
        }
    }
}

/// Sorting a round keeps the order of its calls.
pub proof fn sorted_calls_are_orderly(
    list: Seq<ToolCallView>,
    checks: Seq<CheckView>,
    limits: ToolLimits,
    n: int,
)
    requires
        checks.len() == list.len(),
        0 <= n <= list.len() <= usize::MAX,
    ensures
        sorted_out(list, checks, limits, n).orderly(),
    decreases n,
{
    if n > 0 {
        sorted_calls_are_orderly(list, checks, limits, n - 1);
        sorted_bounds(list, checks, limits, n - 1);
    }
}

/// A place put among ascending ones keeps them ascending, and none goes away.
pub proof fn inserting_keeps_order(list: Seq<usize>, place: usize)
    requires
        ascends(list),
        !list.contains(place),
    ensures
        ascends(places_with(list, place)),
        places_with(list, place).len() == list.len() + 1,
        forall|p: usize| #[trigger]
            places_with(list, place).contains(p) <==> (p == place || list.contains(p)),
{
    let k = slot_of(list, place, list.len() as int);
    slot_bounds(list, place, list.len() as int);
    let all = places_with(list, place);
    assert forall|i: int| 0 <= i < list.len() implies #[trigger] list[i] != place by {
        assert(list.contains(list[i]));
    }
    assert forall|i: int, j: int| 0 <= i < j < all.len() implies #[trigger] all[i] < #[trigger] all[j] by {
        if k > 0 {
            assert(list[k - 1] < place);
        }
        if i < k && j == k {
            assert(list[i] <= list[k - 1]);
        }
    }
    assert forall|p: usize| #[trigger] all.contains(p) <==> (p == place || list.contains(p)) by {
        if list.contains(p) {
            let i = list.index_of(p);
            assert(list[i] == p);
            assert(all[if i < k {
                i
            } else {
                i + 1
            }] == p);
        }
        assert(all[k] == place);
    }
}

proof fn slot_bounds(list: Seq<usize>, place: usize, n: int)
    requires
        0 <= n <= list.len(),
        forall|i: int| n <= i < list.len() ==> #[trigger] list[i] > place,
    ensures
        0 <= slot_of(list, place, n) <= n,
        slot_of(list, place, n) > 0 ==> list[slot_of(list, place, n) - 1] <= place,
        forall|i: int| slot_of(list, place, n) <= i < list.len() ==> #[trigger] list[i] > place,
    decreases n,
{
    if n > 0 && list[n - 1] > place {
        slot_bounds(list, place, n - 1);
    }
}

proof fn sorted_bounds(
    list: Seq<ToolCallView>,
    checks: Seq<CheckView>,
    limits: ToolLimits,
    n: int,
)
    requires
        checks.len() == list.len(),
        0 <= n <= list.len() <= usize::MAX,
    ensures
        ({
            let round = sorted_out(list, checks, limits, n);
            &&& round.results.len() == n
            &&& forall|k: int| 0 <= k < round.approved.len() ==> #[trigger] round.approved[k] < n
            &&& forall|k: int|
                0 <= k < round.queue.len() ==> 0 <= (#[trigger] round.queue[k]).index < n
        }),
    decreases n,
{
    if n > 0 {
        sorted_bounds(list, checks, limits, n - 1);
    }
}

/// Results come back in the order of the calls: one for each slot, and a slot of a call
/// that did not run keeps the result that it had.
pub proof fn merging_keeps_order(
    slots: Seq<Option<ToolResultView>>,
    ran: Seq<ToolCallView>,
    order: Seq<usize>,
    done: Seq<ToolResultView>,
    i: int,
)
    requires
        ran.len() == order.len(),
        forall|k: int| 0 <= k < order.len() ==> #[trigger] order[k] < slots.len(),
        0 <= i < slots.len(),
        forall|k: int| 0 <= k < order.len() ==> #[trigger] order[k] != i,
    ensures
        merged(slots, ran, order, done).len() == slots.len(),
        merged(slots, ran, order, done)[i] == (match slots[i] {
            Some(r) => r,
            None => dropped(),
        }),
{
    untouched(slots, ran, order, done, done.len() as int, i);
}

proof fn untouched(
    slots: Seq<Option<ToolResultView>>,
    ran: Seq<ToolCallView>,
    order: Seq<usize>,
    done: Seq<ToolResultView>,
    n: int,
    i: int,
)
    requires
        ran.len() == order.len(),
        forall|k: int| 0 <= k < order.len() ==> #[trigger] order[k] < slots.len(),
        0 <= i < slots.len(),
        forall|k: int| 0 <= k < order.len() ==> #[trigger] order[k] != i,
    ensures
        slotted(slots, ran, order, done, n).len() == slots.len(),
        slotted(slots, ran, order, done, n)[i] == slots[i],
    decreases n,
{
    if n > 0 {
        untouched(slots, ran, order, done, n - 1, i);
        owner_bounds(ran, done[n - 1].call_id, 0);
        if let Some(k) = owner(ran, done[n - 1].call_id, 0) {
            assert(order[k] != i);
        }
    }
}

proof fn owner_bounds(list: Seq<ToolCallView>, id: Seq<char>, i: int)
    requires
        0 <= i,
    ensures
        owner(list, id, i) matches Some(k) ==> i <= k < list.len() && list[k].id == id,
    decreases list.len() - i,
{
    if i < list.len() && list[i].id != id {
        owner_bounds(list, id, i + 1);
    }
}

/// A single result of a call that ran comes back at the place of that call.
pub proof fn results_find_their_call(
    slots: Seq<Option<ToolResultView>>,
    ran: Seq<ToolCallView>,
    order: Seq<usize>,
    result: ToolResultView,
    k: int,
)
    requires
        ran.len() == order.len(),
        forall|j: int| 0 <= j < order.len() ==> #[trigger] order[j] < slots.len(),
        0 <= k < ran.len(),
        ran[k].id == result.call_id,
        forall|j: int| 0 <= j < k ==> (#[trigger] ran[j]).id != result.call_id,
    ensures
        merged(slots, ran, order, seq![result])[order[k] as int] == result,
{
    owner_first(ran, result.call_id, k, 0);
    assert(order[k] < slots.len());
    reveal_with_fuel(slotted, 2);
}

proof fn owner_first(list: Seq<ToolCallView>, id: Seq<char>, k: int, i: int)
    requires
        0 <= i <= k < list.len(),
        list[k].id == id,
        forall|j: int| 0 <= j < k ==> (#[trigger] list[j]).id != id,
    ensures
        owner(list, id, i) == Some(k),
    decreases k - i,
{
    if i < k {
        owner_first(list, id, k, i + 1);
    }
}

} // verus!
