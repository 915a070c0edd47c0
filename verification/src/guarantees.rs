//! What holds of every round, whatever the order in which the answers
//! arrive. Each statement is about the model of a round and so about every
//! monitor, whose rounds begin fresh and go on step by step.

use vstd::prelude::*;
use crate::outcome::{
    calls_for_claim, claim_failed_text, claimed_text, is_available, is_claimed, is_rate_limit,
    verdict, Emphasis, ReplyView, TargetView, STATUS_AVAILABLE, STATUS_RATE_LIMITED,
};
use crate::round::{
    lemma_resolved_among_bound, EventView, MonitorError, Phase, Round, Step,
};
use crate::text::decimal;

verus! {

/// In a drained round every task is resolved.
pub proof fn lemma_drained_means_all_resolved(round: Round)
    requires
        round.inv(),
        round.drained(),
    ensures
        forall|i: int| 0 <= i < round.tasks.len() ==> (#[trigger] round.tasks[i]).phase
            == Phase::Resolved,
{
    reveal(Round::accounted);
    lemma_resolved_among_bound(round.tasks, round.tasks.len() as int);
}

/// At no point of a round does a target have two results.
pub proof fn lemma_no_target_reported_twice(round: Round, j: int, k: int)
    requires
        round.inv(),
        0 <= j < round.emitted.len(),
        0 <= k < round.emitted.len(),
        round.emitted[j].index == round.emitted[k].index,
    ensures
        j == k,
{
    reveal(Round::emissions_distinct);
}

/// When a round is drained, exactly one result has been reported for each
/// target of its snapshot, and it carries the target's name and identifier.
pub proof fn lemma_each_target_reported_once(round: Round, i: int) -> (k: int)
    requires
        round.inv(),
        round.drained(),
        0 <= i < round.tasks.len(),
    ensures
        0 <= k < round.emitted.len(),
        round.emitted[k].index == i,
        round.emitted[k].result == round.tasks[i].verdict(),
        round.emitted[k].result.name == round.tasks[i].target.name,
        round.emitted[k].result.identifier == round.tasks[i].target.identifier,
        forall|j: int|
            0 <= j < round.emitted.len() && (#[trigger] round.emitted[j]).index == i ==> j == k,
{
    lemma_drained_means_all_resolved(round);
    assert(round.tasks[i].phase == Phase::Resolved);
    assert(exists|k: int| 0 <= k < round.emitted.len() && (#[trigger] round.emitted[k]).index == i) by {
        reveal(Round::emissions_complete);
    }
    let k = choose|k: int| 0 <= k < round.emitted.len() && (#[trigger] round.emitted[k]).index == i;
    assert(round.emitted[k].result == round.tasks[i].verdict()) by {
        reveal(Round::emissions_sound);
    }
    assert forall|j: int|
        0 <= j < round.emitted.len() && (#[trigger] round.emitted[j]).index == i implies j
        == k by {
        reveal(Round::emissions_distinct);
    }
    k
}

/// A round has as many results as it has resolved tasks, never more than
/// it has targets.
pub proof fn lemma_results_never_exceed_targets(round: Round)
    requires
        round.inv(),
    ensures
        round.emitted.len() <= round.tasks.len(),
{
    reveal(Round::accounted);
    lemma_resolved_among_bound(round.tasks, round.tasks.len() as int);
}

/// A free name whose claim is answered with the status for success is
/// reported as claimed; with any other status, as a failed claim that
/// names the status.
pub proof fn lemma_claim_answer_decides(target: TargetView, claim_status: u16)
    ensures
        is_claimed(claim_status) ==> {
            let result = verdict(
                target,
                ReplyView::Status(STATUS_AVAILABLE),
                Some(ReplyView::Status(claim_status)),
            );
            &&& result.status == claimed_text(claim_status)
            &&& result.status == "claimed (200)"@
            &&& result.emphasis == Emphasis::Positive
            &&& result.important
        },
        !is_claimed(claim_status) ==> {
            let result = verdict(
                target,
                ReplyView::Status(STATUS_AVAILABLE),
                Some(ReplyView::Status(claim_status)),
            );
            &&& result.status == claim_failed_text(claim_status)
            &&& result.status == "failed to claim ("@ + decimal(claim_status as nat) + ")"@
            &&& result.emphasis == Emphasis::Neutral
            &&& !result.important
        },
{
    if is_claimed(claim_status) {
        reveal_with_fuel(decimal, 3);
        reveal_strlit("claimed (");
        reveal_strlit(")");
        reveal_strlit("claimed (200)");
        assert(claimed_text(claim_status) =~= "claimed (200)"@);
    }
}

/// A free name is claimed in two steps: the lookup that finds it free asks
/// for the claim, and the answer to the claim is reported, as claimed for
/// the status of success and as a failed claim for any other.
pub proof fn lemma_free_name_is_claimed_or_not(round: Round, index: int, claim_status: u16)
    requires
        round.inv(),
        0 <= index < round.tasks.len(),
        round.tasks[index].phase == Phase::Probing,
    ensures
        round.step(true, index, EventView::ProbeReplied(ReplyView::Status(STATUS_AVAILABLE)))
            matches Step::Claim(claiming) && claiming.step(
            true,
            index,
            EventView::ClaimReplied(ReplyView::Status(claim_status)),
        ) matches Step::Emit(_, result) && result.name == round.tasks[index].target.name
            && result.status == if is_claimed(claim_status) {
            "claimed (200)"@
        } else {
            claim_failed_text(claim_status)
        },
{
    lemma_claim_answer_decides(round.tasks[index].target, claim_status);
}

/// A lookup answered with a rate-limit status never leads to a claim: the
/// target is reported at once, with the status as its text.
pub proof fn lemma_rate_limited_lookup_never_claims(
    round: Round,
    has_credentials: bool,
    index: int,
    status: u16,
)
    requires
        is_rate_limit(status),
    ensures
        !(round.step(has_credentials, index, EventView::ProbeReplied(ReplyView::Status(status)))
            is Claim),
        0 <= index < round.tasks.len() && round.tasks[index].phase == Phase::Probing ==> {
            &&& round.step(
                has_credentials,
                index,
                EventView::ProbeReplied(ReplyView::Status(status)),
            ) matches Step::Emit(_, result)
            &&& result.status == decimal(status as nat)
            &&& result.status == "429"@
            &&& result.emphasis == Emphasis::Negative
        },
{
    reveal_with_fuel(decimal, 3);
    reveal_strlit("429");
    assert(decimal(STATUS_RATE_LIMITED as nat) =~= "429"@);
}

/// A lookup answered with a status that says neither "free" nor
/// "throttled" never leads to a claim: the target is reported at once, with
/// the status as its text.
pub proof fn lemma_held_name_is_reported_by_status(
    round: Round,
    has_credentials: bool,
    index: int,
    status: u16,
)
    requires
        !is_available(status),
        !is_rate_limit(status),
    ensures
        !(round.step(has_credentials, index, EventView::ProbeReplied(ReplyView::Status(status)))
            is Claim),
        0 <= index < round.tasks.len() && round.tasks[index].phase == Phase::Probing ==> {
            &&& round.step(
                has_credentials,
                index,
                EventView::ProbeReplied(ReplyView::Status(status)),
            ) matches Step::Emit(_, result)
            &&& result.status == decimal(status as nat)
            &&& result.emphasis == Emphasis::Neutral
        },
{
}

/// A claim is sent for a task if and only if its lookup said that the name
/// is free, with a status that is no rate-limit signal.
pub proof fn lemma_claim_iff_lookup_calls_for_it(round: Round, i: int)
    requires
        round.inv(),
        0 <= i < round.tasks.len(),
        round.tasks[i].probe is Some,
    ensures
        round.tasks[i].claim_attempted() <==> calls_for_claim(round.tasks[i].probe->0),
{
    assert(round.tasks[i].consistent());
}

/// Without a credential a free name leads to no claim: the answer is
/// turned down as a configuration error and the round stays as it was.
pub proof fn lemma_no_credentials_no_claim(round: Round, index: int, reply: ReplyView)
    requires
        0 <= index < round.tasks.len(),
        round.tasks[index].phase == Phase::Probing,
        calls_for_claim(reply),
    ensures
        round.step(false, index, EventView::ProbeReplied(reply)) == Step::Rejected(
            MonitorError::NoCredentials,
        ),
{
}

/// A failed request is reported for its target and ends the task; the
/// other tasks of the round are left as they were.
pub proof fn lemma_failure_stays_with_its_target(
    round: Round,
    has_credentials: bool,
    index: int,
    event: EventView,
    other: int,
)
    requires
        0 <= other < round.tasks.len(),
        other != index,
    ensures
        match round.step(has_credentials, index, event) {
            Step::Rejected(_) => true,
            Step::Claim(next) => next.tasks[other] == round.tasks[other],
            Step::Emit(next, _) => next.tasks[other] == round.tasks[other],
        },
{
}

/// Two drained rounds over the same targets that heard the same answers
/// reported the same results, each as often in the one as in the other,
/// whatever the order.
pub proof fn lemma_same_answers_same_results(a: Round, b: Round)
    requires
        a.inv(),
        b.inv(),
        a.drained(),
        b.drained(),
        a.tasks.len() == b.tasks.len(),
        forall|i: int|
            0 <= i < a.tasks.len() ==> {
                &&& (#[trigger] a.tasks[i]).target == b.tasks[i].target
                &&& a.tasks[i].probe == b.tasks[i].probe
                &&& a.tasks[i].claim == b.tasks[i].claim
            },
    ensures
        a.results().to_multiset() == b.results().to_multiset(),
{
    lemma_drained_means_all_resolved(a);
    lemma_drained_means_all_resolved(b);
    assert forall|i: int| 0 <= i < a.tasks.len() implies a.tasks[i] == b.tasks[i] by {
        assert(a.tasks[i].phase == Phase::Resolved);
        assert(b.tasks[i].phase == Phase::Resolved);
    }
    assert(a.tasks =~= b.tasks);
    reveal(Round::accounted);
}

} // verus!
