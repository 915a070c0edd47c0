//! The mathematical model of one monitoring round: a task per target, each
//! moving from lookup to claim to a reported result, and the results in the
//! order in which they were reported.

use vstd::prelude::*;
use vstd::multiset::Multiset;
use crate::outcome::{
    calls_for_claim, verdict, Reply, ReplyView, RoundResultView, TargetView,
};

verus! {

/// How far the task of one target has come.
#[derive(Clone, Copy, Debug, PartialEq, Eq, Structural)]
pub enum Phase {
    /// The lookup is under way.
    Probing,
    /// The name was free and the claim is under way.
    Claiming,
    /// The result has been reported.
    Resolved,
}

/// Where the monitor stands between two rounds or within one.
#[derive(Clone, Copy, Debug, PartialEq, Eq, Structural)]
pub enum RoundState {
    /// No task is outstanding.
    Idle,
    /// Tasks were launched and none has reported yet.
    RoundInFlight,
    /// Some tasks have reported, others are outstanding.
    RoundDraining,
}

/// Why the monitor turned an event or a call down.
#[derive(Clone, Copy, Debug, PartialEq, Eq, Structural)]
pub enum MonitorError {
    /// A name is free and there is no credential to claim it with.
    NoCredentials,
    /// The round has no target with that number.
    UnknownTarget,
    /// The task of that target is not waiting for this kind of answer.
    OutOfTurn,
    /// A round cannot begin while tasks of another are outstanding.
    RoundInProgress,
}

pub open spec fn monitor_error_text(error: MonitorError) -> Seq<char> {
    match error {
        MonitorError::NoCredentials => "No authentication tokens available"@,
        MonitorError::UnknownTarget => "answer for a target that the round does not hold"@,
        MonitorError::OutOfTurn => "answer that the target was not waiting for"@,
        MonitorError::RoundInProgress => "a round is still under way"@,
    }
}

impl MonitorError {
    /// The error in words.
    pub fn message(&self) -> (s: &'static str)
        ensures
            s@ == monitor_error_text(*self),
    {
        match self {
            MonitorError::NoCredentials => "No authentication tokens available",
            MonitorError::UnknownTarget => "answer for a target that the round does not hold",
            MonitorError::OutOfTurn => "answer that the target was not waiting for",
            MonitorError::RoundInProgress => "a round is still under way",
        }
    }
}

/// What the network handed back for one task.
pub enum Event {
    ProbeReplied(Reply),
    ClaimReplied(Reply),
}

pub enum EventView {
    ProbeReplied(ReplyView),
    ClaimReplied(ReplyView),
}

impl View for Event {
    type V = EventView;

    open spec fn view(&self) -> EventView {
        match self {
            Event::ProbeReplied(reply) => EventView::ProbeReplied(reply@),
            Event::ClaimReplied(reply) => EventView::ClaimReplied(reply@),
        }
    }
}

/// The task of one target: its phase and the answers it has heard so far.
pub struct Task {
    pub target: TargetView,
    pub phase: Phase,
    pub probe: Option<ReplyView>,
    pub claim: Option<ReplyView>,
}

/// One reported result, with the number of the target it is for.
pub struct Emission {
    pub index: int,
    pub result: RoundResultView,
}

pub struct Round {
    pub tasks: Seq<Task>,
    pub emitted: Seq<Emission>,
}

/// What an event leads to.
pub enum Step {
    /// The event is turned down and nothing changes.
    Rejected(MonitorError),
    /// A claim is to be sent; the round goes on as given.
    Claim(Round),
    /// The result is reported; the round goes on as given.
    Emit(Round, RoundResultView),
}

impl Task {
    pub open spec fn fresh(target: TargetView) -> Task {
        Task { target, phase: Phase::Probing, probe: None, claim: None }
    }

    /// A claim went out for the target.
    pub open spec fn claim_attempted(self) -> bool {
        self.phase == Phase::Claiming || self.claim is Some
    }

    /// The answers on record fit the phase.
    pub open spec fn consistent(self) -> bool {
        match self.phase {
            Phase::Probing => self.probe is None && self.claim is None,
            Phase::Claiming => self.probe is Some && calls_for_claim(self.probe->0)
                && self.claim is None,
            Phase::Resolved => self.probe is Some && (self.claim is Some <==> calls_for_claim(
                self.probe->0,
            )),
        }
    }

    /// The result to report once the target is resolved.
    pub open spec fn verdict(self) -> RoundResultView {
        verdict(self.target, self.probe->0, self.claim)
    }

    pub open spec fn waits_for(self, event: EventView) -> bool {
        match (self.phase, event) {
            (Phase::Probing, EventView::ProbeReplied(_)) => true,
            (Phase::Claiming, EventView::ClaimReplied(_)) => true,
            _ => false,
        }
    }
}

/// How many of the first `k` tasks are resolved.
pub open spec fn resolved_among(tasks: Seq<Task>, k: int) -> nat
    decreases k,
{
    if k <= 0 {
        0
    } else {
        resolved_among(tasks, k - 1) + if tasks[k - 1].phase == Phase::Resolved {
            1nat
        } else {
            0nat
        }
    }
}

/// The verdicts of the resolved tasks among the first `k`, as a multiset.
pub open spec fn tally(tasks: Seq<Task>, k: int) -> Multiset<RoundResultView>
    decreases k,
{
    if k <= 0 {
        Multiset::empty()
    } else if tasks[k - 1].phase == Phase::Resolved {
        tally(tasks, k - 1).insert(tasks[k - 1].verdict())
    } else {
        tally(tasks, k - 1)
    }
}

impl Round {
    /// The round as it begins: one task per target, all at the lookup.
    pub open spec fn fresh(targets: Seq<TargetView>) -> Round {
        Round {
            tasks: Seq::new(targets.len(), |i: int| Task::fresh(targets[i])),
            emitted: Seq::empty(),
        }
    }

    /// The reported results, in the order in which they were reported.
    pub open spec fn results(self) -> Seq<RoundResultView> {
        Seq::new(self.emitted.len(), |k: int| self.emitted[k].result)
    }

    /// Every task has reported.
    pub open spec fn drained(self) -> bool {
        self.emitted.len() == self.tasks.len()
    }

    pub open spec fn state(self) -> RoundState {
        if self.drained() {
            RoundState::Idle
        } else if self.emitted.len() == 0 {
            RoundState::RoundInFlight
        } else {
            RoundState::RoundDraining
        }
    }

    /// The answers on record fit the phase of every task.
    pub open spec fn tasks_consistent(self) -> bool {
        forall|i: int| 0 <= i < self.tasks.len() ==> (#[trigger] self.tasks[i]).consistent()
    }

    /// Every reported result is the verdict of a resolved task.
    #[verifier::opaque]
    pub open spec fn emissions_sound(self) -> bool {
        forall|k: int|
            0 <= k < self.emitted.len() ==> {
                let e = #[trigger] self.emitted[k];
                &&& 0 <= e.index < self.tasks.len()
                &&& self.tasks[e.index].phase == Phase::Resolved
                &&& e.result == self.tasks[e.index].verdict()
            }
    }

    /// No target has two reported results.
    #[verifier::opaque]
    pub open spec fn emissions_distinct(self) -> bool {
        forall|j: int, k: int|
            0 <= j < self.emitted.len() && 0 <= k < self.emitted.len() && j != k ==> (
            #[trigger] self.emitted[j]).index != (#[trigger] self.emitted[k]).index
    }

    /// Every resolved task has a reported result.
    #[verifier::opaque]
    pub open spec fn emissions_complete(self) -> bool {
        forall|i: int|
            0 <= i < self.tasks.len() && (#[trigger] self.tasks[i]).phase == Phase::Resolved
                ==> exists|k: int|
                0 <= k < self.emitted.len() && (#[trigger] self.emitted[k]).index == i
    }

    /// As many results were reported as tasks are resolved, and together
    /// they are the verdicts of the resolved tasks.
    #[verifier::opaque]
    pub open spec fn accounted(self) -> bool {
        &&& self.emitted.len() == resolved_among(self.tasks, self.tasks.len() as int)
        &&& self.results().to_multiset() == tally(self.tasks, self.tasks.len() as int)
    }

    /// What holds of every round that began fresh and went on by `step`.
    pub open spec fn inv(self) -> bool {
        &&& self.tasks_consistent()
        &&& self.emissions_sound()
        &&& self.emissions_distinct()
        &&& self.emissions_complete()
        &&& self.accounted()
    }

    /// The round after task `index` has moved on to `task` without a report.
    pub open spec fn advance(self, index: int, task: Task) -> Round {
        Round { tasks: self.tasks.update(index, task), emitted: self.emitted }
    }

    /// The round after task `index` has heard `reply` and reports at once.
    pub open spec fn resolve(self, index: int, task: Task) -> Round {
        Round {
            tasks: self.tasks.update(index, task),
            emitted: self.emitted.push(Emission { index, result: task.verdict() }),
        }
    }

    /// What the event `event` for target number `index` leads to.
    ///
    /// A lookup that calls for a claim moves the task on to the claim, or is
    /// turned down where there is no credential. Every other answer that the
    /// task was waiting for resolves it. An answer that it was not waiting
    /// for is turned down.
    pub open spec fn step(self, has_credentials: bool, index: int, event: EventView) -> Step {
        if !(0 <= index < self.tasks.len()) {
            Step::Rejected(MonitorError::UnknownTarget)
        } else {
            let task = self.tasks[index];
            match (task.phase, event) {
                (Phase::Probing, EventView::ProbeReplied(reply)) => {
                    if calls_for_claim(reply) {
                        if has_credentials {
                            Step::Claim(
                                self.advance(
                                    index,
                                    Task { phase: Phase::Claiming, probe: Some(reply), ..task },
                                ),
                            )
                        } else {
                            Step::Rejected(MonitorError::NoCredentials)
                        }
                    } else {
                        let done = Task { phase: Phase::Resolved, probe: Some(reply), ..task };
                        Step::Emit(self.resolve(index, done), done.verdict())
                    }
                },
                (Phase::Claiming, EventView::ClaimReplied(reply)) => {
                    let done = Task { phase: Phase::Resolved, claim: Some(reply), ..task };
                    Step::Emit(self.resolve(index, done), done.verdict())
                },
                _ => Step::Rejected(MonitorError::OutOfTurn),
            }
        }
    }
}

/// Replacing an unresolved task changes the count and the tally by what the
/// new task adds, and by nothing else.
pub proof fn lemma_replace_unresolved(tasks: Seq<Task>, i: int, task: Task, k: int)
    requires
        0 <= i < tasks.len(),
        0 <= k <= tasks.len(),
        tasks[i].phase != Phase::Resolved,
    ensures
        resolved_among(tasks.update(i, task), k) == resolved_among(tasks, k) + if i < k
            && task.phase == Phase::Resolved {
            1nat
        } else {
            0nat
        },
        tally(tasks.update(i, task), k) == if i < k && task.phase == Phase::Resolved {
            tally(tasks, k).insert(task.verdict())
        } else {
            tally(tasks, k)
        },
    decreases k,
{
    if k > 0 {
        lemma_replace_unresolved(tasks, i, task, k - 1);
        let after = tasks.update(i, task);
        if k - 1 != i {
            assert(after[k - 1] == tasks[k - 1]);
            if i < k - 1 && task.phase == Phase::Resolved && tasks[k - 1].phase
                == Phase::Resolved {
                assert(tally(tasks, k - 1).insert(task.verdict()).insert(tasks[k - 1].verdict())
                    =~= tally(tasks, k - 1).insert(tasks[k - 1].verdict()).insert(task.verdict()));
            }
        }
    }
}

/// Among the first `k` tasks no more than `k` are resolved, and `k` of them
/// only if all are.
pub proof fn lemma_resolved_among_bound(tasks: Seq<Task>, k: int)
    requires
        0 <= k <= tasks.len(),
    ensures
        resolved_among(tasks, k) <= k,
        resolved_among(tasks, k) == k <==> forall|i: int|
            0 <= i < k ==> (#[trigger] tasks[i]).phase == Phase::Resolved,
    decreases k,
{
    if k > 0 {
        lemma_resolved_among_bound(tasks, k - 1);
        if resolved_among(tasks, k) == k {
            assert(tasks[k - 1].phase == Phase::Resolved);
        }
    }
}

/// A fresh round has nothing resolved and nothing to tally.
pub proof fn lemma_fresh_is_empty(targets: Seq<TargetView>, k: int)
    requires
        0 <= k <= targets.len(),
    ensures
        resolved_among(Round::fresh(targets).tasks, k) == 0,
        tally(Round::fresh(targets).tasks, k) == Multiset::<RoundResultView>::empty(),
    decreases k,
{
    if k > 0 {
        lemma_fresh_is_empty(targets, k - 1);
    }
}

/// A fresh round meets the invariant.
pub proof fn lemma_fresh_inv(targets: Seq<TargetView>)
    ensures
        Round::fresh(targets).inv(),
{
    let round = Round::fresh(targets);
    reveal(Round::emissions_sound);
    reveal(Round::emissions_distinct);
    reveal(Round::emissions_complete);
    reveal(Round::accounted);
    lemma_fresh_is_empty(targets, targets.len() as int);
    assert(round.results() =~= Seq::<RoundResultView>::empty());
    broadcast use vstd::seq_lib::group_to_multiset_ensures;
    assert(round.results().to_multiset() =~= Multiset::<RoundResultView>::empty());
}

proof fn lemma_advance_sound(round: Round, index: int, task: Task)
    requires
        round.emissions_sound(),
        0 <= index < round.tasks.len(),
        round.tasks[index].phase != Phase::Resolved,
    ensures
        round.advance(index, task).emissions_sound(),
{
    reveal(Round::emissions_sound);
    let next = round.advance(index, task);
    assert forall|k: int| 0 <= k < next.emitted.len() implies {
        let e = #[trigger] next.emitted[k];
        &&& 0 <= e.index < next.tasks.len()
        &&& next.tasks[e.index].phase == Phase::Resolved
        &&& e.result == next.tasks[e.index].verdict()
    } by {
        let e = round.emitted[k];
        assert(e.index != index);
    }
}

proof fn lemma_advance_complete(round: Round, index: int, task: Task)
    requires
        round.emissions_complete(),
        0 <= index < round.tasks.len(),
        task.phase != Phase::Resolved,
    ensures
        round.advance(index, task).emissions_complete(),
{
    reveal(Round::emissions_complete);
    let next = round.advance(index, task);
    assert forall|i: int|
        0 <= i < next.tasks.len() && (#[trigger] next.tasks[i]).phase
            == Phase::Resolved implies exists|k: int|
        0 <= k < next.emitted.len() && (#[trigger] next.emitted[k]).index == i by {
        assert(i != index);
        assert(round.tasks[i].phase == Phase::Resolved);
        let k = choose|k: int|
            0 <= k < round.emitted.len() && (#[trigger] round.emitted[k]).index == i;
        assert(next.emitted[k].index == i);
    }
}

proof fn lemma_advance_accounted(round: Round, index: int, task: Task)
    requires
        round.accounted(),
        0 <= index < round.tasks.len(),
        round.tasks[index].phase != Phase::Resolved,
        task.phase != Phase::Resolved,
    ensures
        round.advance(index, task).accounted(),
{
    reveal(Round::accounted);
    let next = round.advance(index, task);
    lemma_replace_unresolved(round.tasks, index, task, round.tasks.len() as int);
    assert(next.results() =~= round.results());
}

proof fn lemma_resolve_sound(round: Round, index: int, done: Task)
    requires
        round.emissions_sound(),
        0 <= index < round.tasks.len(),
        round.tasks[index].phase != Phase::Resolved,
        done.phase == Phase::Resolved,
    ensures
        round.resolve(index, done).emissions_sound(),
{
    reveal(Round::emissions_sound);
    let next = round.resolve(index, done);
    assert forall|k: int| 0 <= k < next.emitted.len() implies {
        let e = #[trigger] next.emitted[k];
        &&& 0 <= e.index < next.tasks.len()
        &&& next.tasks[e.index].phase == Phase::Resolved
        &&& e.result == next.tasks[e.index].verdict()
    } by {
        if k < round.emitted.len() {
            let e = round.emitted[k];
            assert(e.index != index);
        }
    }
}

proof fn lemma_resolve_distinct(round: Round, index: int, done: Task)
    requires
        round.emissions_sound(),
        round.emissions_distinct(),
        0 <= index < round.tasks.len(),
        round.tasks[index].phase != Phase::Resolved,
    ensures
        round.resolve(index, done).emissions_distinct(),
{
    reveal(Round::emissions_sound);
    reveal(Round::emissions_distinct);
    let next = round.resolve(index, done);
    let m = round.emitted.len() as int;
    assert forall|j: int, k: int|
        0 <= j < next.emitted.len() && 0 <= k < next.emitted.len() && j != k implies (
    #[trigger] next.emitted[j]).index != (#[trigger] next.emitted[k]).index by {
        if j < m {
            let e = round.emitted[j];
            assert(round.tasks[e.index].phase == Phase::Resolved);
        }
        if k < m {
            let e = round.emitted[k];
            assert(round.tasks[e.index].phase == Phase::Resolved);
        }
    }
}

proof fn lemma_resolve_complete(round: Round, index: int, done: Task)
    requires
        round.emissions_complete(),
        0 <= index < round.tasks.len(),
    ensures
        round.resolve(index, done).emissions_complete(),
{
    reveal(Round::emissions_complete);
    let next = round.resolve(index, done);
    let m = round.emitted.len() as int;
    assert forall|i: int|
        0 <= i < next.tasks.len() && (#[trigger] next.tasks[i]).phase
            == Phase::Resolved implies exists|k: int|
        0 <= k < next.emitted.len() && (#[trigger] next.emitted[k]).index == i by {
        if i == index {
            assert(next.emitted[m].index == i);
        } else {
            assert(round.tasks[i].phase == Phase::Resolved);
            let k = choose|k: int|
                0 <= k < round.emitted.len() && (#[trigger] round.emitted[k]).index == i;
            assert(next.emitted[k].index == i);
        }
    }
}

proof fn lemma_resolve_accounted(round: Round, index: int, done: Task)
    requires
        round.accounted(),
        0 <= index < round.tasks.len(),
        round.tasks[index].phase != Phase::Resolved,
        done.phase == Phase::Resolved,
    ensures
        round.resolve(index, done).accounted(),
{
    reveal(Round::accounted);
    let next = round.resolve(index, done);
    lemma_replace_unresolved(round.tasks, index, done, round.tasks.len() as int);
    assert(next.results() =~= round.results().push(done.verdict()));
    vstd::seq_lib::to_multiset_build(round.results(), done.verdict());
}

/// Moving an unresolved task on to another unresolved phase keeps the
/// invariant.
pub proof fn lemma_advance_inv(round: Round, index: int, task: Task)
    requires
        round.inv(),
        0 <= index < round.tasks.len(),
        round.tasks[index].phase != Phase::Resolved,
        task.phase != Phase::Resolved,
        task.consistent(),
    ensures
        round.advance(index, task).inv(),
{
    let next = round.advance(index, task);
    lemma_advance_sound(round, index, task);
    lemma_advance_complete(round, index, task);
    lemma_advance_accounted(round, index, task);
    assert(next.emissions_distinct()) by {
        reveal(Round::emissions_distinct);
    }
}

/// Resolving an unresolved task, and reporting its verdict, keeps the
/// invariant.
pub proof fn lemma_resolve_inv(round: Round, index: int, done: Task)
    requires
        round.inv(),
        0 <= index < round.tasks.len(),
        round.tasks[index].phase != Phase::Resolved,
        done.phase == Phase::Resolved,
        done.consistent(),
    ensures
        round.resolve(index, done).inv(),
{
    lemma_resolve_sound(round, index, done);
    lemma_resolve_distinct(round, index, done);
    lemma_resolve_complete(round, index, done);
    lemma_resolve_accounted(round, index, done);
}

/// Every step keeps the invariant.
pub proof fn lemma_step_inv(round: Round, has_credentials: bool, index: int, event: EventView)
    requires
        round.inv(),
    ensures
        match round.step(has_credentials, index, event) {
            Step::Rejected(_) => true,
            Step::Claim(next) => next.inv(),
            Step::Emit(next, _) => next.inv(),
        },
{
    if 0 <= index < round.tasks.len() {
        let task = round.tasks[index];
        assert(task.consistent());
        match (task.phase, event) {
            (Phase::Probing, EventView::ProbeReplied(reply)) => {
                if calls_for_claim(reply) {
                    if has_credentials {
                        lemma_advance_inv(
                            round,
                            index,
                            Task { phase: Phase::Claiming, probe: Some(reply), ..task },
                        );
                    }
                } else {
                    lemma_resolve_inv(
                        round,
                        index,
                        Task { phase: Phase::Resolved, probe: Some(reply), ..task },
                    );
                }
            },
            (Phase::Claiming, EventView::ClaimReplied(reply)) => {
                lemma_resolve_inv(
                    round,
                    index,
                    Task { phase: Phase::Resolved, claim: Some(reply), ..task },
                );
            },
            _ => {},
        }
    }
}

} // verus!
