//! The monitor: it launches a round of lookups over a snapshot of the
//! targets, takes the answers in whatever order they arrive, and says for
//! each what to do next: send a claim, or report a result.
//!
//! The monitor sends nothing itself. Its caller performs the requests and
//! hands the answers back.

use vstd::prelude::*;
use vstd::string::*;
use crate::checker::{bearer, claim_url, probe_url, ClaimRequest, NameChecker, ProbeRequest};
use crate::outcome::{settle_claim, settle_probe, RoundResult, Target};
use crate::round::{
    lemma_fresh_inv, lemma_step_inv, Event, MonitorError, Phase, Round, RoundState, Step, Task,
};
use crate::targets::{views_of, TargetMap};

verus! {

/// What the caller is to do after an event.
pub enum Action {
    /// Send this claim and deliver its answer for the same target.
    Claim(ClaimRequest),
    /// Hand this result to the output; the target is done for the round.
    Emit(RoundResult),
}

pub struct Monitor {
    checker: NameChecker,
    snapshot: Vec<Target>,
    phases: Vec<Phase>,
    resolved: usize,
    round: Ghost<Round>,
}

impl Monitor {
    /// The round under way, or the last one if none is.
    pub closed spec fn view(&self) -> Round {
        self.round@
    }

    /// The pool and the credentials that the monitor works with.
    pub closed spec fn checker(&self) -> NameChecker {
        self.checker
    }

    pub closed spec fn wf(&self) -> bool {
        &&& self.checker.pool@.len() > 0
        &&& self.snapshot@.len() == self.round@.tasks.len()
        &&& self.phases@.len() == self.round@.tasks.len()
        &&& forall|i: int|
            0 <= i < self.round@.tasks.len() ==> {
                &&& (#[trigger] self.snapshot@[i])@ == self.round@.tasks[i].target
                &&& self.phases@[i] == self.round@.tasks[i].phase
            }
        &&& self.resolved == self.round@.emitted.len()
        &&& self.round@.inv()
    }

    /// The round of a monitor meets the invariant of rounds, so that what
    /// holds of every such round holds of it.
    pub proof fn lemma_round_inv(&self)
        requires
            self.wf(),
        ensures
            self@.inv(),
            self.checker().pool@.len() > 0,
    {
    }

    /// A monitor at rest, before its first round.
    pub fn new(checker: NameChecker) -> (monitor: Monitor)
        requires
            checker.pool@.len() > 0,
        ensures
            monitor.wf(),
            monitor.checker() == checker,
            monitor@ == Round::fresh(Seq::empty()),
    {
        proof {
            lemma_fresh_inv(Seq::empty());
        }
        Monitor {
            checker,
            snapshot: Vec::new(),
            phases: Vec::new(),
            resolved: 0,
            round: Ghost(Round::fresh(Seq::empty())),
        }
    }

    pub fn state(&self) -> (state: RoundState)
        requires
            self.wf(),
        ensures
            state == self@.state(),
    {
        if self.resolved == self.snapshot.len() {
            RoundState::Idle
        } else if self.resolved == 0 {
            RoundState::RoundInFlight
        } else {
            RoundState::RoundDraining
        }
    }

    /// The targets of the round, in the order of their numbers.
    pub fn snapshot(&self) -> (targets: &Vec<Target>)
        requires
            self.wf(),
        ensures
            targets@.len() == self@.tasks.len(),
            forall|i: int| 0 <= i < targets@.len() ==> (#[trigger] targets@[i])@ == self@.tasks[i].target,
    {
        &self.snapshot
    }

    /// How many targets of the round have yet to report.
    pub fn pending(&self) -> (n: usize)
        requires
            self.wf(),
        ensures
            n == self@.tasks.len() - self@.emitted.len(),
    {
        proof {
            crate::round::lemma_resolved_among_bound(self@.tasks, self@.tasks.len() as int);
            reveal(Round::accounted);
        }
        self.snapshot.len() - self.resolved
    }

    /// Begins a round over a snapshot of `targets` and hands back the
    /// lookups to send, the one for target number `i` in place `i`. While
    /// tasks of a round are outstanding no other can begin.
    pub fn begin_round(&mut self, targets: &TargetMap) -> (r: Result<
        Vec<ProbeRequest>,
        MonitorError,
    >)
        requires
            old(self).wf(),
        ensures
            final(self).wf(),
            final(self).checker() == old(self).checker(),
            old(self)@.state() != RoundState::Idle ==> {
                &&& r matches Err(e)
                &&& e == MonitorError::RoundInProgress
                &&& final(self)@ == old(self)@
            },
            old(self)@.state() == RoundState::Idle ==> {
                &&& r matches Ok(requests)
                &&& final(self)@ == Round::fresh(targets@)
                &&& requests@.len() == targets@.len()
                &&& forall|i: int|
                    0 <= i < requests@.len() ==> {
                        &&& (#[trigger] requests@[i]).url@ == probe_url(targets@[i].identifier)
                        &&& final(self).checker().pool@.contains(requests@[i].source)
                    }
            },
    {
        if self.resolved != self.snapshot.len() {
            return Err(MonitorError::RoundInProgress);
        }
        let snapshot = targets.snapshot();
        let mut phases: Vec<Phase> = Vec::new();
        let mut requests: Vec<ProbeRequest> = Vec::new();
        let mut i: usize = 0;
        while i < snapshot.len()
            invariant
                i <= snapshot.len(),
                self.checker.pool@.len() > 0,
                views_of(snapshot@) == targets@,
                phases@.len() == i,
                requests@.len() == i,
                forall|j: int| 0 <= j < i ==> (#[trigger] phases@[j]) == Phase::Probing,
                forall|j: int|
                    0 <= j < i ==> {
                        &&& (#[trigger] requests@[j]).url@ == probe_url(targets@[j].identifier)
                        &&& self.checker.pool@.contains(requests@[j].source)
                    },
            decreases snapshot.len() - i,
        {
            assert(views_of(snapshot@)[i as int] == snapshot@[i as int]@);
            let request = self.checker.probe_request(snapshot[i].identifier.as_str());
            requests.push(request);
            phases.push(Phase::Probing);
            i = i + 1;
        }
        proof {
            lemma_fresh_inv(targets@);
            assert forall|j: int| 0 <= j < targets@.len() implies (#[trigger] snapshot@[j])@
                == targets@[j] by {
                assert(views_of(snapshot@)[j] == snapshot@[j]@);
            }
        }
        self.snapshot = snapshot;
        self.phases = phases;
        self.resolved = 0;
        self.round = Ghost(Round::fresh(targets@));
        Ok(requests)
    }

    /// Takes the answer `event` for target number `index` and says what
    /// follows from it.
    ///
    /// An answer that is turned down changes nothing. Otherwise the round
    /// moves on as its model does, and the action is the one that the model
    /// calls for: the claim for the target's name under the first
    /// credential, or the target's result.
    pub fn deliver(&mut self, index: usize, event: Event) -> (r: Result<Action, MonitorError>)
        requires
            old(self).wf(),
        ensures
            final(self).wf(),
            final(self).checker() == old(self).checker(),
            match old(self)@.step(
                old(self).checker().auth_tokens@.len() > 0,
                index as int,
                event@,
            ) {
                Step::Rejected(error) => {
                    &&& r matches Err(e)
                    &&& e == error
                    &&& final(self)@ == old(self)@
                },
                Step::Claim(next) => {
                    &&& r matches Ok(Action::Claim(request))
                    &&& request.url@ == claim_url(old(self)@.tasks[index as int].target.name)
                    &&& request.authorization@ == bearer(old(self).checker().auth_tokens@[0]@)
                    &&& old(self).checker().pool@.contains(request.source)
                    &&& final(self)@ == next
                },
                Step::Emit(next, result) => {
                    &&& r matches Ok(Action::Emit(out))
                    &&& out@ == result
                    &&& final(self)@ == next
                },
            },
    {
        if index >= self.snapshot.len() {
            return Err(MonitorError::UnknownTarget);
        }
        let ghost before = self.round@;
        let ghost task = before.tasks[index as int];
        proof {
            lemma_step_inv(before, self.checker.auth_tokens@.len() > 0, index as int, event@);
            assert(task.consistent());
            assert(self.snapshot@[index as int]@ == task.target);
        }
        match (self.phases[index], &event) {
            (Phase::Probing, Event::ProbeReplied(reply)) => {
                match settle_probe(&self.snapshot[index], reply) {
                    None => {
                        match self.checker.claim_request(self.snapshot[index].name.as_str()) {
                            Err(_) => Err(MonitorError::NoCredentials),
                            Ok(request) => {
                                let ghost next = before.advance(
                                    index as int,
                                    Task { phase: Phase::Claiming, probe: Some(reply@), ..task },
                                );
                                self.phases.set(index, Phase::Claiming);
                                self.round = Ghost(next);
                                Ok(Action::Claim(request))
                            },
                        }
                    },
                    Some(result) => {
                        let ghost done = Task {
                            phase: Phase::Resolved,
                            probe: Some(reply@),
                            ..task
                        };
                        proof {
                            self.lemma_room_to_resolve(index as int);
                        }
                        self.phases.set(index, Phase::Resolved);
                        self.resolved = self.resolved + 1;
                        self.round = Ghost(before.resolve(index as int, done));
                        Ok(Action::Emit(result))
                    },
                }
            },
            (Phase::Claiming, Event::ClaimReplied(reply)) => {
                let result = settle_claim(&self.snapshot[index], reply);
                let ghost done = Task { phase: Phase::Resolved, claim: Some(reply@), ..task };
                proof {
                    self.lemma_room_to_resolve(index as int);
                }
                self.phases.set(index, Phase::Resolved);
                self.resolved = self.resolved + 1;
                self.round = Ghost(before.resolve(index as int, done));
                Ok(Action::Emit(result))
            },
            _ => Err(MonitorError::OutOfTurn),
        }
    }

    /// While a task is unresolved, fewer results were reported than there
    /// are targets.
    proof fn lemma_room_to_resolve(&self, index: int)
        requires
            self.wf(),
            0 <= index < self@.tasks.len(),
            self@.tasks[index].phase != Phase::Resolved,
        ensures
            self@.emitted.len() < self@.tasks.len(),
    {
        reveal(Round::accounted);
        crate::round::lemma_resolved_among_bound(self@.tasks, self@.tasks.len() as int);
    }
}

} // verus!
