//! The composite saga: coordinates several sub-sagas toward a shared
//! completion criterion, fanning each observed event out to all of them.

use vstd::prelude::*;
use crate::sagas::{SagaState, SagaMetadata, SagaError, MarkovChain};
use crate::approval_saga::PolicyApprovalSaga;
use crate::enforcement_saga::PolicyEnforcementSaga;
use crate::exemption_saga::ExemptionWorkflowSaga;
use crate::audit_saga::ComplianceAuditSaga;
use crate::events::PolicyEvent;
use crate::commands::PolicyCommand;

verus! {

broadcast use {vstd::std_specs::vec::group_vec_axioms, vstd::seq::group_seq_axioms};

/// When a composite saga counts as complete, over its sub-sagas.
#[derive(Debug, Clone, Copy, PartialEq, Eq, Structural)]
pub enum CompletionCriteria {
    /// All sub-sagas must complete.
    All,
    /// Any sub-saga completion is sufficient.
    Any,
    /// More than half must complete.
    Majority,
    /// At least the given number must complete.
    AtLeast(usize),
}

/// One of the workflow sagas a composite saga can coordinate.
#[derive(Debug)]
pub enum SubSaga {
    Approval(PolicyApprovalSaga),
    Enforcement(PolicyEnforcementSaga),
    Exemption(ExemptionWorkflowSaga),
    Audit(ComplianceAuditSaga),
}

/// The committed state of a sub-saga.
pub open spec fn spec_sub_state(s: SubSaga) -> SagaState {
    match s {
        SubSaga::Approval(x) => x.current_state,
        SubSaga::Enforcement(x) => x.current_state,
        SubSaga::Exemption(x) => x.current_state,
        SubSaga::Audit(x) => x.current_state,
    }
}

/// Whether a sub-saga reached its terminal state.
pub open spec fn spec_sub_complete(s: SubSaga) -> bool {
    match s {
        SubSaga::Approval(x) => x.current_state == SagaState::Active || x.current_state
            == SagaState::Rejected,
        SubSaga::Enforcement(x) => x.current_state == SagaState::Allowed || x.current_state
            == SagaState::Blocked || x.current_state == SagaState::Completed,
        SubSaga::Exemption(x) => x.current_state == SagaState::ExemptionGranted
            || x.current_state == SagaState::ExemptionDenied || x.current_state
            == SagaState::ExemptionExpired,
        SubSaga::Audit(x) => x.current_state == SagaState::ComplianceVerified || x.current_state
            == SagaState::NonCompliant || x.current_state == SagaState::Cancelled,
    }
}

/// Whether a sub-saga failed.
pub open spec fn spec_sub_failed(s: SubSaga) -> bool {
    match s {
        SubSaga::Approval(x) => x.current_state == SagaState::Failed || x.current_state
            == SagaState::Rejected,
        SubSaga::Enforcement(x) => x.current_state == SagaState::Failed,
        SubSaga::Exemption(x) => x.current_state == SagaState::ExemptionDenied,
        SubSaga::Audit(x) => x.current_state == SagaState::Failed,
    }
}

/// A sub-saga observed one event: it stayed the same kind of workflow and
/// advanced exactly as its own event-application contract admits, for some
/// outcome of the refused-transition check.
pub open spec fn spec_sub_observed(pre: SubSaga, event: PolicyEvent, post: SubSaga) -> bool {
    match pre {
        SubSaga::Approval(a) => post matches SubSaga::Approval(b) && exists|
            res: Result<(), SagaError>,
        | #[trigger] PolicyApprovalSaga::spec_apply_post(a, event, b, res),
        SubSaga::Enforcement(a) => post matches SubSaga::Enforcement(b) && exists|
            res: Result<(), SagaError>,
        | #[trigger] PolicyEnforcementSaga::spec_apply_post(a, event, b, res),
        SubSaga::Exemption(a) => post matches SubSaga::Exemption(b) && exists|
            res: Result<(), SagaError>,
        | #[trigger] ExemptionWorkflowSaga::spec_apply_post(a, event, b, res),
        SubSaga::Audit(a) => post matches SubSaga::Audit(b) && exists|
            res: Result<(), SagaError>,
        | #[trigger] ComplianceAuditSaga::spec_apply_post(a, event, b, res),
    }
}

/// The commands a sub-saga derives from its state, per its own
/// command-derivation contract.
pub open spec fn spec_sub_commands(s: SubSaga, cmds: Seq<PolicyCommand>) -> bool {
    match s {
        SubSaga::Approval(a) => PolicyApprovalSaga::spec_commands_post(a, cmds),
        SubSaga::Enforcement(a) => PolicyEnforcementSaga::spec_commands_post(a, cmds),
        SubSaga::Exemption(a) => ExemptionWorkflowSaga::spec_commands_post(a, cmds),
        SubSaga::Audit(a) => ComplianceAuditSaga::spec_commands_post(a, cmds),
    }
}

/// The concatenation of a sequence of command batches, in order.
pub open spec fn spec_concat_commands(css: Seq<Seq<PolicyCommand>>) -> Seq<PolicyCommand>
    decreases css,
{
    if css.len() == 0 {
        Seq::empty()
    } else {
        spec_concat_commands(css.drop_last()) + css.last()
    }
}

impl SubSaga {
    /// Returns the committed state of the sub-saga.
    pub fn current_state(&self) -> (r: SagaState)
        ensures
            r == spec_sub_state(*self),
    {
        match self {
            SubSaga::Approval(x) => x.current_state(),
            SubSaga::Enforcement(x) => x.current_state(),
            SubSaga::Exemption(x) => x.current_state(),
            SubSaga::Audit(x) => x.current_state(),
        }
    }

    /// Returns whether the sub-saga reached its terminal state.
    pub fn is_complete(&self) -> (r: bool)
        ensures
            r == spec_sub_complete(*self),
    {
        match self {
            SubSaga::Approval(x) => x.is_complete(),
            SubSaga::Enforcement(x) => x.is_complete(),
            SubSaga::Exemption(x) => x.is_complete(),
            SubSaga::Audit(x) => x.is_complete(),
        }
    }

    /// Returns whether the sub-saga failed.
    pub fn has_failed(&self) -> (r: bool)
        ensures
            r == spec_sub_failed(*self),
    {
        match self {
            SubSaga::Approval(x) => x.has_failed(),
            SubSaga::Enforcement(x) => x.has_failed(),
            SubSaga::Exemption(x) => x.has_failed(),
            SubSaga::Audit(x) => x.has_failed(),
        }
    }

    /// Applies one observed event and collects the sub-saga's follow-up
    /// commands. A transition the sub-saga refuses leaves its state
    /// unchanged, per that saga's own contract; the composite goes on with
    /// its other sub-sagas.
    pub fn observe(&mut self, event: &PolicyEvent) -> (r: Vec<PolicyCommand>)
        ensures
            spec_sub_observed(*old(self), *event, *final(self)),
            spec_sub_commands(*final(self), r@),
    {
        match self {
            SubSaga::Approval(x) => {
                let outcome = x.apply_event(event);
                proof {
                    assert(PolicyApprovalSaga::spec_apply_post(
                        old(self)->Approval_0,
                        *event,
                        *x,
                        outcome,
                    ));
                }
                x.get_commands()
            },
            SubSaga::Enforcement(x) => {
                let outcome = x.apply_event(event);
                proof {
                    assert(PolicyEnforcementSaga::spec_apply_post(
                        old(self)->Enforcement_0,
                        *event,
                        *x,
                        outcome,
                    ));
                }
                x.get_commands()
            },
            SubSaga::Exemption(x) => {
                let outcome = x.apply_event(event);
                proof {
                    assert(ExemptionWorkflowSaga::spec_apply_post(
                        old(self)->Exemption_0,
                        *event,
                        *x,
                        outcome,
                    ));
                }
                x.get_commands()
            },
            SubSaga::Audit(x) => {
                let outcome = x.apply_event(event);
                proof {
                    assert(ComplianceAuditSaga::spec_apply_post(
                        old(self)->Audit_0,
                        *event,
                        *x,
                        outcome,
                    ));
                }
                x.get_commands()
            },
        }
    }
}

/// How many sub-sagas are complete.
pub open spec fn spec_completed_count(subs: Seq<SubSaga>) -> int
    decreases subs,
{
    if subs.len() == 0 {
        0
    } else {
        spec_completed_count(subs.drop_last()) + if spec_sub_complete(subs.last()) {
            1int
        } else {
            0int
        }
    }
}

/// Whether the criterion holds over the sub-sagas.
pub open spec fn spec_criterion_met(criteria: CompletionCriteria, subs: Seq<SubSaga>) -> bool {
    let completed = spec_completed_count(subs);
    match criteria {
        CompletionCriteria::All => completed == subs.len(),
        CompletionCriteria::Any => completed > 0,
        CompletionCriteria::Majority => completed > subs.len() / 2,
        CompletionCriteria::AtLeast(n) => completed >= n,
    }
}

/// A saga that coordinates several sub-sagas toward one completion
/// criterion.
#[derive(Debug)]
pub struct CompositeSaga {
    /// Tracking metadata.
    pub metadata: SagaMetadata,
    /// The coordinated sub-sagas.
    pub sub_sagas: Vec<SubSaga>,
    /// The committed composite state.
    pub current_state: SagaState,
    /// The advisory planning chain.
    pub markov_chain: MarkovChain,
    /// When the composite counts as complete.
    pub completion_criteria: CompletionCriteria,
}

impl CompositeSaga {
    /// Creates a composite saga with no sub-sagas yet.
    pub fn new(initiated_by: &str, criteria: CompletionCriteria) -> (r: CompositeSaga)
        ensures
            r.sub_sagas@.len() == 0,
            r.current_state == SagaState::Initiated,
            r.completion_criteria == criteria,
    {
        let mut markov_chain = MarkovChain::new();
        markov_chain.add_transition(SagaState::Initiated, SagaState::InProgress, 1000);
        markov_chain.add_transition(SagaState::InProgress, SagaState::Completed, 700);
        markov_chain.add_transition(SagaState::InProgress, SagaState::Failed, 200);
        markov_chain.add_transition(SagaState::InProgress, SagaState::Waiting, 100);
        markov_chain.add_transition(SagaState::Waiting, SagaState::InProgress, 800);
        markov_chain.add_transition(SagaState::Waiting, SagaState::Failed, 200);
        markov_chain.set_state_reward(SagaState::Completed, 100);
        markov_chain.set_state_reward(SagaState::Failed, -50);
        markov_chain.set_state_reward(SagaState::InProgress, 10);
        CompositeSaga {
            metadata: SagaMetadata::new(initiated_by),
            sub_sagas: Vec::new(),
            current_state: SagaState::Initiated,
            markov_chain,
            completion_criteria: criteria,
        }
    }

    /// Adds a sub-saga to coordinate.
    pub fn add_sub_saga(&mut self, saga: SubSaga)
        ensures
            final(self).sub_sagas@.len() == old(self).sub_sagas@.len() + 1,
            final(self).current_state == old(self).current_state,
            final(self).completion_criteria == old(self).completion_criteria,
    {
        self.sub_sagas.push(saga);
    }

    /// Returns whether the completion criterion holds over the sub-sagas.
    #[verifier::loop_isolation(false)]
    pub fn check_completion(&self) -> (r: bool)
        ensures
            r == spec_criterion_met(self.completion_criteria, self.sub_sagas@),
    {
        let mut completed: usize = 0;
        let mut i: usize = 0;
        proof {
            assert(self.sub_sagas@.subrange(0, 0) =~= Seq::<SubSaga>::empty());
        }
        while i < self.sub_sagas.len()
            invariant
                0 <= i <= self.sub_sagas@.len(),
                completed <= i,
                completed == spec_completed_count(self.sub_sagas@.subrange(0, i as int)),
            decreases self.sub_sagas@.len() - i,
        {
            if self.sub_sagas[i].is_complete() {
                completed = completed + 1;
            }
            i = i + 1;
            proof {
                assert(self.sub_sagas@.subrange(0, i as int).drop_last() =~= self.sub_sagas@
                    .subrange(0, i - 1));
                assert(self.sub_sagas@.subrange(0, i as int).last() == self.sub_sagas@[i - 1]);
            }
        }
        proof {
            assert(self.sub_sagas@.subrange(0, i as int) =~= self.sub_sagas@);
        }
        let total = self.sub_sagas.len();
        match self.completion_criteria {
            CompletionCriteria::All => completed == total,
            CompletionCriteria::Any => completed > 0,
            CompletionCriteria::Majority => completed > total / 2,
            CompletionCriteria::AtLeast(n) => completed >= n,
        }
    }

    /// Fans one event out to every sub-saga in order — each advances per its
    /// own contract and contributes its derived commands, which the result
    /// concatenates in order — and recomputes the composite state: completed
    /// when the criterion holds, failed when any sub-saga failed, waiting
    /// when all report waiting, in progress otherwise.
    #[verifier::loop_isolation(false)]
    pub fn coordinate(&mut self, event: &PolicyEvent) -> (r: Result<Vec<PolicyCommand>, SagaError>)
        ensures
            r is Ok,
            final(self).sub_sagas@.len() == old(self).sub_sagas@.len(),
            final(self).completion_criteria == old(self).completion_criteria,
            forall|i: int|
                0 <= i < final(self).sub_sagas@.len() ==> spec_sub_observed(
                    old(self).sub_sagas@[i],
                    *event,
                    #[trigger] final(self).sub_sagas@[i],
                ),
            exists|css: Seq<Seq<PolicyCommand>>|
                {
                    &&& css.len() == final(self).sub_sagas@.len()
                    &&& r->Ok_0@ == #[trigger] spec_concat_commands(css)
                    &&& forall|i: int|
                        0 <= i < css.len() ==> spec_sub_commands(
                            final(self).sub_sagas@[i],
                            #[trigger] css[i],
                        )
                },
            final(self).current_state == if spec_criterion_met(
                final(self).completion_criteria,
                final(self).sub_sagas@,
            ) {
                SagaState::Completed
            } else if exists|i: int|
                0 <= i < final(self).sub_sagas@.len() && spec_sub_failed(
                    #[trigger] final(self).sub_sagas@[i],
                ) {
                SagaState::Failed
            } else if forall|i: int|
                0 <= i < final(self).sub_sagas@.len() ==> spec_sub_state(
                    #[trigger] final(self).sub_sagas@[i],
                ) == SagaState::Waiting {
                SagaState::Waiting
            } else {
                SagaState::InProgress
            },
    {
        let mut commands: Vec<PolicyCommand> = Vec::new();
        let n = self.sub_sagas.len();
        let ghost batches: Seq<Seq<PolicyCommand>> = Seq::empty();
        let mut batches_ghost: Ghost<Seq<Seq<PolicyCommand>>> = Ghost(batches);
        proof {
            assert(commands@ =~= spec_concat_commands(batches_ghost@));
        }
        let mut i: usize = 0;
        while i < n
            invariant
                0 <= i <= n,
                self.sub_sagas@.len() == n,
                self.completion_criteria == old(self).completion_criteria,
                forall|j: int|
                    i <= j < n ==> #[trigger] self.sub_sagas@[j] == old(self).sub_sagas@[j],
                forall|j: int|
                    0 <= j < i ==> spec_sub_observed(
                        old(self).sub_sagas@[j],
                        *event,
                        #[trigger] self.sub_sagas@[j],
                    ),
                batches_ghost@.len() == i,
                commands@ == spec_concat_commands(batches_ghost@),
                forall|j: int|
                    0 <= j < i ==> spec_sub_commands(
                        self.sub_sagas@[j],
                        #[trigger] batches_ghost@[j],
                    ),
            decreases n - i,
        {
            let ghost pre_subs = self.sub_sagas@;
            let mut saga = self.sub_sagas.remove(i);
            let mut new_commands = saga.observe(event);
            let ghost batch = new_commands@;
            let ghost pre_commands = commands@;
            append_commands(&mut commands, &mut new_commands);
            self.sub_sagas.insert(i, saga);
            proof {
                assert(self.sub_sagas@ =~= pre_subs.update(i as int, self.sub_sagas@[i as int]));
                let pre_batches = batches_ghost@;
                batches_ghost@ = batches_ghost@.push(batch);
                assert(batches_ghost@.drop_last() =~= pre_batches);
                assert(batches_ghost@.last() == batch);
                assert(commands@ =~= spec_concat_commands(batches_ghost@));
            }
            i = i + 1;
        }
        // Recompute the composite state from the sub-sagas.
        let mut any_failed = false;
        let mut all_waiting = true;
        let mut k: usize = 0;
        while k < self.sub_sagas.len()
            invariant
                0 <= k <= self.sub_sagas@.len(),
                self.sub_sagas@.len() == n,
                self.completion_criteria == old(self).completion_criteria,
                any_failed <==> exists|j: int|
                    0 <= j < k && spec_sub_failed(#[trigger] self.sub_sagas@[j]),
                all_waiting <==> forall|j: int|
                    0 <= j < k ==> spec_sub_state(#[trigger] self.sub_sagas@[j])
                        == SagaState::Waiting,
            decreases self.sub_sagas@.len() - k,
        {
            if self.sub_sagas[k].has_failed() {
                any_failed = true;
                proof {
                    assert(spec_sub_failed(self.sub_sagas@[k as int]));
                }
            }
            let state = self.sub_sagas[k].current_state();
            if !(state == SagaState::Waiting) {
                all_waiting = false;
            }
            k = k + 1;
        }
        if self.check_completion() {
            self.current_state = SagaState::Completed;
        } else if any_failed {
            self.current_state = SagaState::Failed;
        } else if all_waiting {
            self.current_state = SagaState::Waiting;
        } else {
            self.current_state = SagaState::InProgress;
        }
        self.metadata.update();
        Ok(commands)
    }

    /// Suggests an execution path from the composite state toward
    /// completion: an advisory greedy walk over the planning chain.
    pub fn optimal_execution_path(&self) -> (r: Vec<SagaState>)
        ensures
            r@.len() >= 1,
            r@[0] == self.current_state,
    {
        self.markov_chain.optimal_path(&self.current_state, &SagaState::Completed)
    }
}

/// In what order compensating commands run during a rollback.
#[derive(Debug, Clone, Copy, PartialEq, Eq, Structural)]
pub enum CompensationOrder {
    /// Undo in reverse order of execution.
    Reverse,
    /// Undo in the order the commands were recorded.
    Forward,
    /// Undo everything at once.
    Parallel,
}

/// The compensation plan of a saga: the commands that undo its work.
#[derive(Debug)]
pub struct SagaCompensation {
    /// The saga being compensated.
    pub saga_id: u128,
    /// The compensating commands, in the order they were recorded.
    pub compensating_commands: Vec<PolicyCommand>,
    /// In what order the commands should run.
    pub compensation_order: CompensationOrder,
}

impl SagaCompensation {
    /// Creates an empty compensation plan that undoes in reverse order.
    pub fn new(saga_id: u128) -> (r: SagaCompensation)
        ensures
            r.saga_id == saga_id,
            r.compensating_commands@.len() == 0,
            r.compensation_order == CompensationOrder::Reverse,
    {
        SagaCompensation {
            saga_id,
            compensating_commands: Vec::new(),
            compensation_order: CompensationOrder::Reverse,
        }
    }

    /// Records one compensating command.
    pub fn add_compensation(&mut self, command: PolicyCommand)
        ensures
            final(self).compensating_commands@.len() == old(self).compensating_commands@.len()
                + 1,
            final(self).saga_id == old(self).saga_id,
            final(self).compensation_order == old(self).compensation_order,
    {
        self.compensating_commands.push(command);
    }

    /// Hands the compensating commands out in execution order: reversed for
    /// a reverse-order plan, as recorded otherwise. The plan itself is
    /// consumed.
    #[verifier::loop_isolation(false)]
    pub fn execute(self) -> (r: Vec<PolicyCommand>)
        ensures
            r@.len() == self.compensating_commands@.len(),
    {
        match self.compensation_order {
            CompensationOrder::Reverse => {
                let mut commands = self.compensating_commands;
                let mut out: Vec<PolicyCommand> = Vec::new();
                let ghost n = commands@.len();
                while commands.len() > 0
                    invariant
                        out@.len() + commands@.len() == n,
                    decreases commands@.len(),
                {
                    let last = commands.pop().unwrap();
                    out.push(last);
                }
                out
            },
            CompensationOrder::Forward => self.compensating_commands,
            CompensationOrder::Parallel => self.compensating_commands,
        }
    }
}

/// Moves all commands of the second vector to the end of the first, in
/// order.
#[verifier::loop_isolation(false)]
fn append_commands(dst: &mut Vec<PolicyCommand>, src: &mut Vec<PolicyCommand>)
    ensures
        final(dst)@ == old(dst)@ + old(src)@,
{
    let ghost n = src@.len();
    while src.len() > 0
        invariant
            src@.len() <= n,
            src@ == old(src)@.subrange(n - src@.len(), n as int),
            dst@ == old(dst)@ + old(src)@.subrange(0, n - src@.len()),
        decreases src@.len(),
    {
        let ghost pre_dst = dst@;
        let ghost pre_src = src@;
        let c = src.remove(0);
        dst.push(c);
        proof {
            assert(src@ =~= old(src)@.subrange(n - src@.len(), n as int));
            assert(pre_src[0] == old(src)@[n - pre_src.len()]);
            assert(dst@ =~= old(dst)@ + old(src)@.subrange(0, n - src@.len()));
        }
    }
    proof {
        assert(old(src)@.subrange(0, n as int) =~= old(src)@);
        assert(dst@ =~= old(dst)@ + old(src)@);
    }
}

} // verus!
