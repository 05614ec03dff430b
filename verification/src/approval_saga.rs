//! The policy approval workflow: a saga walking a policy from draft through
//! review to approval and activation, gated by the required approvals.

use vstd::prelude::*;
use crate::sagas::{SagaState, StateTransition, SagaMetadata, SagaError, MarkovChain,
    create_root_command};
use crate::value_objects::PolicyId;
use crate::events::PolicyEvent;
use crate::commands::{PolicyCommand, ApprovePolicy, ActivatePolicy};

verus! {

broadcast use {vstd::std_specs::vec::group_vec_axioms, vstd::seq::group_seq_axioms};

/// The level of an approval given to a policy or an exemption.
#[derive(Debug, Clone, PartialEq, Eq, Structural)]
pub enum ApprovalLevel {
    Manager,
    Director,
    Security,
    Compliance,
}

impl DeepView for ApprovalLevel {
    type V = ApprovalLevel;

    open spec fn deep_view(&self) -> ApprovalLevel {
        *self
    }
}

/// Whether the collected approvals include both a manager's and a
/// director's.
pub open spec fn spec_has_manager_and_director(approvals: Seq<(Seq<char>, ApprovalLevel)>)
    -> bool {
    &&& exists|i: int|
        0 <= i < approvals.len() && (#[trigger] approvals[i]).1 == ApprovalLevel::Manager
    &&& exists|i: int|
        0 <= i < approvals.len() && (#[trigger] approvals[i]).1 == ApprovalLevel::Director
}

/// The saga that drives one policy's approval workflow.
#[derive(Debug)]
pub struct PolicyApprovalSaga {
    /// Tracking metadata.
    pub metadata: SagaMetadata,
    /// The policy under approval.
    pub policy_id: PolicyId,
    /// The committed state of the workflow.
    pub current_state: SagaState,
    /// The advisory planning chain.
    pub markov_chain: MarkovChain,
    /// The approvals collected so far, with who gave each.
    pub approvals: Vec<(String, ApprovalLevel)>,
    /// Why the policy was rejected, when it was.
    pub rejection_reason: Option<String>,
}

impl PolicyApprovalSaga {
    /// Creates an approval saga for the policy, starting in draft.
    pub fn new(policy_id: PolicyId, initiated_by: &str) -> (r: PolicyApprovalSaga)
        ensures
            r.policy_id == policy_id,
            r.current_state == SagaState::Draft,
            r.approvals@.len() == 0,
            r.rejection_reason is None,
    {
        let mut markov_chain = MarkovChain::new();
        markov_chain.add_transition(SagaState::Draft, SagaState::UnderReview, 1000);
        markov_chain.add_transition(SagaState::UnderReview, SagaState::Approved, 600);
        markov_chain.add_transition(SagaState::UnderReview, SagaState::Rejected, 300);
        markov_chain.add_transition(SagaState::UnderReview, SagaState::Draft, 100);
        markov_chain.add_transition(SagaState::Approved, SagaState::Active, 950);
        markov_chain.add_transition(SagaState::Approved, SagaState::Failed, 50);
        markov_chain.set_state_reward(SagaState::Active, 100);
        markov_chain.set_state_reward(SagaState::Approved, 50);
        markov_chain.set_state_reward(SagaState::Rejected, -30);
        markov_chain.set_state_reward(SagaState::Failed, -50);
        PolicyApprovalSaga {
            metadata: SagaMetadata::new(initiated_by),
            policy_id,
            current_state: SagaState::Draft,
            markov_chain,
            approvals: Vec::new(),
            rejection_reason: None,
        }
    }

    /// Returns the committed state of the workflow.
    pub fn current_state(&self) -> (r: SagaState)
        ensures
            r == self.current_state,
    {
        self.current_state
    }

    /// The transitions the allowed-transition table admits from each state of
    /// this workflow.
    pub open spec fn spec_available_transitions(state: SagaState) -> Seq<StateTransition> {
        match state {
            SagaState::Draft => seq![StateTransition::SubmitForReview],
            SagaState::UnderReview => seq![
                StateTransition::Approve,
                StateTransition::Reject,
                StateTransition::RequestChanges,
            ],
            SagaState::Approved => seq![StateTransition::Activate],
            SagaState::Rejected => seq![StateTransition::Retry],
            _ => Seq::empty(),
        }
    }

    /// Returns the transitions the allowed-transition table admits from the
    /// current state.
    pub fn available_transitions(&self) -> (r: Vec<StateTransition>)
        ensures
            r@ == PolicyApprovalSaga::spec_available_transitions(self.current_state),
    {
        let mut out: Vec<StateTransition> = Vec::new();
        match self.current_state {
            SagaState::Draft => {
                out.push(StateTransition::SubmitForReview);
            },
            SagaState::UnderReview => {
                out.push(StateTransition::Approve);
                out.push(StateTransition::Reject);
                out.push(StateTransition::RequestChanges);
            },
            SagaState::Approved => {
                out.push(StateTransition::Activate);
            },
            SagaState::Rejected => {
                out.push(StateTransition::Retry);
            },
            _ => {},
        }
        proof {
            assert(out@ =~= PolicyApprovalSaga::spec_available_transitions(self.current_state));
        }
        out
    }

    /// Returns the advisory probability of one transition, in thousandths.
    pub fn transition_probability(&self, from: &SagaState, to: &SagaState) -> (r: u32)
        ensures
            r == crate::sagas::spec_probability(self.markov_chain.transitions@, *from, *to),
    {
        self.markov_chain.transition_probability(from, to)
    }

    /// Records an approval.
    pub fn add_approval(&mut self, approver: &str, level: ApprovalLevel)
        ensures
            final(self).approvals.deep_view() == old(self).approvals.deep_view().push(
                (approver@, level),
            ),
            final(self).current_state == old(self).current_state,
            final(self).policy_id == old(self).policy_id,
            final(self).rejection_reason == old(self).rejection_reason,
    {
        let ghost pre = self.approvals.deep_view();
        self.approvals.push((approver.to_owned(), level));
        self.metadata.update();
        proof {
            assert(self.approvals.deep_view() =~= pre.push((approver@, level)));
        }
    }

    /// Returns whether the collected approvals suffice: both a manager's and
    /// a director's approval are required.
    #[verifier::loop_isolation(false)]
    pub fn has_sufficient_approvals(&self) -> (r: bool)
        ensures
            r == spec_has_manager_and_director(self.approvals.deep_view()),
    {
        let mut has_manager = false;
        let mut has_director = false;
        let mut i: usize = 0;
        while i < self.approvals.len()
            invariant
                0 <= i <= self.approvals@.len(),
                has_manager <==> exists|j: int|
                    0 <= j < i && (#[trigger] self.approvals.deep_view()[j]).1
                        == ApprovalLevel::Manager,
                has_director <==> exists|j: int|
                    0 <= j < i && (#[trigger] self.approvals.deep_view()[j]).1
                        == ApprovalLevel::Director,
            decreases self.approvals@.len() - i,
        {
            let level = &self.approvals[i].1;
            if matches!(level, ApprovalLevel::Manager) {
                has_manager = true;
                proof {
                    assert(self.approvals.deep_view()[i as int].1 == ApprovalLevel::Manager);
                }
            }
            if matches!(level, ApprovalLevel::Director) {
                has_director = true;
                proof {
                    assert(self.approvals.deep_view()[i as int].1 == ApprovalLevel::Director);
                }
            }
            i = i + 1;
        }
        has_manager && has_director
    }

    /// Records a rejection, moving the workflow to the rejected state.
    pub fn reject(&mut self, reason: &str)
        ensures
            final(self).current_state == SagaState::Rejected,
            final(self).rejection_reason matches Some(m) && m@ == reason@,
            final(self).policy_id == old(self).policy_id,
            final(self).approvals == old(self).approvals,
    {
        self.rejection_reason = Some(reason.to_owned());
        self.current_state = SagaState::Rejected;
        self.metadata.update();
    }

    /// Everything applying one event pins down: creation moves draft to
    /// review, approval moves review to approved, activation moves approved
    /// to active; an event arriving in the wrong state is an invalid
    /// transition that leaves the state unchanged, and events of other
    /// policies or other kinds are ignored.
    pub open spec fn spec_apply_post(
        pre: PolicyApprovalSaga,
        event: PolicyEvent,
        post: PolicyApprovalSaga,
        r: Result<(), SagaError>,
    ) -> bool {
        &&& post.policy_id == pre.policy_id
        &&& post.approvals == pre.approvals
        &&& match event {
            PolicyEvent::PolicyCreated(_) => {
                if pre.current_state == SagaState::Draft {
                    r is Ok && post.current_state == SagaState::UnderReview
                } else {
                    r matches Err(SagaError::InvalidTransition(_, _)) && post.current_state
                        == pre.current_state
                }
            },
            PolicyEvent::PolicyApproved(e) => {
                if e.policy_id == pre.policy_id {
                    if pre.current_state == SagaState::UnderReview {
                        r is Ok && post.current_state == SagaState::Approved
                    } else {
                        r matches Err(SagaError::InvalidTransition(_, _)) && post.current_state
                            == pre.current_state
                    }
                } else {
                    r is Ok && post.current_state == pre.current_state
                }
            },
            PolicyEvent::PolicyActivated(e) => {
                if e.policy_id == pre.policy_id {
                    if pre.current_state == SagaState::Approved {
                        r is Ok && post.current_state == SagaState::Active
                    } else {
                        r matches Err(SagaError::InvalidTransition(_, _)) && post.current_state
                            == pre.current_state
                    }
                } else {
                    r is Ok && post.current_state == pre.current_state
                }
            },
            _ => r is Ok && post.current_state == pre.current_state,
        }
    }

    /// Applies one observed event, per `spec_apply_post`.
    pub fn apply_event(&mut self, event: &PolicyEvent) -> (r: Result<(), SagaError>)
        ensures
            PolicyApprovalSaga::spec_apply_post(*old(self), *event, *final(self), r),
    {
        match event {
            PolicyEvent::PolicyCreated(_) => {
                if !matches!(self.current_state, SagaState::Draft) {
                    return Err(SagaError::InvalidTransition(
                        self.current_state,
                        SagaState::UnderReview,
                    ));
                }
                self.current_state = SagaState::UnderReview;
                self.metadata.update();
                Ok(())
            },
            PolicyEvent::PolicyApproved(e) => {
                if e.policy_id.0 == self.policy_id.0 {
                    if !matches!(self.current_state, SagaState::UnderReview) {
                        return Err(SagaError::InvalidTransition(
                            self.current_state,
                            SagaState::Approved,
                        ));
                    }
                    self.current_state = SagaState::Approved;
                    self.metadata.update();
                }
                Ok(())
            },
            PolicyEvent::PolicyActivated(e) => {
                if e.policy_id.0 == self.policy_id.0 {
                    if !matches!(self.current_state, SagaState::Approved) {
                        return Err(SagaError::InvalidTransition(
                            self.current_state,
                            SagaState::Active,
                        ));
                    }
                    self.current_state = SagaState::Active;
                    self.metadata.update();
                }
                Ok(())
            },
            _ => Ok(()),
        }
    }

    /// Everything command derivation pins down: an approval command once
    /// review has sufficient approvals, an activation command once approved,
    /// nothing otherwise.
    pub open spec fn spec_commands_post(s: PolicyApprovalSaga, cmds: Seq<PolicyCommand>) -> bool {
        &&& s.current_state == SagaState::UnderReview && spec_has_manager_and_director(
            s.approvals.deep_view(),
        ) ==> cmds.len() == 1 && (cmds[0] matches PolicyCommand::ApprovePolicy(c) && c.policy_id
            == s.policy_id)
        &&& s.current_state == SagaState::Approved ==> cmds.len() == 1 && (cmds[0] matches
            PolicyCommand::ActivatePolicy(c) && c.policy_id == s.policy_id)
        &&& !(s.current_state == SagaState::UnderReview && spec_has_manager_and_director(
            s.approvals.deep_view(),
        )) && s.current_state != SagaState::Approved ==> cmds.len() == 0
    }

    /// Derives the follow-up commands of the current state, per
    /// `spec_commands_post`.
    pub fn get_commands(&self) -> (r: Vec<PolicyCommand>)
        ensures
            PolicyApprovalSaga::spec_commands_post(*self, r@),
    {
        let mut commands: Vec<PolicyCommand> = Vec::new();
        match self.current_state {
            SagaState::UnderReview => {
                if self.has_sufficient_approvals() {
                    commands.push(PolicyCommand::ApprovePolicy(ApprovePolicy {
                        identity: create_root_command(),
                        policy_id: self.policy_id,
                        approved_by: self.metadata.initiated_by.clone(),
                        approval_notes: Some(String::from_str(
                            "approved by the required stakeholders",
                        )),
                    }));
                }
            },
            SagaState::Approved => {
                commands.push(PolicyCommand::ActivatePolicy(ActivatePolicy {
                    identity: create_root_command(),
                    policy_id: self.policy_id,
                    activated_by: self.metadata.initiated_by.clone(),
                    effective_immediately: true,
                    schedule_activation: None,
                }));
            },
            _ => {},
        }
        commands
    }

    /// Returns whether the workflow reached a terminal state: activated or
    /// rejected.
    pub fn is_complete(&self) -> (r: bool)
        ensures
            r == (self.current_state == SagaState::Active || self.current_state
                == SagaState::Rejected),
    {
        matches!(self.current_state, SagaState::Active | SagaState::Rejected)
    }

    /// Returns whether the workflow failed: failed outright or rejected.
    pub fn has_failed(&self) -> (r: bool)
        ensures
            r == (self.current_state == SagaState::Failed || self.current_state
                == SagaState::Rejected),
    {
        matches!(self.current_state, SagaState::Failed | SagaState::Rejected)
    }
}

} // verus!
