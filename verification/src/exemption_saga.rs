//! The exemption workflow: a saga walking an exemption request through risk
//! assessment, justification and a risk-tiered number of approvals before it
//! may be granted, and self-monitoring expiry afterwards.

use vstd::prelude::*;
use crate::sagas::{SagaState, StateTransition, SagaMetadata, SagaError, MarkovChain,
    create_root_command};
use crate::approval_saga::ApprovalLevel;
use crate::value_objects::{PolicyId, ExemptionId};
use crate::aggregate::{ExemptionScope, ExemptionCondition};
use crate::events::PolicyEvent;
use crate::commands::{PolicyCommand, RequestExemption, GrantExemption};
use crate::value_objects::clone_vec_deep;

verus! {

broadcast use {vstd::std_specs::vec::group_vec_axioms, vstd::seq::group_seq_axioms};

/// How risky granting the exemption was assessed to be.
#[derive(Debug, Clone, Copy, PartialEq, Eq, Structural)]
pub enum RiskLevel {
    Low,
    Medium,
    High,
    Critical,
}

/// How urgent the business need behind the request is.
#[derive(Debug, Clone, Copy, PartialEq, Eq, Structural)]
pub enum BusinessPriority {
    Low,
    Medium,
    High,
    Critical,
}

/// The number of approvals a risk level demands: one for low, two for
/// medium, three for high, four for critical; an unassessed request demands
/// one.
pub open spec fn spec_required_approvals(assessment: Option<RiskLevel>) -> int {
    match assessment {
        Some(RiskLevel::Critical) => 4,
        Some(RiskLevel::High) => 3,
        Some(RiskLevel::Medium) => 2,
        _ => 1,
    }
}

/// The saga that drives one exemption request.
#[derive(Debug)]
pub struct ExemptionWorkflowSaga {
    /// Tracking metadata.
    pub metadata: SagaMetadata,
    /// The policy the exemption bypasses.
    pub policy_id: PolicyId,
    /// Who asked for the exemption.
    pub requester: String,
    /// The committed state of the workflow.
    pub current_state: SagaState,
    /// The advisory planning chain.
    pub markov_chain: MarkovChain,
    /// The assessed risk level and assessment notes, once assessed.
    pub risk_assessment: Option<(RiskLevel, String)>,
    /// The business justification and its priority, once given.
    pub business_justification: Option<(String, BusinessPriority)>,
    /// The approvals collected so far.
    pub approvals: Vec<(String, ApprovalLevel)>,
    /// The conditions attached to the grant.
    pub exemption_conditions: Vec<ExemptionCondition>,
    /// The granted exemption's identifier, once granted.
    pub exemption_id: Option<ExemptionId>,
    /// When the grant runs out, as Unix milliseconds, once granted.
    pub expiry: Option<i64>,
}

impl ExemptionWorkflowSaga {
    /// Creates an exemption workflow for the policy, starting at the
    /// request.
    pub fn new(policy_id: PolicyId, requester: &str) -> (r: ExemptionWorkflowSaga)
        ensures
            r.policy_id == policy_id,
            r.requester@ == requester@,
            r.current_state == SagaState::ExemptionRequested,
            r.risk_assessment is None,
            r.business_justification is None,
            r.approvals@.len() == 0,
            r.exemption_id is None,
            r.expiry is None,
    {
        let mut markov_chain = MarkovChain::new();
        markov_chain.add_transition(
            SagaState::ExemptionRequested,
            SagaState::ExemptionUnderReview,
            900,
        );
        markov_chain.add_transition(
            SagaState::ExemptionRequested,
            SagaState::ExemptionDenied,
            100,
        );
        markov_chain.add_transition(
            SagaState::ExemptionUnderReview,
            SagaState::ExemptionGranted,
            500,
        );
        markov_chain.add_transition(
            SagaState::ExemptionUnderReview,
            SagaState::ExemptionDenied,
            400,
        );
        markov_chain.add_transition(
            SagaState::ExemptionUnderReview,
            SagaState::ExemptionRequested,
            100,
        );
        markov_chain.add_transition(
            SagaState::ExemptionGranted,
            SagaState::ExemptionExpired,
            1000,
        );
        markov_chain.set_state_reward(SagaState::ExemptionGranted, 30);
        markov_chain.set_state_reward(SagaState::ExemptionDenied, -20);
        markov_chain.set_state_reward(SagaState::ExemptionExpired, 0);
        ExemptionWorkflowSaga {
            metadata: SagaMetadata::new(requester),
            policy_id,
            requester: requester.to_owned(),
            current_state: SagaState::ExemptionRequested,
            markov_chain,
            risk_assessment: None,
            business_justification: None,
            approvals: Vec::new(),
            exemption_conditions: Vec::new(),
            exemption_id: None,
            expiry: None,
        }
    }

    /// Returns the committed state of the workflow.
    pub fn current_state(&self) -> (r: SagaState)
        ensures
            r == self.current_state,
    {
        self.current_state
    }

    /// The transitions the allowed-transition table admits from each state of
    /// this workflow.
    pub open spec fn spec_available_transitions(state: SagaState) -> Seq<StateTransition> {
        match state {
            SagaState::ExemptionRequested => seq![
                StateTransition::ReviewExemption,
                StateTransition::DenyExemption,
            ],
            SagaState::ExemptionUnderReview => seq![
                StateTransition::GrantExemption,
                StateTransition::DenyExemption,
                StateTransition::RequestChanges,
            ],
            SagaState::ExemptionGranted => seq![StateTransition::ExpireExemption],
            _ => Seq::empty(),
        }
    }

    /// Returns the transitions the allowed-transition table admits from the
    /// current state.
    pub fn available_transitions(&self) -> (r: Vec<StateTransition>)
        ensures
            r@ == ExemptionWorkflowSaga::spec_available_transitions(self.current_state),
    {
        let mut out: Vec<StateTransition> = Vec::new();
        match self.current_state {
            SagaState::ExemptionRequested => {
                out.push(StateTransition::ReviewExemption);
                out.push(StateTransition::DenyExemption);
            },
            SagaState::ExemptionUnderReview => {
                out.push(StateTransition::GrantExemption);
                out.push(StateTransition::DenyExemption);
                out.push(StateTransition::RequestChanges);
            },
            SagaState::ExemptionGranted => {
                out.push(StateTransition::ExpireExemption);
            },
            _ => {},
        }
        proof {
            assert(out@ =~= ExemptionWorkflowSaga::spec_available_transitions(
                self.current_state,
            ));
        }
        out
    }

    /// Returns the advisory probability of one transition, in thousandths.
    pub fn transition_probability(&self, from: &SagaState, to: &SagaState) -> (r: u32)
        ensures
            r == crate::sagas::spec_probability(self.markov_chain.transitions@, *from, *to),
    {
        self.markov_chain.transition_probability(from, to)
    }

    /// Records the risk assessment.
    pub fn set_risk_assessment(&mut self, level: RiskLevel, notes: &str)
        ensures
            final(self).risk_assessment matches Some(a) && a.0 == level && a.1@ == notes@,
            final(self).current_state == old(self).current_state,
            final(self).business_justification == old(self).business_justification,
            final(self).approvals == old(self).approvals,
            final(self).policy_id == old(self).policy_id,
            final(self).exemption_id == old(self).exemption_id,
            final(self).expiry == old(self).expiry,
    {
        self.risk_assessment = Some((level, notes.to_owned()));
        self.metadata.update();
    }

    /// Records the business justification.
    pub fn set_business_justification(&mut self, justification: &str, priority: BusinessPriority)
        ensures
            final(self).business_justification matches Some(j) && j.0@ == justification@ && j.1
                == priority,
            final(self).current_state == old(self).current_state,
            final(self).risk_assessment == old(self).risk_assessment,
            final(self).approvals == old(self).approvals,
            final(self).policy_id == old(self).policy_id,
            final(self).exemption_id == old(self).exemption_id,
            final(self).expiry == old(self).expiry,
    {
        self.business_justification = Some((justification.to_owned(), priority));
        self.metadata.update();
    }

    /// Records an approval.
    pub fn add_approval(&mut self, approver: &str, level: ApprovalLevel)
        ensures
            final(self).approvals.deep_view() == old(self).approvals.deep_view().push(
                (approver@, level),
            ),
            final(self).approvals@.len() == old(self).approvals@.len() + 1,
            final(self).current_state == old(self).current_state,
            final(self).risk_assessment == old(self).risk_assessment,
            final(self).business_justification == old(self).business_justification,
            final(self).policy_id == old(self).policy_id,
            final(self).exemption_id == old(self).exemption_id,
            final(self).expiry == old(self).expiry,
    {
        let ghost pre = self.approvals.deep_view();
        self.approvals.push((approver.to_owned(), level));
        self.metadata.update();
        proof {
            assert(self.approvals.deep_view() =~= pre.push((approver@, level)));
        }
    }

    /// Returns whether both the risk assessment and the business
    /// justification have been recorded, so the request may move to review.
    pub fn ready_for_approval(&self) -> (r: bool)
        ensures
            r == (self.risk_assessment is Some && self.business_justification is Some),
    {
        self.risk_assessment.is_some() && self.business_justification.is_some()
    }

    /// The risk level recorded by the assessment, if one was.
    pub open spec fn spec_assessed_level(&self) -> Option<RiskLevel> {
        match self.risk_assessment {
            Some(a) => Some(a.0),
            None => None,
        }
    }

    /// Returns whether enough approvals were collected for the assessed risk
    /// level: one to four, rising with the risk.
    pub fn has_sufficient_approvals(&self) -> (r: bool)
        ensures
            r == (self.approvals@.len() >= spec_required_approvals(self.spec_assessed_level())),
    {
        let required: usize = match &self.risk_assessment {
            Some((RiskLevel::Critical, _)) => 4,
            Some((RiskLevel::High, _)) => 3,
            Some((RiskLevel::Medium, _)) => 2,
            _ => 1,
        };
        self.approvals.len() >= required
    }

    /// Records the grant of the exemption with its conditions and duration
    /// in milliseconds, moving the workflow to the granted state.
    pub fn grant_exemption(&mut self, conditions: Vec<ExemptionCondition>, duration_ms: i64)
        ensures
            final(self).current_state == SagaState::ExemptionGranted,
            final(self).exemption_id is Some,
            final(self).expiry is Some,
            final(self).exemption_conditions.deep_view() == conditions.deep_view(),
            final(self).policy_id == old(self).policy_id,
            final(self).risk_assessment == old(self).risk_assessment,
            final(self).approvals == old(self).approvals,
    {
        self.exemption_conditions = conditions;
        self.exemption_id = Some(ExemptionId::new());
        let now = crate::runtime::now_millis();
        let expiry: i64 = if duration_ms >= 0 && now <= i64::MAX - duration_ms {
            now + duration_ms
        } else {
            now
        };
        self.expiry = Some(expiry);
        self.current_state = SagaState::ExemptionGranted;
        self.metadata.update();
    }

    /// Returns whether the grant should be checked for expiry: granted, with
    /// a recorded expiry instant.
    pub fn needs_expiry_check(&self) -> (r: bool)
        ensures
            r == (self.current_state == SagaState::ExemptionGranted && self.expiry is Some),
    {
        matches!(self.current_state, SagaState::ExemptionGranted) && self.expiry.is_some()
    }

    /// Moves a granted exemption to expired when the given instant lies past
    /// its recorded expiry.
    pub fn check_expiry_at(&mut self, now: i64)
        ensures
            final(self).current_state == if old(self).expiry matches Some(e) && now > e {
                SagaState::ExemptionExpired
            } else {
                old(self).current_state
            },
            final(self).policy_id == old(self).policy_id,
            final(self).expiry == old(self).expiry,
            final(self).approvals == old(self).approvals,
    {
        if let Some(expiry) = self.expiry {
            if now > expiry {
                self.current_state = SagaState::ExemptionExpired;
                self.metadata.update();
            }
        }
    }

    /// Moves a granted exemption to expired when the wall clock lies past
    /// its recorded expiry.
    pub fn check_expiry(&mut self)
        ensures
            final(self).current_state == SagaState::ExemptionExpired || final(self).current_state
                == old(self).current_state,
            final(self).policy_id == old(self).policy_id,
            final(self).expiry == old(self).expiry,
            final(self).approvals == old(self).approvals,
    {
        let now = crate::runtime::now_millis();
        self.check_expiry_at(now);
    }

    /// Everything applying one event pins down: a grant for this policy
    /// moves the workflow to granted and records the exemption and its
    /// expiry, a revocation of the granted exemption moves it to denied, an
    /// expiry of it to expired; other events change nothing.
    pub open spec fn spec_apply_post(
        pre: ExemptionWorkflowSaga,
        event: PolicyEvent,
        post: ExemptionWorkflowSaga,
        r: Result<(), SagaError>,
    ) -> bool {
        &&& r is Ok
        &&& post.policy_id == pre.policy_id
        &&& post.approvals == pre.approvals
        &&& post.risk_assessment == pre.risk_assessment
        &&& match event {
            PolicyEvent::PolicyExemptionGranted(e) => {
                if e.policy_id == pre.policy_id {
                    &&& post.current_state == SagaState::ExemptionGranted
                    &&& post.exemption_id == Some(e.exemption_id)
                    &&& post.expiry == Some(e.valid_until)
                } else {
                    post.current_state == pre.current_state
                }
            },
            PolicyEvent::PolicyExemptionRevoked(e) => {
                if pre.exemption_id == Some(e.exemption_id) {
                    post.current_state == SagaState::ExemptionDenied
                } else {
                    post.current_state == pre.current_state
                }
            },
            PolicyEvent::PolicyExemptionExpired(e) => {
                if pre.exemption_id == Some(e.exemption_id) {
                    post.current_state == SagaState::ExemptionExpired
                } else {
                    post.current_state == pre.current_state
                }
            },
            _ => post.current_state == pre.current_state,
        }
    }

    /// Applies one observed event, per `spec_apply_post`.
    pub fn apply_event(&mut self, event: &PolicyEvent) -> (r: Result<(), SagaError>)
        ensures
            ExemptionWorkflowSaga::spec_apply_post(*old(self), *event, *final(self), r),
    {
        match event {
            PolicyEvent::PolicyExemptionGranted(e) => {
                if e.policy_id.0 == self.policy_id.0 {
                    self.exemption_id = Some(e.exemption_id);
                    self.current_state = SagaState::ExemptionGranted;
                    self.expiry = Some(e.valid_until);
                    self.metadata.update();
                }
                Ok(())
            },
            PolicyEvent::PolicyExemptionRevoked(e) => {
                let matches_grant = match &self.exemption_id {
                    Some(xid) => xid.0 == e.exemption_id.0,
                    None => false,
                };
                if matches_grant {
                    self.current_state = SagaState::ExemptionDenied;
                    self.metadata.update();
                }
                Ok(())
            },
            PolicyEvent::PolicyExemptionExpired(e) => {
                let matches_grant = match &self.exemption_id {
                    Some(xid) => xid.0 == e.exemption_id.0,
                    None => false,
                };
                if matches_grant {
                    self.current_state = SagaState::ExemptionExpired;
                    self.metadata.update();
                }
                Ok(())
            },
            _ => Ok(()),
        }
    }

    /// Derives the follow-up commands of the current state: a request
    /// command once the request is ready for review, carrying the requester
    /// and a user scope naming that requester, and a grant command carrying
    /// the collected conditions only once review holds enough approvals for
    /// the assessed risk. No grant command is ever emitted before the
    /// approvals suffice.
    /// Everything command derivation pins down: a request command carrying
    /// the requester and a user scope naming that requester once the request
    /// is ready for review, a grant command carrying the collected
    /// conditions only once review holds enough approvals for the assessed
    /// risk, and no grant command before the approvals suffice.
    pub open spec fn spec_commands_post(
        s: ExemptionWorkflowSaga,
        cmds: Seq<PolicyCommand>,
    ) -> bool {
        &&& s.current_state == SagaState::ExemptionRequested && s.risk_assessment is Some
            && s.business_justification is Some ==> cmds.len() == 1 && (cmds[0] matches
            PolicyCommand::RequestExemption(c) && c.policy_id == s.policy_id && c.requester@
            == s.requester@ && (c.scope matches ExemptionScope::User(u) && u@ == s.requester@))
        &&& s.current_state == SagaState::ExemptionUnderReview && s.approvals@.len()
            >= spec_required_approvals(s.spec_assessed_level()) ==> cmds.len() == 1 && (
        cmds[0] matches PolicyCommand::GrantExemption(c) && c.policy_id == s.policy_id
            && c.requester@ == s.requester@ && c.conditions.deep_view()
            == s.exemption_conditions.deep_view())
        &&& forall|i: int|
            0 <= i < cmds.len() && (#[trigger] cmds[i]) is GrantExemption ==> s.current_state
                == SagaState::ExemptionUnderReview && s.approvals@.len()
                >= spec_required_approvals(s.spec_assessed_level())
        &&& !(s.current_state == SagaState::ExemptionRequested && s.risk_assessment is Some
            && s.business_justification is Some) && !(s.current_state
            == SagaState::ExemptionUnderReview && s.approvals@.len() >= spec_required_approvals(
            s.spec_assessed_level(),
        )) ==> cmds.len() == 0
    }

    /// Derives the follow-up commands of the current state, per
    /// `spec_commands_post`.
    pub fn get_commands(&self) -> (r: Vec<PolicyCommand>)
        ensures
            ExemptionWorkflowSaga::spec_commands_post(*self, r@),
    {
        let mut commands: Vec<PolicyCommand> = Vec::new();
        match self.current_state {
            SagaState::ExemptionRequested => {
                if self.ready_for_approval() {
                    let reason: String = match &self.risk_assessment {
                        Some(a) => a.1.clone(),
                        None => String::new(),
                    };
                    let justification: String = match &self.business_justification {
                        Some(j) => j.0.clone(),
                        None => String::new(),
                    };
                    commands.push(PolicyCommand::RequestExemption(RequestExemption {
                        identity: create_root_command(),
                        policy_id: self.policy_id,
                        requester: self.requester.clone(),
                        reason,
                        justification,
                        duration_ms: 30i64 * 24 * 60 * 60 * 1000,
                        scope: ExemptionScope::User(self.requester.clone()),
                    }));
                }
            },
            SagaState::ExemptionUnderReview => {
                if self.has_sufficient_approvals() {
                    let reason: String = match &self.risk_assessment {
                        Some(a) => a.1.clone(),
                        None => String::new(),
                    };
                    let justification: String = match &self.business_justification {
                        Some(j) => j.0.clone(),
                        None => String::new(),
                    };
                    let risk_acceptance: Option<String> = match &self.risk_assessment {
                        Some(_) => Some(String::from_str("risk accepted by the approvers")),
                        None => None,
                    };
                    let approver: String = if self.approvals.len() > 0 {
                        self.approvals[self.approvals.len() - 1].0.clone()
                    } else {
                        String::new()
                    };
                    let now = crate::runtime::now_millis();
                    let month_ms: i64 = 30i64 * 24 * 60 * 60 * 1000;
                    let valid_until: i64 = match self.expiry {
                        Some(e) => e,
                        None => if now <= i64::MAX - month_ms {
                            now + month_ms
                        } else {
                            now
                        },
                    };
                    commands.push(PolicyCommand::GrantExemption(GrantExemption {
                        identity: create_root_command(),
                        policy_id: self.policy_id,
                        requester: self.requester.clone(),
                        approver,
                        reason,
                        justification,
                        risk_acceptance,
                        valid_from: now,
                        valid_until,
                        conditions: clone_vec_deep(&self.exemption_conditions),
                    }));
                }
            },
            _ => {},
        }
        commands
    }

    /// Returns whether the workflow reached a terminal state: granted,
    /// denied or expired.
    pub fn is_complete(&self) -> (r: bool)
        ensures
            r == (self.current_state == SagaState::ExemptionGranted || self.current_state
                == SagaState::ExemptionDenied || self.current_state
                == SagaState::ExemptionExpired),
    {
        matches!(
            self.current_state,
            SagaState::ExemptionGranted | SagaState::ExemptionDenied | SagaState::ExemptionExpired
        )
    }

    /// Returns whether the workflow failed: the request was denied.
    pub fn has_failed(&self) -> (r: bool)
        ensures
            r == (self.current_state == SagaState::ExemptionDenied),
    {
        matches!(self.current_state, SagaState::ExemptionDenied)
    }
}

} // verus!
