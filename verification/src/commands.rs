//! Commands of the policy domain: the follow-up work that sagas and callers
//! ask the orchestration layer to perform.

use vstd::prelude::*;
use crate::value_objects::{
    PolicyId, PolicySetId, ExemptionId, PolicyTarget, EnforcementLevel, Value, EvaluationContext,
};
use crate::entities::PolicyRule;
use crate::aggregate::{CompositionRule, ConflictResolution, ExemptionScope, ExemptionCondition};
use crate::events::MessageIdentity;

verus! {

/// Create a new policy.
#[derive(Debug)]
pub struct CreatePolicy {
    pub identity: MessageIdentity,
    pub name: String,
    pub description: String,
    pub rules: Vec<PolicyRule>,
    pub target: PolicyTarget,
    pub enforcement_level: EnforcementLevel,
    pub effective_date: Option<i64>,
    pub expiry_date: Option<i64>,
    pub tags: Vec<String>,
    pub created_by: String,
}

/// Update an existing policy.
#[derive(Debug)]
pub struct UpdatePolicy {
    pub identity: MessageIdentity,
    pub policy_id: PolicyId,
    pub name: Option<String>,
    pub description: Option<String>,
    pub rules: Option<Vec<PolicyRule>>,
    pub target: Option<PolicyTarget>,
    pub enforcement_level: Option<EnforcementLevel>,
    pub effective_date: Option<i64>,
    pub expiry_date: Option<i64>,
    pub updated_by: String,
}

/// Approve a policy under review.
#[derive(Debug)]
pub struct ApprovePolicy {
    pub identity: MessageIdentity,
    pub policy_id: PolicyId,
    pub approved_by: String,
    pub approval_notes: Option<String>,
}

/// Activate an approved policy.
#[derive(Debug)]
pub struct ActivatePolicy {
    pub identity: MessageIdentity,
    pub policy_id: PolicyId,
    pub activated_by: String,
    pub effective_immediately: bool,
    pub schedule_activation: Option<i64>,
}

/// Suspend an active policy.
#[derive(Debug)]
pub struct SuspendPolicy {
    pub identity: MessageIdentity,
    pub policy_id: PolicyId,
    pub suspended_by: String,
    pub reason: String,
    pub expected_resume_date: Option<i64>,
}

/// Revoke a policy permanently.
#[derive(Debug)]
pub struct RevokePolicy {
    pub identity: MessageIdentity,
    pub policy_id: PolicyId,
    pub revoked_by: String,
    pub reason: String,
    pub immediate: bool,
}

/// Archive a revoked policy.
#[derive(Debug)]
pub struct ArchivePolicy {
    pub identity: MessageIdentity,
    pub policy_id: PolicyId,
    pub archived_by: String,
    pub retention_period_days: Option<u32>,
}

/// Evaluate a policy against a context.
#[derive(Debug)]
pub struct EvaluatePolicy {
    pub identity: MessageIdentity,
    pub policy_id: PolicyId,
    pub context: EvaluationContext,
    pub requester: String,
    pub purpose: String,
}

/// The action an enforcement takes.
#[derive(Debug, PartialEq)]
pub enum EnforcementAction {
    Block,
    Allow,
    AllowWithWarning,
    Redirect,
    Quarantine,
    Custom(String),
}

/// Enforce a policy on a target.
#[derive(Debug)]
pub struct EnforcePolicy {
    pub identity: MessageIdentity,
    pub policy_id: PolicyId,
    pub target: PolicyTarget,
    pub context: Vec<(String, Value)>,
    pub enforced_by: String,
    pub enforcement_action: EnforcementAction,
}

/// Ask for an exemption from a policy.
#[derive(Debug)]
pub struct RequestExemption {
    pub identity: MessageIdentity,
    pub policy_id: PolicyId,
    pub requester: String,
    pub reason: String,
    pub justification: String,
    pub duration_ms: i64,
    pub scope: ExemptionScope,
}

/// Grant an exemption from a policy.
#[derive(Debug)]
pub struct GrantExemption {
    pub identity: MessageIdentity,
    pub policy_id: PolicyId,
    pub requester: String,
    pub approver: String,
    pub reason: String,
    pub justification: String,
    pub risk_acceptance: Option<String>,
    pub valid_from: i64,
    pub valid_until: i64,
    pub conditions: Vec<ExemptionCondition>,
}

/// Revoke a granted exemption.
#[derive(Debug)]
pub struct RevokeExemption {
    pub identity: MessageIdentity,
    pub exemption_id: ExemptionId,
    pub revoked_by: String,
    pub reason: String,
}

/// Create a new policy set.
#[derive(Debug)]
pub struct CreatePolicySet {
    pub identity: MessageIdentity,
    pub name: String,
    pub description: String,
    pub initial_policies: Vec<PolicyId>,
    pub composition_rule: CompositionRule,
    pub conflict_resolution: ConflictResolution,
    pub created_by: String,
}

/// Add a policy to a set.
#[derive(Debug)]
pub struct AddPolicyToSet {
    pub identity: MessageIdentity,
    pub policy_set_id: PolicySetId,
    pub policy_id: PolicyId,
    pub added_by: String,
}

/// Remove a policy from a set.
#[derive(Debug)]
pub struct RemovePolicyFromSet {
    pub identity: MessageIdentity,
    pub policy_set_id: PolicySetId,
    pub policy_id: PolicyId,
    pub removed_by: String,
    pub reason: Option<String>,
}

/// Activate a policy set.
#[derive(Debug)]
pub struct ActivatePolicySet {
    pub identity: MessageIdentity,
    pub policy_set_id: PolicySetId,
    pub activated_by: String,
}

/// The closed union of all policy-domain commands.
#[derive(Debug)]
pub enum PolicyCommand {
    CreatePolicy(CreatePolicy),
    UpdatePolicy(UpdatePolicy),
    ApprovePolicy(ApprovePolicy),
    ActivatePolicy(ActivatePolicy),
    SuspendPolicy(SuspendPolicy),
    RevokePolicy(RevokePolicy),
    ArchivePolicy(ArchivePolicy),
    EvaluatePolicy(EvaluatePolicy),
    EnforcePolicy(EnforcePolicy),
    RequestExemption(RequestExemption),
    GrantExemption(GrantExemption),
    RevokeExemption(RevokeExemption),
    CreatePolicySet(CreatePolicySet),
    AddPolicyToSet(AddPolicyToSet),
    RemovePolicyFromSet(RemovePolicyFromSet),
    ActivatePolicySet(ActivatePolicySet),
}

impl PolicyCommand {
    /// The identifier of the aggregate the command addresses, where one is
    /// fixed; commands that create a new aggregate have none.
    pub open spec fn spec_aggregate_id(self) -> Option<u128> {
        match self {
            PolicyCommand::CreatePolicy(_) => None,
            PolicyCommand::UpdatePolicy(c) => Some(c.policy_id.0),
            PolicyCommand::ApprovePolicy(c) => Some(c.policy_id.0),
            PolicyCommand::ActivatePolicy(c) => Some(c.policy_id.0),
            PolicyCommand::SuspendPolicy(c) => Some(c.policy_id.0),
            PolicyCommand::RevokePolicy(c) => Some(c.policy_id.0),
            PolicyCommand::ArchivePolicy(c) => Some(c.policy_id.0),
            PolicyCommand::EvaluatePolicy(c) => Some(c.policy_id.0),
            PolicyCommand::EnforcePolicy(c) => Some(c.policy_id.0),
            PolicyCommand::RequestExemption(c) => Some(c.policy_id.0),
            PolicyCommand::GrantExemption(c) => Some(c.policy_id.0),
            PolicyCommand::RevokeExemption(_) => None,
            PolicyCommand::CreatePolicySet(_) => None,
            PolicyCommand::AddPolicyToSet(_) => None,
            PolicyCommand::RemovePolicyFromSet(_) => None,
            PolicyCommand::ActivatePolicySet(_) => None,
        }
    }

    /// Returns the identifier of the aggregate the command addresses.
    pub fn aggregate_id(&self) -> (r: Option<u128>)
        ensures
            r == self.spec_aggregate_id(),
    {
        match self {
            PolicyCommand::CreatePolicy(_) => None,
            PolicyCommand::UpdatePolicy(c) => Some(c.policy_id.0),
            PolicyCommand::ApprovePolicy(c) => Some(c.policy_id.0),
            PolicyCommand::ActivatePolicy(c) => Some(c.policy_id.0),
            PolicyCommand::SuspendPolicy(c) => Some(c.policy_id.0),
            PolicyCommand::RevokePolicy(c) => Some(c.policy_id.0),
            PolicyCommand::ArchivePolicy(c) => Some(c.policy_id.0),
            PolicyCommand::EvaluatePolicy(c) => Some(c.policy_id.0),
            PolicyCommand::EnforcePolicy(c) => Some(c.policy_id.0),
            PolicyCommand::RequestExemption(c) => Some(c.policy_id.0),
            PolicyCommand::GrantExemption(c) => Some(c.policy_id.0),
            PolicyCommand::RevokeExemption(_) => None,
            PolicyCommand::CreatePolicySet(_) => None,
            PolicyCommand::AddPolicyToSet(_) => None,
            PolicyCommand::RemovePolicyFromSet(_) => None,
            PolicyCommand::ActivatePolicySet(_) => None,
        }
    }
}

} // verus!
