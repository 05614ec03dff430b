//! Events of the policy domain. An aggregate's state is reachable only by
//! folding its ordered event history, so these types are the single source of
//! truth for everything the aggregates know.

use vstd::prelude::*;
use crate::value_objects::{PolicyId, PolicySetId, ExemptionId, ComplianceResult, Violation,
    Severity};

verus! {

/// Correlation and causation identifiers carried by every message.
#[derive(Debug, Clone, Copy, PartialEq, Eq, Structural)]
pub struct MessageIdentity {
    /// Identifier of the conversation this message belongs to.
    pub correlation_id: u128,
    /// Identifier of the message that caused this one.
    pub causation_id: u128,
    /// Identifier of this message.
    pub message_id: u128,
}

/// A policy was created.
#[derive(Debug)]
pub struct PolicyCreated {
    pub event_id: u128,
    pub identity: MessageIdentity,
    pub policy_id: PolicyId,
    pub name: String,
    pub description: String,
    pub policy_type: String,
    pub created_by: String,
    pub created_at: i64,
}

/// A change recorded by a policy update.
#[derive(Debug)]
pub struct PolicyChange {
    /// Which field changed.
    pub field: String,
    /// The prior value, if recorded.
    pub old_value: Option<String>,
    /// The new value, if recorded.
    pub new_value: Option<String>,
}

/// A policy was updated to a new version.
#[derive(Debug)]
pub struct PolicyUpdated {
    pub event_id: u128,
    pub identity: MessageIdentity,
    pub policy_id: PolicyId,
    pub version: u32,
    pub changes: Vec<PolicyChange>,
    pub updated_by: String,
    pub updated_at: i64,
}

/// A policy was approved.
#[derive(Debug)]
pub struct PolicyApproved {
    pub event_id: u128,
    pub identity: MessageIdentity,
    pub policy_id: PolicyId,
    pub approved_by: String,
    pub approved_at: i64,
    pub approval_notes: Option<String>,
}

/// A policy was activated for a validity window.
#[derive(Debug)]
pub struct PolicyActivated {
    pub event_id: u128,
    pub identity: MessageIdentity,
    pub policy_id: PolicyId,
    pub activated_by: String,
    pub activated_at: i64,
    pub effective_from: i64,
    pub effective_until: Option<i64>,
}

/// A policy was suspended.
#[derive(Debug)]
pub struct PolicySuspended {
    pub event_id: u128,
    pub identity: MessageIdentity,
    pub policy_id: PolicyId,
    pub suspended_by: String,
    pub suspended_at: i64,
    pub reason: String,
    pub expected_resume_date: Option<i64>,
}

/// A policy was revoked.
#[derive(Debug)]
pub struct PolicyRevoked {
    pub event_id: u128,
    pub identity: MessageIdentity,
    pub policy_id: PolicyId,
    pub revoked_by: String,
    pub revoked_at: i64,
    pub reason: String,
    pub immediate: bool,
}

/// A policy was archived.
#[derive(Debug)]
pub struct PolicyArchived {
    pub event_id: u128,
    pub identity: MessageIdentity,
    pub policy_id: PolicyId,
    pub archived_by: String,
    pub archived_at: i64,
    pub retention_period_days: Option<u32>,
}

/// A policy was evaluated against a context.
#[derive(Debug)]
pub struct PolicyEvaluated {
    pub event_id: u128,
    pub identity: MessageIdentity,
    pub policy_id: PolicyId,
    pub evaluation_id: u128,
    pub evaluated_at: i64,
    pub context_hash: String,
    pub result: ComplianceResult,
    pub execution_time_ms: u64,
}

/// A policy violation was detected.
#[derive(Debug)]
pub struct PolicyViolationDetected {
    pub event_id: u128,
    pub identity: MessageIdentity,
    pub policy_id: PolicyId,
    pub violation_id: u128,
    pub detected_at: i64,
    pub violations: Vec<Violation>,
    pub severity: Severity,
    pub enforcement_action: Option<String>,
}

/// A policy evaluation passed all rules.
#[derive(Debug)]
pub struct PolicyCompliancePassed {
    pub event_id: u128,
    pub identity: MessageIdentity,
    pub policy_id: PolicyId,
    pub evaluation_id: u128,
    pub passed_at: i64,
    pub rules_evaluated: usize,
}

/// An exemption from a policy was granted.
#[derive(Debug)]
pub struct PolicyExemptionGranted {
    pub event_id: u128,
    pub identity: MessageIdentity,
    pub exemption_id: ExemptionId,
    pub policy_id: PolicyId,
    pub granted_by: String,
    pub granted_at: i64,
    pub reason: String,
    pub valid_until: i64,
    pub risk_acceptance: Option<String>,
}

/// A granted exemption was revoked.
#[derive(Debug)]
pub struct PolicyExemptionRevoked {
    pub event_id: u128,
    pub identity: MessageIdentity,
    pub exemption_id: ExemptionId,
    pub policy_id: PolicyId,
    pub revoked_by: String,
    pub revoked_at: i64,
    pub reason: String,
}

/// A granted exemption expired.
#[derive(Debug)]
pub struct PolicyExemptionExpired {
    pub event_id: u128,
    pub identity: MessageIdentity,
    pub exemption_id: ExemptionId,
    pub policy_id: PolicyId,
    pub expired_at: i64,
}

/// A policy set was created.
#[derive(Debug)]
pub struct PolicySetCreated {
    pub event_id: u128,
    pub identity: MessageIdentity,
    pub policy_set_id: PolicySetId,
    pub name: String,
    pub description: String,
    pub created_by: String,
    pub created_at: i64,
}

/// A policy was added to a set.
#[derive(Debug)]
pub struct PolicyAddedToSet {
    pub event_id: u128,
    pub identity: MessageIdentity,
    pub policy_set_id: PolicySetId,
    pub policy_id: PolicyId,
    pub added_at: i64,
    pub added_by: String,
}

/// A policy was removed from a set.
#[derive(Debug)]
pub struct PolicyRemovedFromSet {
    pub event_id: u128,
    pub identity: MessageIdentity,
    pub policy_set_id: PolicySetId,
    pub policy_id: PolicyId,
    pub removed_at: i64,
    pub removed_by: String,
    pub reason: Option<String>,
}

/// A conflict between policies was detected.
#[derive(Debug)]
pub struct PolicyConflictDetected {
    pub event_id: u128,
    pub identity: MessageIdentity,
    pub conflict_id: u128,
    pub policy_ids: Vec<PolicyId>,
    pub conflict_type: String,
    pub description: String,
    pub detected_at: i64,
    pub severity: Severity,
}

/// The closed union of all policy-domain events.
#[derive(Debug)]
pub enum PolicyEvent {
    PolicyCreated(PolicyCreated),
    PolicyUpdated(PolicyUpdated),
    PolicyApproved(PolicyApproved),
    PolicyActivated(PolicyActivated),
    PolicySuspended(PolicySuspended),
    PolicyRevoked(PolicyRevoked),
    PolicyArchived(PolicyArchived),
    PolicyEvaluated(PolicyEvaluated),
    PolicyViolationDetected(PolicyViolationDetected),
    PolicyCompliancePassed(PolicyCompliancePassed),
    PolicyExemptionGranted(PolicyExemptionGranted),
    PolicyExemptionRevoked(PolicyExemptionRevoked),
    PolicyExemptionExpired(PolicyExemptionExpired),
    PolicySetCreated(PolicySetCreated),
    PolicyAddedToSet(PolicyAddedToSet),
    PolicyRemovedFromSet(PolicyRemovedFromSet),
    PolicyConflictDetected(PolicyConflictDetected),
}

/// The tag naming each event variant.
pub open spec fn spec_event_type(e: PolicyEvent) -> Seq<char> {
    match e {
        PolicyEvent::PolicyCreated(_) => "PolicyCreated"@,
        PolicyEvent::PolicyUpdated(_) => "PolicyUpdated"@,
        PolicyEvent::PolicyApproved(_) => "PolicyApproved"@,
        PolicyEvent::PolicyActivated(_) => "PolicyActivated"@,
        PolicyEvent::PolicySuspended(_) => "PolicySuspended"@,
        PolicyEvent::PolicyRevoked(_) => "PolicyRevoked"@,
        PolicyEvent::PolicyArchived(_) => "PolicyArchived"@,
        PolicyEvent::PolicyEvaluated(_) => "PolicyEvaluated"@,
        PolicyEvent::PolicyViolationDetected(_) => "PolicyViolationDetected"@,
        PolicyEvent::PolicyCompliancePassed(_) => "PolicyCompliancePassed"@,
        PolicyEvent::PolicyExemptionGranted(_) => "PolicyExemptionGranted"@,
        PolicyEvent::PolicyExemptionRevoked(_) => "PolicyExemptionRevoked"@,
        PolicyEvent::PolicyExemptionExpired(_) => "PolicyExemptionExpired"@,
        PolicyEvent::PolicySetCreated(_) => "PolicySetCreated"@,
        PolicyEvent::PolicyAddedToSet(_) => "PolicyAddedToSet"@,
        PolicyEvent::PolicyRemovedFromSet(_) => "PolicyRemovedFromSet"@,
        PolicyEvent::PolicyConflictDetected(_) => "PolicyConflictDetected"@,
    }
}

/// The identifier of the aggregate the event belongs to.
pub open spec fn spec_aggregate_id(e: PolicyEvent) -> u128 {
    match e {
        PolicyEvent::PolicyCreated(ev) => ev.policy_id.0,
        PolicyEvent::PolicyUpdated(ev) => ev.policy_id.0,
        PolicyEvent::PolicyApproved(ev) => ev.policy_id.0,
        PolicyEvent::PolicyActivated(ev) => ev.policy_id.0,
        PolicyEvent::PolicySuspended(ev) => ev.policy_id.0,
        PolicyEvent::PolicyRevoked(ev) => ev.policy_id.0,
        PolicyEvent::PolicyArchived(ev) => ev.policy_id.0,
        PolicyEvent::PolicyEvaluated(ev) => ev.policy_id.0,
        PolicyEvent::PolicyViolationDetected(ev) => ev.policy_id.0,
        PolicyEvent::PolicyCompliancePassed(ev) => ev.policy_id.0,
        PolicyEvent::PolicyExemptionGranted(ev) => ev.policy_id.0,
        PolicyEvent::PolicyExemptionRevoked(ev) => ev.exemption_id.0,
        PolicyEvent::PolicyExemptionExpired(ev) => ev.exemption_id.0,
        PolicyEvent::PolicySetCreated(ev) => ev.policy_set_id.0,
        PolicyEvent::PolicyAddedToSet(ev) => ev.policy_set_id.0,
        PolicyEvent::PolicyRemovedFromSet(ev) => ev.policy_set_id.0,
        PolicyEvent::PolicyConflictDetected(ev) => ev.conflict_id,
    }
}

impl PolicyEvent {
    /// Returns the tag naming this event's variant.
    pub fn event_type(&self) -> (r: &'static str)
        ensures
            r@ == spec_event_type(*self),
    {
        match self {
            PolicyEvent::PolicyCreated(_) => "PolicyCreated",
            PolicyEvent::PolicyUpdated(_) => "PolicyUpdated",
            PolicyEvent::PolicyApproved(_) => "PolicyApproved",
            PolicyEvent::PolicyActivated(_) => "PolicyActivated",
            PolicyEvent::PolicySuspended(_) => "PolicySuspended",
            PolicyEvent::PolicyRevoked(_) => "PolicyRevoked",
            PolicyEvent::PolicyArchived(_) => "PolicyArchived",
            PolicyEvent::PolicyEvaluated(_) => "PolicyEvaluated",
            PolicyEvent::PolicyViolationDetected(_) => "PolicyViolationDetected",
            PolicyEvent::PolicyCompliancePassed(_) => "PolicyCompliancePassed",
            PolicyEvent::PolicyExemptionGranted(_) => "PolicyExemptionGranted",
            PolicyEvent::PolicyExemptionRevoked(_) => "PolicyExemptionRevoked",
            PolicyEvent::PolicyExemptionExpired(_) => "PolicyExemptionExpired",
            PolicyEvent::PolicySetCreated(_) => "PolicySetCreated",
            PolicyEvent::PolicyAddedToSet(_) => "PolicyAddedToSet",
            PolicyEvent::PolicyRemovedFromSet(_) => "PolicyRemovedFromSet",
            PolicyEvent::PolicyConflictDetected(_) => "PolicyConflictDetected",
        }
    }

    /// Returns the identifier of the aggregate this event belongs to.
    pub fn aggregate_id(&self) -> (r: u128)
        ensures
            r == spec_aggregate_id(*self),
    {
        match self {
            PolicyEvent::PolicyCreated(ev) => ev.policy_id.0,
            PolicyEvent::PolicyUpdated(ev) => ev.policy_id.0,
            PolicyEvent::PolicyApproved(ev) => ev.policy_id.0,
            PolicyEvent::PolicyActivated(ev) => ev.policy_id.0,
            PolicyEvent::PolicySuspended(ev) => ev.policy_id.0,
            PolicyEvent::PolicyRevoked(ev) => ev.policy_id.0,
            PolicyEvent::PolicyArchived(ev) => ev.policy_id.0,
            PolicyEvent::PolicyEvaluated(ev) => ev.policy_id.0,
            PolicyEvent::PolicyViolationDetected(ev) => ev.policy_id.0,
            PolicyEvent::PolicyCompliancePassed(ev) => ev.policy_id.0,
            PolicyEvent::PolicyExemptionGranted(ev) => ev.policy_id.0,
            PolicyEvent::PolicyExemptionRevoked(ev) => ev.exemption_id.0,
            PolicyEvent::PolicyExemptionExpired(ev) => ev.exemption_id.0,
            PolicyEvent::PolicySetCreated(ev) => ev.policy_set_id.0,
            PolicyEvent::PolicyAddedToSet(ev) => ev.policy_set_id.0,
            PolicyEvent::PolicyRemovedFromSet(ev) => ev.policy_set_id.0,
            PolicyEvent::PolicyConflictDetected(ev) => ev.conflict_id,
        }
    }
}

} // verus!
