//! Event-sourced lifecycle workflows across the three aggregates.

use policy_engine::aggregate::{Policy, PolicySet, PolicyExemption, ExemptionStatus};
use policy_engine::value_objects::{PolicyId, PolicySetId, ExemptionId, PolicyStatus};
use policy_engine::events::{
    MessageIdentity, PolicyEvent, PolicyCreated, PolicyApproved, PolicyActivated, PolicySuspended,
    PolicyRevoked, PolicyArchived, PolicySetCreated, PolicyAddedToSet, PolicyRemovedFromSet,
    PolicyExemptionGranted, PolicyExemptionRevoked, PolicyExemptionExpired,
};

fn msg_id() -> MessageIdentity {
    MessageIdentity { correlation_id: 7, causation_id: 7, message_id: 7 }
}

const DAY_MS: i64 = 24 * 60 * 60 * 1000;

#[test]
fn test_policy_complete_lifecycle() {
    let pid = PolicyId::new();
    let mut p = Policy::new("Test", "Description");

    p = p
        .apply_event_pure(&PolicyEvent::PolicyCreated(PolicyCreated {
            event_id: 1,
            identity: msg_id(),
            policy_id: pid,
            name: "Test".to_string(),
            description: "Description".to_string(),
            policy_type: "Security".to_string(),
            created_by: "admin".to_string(),
            created_at: 1_000,
        }))
        .unwrap();
    assert_eq!(p.status, PolicyStatus::Draft);

    p = p
        .apply_event_pure(&PolicyEvent::PolicyApproved(PolicyApproved {
            event_id: 2,
            identity: msg_id(),
            policy_id: pid,
            approved_by: "manager".to_string(),
            approved_at: 2_000,
            approval_notes: None,
        }))
        .unwrap();
    assert_eq!(p.status, PolicyStatus::Approved);

    p = p
        .apply_event_pure(&PolicyEvent::PolicyActivated(PolicyActivated {
            event_id: 3,
            identity: msg_id(),
            policy_id: pid,
            activated_by: "admin".to_string(),
            activated_at: 3_000,
            effective_from: 3_000,
            effective_until: None,
        }))
        .unwrap();
    assert_eq!(p.status, PolicyStatus::Active);

    p = p
        .apply_event_pure(&PolicyEvent::PolicySuspended(PolicySuspended {
            event_id: 4,
            identity: msg_id(),
            policy_id: pid,
            suspended_by: "admin".to_string(),
            suspended_at: 4_000,
            reason: "Maintenance".to_string(),
            expected_resume_date: None,
        }))
        .unwrap();
    assert_eq!(p.status, PolicyStatus::Suspended);

    p = p
        .apply_event_pure(&PolicyEvent::PolicyRevoked(PolicyRevoked {
            event_id: 5,
            identity: msg_id(),
            policy_id: pid,
            revoked_by: "admin".to_string(),
            revoked_at: 5_000,
            reason: "Superseded".to_string(),
            immediate: true,
        }))
        .unwrap();
    assert_eq!(p.status, PolicyStatus::Revoked);

    p = p
        .apply_event_pure(&PolicyEvent::PolicyArchived(PolicyArchived {
            event_id: 6,
            identity: msg_id(),
            policy_id: pid,
            archived_by: "admin".to_string(),
            archived_at: 6_000,
            retention_period_days: Some(365),
        }))
        .unwrap();
    assert_eq!(p.status, PolicyStatus::Archived);
}

#[test]
fn test_policy_set_workflows() {
    let sid = PolicySetId::new();
    let mut ps = PolicySet::new("Test Set", "Description");

    ps = ps
        .apply_event_pure(&PolicyEvent::PolicySetCreated(PolicySetCreated {
            event_id: 1,
            identity: msg_id(),
            policy_set_id: sid,
            name: "Test Set".to_string(),
            description: "Description".to_string(),
            created_by: "admin".to_string(),
            created_at: 1_000,
        }))
        .unwrap();
    assert_eq!(ps.policies.len(), 0);

    let p1 = PolicyId::new();
    let p2 = PolicyId::new();

    ps = ps
        .apply_event_pure(&PolicyEvent::PolicyAddedToSet(PolicyAddedToSet {
            event_id: 2,
            identity: msg_id(),
            policy_set_id: sid,
            policy_id: p1,
            added_at: 2_000,
            added_by: "admin".to_string(),
        }))
        .unwrap();
    assert_eq!(ps.policies.len(), 1);

    ps = ps
        .apply_event_pure(&PolicyEvent::PolicyAddedToSet(PolicyAddedToSet {
            event_id: 3,
            identity: msg_id(),
            policy_set_id: sid,
            policy_id: p2,
            added_at: 3_000,
            added_by: "admin".to_string(),
        }))
        .unwrap();
    assert_eq!(ps.policies.len(), 2);

    ps = ps
        .apply_event_pure(&PolicyEvent::PolicyRemovedFromSet(PolicyRemovedFromSet {
            event_id: 4,
            identity: msg_id(),
            policy_set_id: sid,
            policy_id: p1,
            removed_at: 4_000,
            removed_by: "admin".to_string(),
            reason: Some("No longer needed".to_string()),
        }))
        .unwrap();
    assert_eq!(ps.policies.len(), 1);
    assert!(ps.policies.contains(&p2));
}

#[test]
fn test_exemption_workflows() {
    let eid = ExemptionId::new();
    let pid = PolicyId::new();
    let now = 1_000_000i64;
    let mut ex = PolicyExemption::new(pid, "Test", "Justification", "admin", now + 30 * DAY_MS);

    ex = ex
        .apply_event_pure(&PolicyEvent::PolicyExemptionGranted(PolicyExemptionGranted {
            event_id: 1,
            identity: msg_id(),
            exemption_id: eid,
            policy_id: pid,
            granted_by: "admin".to_string(),
            granted_at: now,
            reason: "Test".to_string(),
            valid_until: now + 30 * DAY_MS,
            risk_acceptance: None,
        }))
        .unwrap();
    assert_eq!(ex.status, ExemptionStatus::Active);

    ex = ex
        .apply_event_pure(&PolicyEvent::PolicyExemptionRevoked(PolicyExemptionRevoked {
            event_id: 2,
            identity: msg_id(),
            policy_id: pid,
            exemption_id: eid,
            revoked_by: "admin".to_string(),
            revoked_at: now + DAY_MS,
            reason: "No longer needed".to_string(),
        }))
        .unwrap();
    assert!(matches!(ex.status, ExemptionStatus::Revoked { .. }));
}

#[test]
fn test_exemption_expiration() {
    let eid = ExemptionId::new();
    let pid = PolicyId::new();
    let now = 1_000_000i64;
    let mut ex = PolicyExemption::new(pid, "Test", "Justification", "admin", now + 7 * DAY_MS);

    ex = ex
        .apply_event_pure(&PolicyEvent::PolicyExemptionGranted(PolicyExemptionGranted {
            event_id: 1,
            identity: msg_id(),
            exemption_id: eid,
            policy_id: pid,
            granted_by: "admin".to_string(),
            granted_at: now,
            reason: "Test".to_string(),
            valid_until: now + 7 * DAY_MS,
            risk_acceptance: None,
        }))
        .unwrap();

    ex = ex
        .apply_event_pure(&PolicyEvent::PolicyExemptionExpired(PolicyExemptionExpired {
            event_id: 2,
            identity: msg_id(),
            policy_id: pid,
            exemption_id: eid,
            expired_at: now + 8 * DAY_MS,
        }))
        .unwrap();
    assert_eq!(ex.status, ExemptionStatus::Expired);
}

#[test]
fn test_pure_functions_immutability() {
    let pid = PolicyId::new();
    let orig = Policy::new("Original", "Original Description");

    let new_p = orig
        .apply_event_pure(&PolicyEvent::PolicyCreated(PolicyCreated {
            event_id: 1,
            identity: msg_id(),
            policy_id: pid,
            name: "Changed".to_string(),
            description: "Changed Description".to_string(),
            policy_type: "Security".to_string(),
            created_by: "admin".to_string(),
            created_at: 1_000,
        }))
        .unwrap();

    assert_eq!(orig.name, "Original");
    assert_eq!(new_p.name, "Changed");
}
