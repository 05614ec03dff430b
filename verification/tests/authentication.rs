//! Authentication value objects carried by authentication-flavoured
//! policies.

use policy_engine::auth_values::AuthenticationType;
use policy_engine::events::{MessageIdentity, PolicyCreated, PolicyEvent, PolicyExemptionGranted};
use policy_engine::ports::event_to_subject;
use policy_engine::value_objects::{ExemptionId, PolicyId};

#[test]
fn test_authentication_type_enum() {
    let internal = AuthenticationType::Internal;
    let external = AuthenticationType::External;
    let federated = AuthenticationType::Federated { provider: "google".to_string() };

    assert_eq!(internal, AuthenticationType::Internal);
    assert_ne!(internal, external);

    match federated {
        AuthenticationType::Federated { provider } => assert_eq!(provider, "google"),
        _ => panic!("Expected federated type"),
    }
}

#[test]
fn test_event_to_subject() {
    let policy_id = PolicyId::new();
    let event = PolicyEvent::PolicyCreated(PolicyCreated {
        event_id: 11,
        identity: MessageIdentity { correlation_id: 11, causation_id: 11, message_id: 11 },
        policy_id,
        name: "Test Policy".to_string(),
        description: "Test Description".to_string(),
        policy_type: "Access".to_string(),
        created_by: "test-user".to_string(),
        created_at: 1_000,
    });

    let subject = event_to_subject(&event);
    assert!(subject.starts_with("events.policy."));
    assert!(subject.ends_with(".policycreated"));
}

#[test]
fn test_event_subject_generation() {
    let event = PolicyEvent::PolicyExemptionGranted(PolicyExemptionGranted {
        event_id: 12,
        identity: MessageIdentity { correlation_id: 12, causation_id: 12, message_id: 12 },
        exemption_id: ExemptionId::new(),
        policy_id: PolicyId::new(),
        granted_by: "security-admin".to_string(),
        granted_at: 1_000,
        reason: "maintenance".to_string(),
        valid_until: 2_000,
        risk_acceptance: None,
    });

    let subject = event_to_subject(&event);
    assert!(subject.starts_with("events.policy."));
    assert!(subject.ends_with(".policyexemptiongranted"));
}
