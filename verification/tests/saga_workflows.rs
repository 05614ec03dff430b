//! The saga state machines: approval, enforcement, exemption and composite
//! coordination.

use policy_engine::approval_saga::{ApprovalLevel, PolicyApprovalSaga};
use policy_engine::composite_saga::{CompletionCriteria, CompositeSaga, SubSaga};
use policy_engine::enforcement_saga::{EnforcementDecision, PolicyEnforcementSaga};
use policy_engine::exemption_saga::{BusinessPriority, ExemptionWorkflowSaga, RiskLevel};
use policy_engine::aggregate::{CompositionRule, ConditionOperator, ExemptionCondition};
use policy_engine::events::{
    MessageIdentity, PolicyApproved, PolicyCreated, PolicyEvent,
};
use policy_engine::sagas::{SagaState, StateTransition};
use policy_engine::value_objects::{ComplianceResult, PolicyId, Severity, Value, Violation};

fn msg_id() -> MessageIdentity {
    MessageIdentity { correlation_id: 9, causation_id: 9, message_id: 9 }
}

#[test]
fn test_policy_approval_saga() {
    let policy_id = PolicyId::new();
    let mut saga = PolicyApprovalSaga::new(policy_id, "requester@example.com");

    assert_eq!(saga.current_state(), SagaState::Draft);
    assert_eq!(saga.available_transitions().len(), 1);
    assert!(saga.available_transitions().contains(&StateTransition::SubmitForReview));

    let event = PolicyEvent::PolicyCreated(PolicyCreated {
        event_id: 1,
        identity: msg_id(),
        policy_id,
        name: "Test Policy".to_string(),
        description: "Test".to_string(),
        policy_type: "authorization".to_string(),
        created_by: "requester@example.com".to_string(),
        created_at: 1_000,
    });

    saga.apply_event(&event).unwrap();
    assert_eq!(saga.current_state(), SagaState::UnderReview);

    let transitions = saga.available_transitions();
    assert!(transitions.contains(&StateTransition::Approve));
    assert!(transitions.contains(&StateTransition::Reject));
    assert!(transitions.contains(&StateTransition::RequestChanges));

    saga.add_approval("manager@example.com", ApprovalLevel::Manager);
    assert!(!saga.has_sufficient_approvals());

    saga.add_approval("director@example.com", ApprovalLevel::Director);
    assert!(saga.has_sufficient_approvals());

    let approval_event = PolicyEvent::PolicyApproved(PolicyApproved {
        event_id: 2,
        identity: msg_id(),
        policy_id,
        approved_by: "director@example.com".to_string(),
        approved_at: 2_000,
        approval_notes: Some("Approved for implementation".to_string()),
    });

    saga.apply_event(&approval_event).unwrap();
    assert_eq!(saga.current_state(), SagaState::Approved);

    // The advisory chain gives activation after approval a high probability
    // (in thousandths).
    let transition_probability =
        saga.transition_probability(&SagaState::Approved, &SagaState::Active);
    assert!(transition_probability > 800);
}

#[test]
fn test_policy_enforcement_saga() {
    let ids = vec![PolicyId::new(), PolicyId::new(), PolicyId::new()];
    let mut saga =
        PolicyEnforcementSaga::new(ids.clone(), "enforcer@example.com", CompositionRule::Majority);

    assert_eq!(saga.current_state(), SagaState::Initiated);

    let policy3_result = ComplianceResult::NonCompliant {
        violations: vec![Violation {
            rule_id: 42,
            rule_description: "Test violation".to_string(),
            severity: Severity::High,
            details: "Failed check".to_string(),
            suggested_remediation: Some("Fix this".to_string()),
        }],
    };

    saga.add_evaluation_result(ids[0], ComplianceResult::Compliant);
    saga.add_evaluation_result(ids[1], ComplianceResult::Compliant);
    saga.add_evaluation_result(ids[2], policy3_result);

    // Two of three compliant: the majority rule allows with a warning.
    assert_eq!(saga.enforcement_decision, Some(EnforcementDecision::AllowWithWarning));
    assert_eq!(saga.current_state(), SagaState::Allowed);

    let remediation = saga.get_remediation_steps();
    assert_eq!(remediation.len(), 1);
    assert_eq!(remediation[0], "Fix this");

    // Under the all-of-them rule the same results block.
    let mut strict =
        PolicyEnforcementSaga::new(ids.clone(), "enforcer@example.com", CompositionRule::All);
    saga_feed(&mut strict, &ids);
    assert_eq!(strict.enforcement_decision, Some(EnforcementDecision::Block));
    assert_eq!(strict.current_state(), SagaState::Blocked);
}

fn saga_feed(saga: &mut PolicyEnforcementSaga, ids: &[PolicyId]) {
    saga.add_evaluation_result(ids[0], ComplianceResult::Compliant);
    saga.add_evaluation_result(ids[1], ComplianceResult::Compliant);
    saga.add_evaluation_result(
        ids[2],
        ComplianceResult::NonCompliant {
            violations: vec![Violation {
                rule_id: 42,
                rule_description: "Test violation".to_string(),
                severity: Severity::High,
                details: "Failed check".to_string(),
                suggested_remediation: Some("Fix this".to_string()),
            }],
        },
    );
}

#[test]
fn test_exemption_workflow_saga() {
    let policy_id = PolicyId::new();
    let mut saga = ExemptionWorkflowSaga::new(policy_id, "user@example.com");

    assert_eq!(saga.current_state(), SagaState::ExemptionRequested);

    saga.set_risk_assessment(RiskLevel::Medium, "Acceptable risk with mitigations");
    saga.set_business_justification("Critical business need", BusinessPriority::High);
    assert!(saga.ready_for_approval());

    // A medium-risk exemption demands two approvals.
    saga.add_approval("manager@example.com", ApprovalLevel::Manager);
    assert!(!saga.has_sufficient_approvals());

    saga.add_approval("security@example.com", ApprovalLevel::Security);
    assert!(saga.has_sufficient_approvals());

    let conditions = vec![
        ExemptionCondition {
            field: "time_limit".to_string(),
            operator: ConditionOperator::LessThan,
            value: Value::Integer(30),
        },
        ExemptionCondition {
            field: "scope".to_string(),
            operator: ConditionOperator::Equals,
            value: Value::String("limited".to_string()),
        },
    ];

    saga.grant_exemption(conditions, 30 * 24 * 60 * 60 * 1000);
    assert_eq!(saga.current_state(), SagaState::ExemptionGranted);

    assert!(saga.needs_expiry_check());

    // Well past any plausible expiry instant.
    saga.check_expiry_at(i64::MAX);
    assert_eq!(saga.current_state(), SagaState::ExemptionExpired);
}

#[test]
fn test_composite_policy_deployment_saga() {
    let mut deployment = CompositeSaga::new("deployer@example.com", CompletionCriteria::All);

    let approval = PolicyApprovalSaga::new(PolicyId::new(), "admin@example.com");
    deployment.add_sub_saga(SubSaga::Approval(approval));

    let ids = vec![PolicyId::new()];
    let enforcement =
        PolicyEnforcementSaga::new(ids.clone(), "admin@example.com", CompositionRule::All);
    deployment.add_sub_saga(SubSaga::Enforcement(enforcement));

    assert_eq!(deployment.current_state, SagaState::Initiated);
    assert!(!deployment.check_completion());

    // An unrelated event leaves both sub-sagas short of completion, so the
    // composite reports itself in progress.
    let event = PolicyEvent::PolicyApproved(PolicyApproved {
        event_id: 1,
        identity: msg_id(),
        policy_id: PolicyId::new(),
        approved_by: "admin@example.com".to_string(),
        approved_at: 1_000,
        approval_notes: None,
    });
    let commands = deployment.coordinate(&event).unwrap();
    // The enforcement sub-saga still asks for its one pending evaluation.
    assert_eq!(commands.len(), 1);
    assert_eq!(deployment.current_state, SagaState::InProgress);

    // A suggested path starts at the committed state.
    let path = deployment.optimal_execution_path();
    assert_eq!(path[0], SagaState::InProgress);
}
