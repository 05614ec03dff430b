//! Scenario checks of the library's stated properties: exemption
//! short-circuiting, composition of sets, invalid histories, contradiction
//! detection, the key-size example, and the value model's edge cases.

use policy_engine::aggregate::{
    CompositionRule, ConflictResolution, ExemptionScope, Policy, PolicyExemption,
};
use policy_engine::conflicts::PolicyConflictResolver;
use policy_engine::entities::{ConflictType, PolicyRule};
use policy_engine::evaluator::PolicyEvaluator;
use policy_engine::events::{MessageIdentity, PolicyApproved, PolicyEvent};
use policy_engine::replay::{load_policy, RepositoryError};
use policy_engine::value_objects::{
    value_cmp, value_eq, ComplianceResult, EvaluationContext, PolicyStatus, PolicyTarget,
    RuleExpression, Severity, Value,
};
use policy_engine::ports::event_to_subject;
use policy_engine::text::{dec_i64, uuid_string};
use policy_engine::approval_saga::ApprovalLevel;
use policy_engine::audit_saga::ComplianceAuditSaga;
use policy_engine::commands::PolicyCommand;
use policy_engine::exemption_saga::{BusinessPriority, ExemptionWorkflowSaga, RiskLevel};
use policy_engine::value_objects::{PolicyId, Violation};
use policy_engine::conflicts::targets_overlap;

fn msg_id() -> MessageIdentity {
    MessageIdentity { correlation_id: 3, causation_id: 3, message_id: 3 }
}

fn active_policy(name: &str) -> Policy {
    let mut p = Policy::new(name, "test policy");
    p.status = PolicyStatus::Active;
    p
}

fn key_size_rule(bits: i64) -> PolicyRule {
    PolicyRule::new(
        "Key Size Floor",
        "the key must be large enough",
        RuleExpression::GreaterThanOrEqual {
            field: "key_size".to_string(),
            value: Value::Integer(bits),
        },
        Severity::Critical,
    )
}

#[test]
fn key_size_rule_passes_and_fails_with_severity() {
    let mut policy = active_policy("Key Size Policy");
    policy.add_rule(key_size_rule(2048));

    let evaluator = PolicyEvaluator::new();

    let strong = EvaluationContext::new().with_field("key_size", Value::Integer(4096));
    let result = evaluator.evaluate(&policy, &strong).unwrap();
    assert!(result.is_compliant());

    let weak = EvaluationContext::new().with_field("key_size", Value::Integer(1024));
    let result = evaluator.evaluate(&policy, &weak).unwrap();
    assert!(!result.is_compliant());
    let violations = result.violations();
    assert_eq!(violations.len(), 1);
    assert_eq!(violations[0].severity, Severity::Critical);
}

#[test]
fn exemption_short_circuits_failing_rules() {
    let mut policy = active_policy("Guarded Policy");
    policy.add_rule(key_size_rule(4096));

    // The exemption is valid far into the future and applies globally.
    let exemption = PolicyExemption::new(
        policy.id,
        "maintenance window",
        "temporary carve-out",
        "security-admin",
        i64::MAX,
    );
    let exemption_id = exemption.id;

    let mut evaluator = PolicyEvaluator::new();
    evaluator.register_exemptions(vec![exemption]);

    // The context would fail the rule, but the exemption wins.
    let weak = EvaluationContext::new().with_field("key_size", Value::Integer(512));
    let result = evaluator.evaluate(&policy, &weak).unwrap();
    assert_eq!(
        result.overall_result,
        ComplianceResult::CompliantWithExemption { exemption_id }
    );
    assert_eq!(result.rule_results.len(), 0);
}

#[test]
fn exemption_scoped_to_other_user_does_not_apply() {
    let mut policy = active_policy("Scoped Policy");
    policy.add_rule(key_size_rule(4096));

    let mut exemption = PolicyExemption::new(
        policy.id,
        "carve-out",
        "for one service account",
        "security-admin",
        i64::MAX,
    );
    exemption.scope = ExemptionScope::User("service-account".to_string());

    let mut evaluator = PolicyEvaluator::new();
    evaluator.register_exemptions(vec![exemption]);

    let mut context = EvaluationContext::new().with_field("key_size", Value::Integer(512));
    context.requester = Some("someone-else".to_string());
    let result = evaluator.evaluate(&policy, &context).unwrap();
    assert!(!result.is_compliant());
}

#[test]
fn composition_rules_over_three_policies() {
    let mut passing1 = active_policy("P1");
    passing1.add_rule(key_size_rule(1024));
    let mut passing2 = active_policy("P2");
    passing2.add_rule(key_size_rule(2048));
    let mut failing = active_policy("P3");
    failing.add_rule(key_size_rule(8192));

    let context = EvaluationContext::new().with_field("key_size", Value::Integer(4096));
    let evaluator = PolicyEvaluator::new();

    let all = evaluator
        .evaluate_set(vec![&passing1, &passing2, &failing], &context, CompositionRule::All)
        .unwrap();
    assert!(matches!(all, ComplianceResult::NonCompliant { .. }));

    let any = evaluator
        .evaluate_set(vec![&passing1, &passing2, &failing], &context, CompositionRule::Any)
        .unwrap();
    assert_eq!(any, ComplianceResult::Compliant);

    let majority = evaluator
        .evaluate_set(vec![&passing1, &passing2, &failing], &context, CompositionRule::Majority)
        .unwrap();
    assert_eq!(majority, ComplianceResult::Compliant);

    let at_least_three = evaluator
        .evaluate_set(
            vec![&passing1, &passing2, &failing],
            &context,
            CompositionRule::AtLeast(3),
        )
        .unwrap();
    assert!(matches!(at_least_three, ComplianceResult::NonCompliant { .. }));
}

#[test]
fn evaluation_is_deterministic() {
    let mut policy = active_policy("Stable Policy");
    policy.add_rule(key_size_rule(2048));
    let context = EvaluationContext::new().with_field("key_size", Value::Integer(4096));
    let evaluator = PolicyEvaluator::new();
    let first = evaluator.evaluate(&policy, &context).unwrap();
    let second = evaluator.evaluate(&policy, &context).unwrap();
    assert_eq!(first.overall_result, second.overall_result);
    assert_eq!(first.rule_results.len(), second.rule_results.len());
    assert_eq!(first.policy_id, second.policy_id);
}

#[test]
fn replay_rejects_invalid_first_event() {
    let pid = policy_engine::value_objects::PolicyId::new();
    let events = vec![PolicyEvent::PolicyApproved(PolicyApproved {
        event_id: 1,
        identity: msg_id(),
        policy_id: pid,
        approved_by: "manager".to_string(),
        approved_at: 1_000,
        approval_notes: None,
    })];
    let outcome = load_policy(&events);
    assert!(matches!(outcome, Err(RepositoryError::InvalidSequence(_))));
}

#[test]
fn replay_is_deterministic() {
    let pid = policy_engine::value_objects::PolicyId::new();
    let events = vec![
        PolicyEvent::PolicyCreated(policy_engine::events::PolicyCreated {
            event_id: 1,
            identity: msg_id(),
            policy_id: pid,
            name: "Replayed".to_string(),
            description: "d".to_string(),
            policy_type: "Security".to_string(),
            created_by: "admin".to_string(),
            created_at: 1_000,
        }),
        PolicyEvent::PolicyApproved(PolicyApproved {
            event_id: 2,
            identity: msg_id(),
            policy_id: pid,
            approved_by: "manager".to_string(),
            approved_at: 2_000,
            approval_notes: None,
        }),
    ];
    let first = load_policy(&events).unwrap().unwrap();
    let second = load_policy(&events).unwrap().unwrap();
    assert_eq!(first.id, second.id);
    assert_eq!(first.name, second.name);
    assert_eq!(first.status, second.status);
    assert_eq!(first.status, PolicyStatus::Approved);
    assert_eq!(first.version, second.version);
    assert_eq!(first.metadata.created_at, second.metadata.created_at);
}

#[test]
fn contradictory_region_rules_yield_one_contradiction() {
    let mut policy_a = active_policy("Region A");
    policy_a.target = PolicyTarget::Global;
    policy_a.add_rule(PolicyRule::new(
        "US only",
        "the region must be US",
        RuleExpression::Equal {
            field: "region".to_string(),
            value: Value::String("US".to_string()),
        },
        Severity::High,
    ));

    let mut policy_b = active_policy("Region B");
    policy_b.target = PolicyTarget::Global;
    policy_b.add_rule(PolicyRule::new(
        "EU only",
        "the region must be EU",
        RuleExpression::Equal {
            field: "region".to_string(),
            value: Value::String("EU".to_string()),
        },
        Severity::High,
    ));

    let resolver = PolicyConflictResolver::new(ConflictResolution::MostRestrictive);
    let conflicts = resolver.detect_conflicts(&vec![policy_a, policy_b]);
    assert_eq!(conflicts.len(), 1);
    assert_eq!(conflicts[0].conflict_type, ConflictType::Contradiction);
    assert_eq!(conflicts[0].policy_ids.len(), 2);
}

#[test]
fn fail_on_conflict_surfaces_conflicts() {
    let mut policy_a = active_policy("A");
    policy_a.add_rule(PolicyRule::new(
        "exists",
        "the flag must exist",
        RuleExpression::Exists { field: "flag".to_string() },
        Severity::Low,
    ));
    let mut policy_b = active_policy("B");
    policy_b.add_rule(PolicyRule::new(
        "not exists",
        "the flag must be absent",
        RuleExpression::NotExists { field: "flag".to_string() },
        Severity::Low,
    ));

    let resolver = PolicyConflictResolver::new(ConflictResolution::FailOnConflict);
    let conflicts = resolver.detect_conflicts(&vec![policy_a.clone(), policy_b.clone()]);
    assert_eq!(conflicts.len(), 1);

    let outcome = resolver.resolve_conflicts(vec![policy_a, policy_b], &conflicts);
    assert!(matches!(
        outcome,
        Err(policy_engine::conflicts::ConflictResolutionError::IrreconcilableConflict(_))
    ));
}

#[test]
fn most_restrictive_resolution_orders_by_enforcement() {
    let mut soft = active_policy("Soft");
    soft.enforcement_level = policy_engine::value_objects::EnforcementLevel::Soft;
    soft.add_rule(PolicyRule::new(
        "exists",
        "the flag must exist",
        RuleExpression::Exists { field: "flag".to_string() },
        Severity::Low,
    ));
    let mut critical = active_policy("Critical");
    critical.enforcement_level = policy_engine::value_objects::EnforcementLevel::Critical;
    critical.add_rule(PolicyRule::new(
        "not exists",
        "the flag must be absent",
        RuleExpression::NotExists { field: "flag".to_string() },
        Severity::Low,
    ));

    let resolver = PolicyConflictResolver::new(ConflictResolution::MostRestrictive);
    let conflicts = resolver.detect_conflicts(&vec![soft.clone(), critical.clone()]);
    assert_eq!(conflicts.len(), 1);
    let resolved = resolver.resolve_conflicts(vec![soft, critical], &conflicts).unwrap();
    assert_eq!(
        resolved[0].enforcement_level,
        policy_engine::value_objects::EnforcementLevel::Critical
    );
}

#[test]
fn merged_policy_counts_and_folds_rules() {
    let mut base = active_policy("Base");
    base.add_rule(key_size_rule(2048));
    let mut other = active_policy("Other");
    other.add_rule(PolicyRule::new(
        "algorithm fixed",
        "the algorithm is pinned",
        RuleExpression::Equal {
            field: "algorithm".to_string(),
            value: Value::String("RSA".to_string()),
        },
        Severity::Medium,
    ));

    let resolver = PolicyConflictResolver::new(ConflictResolution::LastWins);
    let merged = resolver.merge_policies(&vec![base, other]).unwrap();
    assert_eq!(merged.name, "Merged Policy Set (2)");
    assert_eq!(merged.description, "Automatically merged policy set");
    assert_eq!(merged.rules.len(), 2);
}

#[test]
fn missing_field_aborts_evaluation() {
    let mut policy = active_policy("Needs Field");
    policy.add_rule(key_size_rule(2048));

    let evaluator = PolicyEvaluator::new();
    let empty = EvaluationContext::new();
    let outcome = evaluator.evaluate(&policy, &empty);
    match outcome {
        Err(policy_engine::evaluator::EvaluationError::MissingContextField(f)) => {
            assert_eq!(f, "key_size");
        }
        other => panic!("expected a missing-field error, got {:?}", other.is_ok()),
    }
}

#[test]
fn inactive_policy_is_refused() {
    let mut policy = Policy::new("Draft Policy", "not yet active");
    policy.add_rule(key_size_rule(2048));
    let evaluator = PolicyEvaluator::new();
    let context = EvaluationContext::new().with_field("key_size", Value::Integer(4096));
    let outcome = evaluator.evaluate(&policy, &context);
    assert!(matches!(
        outcome,
        Err(policy_engine::evaluator::EvaluationError::PolicyNotActive(_))
    ));
}

#[test]
fn custom_predicates_are_unsupported() {
    let mut policy = active_policy("Custom Predicate Policy");
    policy.add_rule(PolicyRule::new(
        "custom check",
        "runs a named predicate",
        RuleExpression::Custom {
            predicate: "entropy_check".to_string(),
            args: vec![],
        },
        Severity::Low,
    ));
    let evaluator = PolicyEvaluator::new();
    let context = EvaluationContext::new();
    let outcome = evaluator.evaluate(&policy, &context);
    match outcome {
        Err(policy_engine::evaluator::EvaluationError::RuleEvaluationFailed(m)) => {
            assert_eq!(m, "Custom predicate 'entropy_check' not implemented");
        }
        _ => panic!("expected a rule-evaluation failure"),
    }
}

#[test]
fn float_values_compare_by_ieee_semantics() {
    let a = Value::Float((1.5f64).to_bits());
    let b = Value::Float((2.5f64).to_bits());
    let negative = Value::Float((-3.0f64).to_bits());
    let positive_zero = Value::Float((0.0f64).to_bits());
    let negative_zero = Value::Float((-0.0f64).to_bits());
    let nan = Value::Float(f64::NAN.to_bits());

    assert_eq!(value_cmp(&a, &b), Some(std::cmp::Ordering::Less));
    assert_eq!(value_cmp(&b, &a), Some(std::cmp::Ordering::Greater));
    assert_eq!(value_cmp(&negative, &a), Some(std::cmp::Ordering::Less));
    assert_eq!(value_cmp(&positive_zero, &negative_zero), Some(std::cmp::Ordering::Equal));
    assert_eq!(value_cmp(&nan, &a), None);
    assert!(value_eq(&positive_zero, &negative_zero));
    assert!(!value_eq(&nan, &nan));
}

#[test]
fn string_predicates_match_substrings() {
    let mut policy = active_policy("String Policy");
    policy.add_rule(PolicyRule::new(
        "domain suffix",
        "the email is in the home domain",
        RuleExpression::EndsWith {
            field: "email".to_string(),
            suffix: "@example.com".to_string(),
        },
        Severity::Low,
    ));
    policy.add_rule(PolicyRule::new(
        "prefix",
        "the resource is under the service tree",
        RuleExpression::StartsWith {
            field: "resource".to_string(),
            prefix: "svc/".to_string(),
        },
        Severity::Low,
    ));
    policy.add_rule(PolicyRule::new(
        "substring",
        "the path mentions billing",
        RuleExpression::Contains {
            field: "resource".to_string(),
            value: Value::String("billing".to_string()),
        },
        Severity::Low,
    ));

    let evaluator = PolicyEvaluator::new();
    let context = EvaluationContext::new()
        .with_field("email", Value::String("ops@example.com".to_string()))
        .with_field("resource", Value::String("svc/billing/export".to_string()));
    let result = evaluator.evaluate(&policy, &context).unwrap();
    assert!(result.is_compliant());
}

#[test]
fn decimal_and_identifier_rendering() {
    assert_eq!(dec_i64(0), "0");
    assert_eq!(dec_i64(2048), "2048");
    assert_eq!(dec_i64(-365), "-365");
    assert_eq!(
        uuid_string(0x0123_4567_89ab_cdef_0123_4567_89ab_cdefu128),
        "01234567-89ab-cdef-0123-456789abcdef"
    );
}

#[test]
fn event_subjects_carry_aggregate_and_tag() {
    let pid = policy_engine::value_objects::PolicyId(0x0123_4567_89ab_cdef_0123_4567_89ab_cdefu128);
    let event = PolicyEvent::PolicyCreated(policy_engine::events::PolicyCreated {
        event_id: 1,
        identity: msg_id(),
        policy_id: pid,
        name: "Test Policy".to_string(),
        description: "Test Description".to_string(),
        policy_type: "Access".to_string(),
        created_by: "test-user".to_string(),
        created_at: 1_000,
    });
    let subject = event_to_subject(&event);
    assert_eq!(
        subject,
        "events.policy.01234567-89ab-cdef-0123-456789abcdef.policycreated"
    );
}

#[test]
fn exemption_saga_never_grants_before_sufficient_approvals() {
    let mut saga = ExemptionWorkflowSaga::new(
        policy_engine::value_objects::PolicyId::new(),
        "user@example.com",
    );
    saga.set_risk_assessment(RiskLevel::Critical, "high blast radius");
    saga.set_business_justification("urgent migration", BusinessPriority::Critical);
    saga.current_state = policy_engine::sagas::SagaState::ExemptionUnderReview;

    // Three approvals are one short of what critical risk demands.
    saga.add_approval("a@example.com", ApprovalLevel::Manager);
    saga.add_approval("b@example.com", ApprovalLevel::Security);
    saga.add_approval("c@example.com", ApprovalLevel::Director);
    assert!(!saga.has_sufficient_approvals());
    let commands = saga.get_commands();
    assert!(commands.iter().all(|c| !matches!(c, PolicyCommand::GrantExemption(_))));

    saga.add_approval("d@example.com", ApprovalLevel::Compliance);
    assert!(saga.has_sufficient_approvals());
    let commands = saga.get_commands();
    assert_eq!(commands.len(), 1);
    assert!(matches!(commands[0], PolicyCommand::GrantExemption(_)));
}

#[test]
fn audit_saga_scores_compliance_in_tenths() {
    let ids = vec![PolicyId::new(), PolicyId::new()];
    let mut saga = ComplianceAuditSaga::new(ids.clone(), "auditor@example.com");
    saga.add_audit_result(ids[0], ComplianceResult::Compliant);
    saga.add_audit_result(
        ids[1],
        ComplianceResult::NonCompliant {
            violations: vec![Violation {
                rule_id: 1,
                rule_description: "r".to_string(),
                severity: Severity::High,
                details: "failed".to_string(),
                suggested_remediation: None,
            }],
        },
    );
    // One of two compliant gives five hundred tenths, less the high-severity
    // penalty of fifty.
    assert_eq!(saga.compliance_score_tenths(), 450);
    // One of two compliant is not more than half, so the standing is
    // non-compliant.
    assert_eq!(
        saga.overall_compliance,
        Some(policy_engine::audit_saga::ComplianceStatus::NonCompliant)
    );
}

#[test]
fn context_insert_replaces_existing_field() {
    let context = EvaluationContext::new()
        .with_field("key_size", Value::Integer(1024))
        .with_field("key_size", Value::Integer(4096));
    match context.get_field("key_size") {
        Some(Value::Integer(v)) => assert_eq!(*v, 4096),
        _ => panic!("expected the replaced integer field"),
    }
    assert_eq!(context.fields.len(), 1);
}

#[test]
fn overall_result_carries_the_newest_violation() {
    let mut policy = active_policy("Single Rule Policy");
    policy.add_rule(key_size_rule(4096));
    let evaluator = PolicyEvaluator::new();
    let weak = EvaluationContext::new().with_field("key_size", Value::Integer(1024));
    let result = evaluator.evaluate(&policy, &weak).unwrap();
    // The moment the only rule fails, the overall result itself carries that
    // rule's violation.
    match &result.overall_result {
        ComplianceResult::NonCompliant { violations } => {
            assert_eq!(violations.len(), 1);
            assert_eq!(violations[0].severity, Severity::Critical);
        }
        other => panic!("expected a non-compliant overall result, got {:?}", other),
    }
}

#[test]
fn review_cannot_go_back_to_draft() {
    let mut policy = Policy::new("Reviewed Policy", "under review");
    policy.update_status(PolicyStatus::UnderReview).unwrap();
    assert!(policy.update_status(PolicyStatus::Draft).is_err());
    assert_eq!(policy.status, PolicyStatus::UnderReview);
}

#[test]
fn terminal_exemption_ignores_later_events() {
    let eid = policy_engine::value_objects::ExemptionId::new();
    let pid = PolicyId::new();
    let exemption = PolicyExemption::new(pid, "short-lived", "testing", "admin", 10_000);
    let granted = exemption
        .apply_event_pure(&PolicyEvent::PolicyExemptionGranted(
            policy_engine::events::PolicyExemptionGranted {
                event_id: 1,
                identity: msg_id(),
                exemption_id: eid,
                policy_id: pid,
                granted_by: "admin".to_string(),
                granted_at: 1_000,
                reason: "short-lived".to_string(),
                valid_until: 10_000,
                risk_acceptance: None,
            },
        ))
        .unwrap();
    let expired = granted
        .apply_event_pure(&PolicyEvent::PolicyExemptionExpired(
            policy_engine::events::PolicyExemptionExpired {
                event_id: 2,
                identity: msg_id(),
                exemption_id: eid,
                policy_id: pid,
                expired_at: 11_000,
            },
        ))
        .unwrap();
    assert_eq!(expired.status, policy_engine::aggregate::ExemptionStatus::Expired);
    // Expiry is terminal: a later grant is ignored, the exemption stays
    // expired.
    let after_regrant = expired
        .apply_event_pure(&PolicyEvent::PolicyExemptionGranted(
            policy_engine::events::PolicyExemptionGranted {
                event_id: 3,
                identity: msg_id(),
                exemption_id: eid,
                policy_id: pid,
                granted_by: "admin".to_string(),
                granted_at: 12_000,
                reason: "again".to_string(),
                valid_until: 20_000,
                risk_acceptance: None,
            },
        ))
        .unwrap();
    assert_eq!(after_regrant.status, policy_engine::aggregate::ExemptionStatus::Expired);
}

#[test]
fn target_overlap_is_symmetric_in_global() {
    let empty_composite = PolicyTarget::Composite(vec![]);
    let global = PolicyTarget::Global;
    assert!(targets_overlap(&global, &empty_composite));
    assert!(targets_overlap(&empty_composite, &global));
}

#[test]
fn replay_error_names_the_offending_event() {
    let pid = PolicyId::new();
    let events = vec![PolicyEvent::PolicyApproved(PolicyApproved {
        event_id: 1,
        identity: msg_id(),
        policy_id: pid,
        approved_by: "manager".to_string(),
        approved_at: 1_000,
        approval_notes: None,
    })];
    match load_policy(&events) {
        Err(RepositoryError::InvalidSequence(m)) => {
            assert!(m.ends_with("PolicyApproved"));
        }
        _ => panic!("expected an invalid-sequence error"),
    }
}

#[test]
fn compliance_score_floors_at_zero() {
    let ids = vec![PolicyId::new()];
    let mut saga = ComplianceAuditSaga::new(ids.clone(), "auditor@example.com");
    let many: Vec<Violation> = (0..15)
        .map(|k| Violation {
            rule_id: k,
            rule_description: "r".to_string(),
            severity: Severity::Critical,
            details: "failed".to_string(),
            suggested_remediation: None,
        })
        .collect();
    saga.add_audit_result(ids[0], ComplianceResult::NonCompliant { violations: many });
    // Zero compliant members and fifteen critical penalties floor the score.
    assert_eq!(saga.compliance_score_tenths(), 0);
}
