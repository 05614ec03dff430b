//! Human and automated authorization policies, evaluated end to end.

use policy_engine::aggregate::Policy;
use policy_engine::entities::PolicyRule;
use policy_engine::evaluator::PolicyEvaluator;
use policy_engine::value_objects::{
    EvaluationContext, EnforcementLevel, OperationType, PolicyStatus, PolicyTarget,
    RuleExpression, Severity, Value,
};

fn float(v: f64) -> Value {
    Value::Float(v.to_bits())
}

#[test]
fn test_human_approval_required_policy() {
    let mut policy = Policy::new(
        "Sensitive Operation Approval",
        "Requires human approval for sensitive operations",
    );

    // Each requirement is an implication: a small amount passes outright,
    // a large one demands the approval.
    policy.add_rule(PolicyRule::new(
        "Manager Approval Required",
        "Operations over $10,000 require manager approval",
        RuleExpression::Or(vec![
            RuleExpression::LessThanOrEqual {
                field: "amount".to_string(),
                value: float(10000.0),
            },
            RuleExpression::Exists { field: "manager_approval".to_string() },
        ]),
        Severity::Critical,
    ));

    policy.add_rule(PolicyRule::new(
        "Director Approval for Large Amounts",
        "Operations over $50,000 require director approval",
        RuleExpression::Or(vec![
            RuleExpression::LessThanOrEqual {
                field: "amount".to_string(),
                value: float(50000.0),
            },
            RuleExpression::Exists { field: "director_approval".to_string() },
        ]),
        Severity::Critical,
    ));

    policy.target = PolicyTarget::Operation(OperationType::Custom(
        "financial_transaction".to_string(),
    ));
    policy.enforcement_level = EnforcementLevel::Hard;
    policy.status = PolicyStatus::Active;

    let context_needs_manager = EvaluationContext::new()
        .with_field("amount", float(15000.0))
        .with_field("requester", Value::String("john.doe@example.com".to_string()));

    let evaluator = PolicyEvaluator::new();
    let result = evaluator.evaluate(&policy, &context_needs_manager).unwrap();
    assert!(!result.is_compliant());
    assert_eq!(result.violations().len(), 1);

    let context_with_approval = EvaluationContext::new()
        .with_field("amount", float(15000.0))
        .with_field("requester", Value::String("john.doe@example.com".to_string()))
        .with_field("manager_approval", Value::String("manager@example.com".to_string()));

    let result = evaluator.evaluate(&policy, &context_with_approval).unwrap();
    assert!(result.is_compliant());

    let context_needs_director = EvaluationContext::new()
        .with_field("amount", float(75000.0))
        .with_field("manager_approval", Value::String("manager@example.com".to_string()));

    let result = evaluator.evaluate(&policy, &context_needs_director).unwrap();
    assert!(!result.is_compliant());

    let context_fully_approved = EvaluationContext::new()
        .with_field("amount", float(75000.0))
        .with_field("manager_approval", Value::String("manager@example.com".to_string()))
        .with_field("director_approval", Value::String("director@example.com".to_string()));

    let result = evaluator.evaluate(&policy, &context_fully_approved).unwrap();
    assert!(result.is_compliant());
}

#[test]
fn test_delegation_authorization_policy() {
    let mut policy = Policy::new("Delegation Authorization", "Controls who can delegate authority");

    policy.add_rule(PolicyRule::new(
        "Delegation Chain Limit",
        "Authority cannot be delegated more than 2 levels",
        RuleExpression::LessThanOrEqual {
            field: "delegation_depth".to_string(),
            value: Value::Integer(2),
        },
        Severity::High,
    ));

    policy.add_rule(PolicyRule::new(
        "Delegation Expiry Required",
        "All delegations must have an expiry date",
        RuleExpression::And(vec![
            RuleExpression::Exists { field: "delegation_expires".to_string() },
            RuleExpression::LessThanOrEqual {
                field: "delegation_duration_days".to_string(),
                value: Value::Integer(30),
            },
        ]),
        Severity::High,
    ));

    policy.add_rule(PolicyRule::new(
        "Delegation Scope Limited",
        "Delegated authority must be scoped to specific operations",
        RuleExpression::Exists { field: "delegation_scope".to_string() },
        Severity::Critical,
    ));

    policy.status = PolicyStatus::Active;

    let valid_delegation = EvaluationContext::new()
        .with_field("delegation_depth", Value::Integer(1))
        .with_field("delegation_expires", Value::String("2025-02-01".to_string()))
        .with_field("delegation_duration_days", Value::Integer(15))
        .with_field("delegation_scope", Value::String("approve_purchases".to_string()));

    let evaluator = PolicyEvaluator::new();
    let result = evaluator.evaluate(&policy, &valid_delegation).unwrap();
    assert!(result.is_compliant());

    let invalid_delegation = EvaluationContext::new()
        .with_field("delegation_depth", Value::Integer(3))
        .with_field("delegation_expires", Value::String("2025-02-01".to_string()))
        .with_field("delegation_duration_days", Value::Integer(15))
        .with_field("delegation_scope", Value::String("approve_purchases".to_string()));

    let result = evaluator.evaluate(&policy, &invalid_delegation).unwrap();
    assert!(!result.is_compliant());
}

#[test]
fn test_automated_event_driven_authorization() {
    let mut policy = Policy::new(
        "Automated Authorization Policy",
        "Automatically approves requests based on event patterns",
    );

    policy.add_rule(PolicyRule::new(
        "Auto-Approve Small Transactions",
        "Automatically approve transactions under $1000 from verified users",
        RuleExpression::And(vec![
            RuleExpression::LessThan {
                field: "amount".to_string(),
                value: float(1000.0),
            },
            RuleExpression::Equal {
                field: "user_verified".to_string(),
                value: Value::Bool(true),
            },
            RuleExpression::Equal {
                field: "risk_score".to_string(),
                value: Value::String("low".to_string()),
            },
        ]),
        Severity::Info,
    ));

    policy.add_rule(PolicyRule::new(
        "No High Risk Indicators",
        "Deny transactions with any high-risk indicator",
        RuleExpression::Not(Box::new(RuleExpression::Or(vec![
            RuleExpression::Equal {
                field: "risk_score".to_string(),
                value: Value::String("high".to_string()),
            },
            RuleExpression::Equal {
                field: "fraud_detected".to_string(),
                value: Value::Bool(true),
            },
        ]))),
        Severity::Critical,
    ));

    policy.enforcement_level = EnforcementLevel::Hard;
    policy.status = PolicyStatus::Active;

    let auto_approve_context = EvaluationContext::new()
        .with_field("amount", float(500.0))
        .with_field("user_verified", Value::Bool(true))
        .with_field("risk_score", Value::String("low".to_string()))
        .with_field("fraud_detected", Value::Bool(false));

    let evaluator = PolicyEvaluator::new();
    let result = evaluator.evaluate(&policy, &auto_approve_context).unwrap();
    assert!(result.is_compliant());

    let auto_deny_context = EvaluationContext::new()
        .with_field("amount", float(500.0))
        .with_field("user_verified", Value::Bool(true))
        .with_field("risk_score", Value::String("high".to_string()))
        .with_field("fraud_detected", Value::Bool(false));

    let result = evaluator.evaluate(&policy, &auto_deny_context).unwrap();
    assert!(!result.is_compliant());
}

#[test]
fn test_time_based_authorization_policy() {
    let mut policy = Policy::new("Time-Based Access Policy", "Restricts operations to business hours");

    // Business hours suffice on their own; an emergency override or a CISO
    // approval opens the door outside them.
    policy.add_rule(PolicyRule::new(
        "Business Hours Or Override",
        "Sensitive operations during business hours, or with emergency authorization",
        RuleExpression::Or(vec![
            RuleExpression::And(vec![
                RuleExpression::GreaterThanOrEqual {
                    field: "hour_of_day".to_string(),
                    value: Value::Integer(9),
                },
                RuleExpression::LessThan {
                    field: "hour_of_day".to_string(),
                    value: Value::Integer(17),
                },
                RuleExpression::In {
                    field: "day_of_week".to_string(),
                    values: vec![
                        Value::String("Monday".to_string()),
                        Value::String("Tuesday".to_string()),
                        Value::String("Wednesday".to_string()),
                        Value::String("Thursday".to_string()),
                        Value::String("Friday".to_string()),
                    ],
                },
            ]),
            RuleExpression::Equal {
                field: "emergency_override".to_string(),
                value: Value::Bool(true),
            },
            RuleExpression::Exists { field: "ciso_approval".to_string() },
        ]),
        Severity::High,
    ));

    policy.status = PolicyStatus::Active;

    let business_hours = EvaluationContext::new()
        .with_field("hour_of_day", Value::Integer(14))
        .with_field("day_of_week", Value::String("Wednesday".to_string()))
        .with_field("operation", Value::String("modify_user_permissions".to_string()));

    let evaluator = PolicyEvaluator::new();
    let result = evaluator.evaluate(&policy, &business_hours).unwrap();
    assert!(result.is_compliant());

    let after_hours = EvaluationContext::new()
        .with_field("hour_of_day", Value::Integer(22))
        .with_field("day_of_week", Value::String("Wednesday".to_string()))
        .with_field("emergency_override", Value::Bool(false))
        .with_field("operation", Value::String("modify_user_permissions".to_string()));

    let result = evaluator.evaluate(&policy, &after_hours).unwrap();
    assert!(!result.is_compliant());

    let emergency_weekend = EvaluationContext::new()
        .with_field("hour_of_day", Value::Integer(10))
        .with_field("day_of_week", Value::String("Saturday".to_string()))
        .with_field("emergency_override", Value::Bool(true))
        .with_field("operation", Value::String("restore_service".to_string()));

    let result = evaluator.evaluate(&policy, &emergency_weekend).unwrap();
    assert!(result.is_compliant());
}

#[test]
fn test_role_based_authorization_policy() {
    let mut policy = Policy::new("Role-Based Access Control", "Enforces role-based authorization");

    policy.add_rule(PolicyRule::new(
        "Admin Role Required",
        "Administrative operations require admin role",
        RuleExpression::And(vec![
            RuleExpression::Equal {
                field: "operation_type".to_string(),
                value: Value::String("administrative".to_string()),
            },
            RuleExpression::In {
                field: "user_role".to_string(),
                values: vec![
                    Value::String("admin".to_string()),
                    Value::String("super_admin".to_string()),
                ],
            },
        ]),
        Severity::Critical,
    ));

    policy.add_rule(PolicyRule::new(
        "Separation of Duties",
        "Users cannot approve their own requests",
        RuleExpression::NotEqual {
            field: "requester".to_string(),
            value: Value::String("${approver}".to_string()),
        },
        Severity::Critical,
    ));

    policy.add_rule(PolicyRule::new(
        "Minimum Role Level",
        "Operations require minimum role level",
        RuleExpression::GreaterThanOrEqual {
            field: "role_level".to_string(),
            value: Value::Integer(3),
        },
        Severity::High,
    ));

    policy.target = PolicyTarget::Role("*".to_string());
    policy.status = PolicyStatus::Active;

    let admin_context = EvaluationContext::new()
        .with_field("operation_type", Value::String("administrative".to_string()))
        .with_field("user_role", Value::String("admin".to_string()))
        .with_field("role_level", Value::Integer(5))
        .with_field("requester", Value::String("admin@example.com".to_string()))
        .with_field("approver", Value::String("other@example.com".to_string()));

    let evaluator = PolicyEvaluator::new();
    let result = evaluator.evaluate(&policy, &admin_context).unwrap();
    assert!(result.is_compliant());

    let user_context = EvaluationContext::new()
        .with_field("operation_type", Value::String("administrative".to_string()))
        .with_field("user_role", Value::String("user".to_string()))
        .with_field("role_level", Value::Integer(1))
        .with_field("requester", Value::String("user@example.com".to_string()));

    let result = evaluator.evaluate(&policy, &user_context).unwrap();
    assert!(!result.is_compliant());
}
