//! Policies for key and certificate infrastructure, evaluated end to end.

use policy_engine::aggregate::Policy;
use policy_engine::entities::PolicyRule;
use policy_engine::evaluator::PolicyEvaluator;
use policy_engine::value_objects::{
    EvaluationContext, EnforcementLevel, OperationType, PolicyStatus, PolicyTarget, ResourceType,
    RuleExpression, Severity, Value,
};

#[test]
fn test_certificate_issuance_policy() {
    let mut policy = Policy::new(
        "Certificate Issuance Policy",
        "Controls certificate generation requirements",
    );

    policy.add_rule(PolicyRule::min_key_size(2048));
    policy.add_rule(PolicyRule::allowed_algorithms(vec!["RSA", "ECDSA"]));
    policy.add_rule(PolicyRule::max_validity_days(365));

    policy.enforcement_level = EnforcementLevel::Critical;
    policy.target = PolicyTarget::Operation(OperationType::CertificateIssuance);

    policy.update_status(PolicyStatus::UnderReview).unwrap();
    policy.update_status(PolicyStatus::Approved).unwrap();
    policy.update_status(PolicyStatus::Active).unwrap();

    assert!(policy.is_effective());
    assert_eq!(policy.rules.len(), 3);
}

#[test]
fn test_evaluate_certificate_request() {
    let mut policy = Policy::new(
        "Strict Certificate Policy",
        "Enforces strict certificate requirements",
    );

    policy.add_rule(PolicyRule::new(
        "Minimum RSA Key Size",
        "RSA keys must be at least 2048 bits",
        RuleExpression::And(vec![
            RuleExpression::Equal {
                field: "algorithm".to_string(),
                value: Value::String("RSA".to_string()),
            },
            RuleExpression::GreaterThanOrEqual {
                field: "key_size".to_string(),
                value: Value::Integer(2048),
            },
        ]),
        Severity::Critical,
    ));

    policy.add_rule(PolicyRule::new(
        "Maximum Validity",
        "Certificates cannot be valid for more than 90 days",
        RuleExpression::LessThanOrEqual {
            field: "validity_days".to_string(),
            value: Value::Integer(90),
        },
        Severity::High,
    ));

    policy.status = PolicyStatus::Active;

    let valid_context = EvaluationContext::new()
        .with_field("algorithm", Value::String("RSA".to_string()))
        .with_field("key_size", Value::Integer(2048))
        .with_field("validity_days", Value::Integer(30))
        .with_field("requester", Value::String("alice@example.com".to_string()));

    let evaluator = PolicyEvaluator::new();
    let result = evaluator.evaluate(&policy, &valid_context).unwrap();
    assert!(result.is_compliant());

    let invalid_context = EvaluationContext::new()
        .with_field("algorithm", Value::String("RSA".to_string()))
        .with_field("key_size", Value::Integer(1024))
        .with_field("validity_days", Value::Integer(30));

    let result = evaluator.evaluate(&policy, &invalid_context).unwrap();
    assert!(!result.is_compliant());
    assert_eq!(result.violations().len(), 1);
}

#[test]
fn test_key_rotation_policy() {
    let mut policy = Policy::new("Key Rotation Policy", "Enforces periodic key rotation");

    policy.add_rule(PolicyRule::new(
        "Maximum Key Age",
        "Keys must be rotated after 180 days",
        RuleExpression::LessThanOrEqual {
            field: "key_age_days".to_string(),
            value: Value::Integer(180),
        },
        Severity::High,
    ));

    policy.add_rule(PolicyRule::new(
        "Rotation Warning",
        "Warn when key age exceeds 150 days",
        RuleExpression::LessThanOrEqual {
            field: "key_age_days".to_string(),
            value: Value::Integer(150),
        },
        Severity::Medium,
    ));

    policy.target = PolicyTarget::Operation(OperationType::KeyRotation);
    policy.enforcement_level = EnforcementLevel::Hard;
    policy.status = PolicyStatus::Active;

    let context = EvaluationContext::new()
        .with_field("key_id", Value::String("key-123".to_string()))
        .with_field("key_age_days", Value::Integer(200));

    let evaluator = PolicyEvaluator::new();
    let result = evaluator.evaluate(&policy, &context).unwrap();
    assert!(!result.is_compliant());

    let violations = result.violations();
    assert_eq!(violations.len(), 2);
    assert!(violations.iter().any(|v| v.severity == Severity::High));
    assert!(violations.iter().any(|v| v.severity == Severity::Medium));
}

#[test]
fn test_certificate_chain_validation_policy() {
    let mut policy = Policy::new("Certificate Chain Policy", "Validates certificate trust chains");

    policy.add_rule(PolicyRule::new(
        "Root CA Required",
        "Certificate chain must include trusted root CA",
        RuleExpression::Exists { field: "root_ca".to_string() },
        Severity::Critical,
    ));

    policy.add_rule(PolicyRule::new(
        "Chain Depth Limit",
        "Certificate chain depth cannot exceed 3",
        RuleExpression::LessThanOrEqual {
            field: "chain_depth".to_string(),
            value: Value::Integer(3),
        },
        Severity::High,
    ));

    policy.add_rule(PolicyRule::new(
        "Intermediate CA Authorization",
        "Intermediate CAs must be explicitly authorized",
        RuleExpression::Equal {
            field: "intermediate_authorized".to_string(),
            value: Value::Bool(true),
        },
        Severity::Critical,
    ));

    policy.target = PolicyTarget::Operation(OperationType::CertificateIssuance);
    policy.status = PolicyStatus::Active;

    let valid_chain = EvaluationContext::new()
        .with_field("root_ca", Value::String("trusted-root-ca".to_string()))
        .with_field("chain_depth", Value::Integer(2))
        .with_field("intermediate_authorized", Value::Bool(true));

    let evaluator = PolicyEvaluator::new();
    let result = evaluator.evaluate(&policy, &valid_chain).unwrap();
    assert!(result.is_compliant());

    let invalid_chain = EvaluationContext::new()
        .with_field("root_ca", Value::String("trusted-root-ca".to_string()))
        .with_field("chain_depth", Value::Integer(5))
        .with_field("intermediate_authorized", Value::Bool(true));

    let result = evaluator.evaluate(&policy, &invalid_chain).unwrap();
    assert!(!result.is_compliant());
}

#[test]
fn test_yubikey_provisioning_policy() {
    let mut policy = Policy::new(
        "YubiKey Provisioning Policy",
        "Controls YubiKey configuration requirements",
    );

    policy.add_rule(PolicyRule::new(
        "PIN Required",
        "YubiKey must have PIN configured",
        RuleExpression::Equal {
            field: "pin_configured".to_string(),
            value: Value::Bool(true),
        },
        Severity::Critical,
    ));

    policy.add_rule(PolicyRule::new(
        "Touch Policy",
        "Touch confirmation required for signing operations",
        RuleExpression::In {
            field: "touch_policy".to_string(),
            values: vec![
                Value::String("always".to_string()),
                Value::String("cached".to_string()),
            ],
        },
        Severity::High,
    ));

    policy.add_rule(PolicyRule::new(
        "Management Key Changed",
        "Default management key must be changed",
        RuleExpression::NotEqual {
            field: "management_key".to_string(),
            value: Value::String("default".to_string()),
        },
        Severity::Critical,
    ));

    policy.target = PolicyTarget::Resource(ResourceType::Key);
    policy.enforcement_level = EnforcementLevel::Critical;
    policy.status = PolicyStatus::Active;

    let compliant_config = EvaluationContext::new()
        .with_field("pin_configured", Value::Bool(true))
        .with_field("touch_policy", Value::String("always".to_string()))
        .with_field("management_key", Value::String("custom-key-hash".to_string()));

    let evaluator = PolicyEvaluator::new();
    let result = evaluator.evaluate(&policy, &compliant_config).unwrap();
    assert!(result.is_compliant());

    let non_compliant = EvaluationContext::new()
        .with_field("pin_configured", Value::Bool(false))
        .with_field("touch_policy", Value::String("never".to_string()))
        .with_field("management_key", Value::String("default".to_string()));

    let result = evaluator.evaluate(&policy, &non_compliant).unwrap();
    assert!(!result.is_compliant());
    assert_eq!(result.violations().len(), 3);
}

#[test]
fn test_nats_operator_key_policy() {
    let mut policy = Policy::new(
        "NATS Operator Key Policy",
        "Requirements for NATS operator keys",
    );

    policy.add_rule(PolicyRule::new(
        "Ed25519 Required",
        "NATS keys must use Ed25519",
        RuleExpression::Equal {
            field: "algorithm".to_string(),
            value: Value::String("Ed25519".to_string()),
        },
        Severity::Critical,
    ));

    policy.add_rule(PolicyRule::new(
        "Offline Storage",
        "Operator keys must be stored offline",
        RuleExpression::Equal {
            field: "storage_location".to_string(),
            value: Value::String("offline".to_string()),
        },
        Severity::Critical,
    ));

    policy.add_rule(PolicyRule::new(
        "Multi-signature Required",
        "Operator modifications require multiple signatures",
        RuleExpression::GreaterThanOrEqual {
            field: "required_signatures".to_string(),
            value: Value::Integer(2),
        },
        Severity::High,
    ));

    policy.target = PolicyTarget::Composite(vec![
        PolicyTarget::Resource(ResourceType::Key),
        PolicyTarget::Role("nats-operator".to_string()),
    ]);
    policy.status = PolicyStatus::Active;

    let valid_config = EvaluationContext::new()
        .with_field("algorithm", Value::String("Ed25519".to_string()))
        .with_field("storage_location", Value::String("offline".to_string()))
        .with_field("required_signatures", Value::Integer(3));

    let evaluator = PolicyEvaluator::new();
    let result = evaluator.evaluate(&policy, &valid_config).unwrap();
    assert!(result.is_compliant());
}
