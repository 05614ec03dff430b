//! Entities of the policy domain: rules, evaluation runs and detected
//! conflicts.

use vstd::prelude::*;
use crate::value_objects::{
    Value, ValueV, RuleExpression, ExprV, Severity, Violation, ViolationV, ComplianceResult,
    ComplianceResultV, EvaluationContext, ContextV, PolicyId, entries_view, lemma_entries_view,
    clone_opt_string, DeepClone,
};
use crate::aggregate::ConflictResolution;
use crate::runtime::{fresh_uuid_raw, now_millis};
use crate::text::{dec_i64, spec_dec_i64};

verus! {

broadcast use {vstd::std_specs::vec::group_vec_axioms, vstd::seq::group_seq_axioms};

/// What kind of constraint a rule expresses.
#[derive(Debug, Clone, Copy, PartialEq, Eq, Structural)]
pub enum RuleType {
    /// A constraint that must be satisfied.
    Constraint,
    /// A requirement that must be present.
    Requirement,
    /// A validation that checks format or structure.
    Validation,
    /// An authorization check.
    Authorization,
}

impl DeepView for RuleType {
    type V = RuleType;

    open spec fn deep_view(&self) -> RuleType {
        *self
    }
}

/// The type a template parameter expects.
#[derive(Debug, Clone, PartialEq, Eq, Structural)]
pub enum ParameterType {
    String,
    Integer,
    Float,
    Boolean,
    StringList,
    IntegerList,
    Duration,
    DateTime,
}

/// A single named constraint inside a policy.
#[derive(Debug, PartialEq)]
pub struct PolicyRule {
    /// Unique identifier of the rule.
    pub id: u128,
    /// Short name.
    pub name: String,
    /// Human-readable description.
    pub description: String,
    /// What kind of constraint this is.
    pub rule_type: RuleType,
    /// The predicate the rule checks.
    pub expression: RuleExpression,
    /// Free-form parameters attached to the rule.
    pub parameters: Vec<(String, Value)>,
    /// How serious a violation of this rule is.
    pub severity: Severity,
    /// Message reported when the rule fails, if one was authored.
    pub error_message: Option<String>,
    /// Hint on how to fix a violation, if one was authored.
    pub remediation_hint: Option<String>,
}

/// Mathematical view of a `PolicyRule`.
pub struct RuleV {
    pub id: u128,
    pub name: Seq<char>,
    pub description: Seq<char>,
    pub rule_type: RuleType,
    pub expression: ExprV,
    pub parameters: Seq<(Seq<char>, ValueV)>,
    pub severity: Severity,
    pub error_message: Option<Seq<char>>,
    pub remediation_hint: Option<Seq<char>>,
}

impl DeepView for PolicyRule {
    type V = RuleV;

    open spec fn deep_view(&self) -> RuleV {
        RuleV {
            id: self.id,
            name: self.name@,
            description: self.description@,
            rule_type: self.rule_type,
            expression: self.expression.deep_view(),
            parameters: entries_view(self.parameters@),
            severity: self.severity,
            error_message: self.error_message.deep_view(),
            remediation_hint: self.remediation_hint.deep_view(),
        }
    }
}

impl Clone for PolicyRule {
    /// Copies the rule, preserving its view.
    #[verifier::loop_isolation(false)]
    fn clone(&self) -> (r: Self)
        ensures
            r.deep_view() == self.deep_view(),
    {
        let mut parameters: Vec<(String, Value)> = Vec::new();
        let mut i: usize = 0;
        while i < self.parameters.len()
            invariant
                0 <= i <= self.parameters@.len(),
                parameters@.len() == i,
                forall|j: int|
                    0 <= j < i ==> (#[trigger] parameters@[j]).0@ == self.parameters@[j].0@
                        && parameters@[j].1.deep_view() == self.parameters@[j].1.deep_view(),
            decreases self.parameters@.len() - i,
        {
            let e = &self.parameters[i];
            parameters.push((e.0.clone(), e.1.clone()));
            i = i + 1;
        }
        proof {
            lemma_entries_view(parameters@);
            lemma_entries_view(self.parameters@);
            assert(entries_view(parameters@) =~= entries_view(self.parameters@));
        }
        PolicyRule {
            id: self.id,
            name: self.name.clone(),
            description: self.description.clone(),
            rule_type: self.rule_type,
            expression: self.expression.clone(),
            parameters,
            severity: self.severity,
            error_message: clone_opt_string(&self.error_message),
            remediation_hint: clone_opt_string(&self.remediation_hint),
        }
    }
}

impl DeepClone for PolicyRule {
    fn deep_clone(&self) -> (r: Self)
        ensures
            r.deep_view() == self.deep_view(),
    {
        self.clone()
    }
}

impl PolicyRule {
    /// Creates a new constraint rule with a fresh identifier and no
    /// parameters, error message or remediation hint.
    pub fn new(name: &str, description: &str, expression: RuleExpression, severity: Severity) -> (r:
        PolicyRule)
        ensures
            r.deep_view().name == name@,
            r.deep_view().description == description@,
            r.deep_view().rule_type == RuleType::Constraint,
            r.deep_view().expression == expression.deep_view(),
            r.deep_view().parameters.len() == 0,
            r.deep_view().severity == severity,
            r.deep_view().error_message is None,
            r.deep_view().remediation_hint is None,
    {
        PolicyRule {
            id: fresh_uuid_raw(),
            name: name.to_owned(),
            description: description.to_owned(),
            rule_type: RuleType::Constraint,
            expression,
            parameters: Vec::new(),
            severity,
            error_message: None,
            remediation_hint: None,
        }
    }

    /// A critical rule demanding that the `key_size` field is at least the
    /// given number of bits.
    pub fn min_key_size(bits: i64) -> (r: PolicyRule)
        ensures
            r.deep_view().name == "Minimum Key Size"@,
            r.deep_view().description == "Key size must be at least "@ + spec_dec_i64(bits)
                + " bits"@,
            r.deep_view().expression == (ExprV::GreaterThanOrEqual {
                field: "key_size"@,
                value: ValueV::Integer(bits),
            }),
            r.deep_view().severity == Severity::Critical,
            r.deep_view().rule_type == RuleType::Constraint,
            r.deep_view().error_message is None,
    {
        let mut description = String::from_str("Key size must be at least ");
        let digits = dec_i64(bits);
        description.append(digits.as_str());
        description.append(" bits");
        PolicyRule::new(
            "Minimum Key Size",
            description.as_str(),
            RuleExpression::GreaterThanOrEqual {
                field: String::from_str("key_size"),
                value: Value::Integer(bits),
            },
            Severity::Critical,
        )
    }

    /// A critical rule demanding that the `algorithm` field is one of the
    /// given names.
    #[verifier::loop_isolation(false)]
    pub fn allowed_algorithms(algorithms: Vec<&str>) -> (r: PolicyRule)
        ensures
            r.deep_view().name == "Allowed Algorithms"@,
            r.deep_view().expression matches ExprV::In { field, values } && field == "algorithm"@
                && values.len() == algorithms.deep_view().len() && forall|i: int|
                0 <= i < values.len() ==> values[i] == ValueV::String(
                    #[trigger] algorithms.deep_view()[i],
                ),
            r.deep_view().severity == Severity::Critical,
            r.deep_view().rule_type == RuleType::Constraint,
            r.deep_view().error_message is None,
    {
        let mut values: Vec<Value> = Vec::new();
        let mut i: usize = 0;
        while i < algorithms.len()
            invariant
                0 <= i <= algorithms@.len(),
                values@.len() == i,
                forall|j: int|
                    0 <= j < i ==> (#[trigger] values@[j]).deep_view() == ValueV::String(
                        algorithms@[j]@,
                    ),
            decreases algorithms@.len() - i,
        {
            values.push(Value::String(algorithms[i].to_owned()));
            i = i + 1;
        }
        proof {
            crate::value_objects::lemma_values_view(values@);
        }
        PolicyRule::new(
            "Allowed Algorithms",
            "Algorithm must be one of the allowed set",
            RuleExpression::In { field: String::from_str("algorithm"), values },
            Severity::Critical,
        )
    }

    /// A high-severity rule demanding that the `validity_days` field does not
    /// exceed the given number of days.
    pub fn max_validity_days(days: i64) -> (r: PolicyRule)
        ensures
            r.deep_view().name == "Maximum Validity Period"@,
            r.deep_view().description == "Certificate validity must not exceed "@ + spec_dec_i64(
                days,
            ) + " days"@,
            r.deep_view().expression == (ExprV::LessThanOrEqual {
                field: "validity_days"@,
                value: ValueV::Integer(days),
            }),
            r.deep_view().severity == Severity::High,
            r.deep_view().rule_type == RuleType::Constraint,
            r.deep_view().error_message is None,
    {
        let mut description = String::from_str("Certificate validity must not exceed ");
        let digits = dec_i64(days);
        description.append(digits.as_str());
        description.append(" days");
        PolicyRule::new(
            "Maximum Validity Period",
            description.as_str(),
            RuleExpression::LessThanOrEqual {
                field: String::from_str("validity_days"),
                value: Value::Integer(days),
            },
            Severity::High,
        )
    }
}

/// The outcome of evaluating a single rule.
#[derive(Debug, PartialEq)]
pub struct RuleResult {
    /// Identifier of the evaluated rule.
    pub rule_id: u128,
    /// Name of the evaluated rule.
    pub rule_name: String,
    /// Whether the rule held.
    pub passed: bool,
    /// Human-readable outcome message.
    pub message: String,
    /// Severity carried over from the rule.
    pub severity: Severity,
    /// The observed value, when recorded.
    pub actual_value: Option<Value>,
    /// The expected value, when recorded.
    pub expected_value: Option<Value>,
}

/// Mathematical view of a `RuleResult`.
pub struct RuleResultV {
    pub rule_id: u128,
    pub rule_name: Seq<char>,
    pub passed: bool,
    pub message: Seq<char>,
    pub severity: Severity,
    pub actual_value: Option<ValueV>,
    pub expected_value: Option<ValueV>,
}

impl DeepView for RuleResult {
    type V = RuleResultV;

    open spec fn deep_view(&self) -> RuleResultV {
        RuleResultV {
            rule_id: self.rule_id,
            rule_name: self.rule_name@,
            passed: self.passed,
            message: self.message@,
            severity: self.severity,
            actual_value: self.actual_value.deep_view(),
            expected_value: self.expected_value.deep_view(),
        }
    }
}

impl Clone for RuleResult {
    /// Copies the result, preserving its view.
    fn clone(&self) -> (r: Self)
        ensures
            r.deep_view() == self.deep_view(),
    {
        RuleResult {
            rule_id: self.rule_id,
            rule_name: self.rule_name.clone(),
            passed: self.passed,
            message: self.message.clone(),
            severity: self.severity,
            actual_value: match &self.actual_value {
                Some(v) => Some(v.clone()),
                None => None,
            },
            expected_value: match &self.expected_value {
                Some(v) => Some(v.clone()),
                None => None,
            },
        }
    }
}

impl DeepClone for RuleResult {
    fn deep_clone(&self) -> (r: Self)
        ensures
            r.deep_view() == self.deep_view(),
    {
        self.clone()
    }
}

/// The violation a failed rule result stands for.
pub open spec fn spec_to_violation(r: RuleResultV) -> ViolationV {
    ViolationV {
        rule_id: r.rule_id,
        rule_description: r.rule_name,
        severity: r.severity,
        details: r.message,
        suggested_remediation: None,
    }
}

impl RuleResult {
    /// Converts the result into a violation record.
    pub fn to_violation(&self) -> (v: Violation)
        ensures
            v.deep_view() == spec_to_violation(self.deep_view()),
    {
        Violation {
            rule_id: self.rule_id,
            rule_description: self.rule_name.clone(),
            severity: self.severity,
            details: self.message.clone(),
            suggested_remediation: None,
        }
    }
}

/// The violations among a sequence of rule results: one per failed result,
/// in order.
pub open spec fn spec_violations_of(results: Seq<RuleResultV>) -> Seq<ViolationV>
    decreases results,
{
    if results.len() == 0 {
        Seq::empty()
    } else {
        let rest = spec_violations_of(results.subrange(1, results.len() as int));
        if results[0].passed {
            rest
        } else {
            seq![spec_to_violation(results[0])] + rest
        }
    }
}

/// Splitting a result sequence splits its violations.
pub proof fn lemma_violations_of_push(results: Seq<RuleResultV>, r: RuleResultV)
    ensures
        spec_violations_of(results.push(r)) == if r.passed {
            spec_violations_of(results)
        } else {
            spec_violations_of(results).push(spec_to_violation(r))
        },
    decreases results.len(),
{
    if results.len() == 0 {
        assert(results.push(r).len() == 1);
        assert(results.push(r)[0] == r);
        assert(results.push(r).subrange(1, results.push(r).len() as int) =~= Seq::empty());
        assert(spec_violations_of(Seq::<RuleResultV>::empty()) =~= Seq::<ViolationV>::empty());
        if r.passed {
            assert(spec_violations_of(results.push(r)) =~= spec_violations_of(results));
        } else {
            assert(spec_violations_of(results.push(r)) =~= spec_violations_of(results).push(
                spec_to_violation(r),
            ));
        }
    } else {
        let whole = results.push(r);
        let tail = results.subrange(1, results.len() as int);
        assert(whole.subrange(1, whole.len() as int) =~= tail.push(r));
        lemma_violations_of_push(tail, r);
        if r.passed {
            assert(spec_violations_of(whole) =~= spec_violations_of(results));
        } else {
            assert(spec_violations_of(whole) =~= spec_violations_of(results).push(
                spec_to_violation(r),
            ));
        }
    }
}

/// One evaluation run of a policy against a context.
#[derive(Debug)]
pub struct PolicyEvaluation {
    /// Unique identifier of this run.
    pub id: u128,
    /// The evaluated policy.
    pub policy_id: PolicyId,
    /// When the run happened, as Unix milliseconds.
    pub evaluated_at: i64,
    /// The context the policy was evaluated against.
    pub context: EvaluationContext,
    /// Per-rule outcomes, in rule order.
    pub rule_results: Vec<RuleResult>,
    /// The overall outcome.
    pub overall_result: ComplianceResult,
    /// Wall-clock duration of the run in milliseconds.
    pub execution_time_ms: u64,
}

/// Mathematical view of a `PolicyEvaluation`.
pub struct PolicyEvaluationV {
    pub id: u128,
    pub policy_id: PolicyId,
    pub evaluated_at: i64,
    pub context: ContextV,
    pub rule_results: Seq<RuleResultV>,
    pub overall_result: ComplianceResultV,
    pub execution_time_ms: u64,
}

impl DeepView for PolicyEvaluation {
    type V = PolicyEvaluationV;

    open spec fn deep_view(&self) -> PolicyEvaluationV {
        PolicyEvaluationV {
            id: self.id,
            policy_id: self.policy_id,
            evaluated_at: self.evaluated_at,
            context: self.context.deep_view(),
            rule_results: self.rule_results.deep_view(),
            overall_result: self.overall_result.deep_view(),
            execution_time_ms: self.execution_time_ms,
        }
    }
}

impl PolicyEvaluation {
    /// Creates an evaluation run for the policy and context, with no rule
    /// results yet and a compliant overall outcome.
    pub fn new(policy_id: PolicyId, context: EvaluationContext) -> (r: PolicyEvaluation)
        ensures
            r.deep_view().policy_id == policy_id,
            r.deep_view().context == context.deep_view(),
            r.deep_view().rule_results.len() == 0,
            r.deep_view().overall_result == ComplianceResultV::Compliant,
            r.deep_view().execution_time_ms == 0,
    {
        PolicyEvaluation {
            id: fresh_uuid_raw(),
            policy_id,
            evaluated_at: now_millis(),
            context,
            rule_results: Vec::new(),
            overall_result: ComplianceResult::Compliant,
            execution_time_ms: 0,
        }
    }

    /// Records one rule outcome. A failing outcome turns the overall result
    /// non-compliant, carrying one violation for every rule that has failed
    /// so far, this one included.
    pub fn add_rule_result(&mut self, result: RuleResult)
        ensures
            final(self).deep_view().rule_results == old(self).deep_view().rule_results.push(
                result.deep_view(),
            ),
            final(self).deep_view().overall_result == if result.deep_view().passed {
                old(self).deep_view().overall_result
            } else {
                ComplianceResultV::NonCompliant {
                    violations: spec_violations_of(
                        old(self).deep_view().rule_results.push(result.deep_view()),
                    ),
                }
            },
            final(self).deep_view().id == old(self).deep_view().id,
            final(self).deep_view().policy_id == old(self).deep_view().policy_id,
            final(self).deep_view().evaluated_at == old(self).deep_view().evaluated_at,
            final(self).deep_view().context == old(self).deep_view().context,
            final(self).deep_view().execution_time_ms == old(
                self,
            ).deep_view().execution_time_ms,
    {
        let failed = !result.passed;
        self.rule_results.push(result);
        proof {
            assert(self.rule_results.deep_view() =~= old(self).rule_results.deep_view().push(
                result.deep_view(),
            ));
        }
        if failed {
            let violations = self.violations();
            self.overall_result = ComplianceResult::NonCompliant { violations };
        }
    }

    /// Returns whether the overall outcome counts as compliant.
    pub fn is_compliant(&self) -> (r: bool)
        ensures
            r == self.deep_view().overall_result.spec_is_compliant(),
    {
        self.overall_result.is_compliant()
    }

    /// Collects one violation per failed rule result, in order.
    #[verifier::loop_isolation(false)]
    pub fn violations(&self) -> (r: Vec<Violation>)
        ensures
            r.deep_view() == spec_violations_of(self.deep_view().rule_results),
    {
        let mut out: Vec<Violation> = Vec::new();
        let mut i: usize = 0;
        proof {
            assert(self.rule_results.deep_view().subrange(
                0,
                self.rule_results.deep_view().len() as int,
            ) =~= self.rule_results.deep_view());
        }
        while i < self.rule_results.len()
            invariant
                0 <= i <= self.rule_results@.len(),
                spec_violations_of(self.rule_results.deep_view()) == out.deep_view()
                    + spec_violations_of(
                    self.rule_results.deep_view().subrange(
                        i as int,
                        self.rule_results.deep_view().len() as int,
                    ),
                ),
            decreases self.rule_results@.len() - i,
        {
            proof {
                let all = self.rule_results.deep_view();
                let tail = all.subrange(i as int, all.len() as int);
                assert(tail[0] == all[i as int]);
                assert(tail.subrange(1, tail.len() as int) =~= all.subrange(
                    i + 1,
                    all.len() as int,
                ));
            }
            let rr = &self.rule_results[i];
            if !rr.passed {
                out.push(rr.to_violation());
            }
            i = i + 1;
            proof {
                let all = self.rule_results.deep_view();
                assert(spec_violations_of(all) =~= out.deep_view() + spec_violations_of(
                    all.subrange(i as int, all.len() as int),
                ));
            }
        }
        proof {
            assert(self.rule_results.deep_view().subrange(
                i as int,
                self.rule_results.deep_view().len() as int,
            ) =~= Seq::<RuleResultV>::empty());
            assert(out.deep_view() =~= spec_violations_of(self.rule_results.deep_view()));
        }
        out
    }
}

/// The kind of conflict two policies' rules can create.
#[derive(Debug, Clone, PartialEq, Eq, Structural)]
pub enum ConflictType {
    /// Rules directly contradict each other.
    Contradiction,
    /// Rules overlap but with different requirements.
    Overlap,
    /// Rules create an impossible condition.
    Impossible,
    /// Rules create ambiguity.
    Ambiguous,
}

impl DeepView for ConflictType {
    type V = ConflictType;

    open spec fn deep_view(&self) -> ConflictType {
        *self
    }
}

/// A detected conflict between two or more policies.
#[derive(Debug)]
pub struct PolicyConflict {
    /// Unique identifier of the finding.
    pub id: u128,
    /// The policies in conflict.
    pub policy_ids: Vec<PolicyId>,
    /// What kind of conflict was found.
    pub conflict_type: ConflictType,
    /// Human-readable description.
    pub description: String,
    /// When the conflict was detected, as Unix milliseconds.
    pub detected_at: i64,
    /// The resolution strategy chosen for it, if any.
    pub resolution: Option<ConflictResolution>,
}

/// Mathematical view of a `PolicyConflict`.
pub struct PolicyConflictV {
    pub id: u128,
    pub policy_ids: Seq<PolicyId>,
    pub conflict_type: ConflictType,
    pub description: Seq<char>,
    pub detected_at: i64,
    pub resolution: Option<ConflictResolution>,
}

impl DeepView for PolicyConflict {
    type V = PolicyConflictV;

    open spec fn deep_view(&self) -> PolicyConflictV {
        PolicyConflictV {
            id: self.id,
            policy_ids: self.policy_ids.deep_view(),
            conflict_type: self.conflict_type,
            description: self.description@,
            detected_at: self.detected_at,
            resolution: match self.resolution {
                Some(r) => Some(r),
                None => None,
            },
        }
    }
}

/// A parameter a policy template takes when instantiated.
#[derive(Debug)]
pub struct TemplateParameter {
    /// The parameter's name.
    pub name: String,
    /// What the parameter means.
    pub description: String,
    /// The type the parameter expects.
    pub parameter_type: ParameterType,
    /// The value used when none is given, if any.
    pub default_value: Option<Value>,
    /// Whether a value must be given.
    pub required: bool,
    /// A predicate a given value must satisfy, if any.
    pub validation: Option<RuleExpression>,
}

/// A reusable blueprint for authoring policies: named parameters and base
/// rules that an instantiation fills in. Instantiation itself belongs to the
/// authoring tooling around this core.
#[derive(Debug)]
pub struct PolicyTemplate {
    /// Unique identifier of the template.
    pub id: u128,
    /// Short name.
    pub name: String,
    /// Human-readable description.
    pub description: String,
    /// The template's category.
    pub category: String,
    /// The parameters an instantiation fills in.
    pub parameters: Vec<TemplateParameter>,
    /// The rules every instantiation starts from.
    pub base_rules: Vec<PolicyRule>,
    /// The enforcement level instantiations default to.
    pub default_enforcement: crate::value_objects::EnforcementLevel,
    /// Free-form tags.
    pub tags: Vec<String>,
}

impl PolicyTemplate {
    /// Creates an empty general template with a fresh identifier and a soft
    /// default enforcement.
    pub fn new(name: &str, description: &str) -> (r: PolicyTemplate)
        ensures
            r.name@ == name@,
            r.description@ == description@,
            r.category@ == "General"@,
            r.parameters@.len() == 0,
            r.base_rules@.len() == 0,
            r.default_enforcement == crate::value_objects::EnforcementLevel::Soft,
            r.tags@.len() == 0,
    {
        PolicyTemplate {
            id: fresh_uuid_raw(),
            name: name.to_owned(),
            description: description.to_owned(),
            category: String::from_str("General"),
            parameters: Vec::new(),
            base_rules: Vec::new(),
            default_enforcement: crate::value_objects::EnforcementLevel::Soft,
            tags: Vec::new(),
        }
    }

    /// Appends a parameter to the template.
    pub fn add_parameter(&mut self, parameter: TemplateParameter)
        ensures
            final(self).parameters@.len() == old(self).parameters@.len() + 1,
            final(self).name == old(self).name,
            final(self).base_rules == old(self).base_rules,
    {
        self.parameters.push(parameter);
    }
}

} // verus!
