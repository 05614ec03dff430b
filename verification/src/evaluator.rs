//! The rule and policy evaluator: interprets one rule expression against one
//! context, evaluates all rules of a policy with exemption short-circuiting,
//! and composes results across several policies under a composition rule.

use vstd::prelude::*;
use crate::value_objects::{
    Value, ValueV, value_eq, value_cmp, spec_value_eq, spec_value_cmp, str_contains,
    spec_str_contains, str_starts_with, spec_str_starts_with, str_ends_with, spec_str_ends_with,
    RuleExpression, ExprV, exprs_view, lemma_exprs_view, values_view, EvaluationContext, ContextV,
    ComplianceResult, ComplianceResultV, Violation, ViolationV, PolicyId, ExemptionId, DeepClone,
};
use crate::entities::{
    PolicyRule, RuleV, RuleResult, RuleResultV, PolicyEvaluation, spec_violations_of,
    lemma_violations_of_push,
};
use crate::aggregate::{
    Policy, PolicyV, PolicyExemption, PolicyExemptionV, ExemptionScopeV, ExemptionCondition,
    ExemptionConditionV, ConditionOperator, CompositionRule,
};
use crate::contains::{spec_contains_value, spec_value_in, contains_value, contains_value_list};
use crate::runtime::now_millis;

verus! {

broadcast use {vstd::std_specs::vec::group_vec_axioms, vstd::seq::group_seq_axioms};

/// An error of evaluation.
#[derive(Debug)]
pub enum EvaluationError {
    /// No policy with this identifier is known.
    PolicyNotFound(PolicyId),
    /// The policy is not effective, so it may not be evaluated.
    PolicyNotActive(PolicyId),
    /// A rule read a context field that is absent.
    MissingContextField(String),
    /// A rule could not be evaluated, such as an unregistered custom
    /// predicate.
    RuleEvaluationFailed(String),
}

/// The outcome of interpreting one rule expression: a boolean, or a typed
/// failure.
pub enum EvalOutcome {
    /// The expression evaluated to the boolean.
    Value(bool),
    /// A comparison read the named field, which the context lacks.
    MissingField(Seq<char>),
    /// The named custom predicate is not registered.
    Unsupported(Seq<char>),
}

/// The semantics of the `Contains` predicate between a field value and an
/// operand: substring for strings, membership for lists, false for every
/// other pairing.
/// The semantics of one rule expression against a context.
///
/// Comparison predicates demand the named field; absence is a missing-field
/// failure, not `false`. Ordering comparisons hold only between same-kind
/// operands. `And` and `Or` short-circuit on the first failing or succeeding
/// child. `Contains`, `Matches`, `StartsWith` and `EndsWith` are `false` on
/// mismatched operand kinds, never an error. A custom predicate is
/// unsupported: this core registers none.
pub open spec fn spec_eval_expr(e: ExprV, ctx: ContextV) -> EvalOutcome
    decreases e,
{
    match e {
        ExprV::Equal { field, value } => match ctx.spec_get_field(field) {
            None => EvalOutcome::MissingField(field),
            Some(v) => EvalOutcome::Value(spec_value_eq(v, value)),
        },
        ExprV::NotEqual { field, value } => match ctx.spec_get_field(field) {
            None => EvalOutcome::MissingField(field),
            Some(v) => EvalOutcome::Value(!spec_value_eq(v, value)),
        },
        ExprV::GreaterThan { field, value } => match ctx.spec_get_field(field) {
            None => EvalOutcome::MissingField(field),
            Some(v) => EvalOutcome::Value(
                spec_value_cmp(v, value) == Some(core::cmp::Ordering::Greater),
            ),
        },
        ExprV::GreaterThanOrEqual { field, value } => match ctx.spec_get_field(field) {
            None => EvalOutcome::MissingField(field),
            Some(v) => EvalOutcome::Value(
                spec_value_cmp(v, value) == Some(core::cmp::Ordering::Greater) || spec_value_cmp(
                    v,
                    value,
                ) == Some(core::cmp::Ordering::Equal),
            ),
        },
        ExprV::LessThan { field, value } => match ctx.spec_get_field(field) {
            None => EvalOutcome::MissingField(field),
            Some(v) => EvalOutcome::Value(
                spec_value_cmp(v, value) == Some(core::cmp::Ordering::Less),
            ),
        },
        ExprV::LessThanOrEqual { field, value } => match ctx.spec_get_field(field) {
            None => EvalOutcome::MissingField(field),
            Some(v) => EvalOutcome::Value(
                spec_value_cmp(v, value) == Some(core::cmp::Ordering::Less) || spec_value_cmp(
                    v,
                    value,
                ) == Some(core::cmp::Ordering::Equal),
            ),
        },
        ExprV::And(es) => spec_eval_and(es, ctx),
        ExprV::Or(es) => spec_eval_or(es, ctx),
        ExprV::Not(inner) => match spec_eval_expr(*inner, ctx) {
            EvalOutcome::Value(b) => EvalOutcome::Value(!b),
            o => o,
        },
        ExprV::In { field, values } => match ctx.spec_get_field(field) {
            None => EvalOutcome::MissingField(field),
            Some(v) => EvalOutcome::Value(spec_value_in(values, v)),
        },
        ExprV::NotIn { field, values } => match ctx.spec_get_field(field) {
            None => EvalOutcome::MissingField(field),
            Some(v) => EvalOutcome::Value(!spec_value_in(values, v)),
        },
        ExprV::Contains { field, value } => match ctx.spec_get_field(field) {
            None => EvalOutcome::MissingField(field),
            Some(v) => EvalOutcome::Value(spec_contains_value(v, value)),
        },
        ExprV::Matches { field, pattern } => match ctx.spec_get_field(field) {
            None => EvalOutcome::MissingField(field),
            Some(v) => EvalOutcome::Value(
                v matches ValueV::String(s) && spec_str_contains(s, pattern),
            ),
        },
        ExprV::StartsWith { field, prefix } => match ctx.spec_get_field(field) {
            None => EvalOutcome::MissingField(field),
            Some(v) => EvalOutcome::Value(
                v matches ValueV::String(s) && spec_str_starts_with(s, prefix),
            ),
        },
        ExprV::EndsWith { field, suffix } => match ctx.spec_get_field(field) {
            None => EvalOutcome::MissingField(field),
            Some(v) => EvalOutcome::Value(
                v matches ValueV::String(s) && spec_str_ends_with(s, suffix),
            ),
        },
        ExprV::Exists { field } => EvalOutcome::Value(ctx.spec_get_field(field) is Some),
        ExprV::NotExists { field } => EvalOutcome::Value(ctx.spec_get_field(field) is None),
        ExprV::Custom { predicate, args: _ } => EvalOutcome::Unsupported(predicate),
    }
}

/// Conjunction over children, in order, stopping at the first `false` or the
/// first failure; an empty conjunction is `true`.
pub open spec fn spec_eval_and(es: Seq<ExprV>, ctx: ContextV) -> EvalOutcome
    decreases es,
{
    if es.len() == 0 {
        EvalOutcome::Value(true)
    } else {
        match spec_eval_expr(es[0], ctx) {
            EvalOutcome::Value(true) => spec_eval_and(es.subrange(1, es.len() as int), ctx),
            o => o,
        }
    }
}

/// Disjunction over children, in order, stopping at the first `true` or the
/// first failure; an empty disjunction is `false`.
pub open spec fn spec_eval_or(es: Seq<ExprV>, ctx: ContextV) -> EvalOutcome
    decreases es,
{
    if es.len() == 0 {
        EvalOutcome::Value(false)
    } else {
        match spec_eval_expr(es[0], ctx) {
            EvalOutcome::Value(false) => spec_eval_or(es.subrange(1, es.len() as int), ctx),
            o => o,
        }
    }
}

/// How the executable evaluator reports an outcome: booleans verbatim, a
/// missing field as `MissingContextField` naming the field, an unsupported
/// predicate as `RuleEvaluationFailed` naming the predicate.
pub open spec fn spec_outcome_matches(
    o: EvalOutcome,
    r: Result<bool, EvaluationError>,
) -> bool {
    match o {
        EvalOutcome::Value(b) => r == Result::<bool, EvaluationError>::Ok(b),
        EvalOutcome::MissingField(f) => r matches Err(EvaluationError::MissingContextField(s))
            && s@ == f,
        EvalOutcome::Unsupported(p) => r matches Err(EvaluationError::RuleEvaluationFailed(m))
            && m@ == "Custom predicate '"@ + p + "' not implemented"@,
    }
}

/// The message a rule result carries: the authored error message on failure
/// when one exists, otherwise a generic passed or failed line naming the rule.
pub open spec fn spec_rule_message(rule: RuleV, passed: bool) -> Seq<char> {
    if passed {
        "Rule '"@ + rule.name + "' passed"@
    } else {
        match rule.error_message {
            Some(m) => m,
            None => "Rule '"@ + rule.name + "' failed"@,
        }
    }
}

/// The rule result recorded for one rule when its expression evaluated to
/// `passed`.
pub open spec fn spec_rule_result(rule: RuleV, passed: bool) -> RuleResultV {
    RuleResultV {
        rule_id: rule.id,
        rule_name: rule.name,
        passed: passed,
        message: spec_rule_message(rule, passed),
        severity: rule.severity,
        actual_value: None,
        expected_value: None,
    }
}

/// The semantics of one exemption condition: false when the field is absent,
/// else the operator applied to the field value and the operand.
pub open spec fn spec_eval_condition(c: ExemptionConditionV, ctx: ContextV) -> bool {
    match ctx.spec_get_field(c.field) {
        None => false,
        Some(v) => match c.operator {
            ConditionOperator::Equals => spec_value_eq(v, c.value),
            ConditionOperator::NotEquals => !spec_value_eq(v, c.value),
            ConditionOperator::GreaterThan => spec_value_cmp(v, c.value) == Some(
                core::cmp::Ordering::Greater,
            ),
            ConditionOperator::LessThan => spec_value_cmp(v, c.value) == Some(
                core::cmp::Ordering::Less,
            ),
            ConditionOperator::Contains => spec_contains_value(v, c.value),
            ConditionOperator::NotContains => !spec_contains_value(v, c.value),
        },
    }
}

/// Whether an exemption applies to a context at an instant: it must be valid
/// at the instant; its scope must match the context (global always matches, a
/// user scope matches the requester, a resource scope matches a string
/// `resource` field, other scopes never match here); and every condition must
/// hold.
pub open spec fn spec_exemption_applies(x: PolicyExemptionV, ctx: ContextV, now: i64) -> bool {
    &&& PolicyExemption::spec_is_valid_at(x, now)
    &&& match x.scope {
        ExemptionScopeV::Global => true,
        ExemptionScopeV::User(u) => ctx.requester == Some(u),
        ExemptionScopeV::Resource(res) => ctx.spec_get_field("resource"@) matches Some(
            ValueV::String(s),
        ) && s == res,
        _ => false,
    }
    &&& forall|i: int|
        0 <= i < x.conditions.len() ==> spec_eval_condition(#[trigger] x.conditions[i], ctx)
}

/// The first registered exemption for the policy that applies, scanning in
/// registration order.
pub open spec fn spec_first_exemption(
    xs: Seq<PolicyExemptionV>,
    policy_id: PolicyId,
    ctx: ContextV,
    now: i64,
) -> Option<ExemptionId>
    decreases xs,
{
    if xs.len() == 0 {
        None
    } else if xs[0].policy_id == policy_id && spec_exemption_applies(xs[0], ctx, now) {
        Some(xs[0].id)
    } else {
        spec_first_exemption(xs.subrange(1, xs.len() as int), policy_id, ctx, now)
    }
}

/// Evaluating all rules in order: the results when every rule evaluated to a
/// boolean, or the first failure.
pub open spec fn spec_eval_rules(rules: Seq<RuleV>, ctx: ContextV) -> Result<
    Seq<RuleResultV>,
    EvalOutcome,
>
    decreases rules,
{
    if rules.len() == 0 {
        Ok(Seq::empty())
    } else {
        match spec_eval_expr(rules[0].expression, ctx) {
            EvalOutcome::Value(b) => match spec_eval_rules(
                rules.subrange(1, rules.len() as int),
                ctx,
            ) {
                Ok(rest) => Ok(seq![spec_rule_result(rules[0], b)] + rest),
                Err(o) => Err(o),
            },
            o => Err(o),
        }
    }
}

/// The overall outcome after recording rule results one by one: compliant
/// while nothing failed; the moment any rule fails, non-compliant carrying
/// one violation per failed rule recorded so far, the failing one included.
pub open spec fn spec_overall(results: Seq<RuleResultV>) -> ComplianceResultV
    decreases results,
{
    if results.len() == 0 {
        ComplianceResultV::Compliant
    } else if results.last().passed {
        spec_overall(results.drop_last())
    } else {
        ComplianceResultV::NonCompliant { violations: spec_violations_of(results) }
    }
}

/// Exemptions valid at the instant, kept in order.
pub open spec fn spec_filter_valid(xs: Seq<PolicyExemptionV>, now: i64) -> Seq<PolicyExemptionV>
    decreases xs,
{
    if xs.len() == 0 {
        Seq::empty()
    } else {
        let rest = spec_filter_valid(xs.subrange(1, xs.len() as int), now);
        if PolicyExemption::spec_is_valid_at(xs[0], now) {
            seq![xs[0]] + rest
        } else {
            rest
        }
    }
}

/// Everything the evaluation of one policy at one instant pins down about
/// its outcome: an ineffective policy is exactly the not-active error; an
/// applicable exemption short-circuits to compliance-with-exemption with no
/// rules evaluated; otherwise the rule results and the folded overall
/// outcome are fully determined, and a rule failure surfaces as exactly the
/// corresponding error.
pub open spec fn spec_evaluate_post(
    xs: Seq<PolicyExemptionV>,
    p: PolicyV,
    ctx: ContextV,
    now: i64,
    r: Result<PolicyEvaluation, EvaluationError>,
) -> bool {
    &&& (!Policy::spec_is_effective_at(p, now) <==> (r matches Err(
        EvaluationError::PolicyNotActive(pid),
    ) && pid == p.id))
    &&& (Policy::spec_is_effective_at(p, now) ==> match spec_first_exemption(xs, p.id, ctx, now) {
        Some(xid) => r matches Ok(ev) && ev.deep_view().policy_id == p.id
            && ev.deep_view().context == ctx && ev.deep_view().rule_results.len() == 0
            && ev.deep_view().overall_result == (ComplianceResultV::CompliantWithExemption {
            exemption_id: xid,
        }),
        None => match spec_eval_rules(p.rules, ctx) {
            Ok(results) => r matches Ok(ev) && ev.deep_view().policy_id == p.id
                && ev.deep_view().context == ctx && ev.deep_view().rule_results == results
                && ev.deep_view().overall_result == spec_overall(results),
            Err(o) => r matches Err(e) && spec_outcome_matches(
                o,
                Result::<bool, EvaluationError>::Err(e),
            ),
        },
    })
}

/// Service that evaluates policies against contexts, consulting the
/// exemptions registered with it.
pub struct PolicyEvaluator {
    /// Registered exemptions, in registration order.
    pub exemptions: Vec<PolicyExemption>,
}

impl PolicyEvaluator {
    /// The registered exemptions as a mathematical sequence.
    pub open spec fn spec_exemptions(&self) -> Seq<PolicyExemptionV> {
        self.exemptions.deep_view()
    }

    /// Creates an evaluator with no registered exemptions.
    pub fn new() -> (r: PolicyEvaluator)
        ensures
            r.spec_exemptions().len() == 0,
    {
        let r = PolicyEvaluator { exemptions: Vec::new() };
        proof {
            assert(r.exemptions.deep_view() =~= Seq::<PolicyExemptionV>::empty());
        }
        r
    }

    /// Registers the exemptions that are valid when the call is made; the
    /// others are dropped. Registration order is kept.
    pub fn register_exemptions(&mut self, exemptions: Vec<PolicyExemption>)
        ensures
            exists|now: i64|
                final(self).spec_exemptions() == old(self).spec_exemptions()
                    + spec_filter_valid(exemptions.deep_view(), now),
    {
        let now = now_millis();
        self.register_exemptions_at(exemptions, now);
    }

    /// Registers the exemptions that are valid at the given instant; the
    /// others are dropped. Registration order is kept.
    #[verifier::loop_isolation(false)]
    pub fn register_exemptions_at(&mut self, exemptions: Vec<PolicyExemption>, now: i64)
        ensures
            final(self).spec_exemptions() == old(self).spec_exemptions() + spec_filter_valid(
                exemptions.deep_view(),
                now,
            ),
    {
        proof {
            assert(exemptions.deep_view().subrange(0, exemptions.deep_view().len() as int)
                =~= exemptions.deep_view());
        }
        let mut i: usize = 0;
        while i < exemptions.len()
            invariant
                0 <= i <= exemptions@.len(),
                exemptions@.len() == exemptions.deep_view().len(),
                old(self).spec_exemptions() + spec_filter_valid(exemptions.deep_view(), now)
                    == self.spec_exemptions() + spec_filter_valid(
                    exemptions.deep_view().subrange(i as int, exemptions.deep_view().len() as int),
                    now,
                ),
            decreases exemptions@.len() - i,
        {
            proof {
                let all = exemptions.deep_view();
                let tail = all.subrange(i as int, all.len() as int);
                assert(tail[0] == all[i as int]);
                assert(tail.subrange(1, tail.len() as int) =~= all.subrange(
                    i + 1,
                    all.len() as int,
                ));
            }
            let x = &exemptions[i];
            if x.is_valid_at(now) {
                let copy = x.deep_clone();
                let ghost pre = self.exemptions.deep_view();
                let ghost copy_view = copy.deep_view();
                self.exemptions.push(copy);
                proof {
                    assert(self.exemptions.deep_view() =~= pre.push(copy_view));
                }
            }
            i = i + 1;
            proof {
                let all = exemptions.deep_view();
                assert(old(self).spec_exemptions() + spec_filter_valid(all, now)
                    =~= self.spec_exemptions() + spec_filter_valid(
                    all.subrange(i as int, all.len() as int),
                    now,
                ));
            }
        }
        proof {
            let all = exemptions.deep_view();
            assert(all.subrange(i as int, all.len() as int) =~= Seq::<PolicyExemptionV>::empty());
            assert(self.spec_exemptions() =~= old(self).spec_exemptions() + spec_filter_valid(
                all,
                now,
            ));
        }
    }

    /// Interprets one rule expression against a context.
    #[verifier::loop_isolation(false)]
    pub fn evaluate_expression(&self, expr: &RuleExpression, context: &EvaluationContext) -> (r:
        Result<bool, EvaluationError>)
        ensures
            spec_outcome_matches(spec_eval_expr(expr.deep_view(), context.deep_view()), r),
        decreases *expr,
    {
        match expr {
            RuleExpression::Equal { field, value } => {
                proof {
                    assert(expr.deep_view() == (ExprV::Equal {
                        field: field@,
                        value: value.deep_view(),
                    }));
                }
                match context.get_field(field.as_str()) {
                    None => Err(EvaluationError::MissingContextField(field.clone())),
                    Some(v) => Ok(value_eq(v, value)),
                }
            },
            RuleExpression::NotEqual { field, value } => {
                proof {
                    assert(expr.deep_view() == (ExprV::NotEqual {
                        field: field@,
                        value: value.deep_view(),
                    }));
                }
                match context.get_field(field.as_str()) {
                    None => Err(EvaluationError::MissingContextField(field.clone())),
                    Some(v) => Ok(!value_eq(v, value)),
                }
            },
            RuleExpression::GreaterThan { field, value } => {
                proof {
                    assert(expr.deep_view() == (ExprV::GreaterThan {
                        field: field@,
                        value: value.deep_view(),
                    }));
                }
                match context.get_field(field.as_str()) {
                    None => Err(EvaluationError::MissingContextField(field.clone())),
                    Some(v) => Ok(
                        matches!(value_cmp(v, value), Some(core::cmp::Ordering::Greater)),
                    ),
                }
            },
            RuleExpression::GreaterThanOrEqual { field, value } => {
                proof {
                    assert(expr.deep_view() == (ExprV::GreaterThanOrEqual {
                        field: field@,
                        value: value.deep_view(),
                    }));
                }
                match context.get_field(field.as_str()) {
                    None => Err(EvaluationError::MissingContextField(field.clone())),
                    Some(v) => Ok(
                        matches!(
                            value_cmp(v, value),
                            Some(core::cmp::Ordering::Greater) | Some(core::cmp::Ordering::Equal)
                        ),
                    ),
                }
            },
            RuleExpression::LessThan { field, value } => {
                proof {
                    assert(expr.deep_view() == (ExprV::LessThan {
                        field: field@,
                        value: value.deep_view(),
                    }));
                }
                match context.get_field(field.as_str()) {
                    None => Err(EvaluationError::MissingContextField(field.clone())),
                    Some(v) => Ok(matches!(value_cmp(v, value), Some(core::cmp::Ordering::Less))),
                }
            },
            RuleExpression::LessThanOrEqual { field, value } => {
                proof {
                    assert(expr.deep_view() == (ExprV::LessThanOrEqual {
                        field: field@,
                        value: value.deep_view(),
                    }));
                }
                match context.get_field(field.as_str()) {
                    None => Err(EvaluationError::MissingContextField(field.clone())),
                    Some(v) => Ok(
                        matches!(
                            value_cmp(v, value),
                            Some(core::cmp::Ordering::Less) | Some(core::cmp::Ordering::Equal)
                        ),
                    ),
                }
            },
            RuleExpression::And(exprs) => {
                proof {
                    assert(expr.deep_view() == ExprV::And(exprs_view(exprs@)));
                    lemma_exprs_view(exprs@);
                    assert(exprs_view(exprs@).subrange(0, exprs_view(exprs@).len() as int)
                        =~= exprs_view(exprs@));
                }
                let mut i: usize = 0;
                while i < exprs.len()
                    invariant
                        0 <= i <= exprs@.len(),
                        spec_eval_and(exprs_view(exprs@), context.deep_view()) == spec_eval_and(
                            exprs_view(exprs@).subrange(i as int, exprs_view(exprs@).len() as int),
                            context.deep_view(),
                        ),
                    decreases exprs@.len() - i,
                {
                    proof {
                        let all = exprs_view(exprs@);
                        let tail = all.subrange(i as int, all.len() as int);
                        assert(tail[0] == all[i as int]);
                        assert(tail.subrange(1, tail.len() as int) =~= all.subrange(
                            i + 1,
                            all.len() as int,
                        ));
                    }
                    let b = match self.evaluate_expression(&exprs[i], context) {
                        Ok(b) => b,
                        Err(e) => {
                            return Err(e);
                        },
                    };
                    if !b {
                        return Ok(false);
                    }
                    i = i + 1;
                }
                proof {
                    assert(exprs_view(exprs@).subrange(i as int, exprs_view(exprs@).len() as int)
                        =~= Seq::<ExprV>::empty());
                }
                Ok(true)
            },
            RuleExpression::Or(exprs) => {
                proof {
                    assert(expr.deep_view() == ExprV::Or(exprs_view(exprs@)));
                    lemma_exprs_view(exprs@);
                    assert(exprs_view(exprs@).subrange(0, exprs_view(exprs@).len() as int)
                        =~= exprs_view(exprs@));
                }
                let mut i: usize = 0;
                while i < exprs.len()
                    invariant
                        0 <= i <= exprs@.len(),
                        spec_eval_or(exprs_view(exprs@), context.deep_view()) == spec_eval_or(
                            exprs_view(exprs@).subrange(i as int, exprs_view(exprs@).len() as int),
                            context.deep_view(),
                        ),
                    decreases exprs@.len() - i,
                {
                    proof {
                        let all = exprs_view(exprs@);
                        let tail = all.subrange(i as int, all.len() as int);
                        assert(tail[0] == all[i as int]);
                        assert(tail.subrange(1, tail.len() as int) =~= all.subrange(
                            i + 1,
                            all.len() as int,
                        ));
                    }
                    let b = match self.evaluate_expression(&exprs[i], context) {
                        Ok(b) => b,
                        Err(e) => {
                            return Err(e);
                        },
                    };
                    if b {
                        return Ok(true);
                    }
                    i = i + 1;
                }
                proof {
                    assert(exprs_view(exprs@).subrange(i as int, exprs_view(exprs@).len() as int)
                        =~= Seq::<ExprV>::empty());
                }
                Ok(false)
            },
            RuleExpression::Not(inner) => {
                proof {
                    assert(expr.deep_view() == ExprV::Not(Box::new(inner.deep_view())));
                }
                match self.evaluate_expression(inner, context) {
                    Ok(b) => Ok(!b),
                    Err(e) => Err(e),
                }
            },
            RuleExpression::In { field, values } => {
                proof {
                    assert(expr.deep_view() == (ExprV::In {
                        field: field@,
                        values: values_view(values@),
                    }));
                }
                let ra: Result<bool, EvaluationError> = match context.get_field(field.as_str()) {
                    None => Err(EvaluationError::MissingContextField(field.clone())),
                    Some(v) => Ok(contains_value_list(values, v)),
                };
                proof {
                    assert(spec_outcome_matches(
                        spec_eval_expr(expr.deep_view(), context.deep_view()),
                        ra,
                    ));
                }
                return ra;
            },
            RuleExpression::NotIn { field, values } => {
                proof {
                    assert(expr.deep_view() == (ExprV::NotIn {
                        field: field@,
                        values: values_view(values@),
                    }));
                }
                let ra: Result<bool, EvaluationError> = match context.get_field(field.as_str()) {
                    None => Err(EvaluationError::MissingContextField(field.clone())),
                    Some(v) => Ok(!contains_value_list(values, v)),
                };
                proof {
                    assert(spec_outcome_matches(
                        spec_eval_expr(expr.deep_view(), context.deep_view()),
                        ra,
                    ));
                }
                return ra;
            },
            RuleExpression::Contains { field, value } => {
                proof {
                    assert(expr.deep_view() == (ExprV::Contains {
                        field: field@,
                        value: value.deep_view(),
                    }));
                }
                let ra: Result<bool, EvaluationError> = match context.get_field(field.as_str()) {
                    None => Err(EvaluationError::MissingContextField(field.clone())),
                    Some(v) => Ok(contains_value(v, value)),
                };
                proof {
                    assert(spec_outcome_matches(
                        spec_eval_expr(expr.deep_view(), context.deep_view()),
                        ra,
                    ));
                }
                return ra;
            },
            RuleExpression::Matches { field, pattern } => {
                proof {
                    assert(expr.deep_view() == (ExprV::Matches {
                        field: field@,
                        pattern: pattern@,
                    }));
                }
                match context.get_field(field.as_str()) {
                    None => Err(EvaluationError::MissingContextField(field.clone())),
                    Some(v) => match v {
                        Value::String(s) => Ok(str_contains(s.as_str(), pattern.as_str())),
                        _ => Ok(false),
                    },
                }
            },
            RuleExpression::StartsWith { field, prefix } => {
                proof {
                    assert(expr.deep_view() == (ExprV::StartsWith {
                        field: field@,
                        prefix: prefix@,
                    }));
                }
                match context.get_field(field.as_str()) {
                    None => Err(EvaluationError::MissingContextField(field.clone())),
                    Some(v) => match v {
                        Value::String(s) => Ok(str_starts_with(s.as_str(), prefix.as_str())),
                        _ => Ok(false),
                    },
                }
            },
            RuleExpression::EndsWith { field, suffix } => {
                proof {
                    assert(expr.deep_view() == (ExprV::EndsWith {
                        field: field@,
                        suffix: suffix@,
                    }));
                }
                match context.get_field(field.as_str()) {
                    None => Err(EvaluationError::MissingContextField(field.clone())),
                    Some(v) => match v {
                        Value::String(s) => Ok(str_ends_with(s.as_str(), suffix.as_str())),
                        _ => Ok(false),
                    },
                }
            },
            RuleExpression::Exists { field } => {
                proof {
                    assert(expr.deep_view() == (ExprV::Exists { field: field@ }));
                }
                Ok(context.get_field(field.as_str()).is_some())
            },
            RuleExpression::NotExists { field } => {
                proof {
                    assert(expr.deep_view() == (ExprV::NotExists { field: field@ }));
                }
                Ok(context.get_field(field.as_str()).is_none())
            },
            RuleExpression::Custom { predicate, args } => {
                proof {
                    assert(expr.deep_view() == (ExprV::Custom {
                        predicate: predicate@,
                        args: crate::value_objects::entries_view(args@),
                    }));
                }
                let mut message = String::from_str("Custom predicate '");
                message.append(predicate.as_str());
                message.append("' not implemented");
                Err(EvaluationError::RuleEvaluationFailed(message))
            },
        }
    }

    /// Evaluates one rule and records its outcome.
    pub fn evaluate_rule(&self, rule: &PolicyRule, context: &EvaluationContext) -> (r: Result<
        RuleResult,
        EvaluationError,
    >)
        ensures
            match spec_eval_expr(rule.deep_view().expression, context.deep_view()) {
                EvalOutcome::Value(b) => r matches Ok(rr) && rr.deep_view() == spec_rule_result(
                    rule.deep_view(),
                    b,
                ),
                o => r matches Err(e) && spec_outcome_matches(
                    o,
                    Result::<bool, EvaluationError>::Err(e),
                ),
            },
    {
        let passed = match self.evaluate_expression(&rule.expression, context) {
            Ok(b) => b,
            Err(e) => {
                return Err(e);
            },
        };
        let message: String = if passed {
            let mut m = String::from_str("Rule '");
            m.append(rule.name.as_str());
            m.append("' passed");
            m
        } else {
            match &rule.error_message {
                Some(m) => m.clone(),
                None => {
                    let mut m = String::from_str("Rule '");
                    m.append(rule.name.as_str());
                    m.append("' failed");
                    m
                },
            }
        };
        Ok(RuleResult {
            rule_id: rule.id,
            rule_name: rule.name.clone(),
            passed,
            message,
            severity: rule.severity,
            actual_value: None,
            expected_value: None,
        })
    }

    /// Returns whether one exemption condition holds of the context.
    pub fn evaluate_condition(&self, condition: &ExemptionCondition, context: &EvaluationContext)
        -> (r: bool)
        ensures
            r == spec_eval_condition(condition.deep_view(), context.deep_view()),
    {
        let field_value = match context.get_field(condition.field.as_str()) {
            Some(v) => v,
            None => {
                return false;
            },
        };
        match condition.operator {
            ConditionOperator::Equals => value_eq(field_value, &condition.value),
            ConditionOperator::NotEquals => !value_eq(field_value, &condition.value),
            ConditionOperator::GreaterThan => matches!(
                value_cmp(field_value, &condition.value),
                Some(core::cmp::Ordering::Greater)
            ),
            ConditionOperator::LessThan => matches!(
                value_cmp(field_value, &condition.value),
                Some(core::cmp::Ordering::Less)
            ),
            ConditionOperator::Contains => contains_value(field_value, &condition.value),
            ConditionOperator::NotContains => !contains_value(field_value, &condition.value),
        }
    }

    /// Returns whether an exemption applies to the context at the instant.
    #[verifier::loop_isolation(false)]
    pub fn exemption_applies_at(
        &self,
        exemption: &PolicyExemption,
        context: &EvaluationContext,
        now: i64,
    ) -> (r: bool)
        ensures
            r == spec_exemption_applies(exemption.deep_view(), context.deep_view(), now),
    {
        if !exemption.is_valid_at(now) {
            return false;
        }
        let scope_matches: bool = match &exemption.scope {
            crate::aggregate::ExemptionScope::Global => true,
            crate::aggregate::ExemptionScope::User(user) => {
                match &context.requester {
                    Some(requester) => *requester == *user,
                    None => false,
                }
            },
            crate::aggregate::ExemptionScope::Resource(resource) => {
                match context.get_field("resource") {
                    Some(v) => match v {
                        Value::String(s) => crate::value_objects::str_eq(
                            s.as_str(),
                            resource.as_str(),
                        ),
                        _ => false,
                    },
                    None => false,
                }
            },
            _ => false,
        };
        if !scope_matches {
            return false;
        }
        let mut i: usize = 0;
        while i < exemption.conditions.len()
            invariant
                0 <= i <= exemption.conditions@.len(),
                forall|j: int|
                    0 <= j < i ==> spec_eval_condition(
                        #[trigger] exemption.conditions.deep_view()[j],
                        context.deep_view(),
                    ),
            decreases exemption.conditions@.len() - i,
        {
            if !self.evaluate_condition(&exemption.conditions[i], context) {
                proof {
                    assert(!spec_eval_condition(
                        exemption.deep_view().conditions[i as int],
                        context.deep_view(),
                    ));
                }
                return false;
            }
            i = i + 1;
        }
        true
    }

    /// Evaluates a policy against a context at a given instant.
    ///
    /// An ineffective policy is refused outright. Otherwise the first
    /// registered exemption for this policy that applies short-circuits to
    /// compliance-with-exemption, with no rules evaluated. Otherwise every
    /// rule is evaluated in order; a rule failure makes the run
    /// non-compliant, and a rule that cannot be evaluated aborts the whole
    /// run with its error.
    #[verifier::loop_isolation(false)]
    #[verifier::rlimit(100)]
    pub fn evaluate_at(&self, policy: &Policy, context: &EvaluationContext, now: i64) -> (r:
        Result<PolicyEvaluation, EvaluationError>)
        ensures
            spec_evaluate_post(
                self.spec_exemptions(),
                policy.deep_view(),
                context.deep_view(),
                now,
                r,
            ),
    {
        if !policy.is_effective_at(now) {
            return Err(EvaluationError::PolicyNotActive(policy.id));
        }
        let mut evaluation = PolicyEvaluation::new(policy.id, context.clone());

        // Check for an applicable exemption first.
        proof {
            assert(self.spec_exemptions().subrange(0, self.spec_exemptions().len() as int)
                =~= self.spec_exemptions());
        }
        let mut i: usize = 0;
        while i < self.exemptions.len()
            invariant
                0 <= i <= self.exemptions@.len(),
                self.exemptions@.len() == self.spec_exemptions().len(),
                spec_first_exemption(
                    self.spec_exemptions(),
                    policy.deep_view().id,
                    context.deep_view(),
                    now,
                ) == spec_first_exemption(
                    self.spec_exemptions().subrange(i as int, self.spec_exemptions().len() as int),
                    policy.deep_view().id,
                    context.deep_view(),
                    now,
                ),
                evaluation.deep_view().policy_id == policy.deep_view().id,
                evaluation.deep_view().context == context.deep_view(),
                evaluation.deep_view().rule_results.len() == 0,
                evaluation.deep_view().overall_result == ComplianceResultV::Compliant,
            decreases self.exemptions@.len() - i,
        {
            proof {
                let all = self.spec_exemptions();
                let tail = all.subrange(i as int, all.len() as int);
                assert(tail[0] == all[i as int]);
                assert(tail.subrange(1, tail.len() as int) =~= all.subrange(
                    i + 1,
                    all.len() as int,
                ));
            }
            let x = &self.exemptions[i];
            if x.policy_id.0 == policy.id.0 && self.exemption_applies_at(x, context, now) {
                evaluation.overall_result = ComplianceResult::CompliantWithExemption {
                    exemption_id: x.id,
                };
                return Ok(evaluation);
            }
            i = i + 1;
        }
        proof {
            assert(self.spec_exemptions().subrange(i as int, self.spec_exemptions().len() as int)
                =~= Seq::<PolicyExemptionV>::empty());
        }

        // Evaluate every rule in order.
        let ghost rules_all = policy.deep_view().rules;
        let ghost rules_outcome = spec_eval_rules(rules_all, context.deep_view());
        proof {
            assert(rules_all.subrange(0, rules_all.len() as int) =~= rules_all);
            if rules_outcome is Ok {
                assert(rules_outcome->Ok_0.subrange(0, 0) =~= Seq::<RuleResultV>::empty());
                assert(evaluation.deep_view().rule_results =~= rules_outcome->Ok_0.subrange(0, 0));
                assert(rules_outcome->Ok_0.subrange(0, rules_outcome->Ok_0.len() as int)
                    =~= rules_outcome->Ok_0);
            }
        }
        let mut k: usize = 0;
        while k < policy.rules.len()
            invariant
                0 <= k <= policy.rules@.len(),
                policy.rules@.len() == rules_all.len(),
                rules_all == policy.deep_view().rules,
                rules_outcome == spec_eval_rules(rules_all, context.deep_view()),
                evaluation.deep_view().policy_id == policy.deep_view().id,
                evaluation.deep_view().context == context.deep_view(),
                evaluation.deep_view().rule_results.len() == k,
                evaluation.deep_view().overall_result == spec_overall(
                    evaluation.deep_view().rule_results,
                ),
                rules_outcome is Ok ==> k <= rules_outcome->Ok_0.len()
                    && evaluation.deep_view().rule_results == rules_outcome->Ok_0.subrange(
                    0,
                    k as int,
                ),
                spec_eval_rules(
                    rules_all.subrange(k as int, rules_all.len() as int),
                    context.deep_view(),
                ) == (match rules_outcome {
                    Ok(all) => Result::<Seq<RuleResultV>, EvalOutcome>::Ok(
                        all.subrange(k as int, all.len() as int),
                    ),
                    Err(o) => Result::<Seq<RuleResultV>, EvalOutcome>::Err(o),
                }),
            decreases policy.rules@.len() - k,
        {
            proof {
                let tail = rules_all.subrange(k as int, rules_all.len() as int);
                assert(tail[0] == rules_all[k as int]);
                assert(tail.subrange(1, tail.len() as int) =~= rules_all.subrange(
                    k + 1,
                    rules_all.len() as int,
                ));
            }
            let result = match self.evaluate_rule(&policy.rules[k], context) {
                Ok(rr) => rr,
                Err(e) => {
                    proof {
                        assert(rules_outcome is Err);
                    }
                    return Err(e);
                },
            };
            proof {
                lemma_violations_of_push(evaluation.deep_view().rule_results, result.deep_view());
                if rules_outcome is Ok {
                    let all = rules_outcome->Ok_0;
                    let tail_result = spec_eval_rules(
                        rules_all.subrange(k as int, rules_all.len() as int),
                        context.deep_view(),
                    );
                    let rest = all.subrange(k as int, all.len() as int);
                    assert(rest.len() > 0);
                    assert(rest[0] == result.deep_view()) by {
                        assert(tail_result->Ok_0 == rest);
                    }
                }
            }
            let ghost pre_results = evaluation.deep_view().rule_results;
            evaluation.add_rule_result(result);
            k = k + 1;
            proof {
                assert(evaluation.deep_view().rule_results.drop_last() =~= pre_results);
                let ctxv = context.deep_view();
                let tail_old = rules_all.subrange(k - 1, rules_all.len() as int);
                let tail_new = rules_all.subrange(k as int, rules_all.len() as int);
                assert(tail_old.subrange(1, tail_old.len() as int) =~= tail_new);
                let inner = spec_eval_rules(tail_new, ctxv);
                if rules_outcome is Ok {
                    let all = rules_outcome->Ok_0;
                    let rest_old = all.subrange(k - 1, all.len() as int);
                    assert(spec_eval_rules(tail_old, ctxv) == Result::<
                        Seq<RuleResultV>,
                        EvalOutcome,
                    >::Ok(rest_old));
                    assert(rest_old.len() > 0);
                    assert(inner is Ok);
                    assert(seq![result.deep_view()] + inner->Ok_0 == rest_old);
                    assert(inner->Ok_0 =~= rest_old.subrange(1, rest_old.len() as int));
                    assert(rest_old.subrange(1, rest_old.len() as int) =~= all.subrange(
                        k as int,
                        all.len() as int,
                    ));
                    assert(result.deep_view() == rest_old[0]);
                    assert(rest_old[0] == all[k - 1]);
                    assert(evaluation.deep_view().rule_results =~= all.subrange(0, k as int));
                    assert(all.subrange(0, k as int).drop_last() =~= all.subrange(0, k - 1));
                }
            }
        }
        proof {
            let ctxv = context.deep_view();
            let tail = rules_all.subrange(k as int, rules_all.len() as int);
            assert(tail =~= Seq::<RuleV>::empty());
            assert(spec_eval_rules(tail, ctxv) == Result::<Seq<RuleResultV>, EvalOutcome>::Ok(
                Seq::<RuleResultV>::empty(),
            ));
            let all = rules_outcome->Ok_0;
            assert(all.subrange(k as int, all.len() as int).len() == 0);
            assert(all.len() == k);
            assert(all.subrange(0, k as int) =~= all);
        }
        Ok(evaluation)
    }

    /// Evaluates a policy against a context now, by the wall clock: the
    /// outcome is exactly the evaluation at the instant that was read, and
    /// the elapsed time of the run is recorded on the result.
    pub fn evaluate(&self, policy: &Policy, context: &EvaluationContext) -> (r: Result<
        PolicyEvaluation,
        EvaluationError,
    >)
        ensures
            exists|now: i64| #[trigger] spec_evaluate_post(
                self.spec_exemptions(),
                policy.deep_view(),
                context.deep_view(),
                now,
                r,
            ),
            r matches Ok(ev) ==> ev.deep_view().policy_id == policy.deep_view().id
                && ev.deep_view().context == context.deep_view() && (ev.deep_view().overall_result
                == spec_overall(ev.deep_view().rule_results)
                || ev.deep_view().overall_result matches
                ComplianceResultV::CompliantWithExemption { .. })
                && policy.deep_view().status == crate::value_objects::PolicyStatus::Active,
            r matches Err(EvaluationError::PolicyNotActive(pid)) ==> pid == policy.deep_view().id,
    {
        let start = now_millis();
        let result = self.evaluate_at(policy, context, start);
        let end = now_millis();
        let delta: i128 = (end as i128) - (start as i128);
        let elapsed: u64 = if delta < 0 {
            0
        } else if delta > (u64::MAX as i128) {
            u64::MAX
        } else {
            delta as u64
        };
        match result {
            Ok(mut evaluation) => {
                let ghost pre_view = evaluation.deep_view();
                evaluation.execution_time_ms = elapsed;
                proof {
                    assert(evaluation.deep_view().policy_id == pre_view.policy_id);
                    assert(evaluation.deep_view().context == pre_view.context);
                    assert(evaluation.deep_view().rule_results == pre_view.rule_results);
                    assert(evaluation.deep_view().overall_result == pre_view.overall_result);
                    assert(spec_evaluate_post(
                        self.spec_exemptions(),
                        policy.deep_view(),
                        context.deep_view(),
                        start,
                        Result::<PolicyEvaluation, EvaluationError>::Ok(evaluation),
                    ));
                }
                Ok(evaluation)
            },
            Err(e) => Err(e),
        }
    }
}

/// The outcome of one policy's run inside a set evaluation: whether it was
/// compliant and which violations it reported.
pub struct PolicyRunV {
    /// Whether the run counted as compliant.
    pub compliant: bool,
    /// The violations the run reported.
    pub violations: Seq<ViolationV>,
}

/// The first error a set evaluation can stop on.
pub enum PolicyRunError {
    /// The policy was not effective.
    NotActive(PolicyId),
    /// A rule could not be evaluated.
    Rule(EvalOutcome),
}

/// The compliance and violations of one policy evaluated at an instant.
pub open spec fn spec_policy_run(
    p: PolicyV,
    xs: Seq<PolicyExemptionV>,
    ctx: ContextV,
    now: i64,
) -> Result<PolicyRunV, PolicyRunError> {
    if !Policy::spec_is_effective_at(p, now) {
        Err(PolicyRunError::NotActive(p.id))
    } else {
        match spec_first_exemption(xs, p.id, ctx, now) {
            Some(_) => Ok(PolicyRunV { compliant: true, violations: Seq::empty() }),
            None => match spec_eval_rules(p.rules, ctx) {
                Ok(results) => Ok(
                    PolicyRunV {
                        compliant: spec_overall(results).spec_is_compliant(),
                        violations: spec_violations_of(results),
                    },
                ),
                Err(o) => Err(PolicyRunError::Rule(o)),
            },
        }
    }
}

/// The runs of a sequence of policies, or the first error, in order.
pub open spec fn spec_eval_set_runs(
    ps: Seq<PolicyV>,
    xs: Seq<PolicyExemptionV>,
    ctx: ContextV,
    now: i64,
) -> Result<Seq<PolicyRunV>, PolicyRunError>
    decreases ps,
{
    if ps.len() == 0 {
        Ok(Seq::empty())
    } else {
        match spec_policy_run(ps[0], xs, ctx, now) {
            Ok(run) => match spec_eval_set_runs(ps.subrange(1, ps.len() as int), xs, ctx, now) {
                Ok(rest) => Ok(seq![run] + rest),
                Err(e) => Err(e),
            },
            Err(e) => Err(e),
        }
    }
}

/// How many runs were compliant.
pub open spec fn spec_count_compliant(runs: Seq<PolicyRunV>) -> int
    decreases runs,
{
    if runs.len() == 0 {
        0
    } else {
        spec_count_compliant(runs.drop_last()) + if runs.last().compliant {
            1int
        } else {
            0int
        }
    }
}

/// All violations of all runs, concatenated in order.
pub open spec fn spec_all_violations(runs: Seq<PolicyRunV>) -> Seq<ViolationV>
    decreases runs,
{
    if runs.len() == 0 {
        Seq::empty()
    } else {
        spec_all_violations(runs.drop_last()) + runs.last().violations
    }
}

/// The composed outcome of a set of runs under a composition rule: `All`
/// demands that no violation was reported anywhere, `Any` that at least one
/// run was compliant, `Majority` that more than half were, and `AtLeast(n)`
/// that at least `n` were. A failing composition reports the concatenated
/// violations of all runs.
pub open spec fn spec_compose(composition: CompositionRule, runs: Seq<PolicyRunV>)
    -> ComplianceResultV {
    let compliant = spec_count_compliant(runs);
    let violations = spec_all_violations(runs);
    match composition {
        CompositionRule::All => if violations.len() == 0 {
            ComplianceResultV::Compliant
        } else {
            ComplianceResultV::NonCompliant { violations }
        },
        CompositionRule::Any => if compliant > 0 {
            ComplianceResultV::Compliant
        } else {
            ComplianceResultV::NonCompliant { violations }
        },
        CompositionRule::Majority => if compliant > runs.len() / 2 {
            ComplianceResultV::Compliant
        } else {
            ComplianceResultV::NonCompliant { violations }
        },
        CompositionRule::AtLeast(n) => if compliant >= n {
            ComplianceResultV::Compliant
        } else {
            ComplianceResultV::NonCompliant { violations }
        },
    }
}

impl PolicyEvaluator {
    /// Evaluates several policies as a set at a given instant, folding their
    /// compliance into one outcome under the composition rule. The first
    /// policy that cannot be evaluated aborts the whole call with its error.
    #[verifier::loop_isolation(false)]
    #[verifier::rlimit(100)]
    pub fn evaluate_set_at(
        &self,
        policies: Vec<&Policy>,
        context: &EvaluationContext,
        composition: CompositionRule,
        now: i64,
    ) -> (r: Result<ComplianceResult, EvaluationError>)
        ensures
            match spec_eval_set_runs(
                policies.deep_view(),
                self.spec_exemptions(),
                context.deep_view(),
                now,
            ) {
                Ok(runs) => r matches Ok(c) && c.deep_view() == spec_compose(composition, runs),
                Err(PolicyRunError::NotActive(pid)) => r matches Err(
                    EvaluationError::PolicyNotActive(p),
                ) && p == pid,
                Err(PolicyRunError::Rule(o)) => r matches Err(e) && spec_outcome_matches(
                    o,
                    Result::<bool, EvaluationError>::Err(e),
                ),
            },
    {
        let ghost ps = policies.deep_view();
        let ghost xs = self.spec_exemptions();
        let ghost ctxv = context.deep_view();
        let ghost runs_outcome = spec_eval_set_runs(ps, xs, ctxv, now);
        proof {
            assert(ps.subrange(0, ps.len() as int) =~= ps);
        }
        let mut compliant_count: usize = 0;
        let mut violations: Vec<Violation> = Vec::new();
        let ghost runs_so_far: Seq<PolicyRunV> = Seq::empty();
        let mut i: usize = 0;
        proof {
            assert(spec_all_violations(runs_so_far) =~= Seq::<ViolationV>::empty());
            assert(violations.deep_view() =~= Seq::<ViolationV>::empty());
        }
        let mut runs_ghost: Ghost<Seq<PolicyRunV>> = Ghost(runs_so_far);
        proof {
            if runs_outcome is Ok {
                let all = runs_outcome->Ok_0;
                assert(all.subrange(0, 0) =~= Seq::<PolicyRunV>::empty());
                assert(all.subrange(0, all.len() as int) =~= all);
            }
        }
        while i < policies.len()
            invariant
                0 <= i <= policies@.len(),
                policies@.len() == ps.len(),
                runs_outcome == spec_eval_set_runs(ps, xs, ctxv, now),
                runs_ghost@.len() == i,
                compliant_count <= i,
                compliant_count == spec_count_compliant(runs_ghost@),
                violations.deep_view() == spec_all_violations(runs_ghost@),
                runs_outcome is Ok ==> i <= runs_outcome->Ok_0.len() && runs_ghost@
                    == runs_outcome->Ok_0.subrange(0, i as int),
                spec_eval_set_runs(ps.subrange(i as int, ps.len() as int), xs, ctxv, now) == (
                match runs_outcome {
                    Ok(all) => Result::<Seq<PolicyRunV>, PolicyRunError>::Ok(
                        all.subrange(i as int, all.len() as int),
                    ),
                    Err(e) => Result::<Seq<PolicyRunV>, PolicyRunError>::Err(e),
                }),
            decreases policies@.len() - i,
        {
            proof {
                let tail = ps.subrange(i as int, ps.len() as int);
                assert(tail[0] == ps[i as int]);
                assert(tail.subrange(1, tail.len() as int) =~= ps.subrange(
                    i + 1,
                    ps.len() as int,
                ));
            }
            let evaluation = match self.evaluate_at(policies[i], context, now) {
                Ok(ev) => ev,
                Err(e) => {
                    return Err(e);
                },
            };
            let ghost this_run = spec_policy_run(ps[i as int], xs, ctxv, now)->Ok_0;
            let is_ok = evaluation.is_compliant();
            if is_ok {
                compliant_count = compliant_count + 1;
            }
            let mut new_violations = evaluation.violations();
            let ghost nv = new_violations.deep_view();
            let ghost pre_violations = violations.deep_view();
            append_violations(&mut violations, &mut new_violations);
            proof {
                assert(this_run.compliant == is_ok);
                assert(this_run.violations == nv) by {
                    if spec_first_exemption(xs, ps[i as int].id, ctxv, now) is Some {
                        assert(evaluation.deep_view().rule_results
                            =~= Seq::<RuleResultV>::empty());
                        assert(spec_violations_of(evaluation.deep_view().rule_results)
                            =~= Seq::<ViolationV>::empty());
                    }
                }
            }
            let ghost prev_runs = runs_ghost@;
            proof {
                runs_ghost@ = runs_ghost@.push(this_run);
            }
            i = i + 1;
            proof {
                assert(runs_ghost@.drop_last() =~= prev_runs);
                assert(runs_ghost@.last() == this_run);
                assert(violations.deep_view() =~= spec_all_violations(runs_ghost@));
                if runs_outcome is Ok {
                    let all = runs_outcome->Ok_0;
                    let rest_old = all.subrange(i - 1, all.len() as int);
                    assert(rest_old.len() > 0);
                    let inner = spec_eval_set_runs(
                        ps.subrange(i as int, ps.len() as int),
                        xs,
                        ctxv,
                        now,
                    );
                    assert(inner is Ok);
                    assert(seq![this_run] + inner->Ok_0 == rest_old);
                    assert(inner->Ok_0 =~= rest_old.subrange(1, rest_old.len() as int));
                    assert(rest_old.subrange(1, rest_old.len() as int) =~= all.subrange(
                        i as int,
                        all.len() as int,
                    ));
                    assert(this_run == rest_old[0]);
                    assert(runs_ghost@ =~= all.subrange(0, i as int));
                }
            }
        }
        proof {
            let tail = ps.subrange(i as int, ps.len() as int);
            assert(tail =~= Seq::<PolicyV>::empty());
            assert(spec_eval_set_runs(tail, xs, ctxv, now) == Result::<
                Seq<PolicyRunV>,
                PolicyRunError,
            >::Ok(Seq::<PolicyRunV>::empty()));
            let all = runs_outcome->Ok_0;
            assert(all.subrange(i as int, all.len() as int).len() == 0);
            assert(all.len() == i);
            assert(all.subrange(0, i as int) =~= all);
            assert(runs_ghost@ == all);
        }
        let total = policies.len();
        let outcome: ComplianceResult = match composition {
            CompositionRule::All => {
                if violations.len() == 0 {
                    proof {
                        assert(violations.deep_view().len() == 0);
                    }
                    ComplianceResult::Compliant
                } else {
                    ComplianceResult::NonCompliant { violations }
                }
            },
            CompositionRule::Any => {
                if compliant_count > 0 {
                    ComplianceResult::Compliant
                } else {
                    ComplianceResult::NonCompliant { violations }
                }
            },
            CompositionRule::Majority => {
                if compliant_count > total / 2 {
                    ComplianceResult::Compliant
                } else {
                    ComplianceResult::NonCompliant { violations }
                }
            },
            CompositionRule::AtLeast(n) => {
                if compliant_count >= n {
                    ComplianceResult::Compliant
                } else {
                    ComplianceResult::NonCompliant { violations }
                }
            },
        };
        Ok(outcome)
    }

    /// Evaluates several policies as a set now, by the wall clock.
    pub fn evaluate_set(
        &self,
        policies: Vec<&Policy>,
        context: &EvaluationContext,
        composition: CompositionRule,
    ) -> (r: Result<ComplianceResult, EvaluationError>)
        ensures
            exists|now: i64|
                match #[trigger] spec_eval_set_runs(
                    policies.deep_view(),
                    self.spec_exemptions(),
                    context.deep_view(),
                    now,
                ) {
                    Ok(runs) => r matches Ok(c) && c.deep_view() == spec_compose(
                        composition,
                        runs,
                    ),
                    Err(PolicyRunError::NotActive(pid)) => r matches Err(
                        EvaluationError::PolicyNotActive(p),
                    ) && p == pid,
                    Err(PolicyRunError::Rule(o)) => r matches Err(e) && spec_outcome_matches(
                        o,
                        Result::<bool, EvaluationError>::Err(e),
                    ),
                },
    {
        let now = now_millis();
        let r = self.evaluate_set_at(policies, context, composition, now);
        r
    }
}

/// Moves all violations of the second vector to the end of the first.
#[verifier::loop_isolation(false)]
fn append_violations(dst: &mut Vec<Violation>, src: &mut Vec<Violation>)
    ensures
        final(dst).deep_view() == old(dst).deep_view() + old(src).deep_view(),
{
    let ghost target = old(dst).deep_view() + old(src).deep_view();
    let mut i: usize = 0;
    while i < src.len()
        invariant
            0 <= i <= src@.len(),
            src@ == old(src)@,
            dst@.len() == old(dst)@.len() + i,
            dst.deep_view() == old(dst).deep_view() + old(src).deep_view().subrange(0, i as int),
        decreases src@.len() - i,
    {
        let ghost pre = dst.deep_view();
        let v = src[i].clone();
        let ghost vv = v.deep_view();
        dst.push(v);
        i = i + 1;
        proof {
            assert(dst.deep_view() =~= pre.push(vv));
            assert(vv == old(src).deep_view()[i - 1]);
            assert(pre.push(vv) =~= old(dst).deep_view() + old(src).deep_view().subrange(
                0,
                i as int,
            ));
        }
    }
    proof {
        assert(old(src).deep_view().subrange(0, i as int) =~= old(src).deep_view());
        assert(dst.deep_view() =~= old(dst).deep_view() + old(src).deep_view());
    }
}

} // verus!
