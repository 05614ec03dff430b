//! The laws the library states of itself, proved once and for all: the
//! determinism of evaluation, the exemption short-circuit, the composition
//! rules over a set's members, the determinism of replay, and the link
//! between non-compliance and reported violations.

use vstd::prelude::*;
use crate::value_objects::ComplianceResultV;
use crate::entities::{PolicyEvaluation, RuleResultV, spec_violations_of};
use crate::aggregate::{PolicyV, PolicyExemptionV, CompositionRule};
use crate::evaluator::{
    EvaluationError, spec_evaluate_post, spec_overall, spec_first_exemption, PolicyRunV,
    spec_compose, spec_count_compliant, spec_all_violations,
};
use crate::value_objects::ContextV;
use crate::replay::{spec_fold_policy, spec_initial_policy, spec_fold_set, spec_initial_set,
    spec_fold_exemption, spec_initial_exemption};
use crate::events::{PolicyEvent, PolicyCreated, PolicySetCreated, PolicyExemptionGranted};
use crate::aggregate::{Policy, PolicySet, PolicyExemption};

verus! {

broadcast use {vstd::std_specs::vec::group_vec_axioms, vstd::seq::group_seq_axioms};

/// Evaluation is deterministic: two outcomes of evaluating one policy
/// against one context at one instant, under one set of registered
/// exemptions, agree — on success they carry the same rule results and the
/// same overall result, and on failure they fail alike.
pub proof fn lemma_evaluate_deterministic(
    xs: Seq<PolicyExemptionV>,
    p: PolicyV,
    ctx: ContextV,
    now: i64,
    r1: Result<PolicyEvaluation, EvaluationError>,
    r2: Result<PolicyEvaluation, EvaluationError>,
)
    requires
        spec_evaluate_post(xs, p, ctx, now, r1),
        spec_evaluate_post(xs, p, ctx, now, r2),
    ensures
        r1 is Ok <==> r2 is Ok,
        r1 matches Ok(e1) ==> r2 matches Ok(e2) && e1.deep_view().rule_results
            == e2.deep_view().rule_results && e1.deep_view().overall_result
            == e2.deep_view().overall_result && e1.deep_view().policy_id
            == e2.deep_view().policy_id && e1.deep_view().context == e2.deep_view().context,
{
}

/// The exemption short-circuit: when the policy is effective and some
/// registered exemption for it applies at the instant, evaluation succeeds
/// as compliant-with-exemption naming the first applicable exemption, with
/// no rules evaluated — regardless of what the rules would have said.
pub proof fn lemma_exemption_short_circuit(
    xs: Seq<PolicyExemptionV>,
    p: PolicyV,
    ctx: ContextV,
    now: i64,
    r: Result<PolicyEvaluation, EvaluationError>,
)
    requires
        spec_evaluate_post(xs, p, ctx, now, r),
        Policy::spec_is_effective_at(p, now),
        spec_first_exemption(xs, p.id, ctx, now) is Some,
    ensures
        r matches Ok(ev) && ev.deep_view().overall_result == (
        ComplianceResultV::CompliantWithExemption {
            exemption_id: spec_first_exemption(xs, p.id, ctx, now)->Some_0,
        }) && ev.deep_view().rule_results.len() == 0,
{
}

/// An overall non-compliant fold always stems from at least one failed rule
/// result, so the run's violation list is never empty.
pub proof fn lemma_noncompliant_reports_violations(results: Seq<RuleResultV>)
    requires
        spec_overall(results) is NonCompliant,
    ensures
        spec_violations_of(results).len() > 0,
    decreases results.len(),
{
    if results.len() > 0 {
        if results.last().passed {
            lemma_noncompliant_reports_violations(results.drop_last());
            lemma_violations_prefix(results);
        } else {
            crate::entities::lemma_violations_of_push(results.drop_last(), results.last());
            assert(results.drop_last().push(results.last()) =~= results);
        }
    }
}

/// The violations of a sequence include those of its prefix without the
/// last element.
proof fn lemma_violations_prefix(results: Seq<RuleResultV>)
    requires
        results.len() > 0,
    ensures
        spec_violations_of(results).len() >= spec_violations_of(results.drop_last()).len(),
    decreases results.len(),
{
    crate::entities::lemma_violations_of_push(results.drop_last(), results.last());
    assert(results.drop_last().push(results.last()) =~= results);
}

/// The composition laws over three members whose compliance is true, true
/// and false: demanding all of them fails, demanding any succeeds, a
/// majority succeeds (two out of three), and demanding at least three
/// fails.
pub proof fn lemma_composition_laws(runs: Seq<PolicyRunV>)
    requires
        runs.len() == 3,
        runs[0].compliant,
        runs[1].compliant,
        !runs[2].compliant,
        runs[0].violations.len() == 0,
        runs[1].violations.len() == 0,
        runs[2].violations.len() > 0,
    ensures
        spec_compose(CompositionRule::All, runs) is NonCompliant,
        spec_compose(CompositionRule::Any, runs) is Compliant,
        spec_compose(CompositionRule::Majority, runs) is Compliant,
        spec_compose(CompositionRule::AtLeast(3), runs) is NonCompliant,
{
    let two = runs.drop_last();
    let one = two.drop_last();
    let zero = one.drop_last();
    assert(zero.len() == 0);
    assert(one.last() == runs[0]);
    assert(two.last() == runs[1]);
    assert(runs.last() == runs[2]);
    assert(spec_count_compliant(zero) == 0);
    assert(spec_count_compliant(one) == 1);
    assert(spec_count_compliant(two) == 2);
    assert(spec_count_compliant(runs) == 2);
    assert(spec_all_violations(runs).len() > 0) by {
        assert(spec_all_violations(runs) == spec_all_violations(two) + runs[2].violations);
    }
}

/// Replay is deterministic: two reconstructions of one policy from one
/// ordered event history agree on every field of the resulting state.
pub proof fn lemma_replay_deterministic(
    events: Seq<PolicyEvent>,
    c: PolicyCreated,
    p1: Policy,
    p2: Policy,
)
    requires
        events.len() > 0,
        events[0] == PolicyEvent::PolicyCreated(c),
        p1.deep_view() == spec_fold_policy(
            spec_initial_policy(c),
            events.subrange(1, events.len() as int),
        ),
        p2.deep_view() == spec_fold_policy(
            spec_initial_policy(c),
            events.subrange(1, events.len() as int),
        ),
    ensures
        p1.deep_view() == p2.deep_view(),
{
}

/// Replay is deterministic for policy sets as well.
pub proof fn lemma_set_replay_deterministic(
    events: Seq<PolicyEvent>,
    c: PolicySetCreated,
    s1: PolicySet,
    s2: PolicySet,
)
    requires
        events.len() > 0,
        events[0] == PolicyEvent::PolicySetCreated(c),
        s1.deep_view() == spec_fold_set(
            spec_initial_set(c),
            events.subrange(1, events.len() as int),
        ),
        s2.deep_view() == spec_fold_set(
            spec_initial_set(c),
            events.subrange(1, events.len() as int),
        ),
    ensures
        s1.deep_view() == s2.deep_view(),
{
}

/// Replay is deterministic for exemptions as well.
pub proof fn lemma_exemption_replay_deterministic(
    events: Seq<PolicyEvent>,
    c: PolicyExemptionGranted,
    x1: PolicyExemption,
    x2: PolicyExemption,
)
    requires
        events.len() > 0,
        events[0] == PolicyEvent::PolicyExemptionGranted(c),
        x1.deep_view() == spec_fold_exemption(
            spec_initial_exemption(c),
            events.subrange(1, events.len() as int),
        ),
        x2.deep_view() == spec_fold_exemption(
            spec_initial_exemption(c),
            events.subrange(1, events.len() as int),
        ),
    ensures
        x1.deep_view() == x2.deep_view(),
{
}

} // verus!
