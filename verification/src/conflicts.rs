//! Detection and resolution of conflicts between policies: pairwise
//! rule-contradiction analysis gated by target-scope and field overlap, and
//! the configurable resolution strategies.

use vstd::prelude::*;
use vstd::multiset::Multiset;
use crate::value_objects::{
    PolicyTarget, TargetV, targets_view, lemma_targets_view, RuleExpression, ExprV, exprs_view,
    lemma_exprs_view, Value, ValueV, value_cmp, spec_value_cmp, value_eq, spec_value_eq, str_eq,
    PolicyId, entries_view, lemma_entries_view, clone_vec_deep,
};
use crate::entities::{PolicyRule, RuleV, PolicyConflict, ConflictType};
use crate::aggregate::{Policy, PolicyV, ConflictResolution};
use crate::contains::spec_value_in;
use crate::runtime::{fresh_uuid_raw, now_millis};

verus! {

broadcast use {vstd::std_specs::vec::group_vec_axioms, vstd::seq::group_seq_axioms};

/// An error of conflict resolution.
#[derive(Debug)]
pub enum ConflictResolutionError {
    /// No policies were given.
    NoPolicies,
    /// Resolution failed for another reason.
    ResolutionFailed(String),
    /// The conflicts cannot be reconciled under the chosen strategy.
    IrreconcilableConflict(String),
}

/// Whether two target scopes overlap: global overlaps anything, on either
/// side; equal selectors overlap themselves; and a composite overlaps
/// whatever any of its members overlaps.
pub open spec fn spec_targets_overlap(t1: TargetV, t2: TargetV) -> bool
    decreases t1, t2,
{
    if t1 is Global || t2 is Global {
        true
    } else {
        match t1 {
            TargetV::Composite(ts) => spec_any_member_overlaps(ts, t2),
            _ => match t2 {
                TargetV::Composite(ts) => spec_overlaps_any_member(t1, ts),
                _ => spec_plain_targets_equal(t1, t2),
            },
        }
    }
}

/// Whether some member of the composite overlaps the target.
pub open spec fn spec_any_member_overlaps(ts: Seq<TargetV>, t2: TargetV) -> bool
    decreases ts, t2,
{
    exists|i: int| 0 <= i < ts.len() && spec_targets_overlap(#[trigger] ts[i], t2)
}

/// Whether the target overlaps some member of the composite.
pub open spec fn spec_overlaps_any_member(t1: TargetV, ts: Seq<TargetV>) -> bool
    decreases t1, ts,
{
    exists|i: int| 0 <= i < ts.len() && spec_targets_overlap(t1, #[trigger] ts[i])
}

/// Equality of two non-global, non-composite targets.
pub open spec fn spec_plain_targets_equal(t1: TargetV, t2: TargetV) -> bool {
    match t1 {
        TargetV::Organization(a) => t2 matches TargetV::Organization(b) && a == b,
        TargetV::OrganizationUnit(a) => t2 matches TargetV::OrganizationUnit(b) && a == b,
        TargetV::Role(a) => t2 matches TargetV::Role(b) && a == b,
        TargetV::Resource(a) => t2 matches TargetV::Resource(b) && spec_resource_types_equal(
            a,
            b,
        ),
        TargetV::Operation(a) => t2 matches TargetV::Operation(b) && spec_operation_types_equal(
            a,
            b,
        ),
        _ => false,
    }
}

/// Equality of two resource type views.
pub open spec fn spec_resource_types_equal(
    a: crate::value_objects::ResourceTypeV,
    b: crate::value_objects::ResourceTypeV,
) -> bool {
    match a {
        crate::value_objects::ResourceTypeV::Custom(x) => b matches
            crate::value_objects::ResourceTypeV::Custom(y) && x == y,
        _ => !(b is Custom) && a == b,
    }
}

/// Equality of two operation type views.
pub open spec fn spec_operation_types_equal(
    a: crate::value_objects::OperationTypeV,
    b: crate::value_objects::OperationTypeV,
) -> bool {
    match a {
        crate::value_objects::OperationTypeV::Custom(x) => b matches
            crate::value_objects::OperationTypeV::Custom(y) && x == y,
        _ => !(b is Custom) && a == b,
    }
}

/// The set of context fields a rule expression reads: the named field of
/// every comparison, set, string and existence predicate, the union over
/// logical children, and the argument names of a custom predicate.
pub open spec fn spec_fields(e: ExprV) -> Set<Seq<char>>
    decreases e,
{
    match e {
        ExprV::Equal { field, .. } => set![field],
        ExprV::NotEqual { field, .. } => set![field],
        ExprV::GreaterThan { field, .. } => set![field],
        ExprV::GreaterThanOrEqual { field, .. } => set![field],
        ExprV::LessThan { field, .. } => set![field],
        ExprV::LessThanOrEqual { field, .. } => set![field],
        ExprV::And(es) => spec_fields_seq(es),
        ExprV::Or(es) => spec_fields_seq(es),
        ExprV::Not(inner) => spec_fields(*inner),
        ExprV::In { field, .. } => set![field],
        ExprV::NotIn { field, .. } => set![field],
        ExprV::Contains { field, .. } => set![field],
        ExprV::Matches { field, .. } => set![field],
        ExprV::StartsWith { field, .. } => set![field],
        ExprV::EndsWith { field, .. } => set![field],
        ExprV::Exists { field } => set![field],
        ExprV::NotExists { field } => set![field],
        ExprV::Custom { args, .. } => Set::new(
            |f: Seq<char>| exists|i: int| 0 <= i < args.len() && (#[trigger] args[i]).0 == f,
        ),
    }
}

/// The union of the fields of each expression in the sequence.
pub open spec fn spec_fields_seq(es: Seq<ExprV>) -> Set<Seq<char>>
    decreases es,
{
    if es.len() == 0 {
        Set::empty()
    } else {
        spec_fields(es[0]).union(spec_fields_seq(es.subrange(1, es.len() as int)))
    }
}

/// Whether the two expressions read at least one common field.
pub open spec fn spec_common_field(e1: ExprV, e2: ExprV) -> bool {
    exists|f: Seq<char>|
        #[trigger] spec_fields(e1).contains(f) && #[trigger] spec_fields(e2).contains(f)
}

/// Whether the two expressions directly contradict each other: demanding two
/// different values for one field, demanding and forbidding one value,
/// demanding strictly-greater against at-most with crossing bounds, or
/// demanding and forbidding a field's existence.
pub open spec fn spec_are_contradictory(e1: ExprV, e2: ExprV) -> bool {
    match e1 {
        ExprV::Equal { field: f1, value: v1 } => match e2 {
            ExprV::Equal { field: f2, value: v2 } => f1 == f2 && !spec_value_eq(v1, v2),
            ExprV::NotEqual { field: f2, value: v2 } => f1 == f2 && spec_value_eq(v1, v2),
            _ => false,
        },
        ExprV::GreaterThan { field: f1, value: v1 } => match e2 {
            ExprV::LessThanOrEqual { field: f2, value: v2 } => f1 == f2 && spec_value_cmp(v1, v2)
                != Some(core::cmp::Ordering::Less),
            _ => false,
        },
        ExprV::Exists { field: f1 } => e2 matches ExprV::NotExists { field: f2 } && f1 == f2,
        _ => false,
    }
}

/// Whether the two expressions are membership predicates on one field whose
/// value sets overlap without either being a subset of the other.
pub open spec fn spec_are_overlapping(e1: ExprV, e2: ExprV) -> bool {
    match e1 {
        ExprV::In { field: f1, values: v1 } => match e2 {
            ExprV::In { field: f2, values: v2 } => f1 == f2 && !spec_values_subset(v1, v2)
                && !spec_values_subset(v2, v1),
            _ => false,
        },
        _ => false,
    }
}

/// Whether every value of the first list occurs in the second.
pub open spec fn spec_values_subset(a: Seq<ValueV>, b: Seq<ValueV>) -> bool {
    forall|i: int| 0 <= i < a.len() ==> spec_value_in(b, #[trigger] a[i])
}

/// Whether the two expressions create an impossible condition: a strict
/// lower bound at or above a strict upper bound on one field.
pub open spec fn spec_impossible(e1: ExprV, e2: ExprV) -> bool {
    match e1 {
        ExprV::GreaterThan { field: f1, value: v1 } => match e2 {
            ExprV::LessThan { field: f2, value: v2 } => f1 == f2 && spec_value_cmp(v1, v2) != Some(
                core::cmp::Ordering::Less,
            ),
            _ => false,
        },
        _ => false,
    }
}

/// The conflict two rules create, if any: nothing without a common field,
/// else the first of contradiction, overlap and impossibility that holds.
pub open spec fn spec_rule_conflict(r1: RuleV, r2: RuleV) -> Option<ConflictType> {
    if !spec_common_field(r1.expression, r2.expression) {
        None
    } else if spec_are_contradictory(r1.expression, r2.expression) {
        Some(ConflictType::Contradiction)
    } else if spec_are_overlapping(r1.expression, r2.expression) {
        Some(ConflictType::Overlap)
    } else if spec_impossible(r1.expression, r2.expression) {
        Some(ConflictType::Impossible)
    } else {
        None
    }
}

/// The first conflicting rule pair between two rule lists, scanning the
/// first list outermost: the conflict's kind, if one exists.
pub open spec fn spec_first_rule_conflict(rules1: Seq<RuleV>, rules2: Seq<RuleV>) -> Option<
    ConflictType,
>
    decreases rules1,
{
    if rules1.len() == 0 {
        None
    } else {
        match spec_rule_conflict_with_list(rules1[0], rules2) {
            Some(ct) => Some(ct),
            None => spec_first_rule_conflict(rules1.subrange(1, rules1.len() as int), rules2),
        }
    }
}

/// The first conflict one rule creates against a list of rules, in order.
pub open spec fn spec_rule_conflict_with_list(r1: RuleV, rules2: Seq<RuleV>) -> Option<
    ConflictType,
>
    decreases rules2,
{
    if rules2.len() == 0 {
        None
    } else {
        match spec_rule_conflict(r1, rules2[0]) {
            Some(ct) => Some(ct),
            None => spec_rule_conflict_with_list(r1, rules2.subrange(1, rules2.len() as int)),
        }
    }
}

/// The conflict between two policies, if any: their targets must overlap,
/// and detection stops at the first conflicting rule pair.
pub open spec fn spec_policy_pair_conflict(p1: PolicyV, p2: PolicyV) -> Option<ConflictType> {
    if !spec_targets_overlap(p1.target, p2.target) {
        None
    } else {
        spec_first_rule_conflict(p1.rules, p2.rules)
    }
}

/// Service for detecting and resolving conflicts between policies.
pub struct PolicyConflictResolver {
    /// The strategy applied when conflicts are found.
    pub resolution_strategy: ConflictResolution,
}

impl PolicyConflictResolver {
    /// Creates a resolver with the given default strategy.
    pub fn new(resolution_strategy: ConflictResolution) -> (r: PolicyConflictResolver)
        ensures
            r.resolution_strategy == resolution_strategy,
    {
        PolicyConflictResolver { resolution_strategy }
    }
}

/// Returns whether two resource types are equal.
fn resource_types_equal(a: &crate::value_objects::ResourceType, b: &crate::value_objects::ResourceType) -> (r: bool)
    ensures
        r == spec_resource_types_equal(a.deep_view(), b.deep_view()),
{
    match (a, b) {
        (crate::value_objects::ResourceType::Certificate, crate::value_objects::ResourceType::Certificate) => true,
        (crate::value_objects::ResourceType::Key, crate::value_objects::ResourceType::Key) => true,
        (crate::value_objects::ResourceType::Secret, crate::value_objects::ResourceType::Secret) => true,
        (crate::value_objects::ResourceType::Document, crate::value_objects::ResourceType::Document) => true,
        (crate::value_objects::ResourceType::Service, crate::value_objects::ResourceType::Service) => true,
        (crate::value_objects::ResourceType::Network, crate::value_objects::ResourceType::Network) => true,
        (crate::value_objects::ResourceType::Custom(x), crate::value_objects::ResourceType::Custom(y)) => str_eq(
            x.as_str(),
            y.as_str(),
        ),
        _ => false,
    }
}

/// Returns whether two operation types are equal.
fn operation_types_equal(a: &crate::value_objects::OperationType, b: &crate::value_objects::OperationType) -> (r: bool)
    ensures
        r == spec_operation_types_equal(a.deep_view(), b.deep_view()),
{
    match (a, b) {
        (crate::value_objects::OperationType::CertificateIssuance, crate::value_objects::OperationType::CertificateIssuance) => true,
        (crate::value_objects::OperationType::CertificateRenewal, crate::value_objects::OperationType::CertificateRenewal) => true,
        (crate::value_objects::OperationType::CertificateRevocation, crate::value_objects::OperationType::CertificateRevocation) => true,
        (crate::value_objects::OperationType::KeyGeneration, crate::value_objects::OperationType::KeyGeneration) => true,
        (crate::value_objects::OperationType::KeyRotation, crate::value_objects::OperationType::KeyRotation) => true,
        (crate::value_objects::OperationType::KeyExport, crate::value_objects::OperationType::KeyExport) => true,
        (crate::value_objects::OperationType::Read, crate::value_objects::OperationType::Read) => true,
        (crate::value_objects::OperationType::Write, crate::value_objects::OperationType::Write) => true,
        (crate::value_objects::OperationType::Delete, crate::value_objects::OperationType::Delete) => true,
        (crate::value_objects::OperationType::Execute, crate::value_objects::OperationType::Execute) => true,
        (crate::value_objects::OperationType::CreatePolicy, crate::value_objects::OperationType::CreatePolicy) => true,
        (crate::value_objects::OperationType::ModifyPolicy, crate::value_objects::OperationType::ModifyPolicy) => true,
        (crate::value_objects::OperationType::DeletePolicy, crate::value_objects::OperationType::DeletePolicy) => true,
        (crate::value_objects::OperationType::GrantExemption, crate::value_objects::OperationType::GrantExemption) => true,
        (crate::value_objects::OperationType::Custom(x), crate::value_objects::OperationType::Custom(y)) => str_eq(
            x.as_str(),
            y.as_str(),
        ),
        _ => false,
    }
}

/// Returns whether two plain (non-global, non-composite) targets are equal.
fn plain_targets_equal(t1: &PolicyTarget, t2: &PolicyTarget) -> (r: bool)
    ensures
        r == spec_plain_targets_equal(t1.deep_view(), t2.deep_view()),
{
    match (t1, t2) {
        (PolicyTarget::Organization(a), PolicyTarget::Organization(b)) => *a == *b,
        (PolicyTarget::OrganizationUnit(a), PolicyTarget::OrganizationUnit(b)) => *a == *b,
        (PolicyTarget::Role(a), PolicyTarget::Role(b)) => str_eq(a.as_str(), b.as_str()),
        (PolicyTarget::Resource(a), PolicyTarget::Resource(b)) => resource_types_equal(a, b),
        (PolicyTarget::Operation(a), PolicyTarget::Operation(b)) => operation_types_equal(a, b),
        _ => false,
    }
}

/// Returns whether two target scopes overlap.
#[verifier::loop_isolation(false)]
pub fn targets_overlap(t1: &PolicyTarget, t2: &PolicyTarget) -> (r: bool)
    ensures
        r == spec_targets_overlap(t1.deep_view(), t2.deep_view()),
    decreases *t1, *t2,
{
    if matches!(t1, PolicyTarget::Global) || matches!(t2, PolicyTarget::Global) {
        return true;
    }
    match t1 {
        PolicyTarget::Composite(ts) => {
            proof {
                lemma_targets_view(ts@);
            }
            let mut i: usize = 0;
            while i < ts.len()
                invariant
                    0 <= i <= ts@.len(),
                    forall|j: int|
                        0 <= j < i ==> !spec_targets_overlap(
                            #[trigger] targets_view(ts@)[j],
                            t2.deep_view(),
                        ),
                decreases ts@.len() - i,
            {
                if targets_overlap(&ts[i], t2) {
                    proof {
                        assert(spec_targets_overlap(
                            targets_view(ts@)[i as int],
                            t2.deep_view(),
                        ));
                        assert(spec_any_member_overlaps(targets_view(ts@), t2.deep_view()));
                        assert(t1.deep_view() == TargetV::Composite(targets_view(ts@)));
                        assert(spec_targets_overlap(
                            TargetV::Composite(targets_view(ts@)),
                            t2.deep_view(),
                        ));
                    }
                    return true;
                }
                i = i + 1;
            }
            proof {
                assert(!spec_any_member_overlaps(targets_view(ts@), t2.deep_view()));
                assert(t1.deep_view() == TargetV::Composite(targets_view(ts@)));
            }
            false
        },
        _ => {
            match t2 {
                PolicyTarget::Composite(ts) => {
                    proof {
                        lemma_targets_view(ts@);
                    }
                    let mut i: usize = 0;
                    while i < ts.len()
                        invariant
                            0 <= i <= ts@.len(),
                            forall|j: int|
                                0 <= j < i ==> !spec_targets_overlap(
                                    t1.deep_view(),
                                    #[trigger] targets_view(ts@)[j],
                                ),
                        decreases ts@.len() - i,
                    {
                        if targets_overlap(t1, &ts[i]) {
                            proof {
                                assert(spec_targets_overlap(
                                    t1.deep_view(),
                                    targets_view(ts@)[i as int],
                                ));
                                assert(spec_overlaps_any_member(
                                    t1.deep_view(),
                                    targets_view(ts@),
                                ));
                                assert(t2.deep_view() == TargetV::Composite(targets_view(ts@)));
                                assert(spec_targets_overlap(
                                    t1.deep_view(),
                                    TargetV::Composite(targets_view(ts@)),
                                ));
                            }
                            return true;
                        }
                        i = i + 1;
                    }
                    proof {
                        assert(!spec_overlaps_any_member(t1.deep_view(), targets_view(ts@)));
                        assert(t2.deep_view() == TargetV::Composite(targets_view(ts@)));
                    }
                    false
                },
                _ => plain_targets_equal(t1, t2),
            }
        },
    }
}

/// Collects the fields a rule expression reads. The result lists every
/// member of the expression's field set, possibly with repetition.
#[verifier::loop_isolation(false)]
pub fn collect_fields(e: &RuleExpression) -> (r: Vec<String>)
    ensures
        forall|j: int|
            0 <= j < r.deep_view().len() ==> spec_fields(e.deep_view()).contains(
                #[trigger] r.deep_view()[j],
            ),
        forall|f: Seq<char>|
            spec_fields(e.deep_view()).contains(f) ==> exists|j: int|
                0 <= j < r.deep_view().len() && #[trigger] r.deep_view()[j] == f,
    decreases *e,
{
    match e {
        RuleExpression::Equal { field, value } => {
            let ra = singleton_field(field);
            proof {
                assert(e.deep_view() == (ExprV::Equal { field: field@, value: value.deep_view() }));
                assert(spec_fields(e.deep_view()) =~= set![field@]);
                assert forall|f: Seq<char>| spec_fields(e.deep_view()).contains(f) implies exists|
                    j: int,
                |
                    0 <= j < ra.deep_view().len() && #[trigger] ra.deep_view()[j] == f by {
                    assert(ra.deep_view()[0] == f);
                }
            }
            return ra;
        },
        RuleExpression::NotEqual { field, value } => {
            let ra = singleton_field(field);
            proof {
                assert(e.deep_view() == (ExprV::NotEqual { field: field@, value: value.deep_view() }));
                assert(spec_fields(e.deep_view()) =~= set![field@]);
                assert forall|f: Seq<char>| spec_fields(e.deep_view()).contains(f) implies exists|
                    j: int,
                |
                    0 <= j < ra.deep_view().len() && #[trigger] ra.deep_view()[j] == f by {
                    assert(ra.deep_view()[0] == f);
                }
            }
            return ra;
        },
        RuleExpression::GreaterThan { field, value } => {
            let ra = singleton_field(field);
            proof {
                assert(e.deep_view() == (ExprV::GreaterThan { field: field@, value: value.deep_view() }));
                assert(spec_fields(e.deep_view()) =~= set![field@]);
                assert forall|f: Seq<char>| spec_fields(e.deep_view()).contains(f) implies exists|
                    j: int,
                |
                    0 <= j < ra.deep_view().len() && #[trigger] ra.deep_view()[j] == f by {
                    assert(ra.deep_view()[0] == f);
                }
            }
            return ra;
        },
        RuleExpression::GreaterThanOrEqual { field, value } => {
            let ra = singleton_field(field);
            proof {
                assert(e.deep_view() == (ExprV::GreaterThanOrEqual { field: field@, value: value.deep_view() }));
                assert(spec_fields(e.deep_view()) =~= set![field@]);
                assert forall|f: Seq<char>| spec_fields(e.deep_view()).contains(f) implies exists|
                    j: int,
                |
                    0 <= j < ra.deep_view().len() && #[trigger] ra.deep_view()[j] == f by {
                    assert(ra.deep_view()[0] == f);
                }
            }
            return ra;
        },
        RuleExpression::LessThan { field, value } => {
            let ra = singleton_field(field);
            proof {
                assert(e.deep_view() == (ExprV::LessThan { field: field@, value: value.deep_view() }));
                assert(spec_fields(e.deep_view()) =~= set![field@]);
                assert forall|f: Seq<char>| spec_fields(e.deep_view()).contains(f) implies exists|
                    j: int,
                |
                    0 <= j < ra.deep_view().len() && #[trigger] ra.deep_view()[j] == f by {
                    assert(ra.deep_view()[0] == f);
                }
            }
            return ra;
        },
        RuleExpression::LessThanOrEqual { field, value } => {
            let ra = singleton_field(field);
            proof {
                assert(e.deep_view() == (ExprV::LessThanOrEqual { field: field@, value: value.deep_view() }));
                assert(spec_fields(e.deep_view()) =~= set![field@]);
                assert forall|f: Seq<char>| spec_fields(e.deep_view()).contains(f) implies exists|
                    j: int,
                |
                    0 <= j < ra.deep_view().len() && #[trigger] ra.deep_view()[j] == f by {
                    assert(ra.deep_view()[0] == f);
                }
            }
            return ra;
        },
        RuleExpression::In { field, values } => {
            let ra = singleton_field(field);
            proof {
                assert(e.deep_view() == (ExprV::In { field: field@, values: crate::value_objects::values_view(values@) }));
                assert(spec_fields(e.deep_view()) =~= set![field@]);
                assert forall|f: Seq<char>| spec_fields(e.deep_view()).contains(f) implies exists|
                    j: int,
                |
                    0 <= j < ra.deep_view().len() && #[trigger] ra.deep_view()[j] == f by {
                    assert(ra.deep_view()[0] == f);
                }
            }
            return ra;
        },
        RuleExpression::NotIn { field, values } => {
            let ra = singleton_field(field);
            proof {
                assert(e.deep_view() == (ExprV::NotIn { field: field@, values: crate::value_objects::values_view(values@) }));
                assert(spec_fields(e.deep_view()) =~= set![field@]);
                assert forall|f: Seq<char>| spec_fields(e.deep_view()).contains(f) implies exists|
                    j: int,
                |
                    0 <= j < ra.deep_view().len() && #[trigger] ra.deep_view()[j] == f by {
                    assert(ra.deep_view()[0] == f);
                }
            }
            return ra;
        },
        RuleExpression::Contains { field, value } => {
            let ra = singleton_field(field);
            proof {
                assert(e.deep_view() == (ExprV::Contains { field: field@, value: value.deep_view() }));
                assert(spec_fields(e.deep_view()) =~= set![field@]);
                assert forall|f: Seq<char>| spec_fields(e.deep_view()).contains(f) implies exists|
                    j: int,
                |
                    0 <= j < ra.deep_view().len() && #[trigger] ra.deep_view()[j] == f by {
                    assert(ra.deep_view()[0] == f);
                }
            }
            return ra;
        },
        RuleExpression::Matches { field, pattern } => {
            let ra = singleton_field(field);
            proof {
                assert(e.deep_view() == (ExprV::Matches { field: field@, pattern: pattern@ }));
                assert(spec_fields(e.deep_view()) =~= set![field@]);
                assert forall|f: Seq<char>| spec_fields(e.deep_view()).contains(f) implies exists|
                    j: int,
                |
                    0 <= j < ra.deep_view().len() && #[trigger] ra.deep_view()[j] == f by {
                    assert(ra.deep_view()[0] == f);
                }
            }
            return ra;
        },
        RuleExpression::StartsWith { field, prefix } => {
            let ra = singleton_field(field);
            proof {
                assert(e.deep_view() == (ExprV::StartsWith { field: field@, prefix: prefix@ }));
                assert(spec_fields(e.deep_view()) =~= set![field@]);
                assert forall|f: Seq<char>| spec_fields(e.deep_view()).contains(f) implies exists|
                    j: int,
                |
                    0 <= j < ra.deep_view().len() && #[trigger] ra.deep_view()[j] == f by {
                    assert(ra.deep_view()[0] == f);
                }
            }
            return ra;
        },
        RuleExpression::EndsWith { field, suffix } => {
            let ra = singleton_field(field);
            proof {
                assert(e.deep_view() == (ExprV::EndsWith { field: field@, suffix: suffix@ }));
                assert(spec_fields(e.deep_view()) =~= set![field@]);
                assert forall|f: Seq<char>| spec_fields(e.deep_view()).contains(f) implies exists|
                    j: int,
                |
                    0 <= j < ra.deep_view().len() && #[trigger] ra.deep_view()[j] == f by {
                    assert(ra.deep_view()[0] == f);
                }
            }
            return ra;
        },
        RuleExpression::Exists { field } => {
            let ra = singleton_field(field);
            proof {
                assert(e.deep_view() == (ExprV::Exists { field: field@ }));
                assert(spec_fields(e.deep_view()) =~= set![field@]);
                assert forall|f: Seq<char>| spec_fields(e.deep_view()).contains(f) implies exists|
                    j: int,
                |
                    0 <= j < ra.deep_view().len() && #[trigger] ra.deep_view()[j] == f by {
                    assert(ra.deep_view()[0] == f);
                }
            }
            return ra;
        },
        RuleExpression::NotExists { field } => {
            let ra = singleton_field(field);
            proof {
                assert(e.deep_view() == (ExprV::NotExists { field: field@ }));
                assert(spec_fields(e.deep_view()) =~= set![field@]);
                assert forall|f: Seq<char>| spec_fields(e.deep_view()).contains(f) implies exists|
                    j: int,
                |
                    0 <= j < ra.deep_view().len() && #[trigger] ra.deep_view()[j] == f by {
                    assert(ra.deep_view()[0] == f);
                }
            }
            return ra;
        },
        RuleExpression::And(es) => {
            proof {
                assert(e.deep_view() == ExprV::And(exprs_view(es@)));
            }
            let ra = collect_fields_seq(es, Ghost(e.deep_view()));
            return ra;
        },
        RuleExpression::Or(es) => {
            proof {
                assert(e.deep_view() == ExprV::Or(exprs_view(es@)));
            }
            let ra = collect_fields_seq(es, Ghost(e.deep_view()));
            return ra;
        },
        RuleExpression::Not(inner) => {
            proof {
                assert(e.deep_view() == ExprV::Not(Box::new(inner.deep_view())));
            }
            let ra = collect_fields(inner);
            proof {
                assert(spec_fields(e.deep_view()) == spec_fields(inner.deep_view()));
            }
            return ra;
        },
        RuleExpression::Custom { predicate, args } => {
            proof {
                assert(e.deep_view() == (ExprV::Custom {
                    predicate: predicate@,
                    args: entries_view(args@),
                }));
                lemma_entries_view(args@);
            }
            let mut out: Vec<String> = Vec::new();
            let mut i: usize = 0;
            while i < args.len()
                invariant
                    0 <= i <= args@.len(),
                    out@.len() == i,
                    forall|j: int| 0 <= j < i ==> (#[trigger] out@[j])@ == args@[j].0@,
                decreases args@.len() - i,
            {
                let entry = &args[i];
                out.push(entry.0.clone());
                i = i + 1;
            }
            proof {
                assert forall|f: Seq<char>| spec_fields(e.deep_view()).contains(f) implies exists|
                    j: int,
                |
                    0 <= j < out.deep_view().len() && #[trigger] out.deep_view()[j] == f by {
                    let k = choose|k: int|
                        0 <= k < entries_view(args@).len() && (#[trigger] entries_view(args@)[k]).0
                            == f;
                    assert(out.deep_view()[k] == f);
                }
                assert forall|j: int| 0 <= j < out.deep_view().len() implies spec_fields(
                    e.deep_view(),
                ).contains(#[trigger] out.deep_view()[j]) by {
                    assert(entries_view(args@)[j].0 == out.deep_view()[j]);
                }
            }
            out
        },
    }
}

/// A one-element field list.
fn singleton_field(field: &String) -> (r: Vec<String>)
    ensures
        r.deep_view().len() == 1,
        r.deep_view()[0] == field@,
{
    let mut out: Vec<String> = Vec::new();
    out.push(field.clone());
    out
}

/// Collects the fields of every expression in a list; the ghost argument is
/// the `And` or `Or` view whose field set is the union over the children.
#[verifier::loop_isolation(false)]
fn collect_fields_seq(es: &Vec<RuleExpression>, parent: Ghost<ExprV>) -> (r: Vec<String>)
    requires
        parent@ == ExprV::And(exprs_view(es@)) || parent@ == ExprV::Or(exprs_view(es@)),
    ensures
        forall|j: int|
            0 <= j < r.deep_view().len() ==> spec_fields(parent@).contains(
                #[trigger] r.deep_view()[j],
            ),
        forall|f: Seq<char>|
            spec_fields(parent@).contains(f) ==> exists|j: int|
                0 <= j < r.deep_view().len() && #[trigger] r.deep_view()[j] == f,
    decreases es@,
{
    proof {
        lemma_exprs_view(es@);
        lemma_fields_seq_members(exprs_view(es@));
    }
    let mut out: Vec<String> = Vec::new();
    let mut i: usize = 0;
    while i < es.len()
        invariant
            0 <= i <= es@.len(),
            forall|j: int|
                0 <= j < out.deep_view().len() ==> spec_fields_seq(exprs_view(es@)).contains(
                    #[trigger] out.deep_view()[j],
                ),
            forall|k: int, f: Seq<char>|
                0 <= k < i && #[trigger] spec_fields(exprs_view(es@)[k]).contains(f) ==> exists|
                    j: int,
                |
                    0 <= j < out.deep_view().len() && #[trigger] out.deep_view()[j] == f,
        decreases es@.len() - i,
    {
        let mut child = collect_fields(&es[i]);
        let ghost pre = out.deep_view();
        let ghost child_view = child.deep_view();
        append_strings(&mut out, &mut child);
        proof {
            assert(exprs_view(es@)[i as int] == es@[i as int].deep_view());
            assert forall|j: int|
                0 <= j < out.deep_view().len() implies spec_fields_seq(
                exprs_view(es@),
            ).contains(#[trigger] out.deep_view()[j]) by {
                assert(out.deep_view() == pre + child_view);
                if j < pre.len() {
                    assert(out.deep_view()[j] == pre[j]);
                } else {
                    vstd::seq::axiom_seq_add_index2(pre, child_view, j);
                    assert(out.deep_view()[j] == child_view[j - pre.len()]);
                    assert(spec_fields(exprs_view(es@)[i as int]).contains(
                        child_view[j - pre.len()],
                    ));
                    assert(spec_fields_seq(exprs_view(es@)).contains(out.deep_view()[j]));
                }
            }
            assert forall|k: int, f: Seq<char>|
                0 <= k < i + 1 && #[trigger] spec_fields(exprs_view(es@)[k]).contains(f) implies
                exists|j: int|
                    0 <= j < out.deep_view().len() && #[trigger] out.deep_view()[j] == f by {
                if k < i {
                    let j = choose|j: int| 0 <= j < pre.len() && #[trigger] pre[j] == f;
                    assert(out.deep_view()[j] == f);
                } else {
                    assert(exprs_view(es@)[k] == es@[k].deep_view());
                    assert(spec_fields(es@[k].deep_view()).contains(f));
                    assert(exists|j: int|
                        0 <= j < child_view.len() && #[trigger] child_view[j] == f);
                    let j = choose|j: int|
                        0 <= j < child_view.len() && #[trigger] child_view[j] == f;
                    assert(out.deep_view() == pre + child_view);
                    vstd::seq::axiom_seq_add_index2(pre, child_view, j + pre.len());
                    assert((pre + child_view)[j + pre.len()] == child_view[j]);
                    assert(out.deep_view()[j + pre.len()] == f);
                }
            }
        }
        i = i + 1;
    }
    proof {
        assert(spec_fields(parent@) == spec_fields_seq(exprs_view(es@)));
        assert forall|f: Seq<char>| spec_fields(parent@).contains(f) implies exists|j: int|
            0 <= j < out.deep_view().len() && #[trigger] out.deep_view()[j] == f by {
            assert(spec_fields_seq(exprs_view(es@)).contains(f));
            let k = choose|k: int|
                0 <= k < exprs_view(es@).len() && #[trigger] spec_fields(
                    exprs_view(es@)[k],
                ).contains(f);
        }
    }
    out
}

/// Membership in the union over a sequence of expressions: a field is in the
/// union exactly when it is in some member's set.
proof fn lemma_fields_seq_members(es: Seq<ExprV>)
    ensures
        forall|f: Seq<char>|
            #[trigger] spec_fields_seq(es).contains(f) <==> exists|k: int|
                0 <= k < es.len() && #[trigger] spec_fields(es[k]).contains(f),
    decreases es.len(),
{
    if es.len() > 0 {
        let tail = es.subrange(1, es.len() as int);
        lemma_fields_seq_members(tail);
        assert forall|f: Seq<char>| #[trigger] spec_fields_seq(es).contains(f) implies exists|
            k: int,
        |
            0 <= k < es.len() && #[trigger] spec_fields(es[k]).contains(f) by {
            if spec_fields(es[0]).contains(f) {
                assert(spec_fields(es[0]).contains(f));
            } else {
                assert(spec_fields_seq(tail).contains(f));
                let k = choose|k: int|
                    0 <= k < tail.len() && #[trigger] spec_fields(tail[k]).contains(f);
                assert(tail[k] == es[k + 1]);
                assert(spec_fields(es[k + 1]).contains(f));
            }
        }
        assert forall|f: Seq<char>|
            (exists|k: int| 0 <= k < es.len() && #[trigger] spec_fields(es[k]).contains(f))
            implies #[trigger] spec_fields_seq(es).contains(f) by {
            let k = choose|k: int|
                0 <= k < es.len() && #[trigger] spec_fields(es[k]).contains(f);
            if k == 0 {
                assert(spec_fields_seq(es).contains(f));
            } else {
                assert(tail[k - 1] == es[k]);
                assert(spec_fields(tail[k - 1]).contains(f));
                assert(spec_fields_seq(tail).contains(f));
            }
        }
    }
}

/// Moves all strings of the second vector to the end of the first.
#[verifier::loop_isolation(false)]
fn append_strings(dst: &mut Vec<String>, src: &mut Vec<String>)
    ensures
        final(dst).deep_view() == old(dst).deep_view() + old(src).deep_view(),
{
    let mut i: usize = 0;
    while i < src.len()
        invariant
            0 <= i <= src@.len(),
            src@ == old(src)@,
            dst.deep_view() == old(dst).deep_view() + old(src).deep_view().subrange(0, i as int),
        decreases src@.len() - i,
    {
        let ghost pre = dst.deep_view();
        let v = src[i].clone();
        let ghost vv = v@;
        dst.push(v);
        i = i + 1;
        proof {
            assert(dst.deep_view() =~= pre.push(vv));
            assert(vv == old(src).deep_view()[i - 1]);
            assert(pre.push(vv) =~= old(dst).deep_view() + old(src).deep_view().subrange(
                0,
                i as int,
            ));
        }
    }
    proof {
        assert(old(src).deep_view().subrange(0, i as int) =~= old(src).deep_view());
        assert(dst.deep_view() =~= old(dst).deep_view() + old(src).deep_view());
    }
}

/// Returns whether the two expressions read at least one common field.
#[verifier::loop_isolation(false)]
pub fn has_common_field(e1: &RuleExpression, e2: &RuleExpression) -> (r: bool)
    ensures
        r == spec_common_field(e1.deep_view(), e2.deep_view()),
{
    let f1 = collect_fields(e1);
    let f2 = collect_fields(e2);
    let mut i: usize = 0;
    while i < f1.len()
        invariant
            0 <= i <= f1@.len(),
            f1@.len() == f1.deep_view().len(),
            f2@.len() == f2.deep_view().len(),
            forall|a: int, b: int|
                0 <= a < i && 0 <= b < f2.deep_view().len() ==> #[trigger] f1.deep_view()[a]
                    != #[trigger] f2.deep_view()[b],
        decreases f1@.len() - i,
    {
        let mut j: usize = 0;
        while j < f2.len()
            invariant
                0 <= j <= f2@.len(),
                0 <= i < f1@.len(),
                forall|b: int| 0 <= b < j ==> f1.deep_view()[i as int] != #[trigger] f2.deep_view()[b],
            decreases f2@.len() - j,
        {
            if str_eq(f1[i].as_str(), f2[j].as_str()) {
                proof {
                    assert(spec_fields(e1.deep_view()).contains(f1.deep_view()[i as int]));
                    assert(spec_fields(e2.deep_view()).contains(f2.deep_view()[j as int]));
                }
                return true;
            }
            j = j + 1;
        }
        i = i + 1;
    }
    proof {
        if spec_common_field(e1.deep_view(), e2.deep_view()) {
            let f = choose|f: Seq<char>|
                #[trigger] spec_fields(e1.deep_view()).contains(f) && #[trigger] spec_fields(
                    e2.deep_view(),
                ).contains(f);
            let a = choose|a: int|
                0 <= a < f1.deep_view().len() && #[trigger] f1.deep_view()[a] == f;
            let b = choose|b: int|
                0 <= b < f2.deep_view().len() && #[trigger] f2.deep_view()[b] == f;
            assert(f1.deep_view()[a] != f2.deep_view()[b]);
            assert(false);
        }
    }
    false
}

/// Returns whether every value of the first list occurs in the second.
#[verifier::loop_isolation(false)]
pub fn values_subset(a: &Vec<Value>, b: &Vec<Value>) -> (r: bool)
    ensures
        r == spec_values_subset(
            crate::value_objects::values_view(a@),
            crate::value_objects::values_view(b@),
        ),
{
    proof {
        crate::value_objects::lemma_values_view(a@);
    }
    let mut i: usize = 0;
    while i < a.len()
        invariant
            0 <= i <= a@.len(),
            forall|j: int|
                0 <= j < i ==> spec_value_in(
                    crate::value_objects::values_view(b@),
                    #[trigger] crate::value_objects::values_view(a@)[j],
                ),
        decreases a@.len() - i,
    {
        if !crate::contains::contains_value_list(b, &a[i]) {
            proof {
                assert(!spec_value_in(
                    crate::value_objects::values_view(b@),
                    crate::value_objects::values_view(a@)[i as int],
                ));
            }
            return false;
        }
        i = i + 1;
    }
    true
}

/// Returns whether the two expressions directly contradict each other.
pub fn are_contradictory(e1: &RuleExpression, e2: &RuleExpression) -> (r: bool)
    ensures
        r == spec_are_contradictory(e1.deep_view(), e2.deep_view()),
{
    match e1 {
        RuleExpression::Equal { field: f1, value: v1 } => {
            proof {
                assert(e1.deep_view() == (ExprV::Equal {
                    field: f1@,
                    value: v1.deep_view(),
                }));
            }
            match e2 {
                RuleExpression::Equal { field: f2, value: v2 } => {
                    proof {
                        assert(e2.deep_view() == (ExprV::Equal {
                            field: f2@,
                            value: v2.deep_view(),
                        }));
                    }
                    str_eq(f1.as_str(), f2.as_str()) && !value_eq(v1, v2)
                },
                RuleExpression::NotEqual { field: f2, value: v2 } => {
                    proof {
                        assert(e2.deep_view() == (ExprV::NotEqual {
                            field: f2@,
                            value: v2.deep_view(),
                        }));
                    }
                    str_eq(f1.as_str(), f2.as_str()) && value_eq(v1, v2)
                },
                _ => false,
            }
        },
        RuleExpression::GreaterThan { field: f1, value: v1 } => {
            proof {
                assert(e1.deep_view() == (ExprV::GreaterThan {
                    field: f1@,
                    value: v1.deep_view(),
                }));
            }
            match e2 {
                RuleExpression::LessThanOrEqual { field: f2, value: v2 } => {
                    proof {
                        assert(e2.deep_view() == (ExprV::LessThanOrEqual {
                            field: f2@,
                            value: v2.deep_view(),
                        }));
                    }
                    str_eq(f1.as_str(), f2.as_str()) && !matches!(
                        value_cmp(v1, v2),
                        Some(core::cmp::Ordering::Less)
                    )
                },
                _ => false,
            }
        },
        RuleExpression::Exists { field: f1 } => {
            proof {
                assert(e1.deep_view() == (ExprV::Exists { field: f1@ }));
            }
            match e2 {
                RuleExpression::NotExists { field: f2 } => {
                    proof {
                        assert(e2.deep_view() == (ExprV::NotExists { field: f2@ }));
                    }
                    str_eq(f1.as_str(), f2.as_str())
                },
                _ => false,
            }
        },
        _ => false,
    }
}

/// Returns whether the two expressions overlap with different requirements.
pub fn are_overlapping(e1: &RuleExpression, e2: &RuleExpression) -> (r: bool)
    ensures
        r == spec_are_overlapping(e1.deep_view(), e2.deep_view()),
{
    match e1 {
        RuleExpression::In { field: f1, values: v1 } => {
            proof {
                assert(e1.deep_view() == (ExprV::In {
                    field: f1@,
                    values: crate::value_objects::values_view(v1@),
                }));
            }
            match e2 {
                RuleExpression::In { field: f2, values: v2 } => {
                    proof {
                        assert(e2.deep_view() == (ExprV::In {
                            field: f2@,
                            values: crate::value_objects::values_view(v2@),
                        }));
                    }
                    str_eq(f1.as_str(), f2.as_str()) && !values_subset(v1, v2) && !values_subset(
                        v2,
                        v1,
                    )
                },
                _ => false,
            }
        },
        _ => false,
    }
}

/// Returns whether the two expressions create an impossible condition.
pub fn create_impossible_condition(e1: &RuleExpression, e2: &RuleExpression) -> (r: bool)
    ensures
        r == spec_impossible(e1.deep_view(), e2.deep_view()),
{
    match e1 {
        RuleExpression::GreaterThan { field: f1, value: v1 } => {
            proof {
                assert(e1.deep_view() == (ExprV::GreaterThan {
                    field: f1@,
                    value: v1.deep_view(),
                }));
            }
            match e2 {
                RuleExpression::LessThan { field: f2, value: v2 } => {
                    proof {
                        assert(e2.deep_view() == (ExprV::LessThan {
                            field: f2@,
                            value: v2.deep_view(),
                        }));
                    }
                    str_eq(f1.as_str(), f2.as_str()) && !matches!(
                        value_cmp(v1, v2),
                        Some(core::cmp::Ordering::Less)
                    )
                },
                _ => false,
            }
        },
        _ => false,
    }
}

impl PolicyConflictResolver {
    /// Returns the conflict between two rules, if any: nothing without a
    /// common field, else the first of contradiction, overlap and
    /// impossibility that holds.
    pub fn check_rule_conflict(&self, rule1: &PolicyRule, rule2: &PolicyRule) -> (r: Option<
        ConflictType,
    >)
        ensures
            r == spec_rule_conflict(rule1.deep_view(), rule2.deep_view()),
    {
        if !has_common_field(&rule1.expression, &rule2.expression) {
            return None;
        }
        if are_contradictory(&rule1.expression, &rule2.expression) {
            return Some(ConflictType::Contradiction);
        }
        if are_overlapping(&rule1.expression, &rule2.expression) {
            return Some(ConflictType::Overlap);
        }
        if create_impossible_condition(&rule1.expression, &rule2.expression) {
            return Some(ConflictType::Impossible);
        }
        None
    }

    /// Returns the conflict between two policies, if any: their targets must
    /// overlap, and the scan stops at the first conflicting rule pair.
    #[verifier::loop_isolation(false)]
    pub fn check_policy_pair(&self, policy1: &Policy, policy2: &Policy) -> (r: Option<
        ConflictType,
    >)
        ensures
            r == spec_policy_pair_conflict(policy1.deep_view(), policy2.deep_view()),
    {
        if !targets_overlap(&policy1.target, &policy2.target) {
            return None;
        }
        let ghost rules1 = policy1.deep_view().rules;
        let ghost rules2 = policy2.deep_view().rules;
        proof {
            assert(rules1.subrange(0, rules1.len() as int) =~= rules1);
        }
        let mut i: usize = 0;
        while i < policy1.rules.len()
            invariant
                0 <= i <= policy1.rules@.len(),
                policy1.rules@.len() == rules1.len(),
                policy2.rules@.len() == rules2.len(),
                spec_first_rule_conflict(rules1, rules2) == spec_first_rule_conflict(
                    rules1.subrange(i as int, rules1.len() as int),
                    rules2,
                ),
            decreases policy1.rules@.len() - i,
        {
            proof {
                let tail = rules1.subrange(i as int, rules1.len() as int);
                assert(tail[0] == rules1[i as int]);
                assert(tail.subrange(1, tail.len() as int) =~= rules1.subrange(
                    i + 1,
                    rules1.len() as int,
                ));
                assert(rules2.subrange(0, rules2.len() as int) =~= rules2);
            }
            let mut j: usize = 0;
            while j < policy2.rules.len()
                invariant
                    0 <= j <= policy2.rules@.len(),
                    0 <= i < policy1.rules@.len(),
                    policy1.rules@.len() == rules1.len(),
                    policy2.rules@.len() == rules2.len(),
                    spec_rule_conflict_with_list(rules1[i as int], rules2)
                        == spec_rule_conflict_with_list(
                        rules1[i as int],
                        rules2.subrange(j as int, rules2.len() as int),
                    ),
                decreases policy2.rules@.len() - j,
            {
                proof {
                    let tail2 = rules2.subrange(j as int, rules2.len() as int);
                    assert(tail2[0] == rules2[j as int]);
                    assert(tail2.subrange(1, tail2.len() as int) =~= rules2.subrange(
                        j + 1,
                        rules2.len() as int,
                    ));
                }
                if let Some(ct) = self.check_rule_conflict(&policy1.rules[i], &policy2.rules[j]) {
                    return Some(ct);
                }
                j = j + 1;
            }
            proof {
                assert(rules2.subrange(j as int, rules2.len() as int) =~= Seq::<RuleV>::empty());
            }
            i = i + 1;
        }
        proof {
            assert(rules1.subrange(i as int, rules1.len() as int) =~= Seq::<RuleV>::empty());
        }
        None
    }
}

/// The conflicts one policy creates against each of the given policies, in
/// order: the pair of identifiers and the kind, one entry per conflicting
/// pair.
pub open spec fn spec_conflicts_for(p: PolicyV, others: Seq<PolicyV>) -> Seq<
    (PolicyId, PolicyId, ConflictType),
>
    decreases others,
{
    if others.len() == 0 {
        Seq::empty()
    } else {
        let head: Seq<(PolicyId, PolicyId, ConflictType)> = match spec_policy_pair_conflict(
            p,
            others[0],
        ) {
            Some(ct) => seq![(p.id, others[0].id, ct)],
            None => Seq::empty(),
        };
        head + spec_conflicts_for(p, others.subrange(1, others.len() as int))
    }
}

/// Every conflict among the unordered pairs of the given policies, scanning
/// each policy against those after it.
pub open spec fn spec_detect(ps: Seq<PolicyV>) -> Seq<(PolicyId, PolicyId, ConflictType)>
    decreases ps,
{
    if ps.len() == 0 {
        Seq::empty()
    } else {
        spec_conflicts_for(ps[0], ps.subrange(1, ps.len() as int)) + spec_detect(
            ps.subrange(1, ps.len() as int),
        )
    }
}

impl PolicyConflictResolver {
    /// Detects conflicts between every unordered pair of policies. Each
    /// reported conflict names the two policies and the kind of conflict,
    /// and carries this resolver's strategy as its chosen resolution.
    #[verifier::loop_isolation(false)]
    #[verifier::rlimit(100)]
    pub fn detect_conflicts(&self, policies: &Vec<Policy>) -> (r: Vec<PolicyConflict>)
        ensures
            ({
                let det = spec_detect(policies.deep_view());
                &&& r.deep_view().len() == det.len()
                &&& forall|k: int|
                    0 <= k < det.len() ==> {
                        &&& (#[trigger] r.deep_view()[k]).policy_ids == seq![
                            det[k].0,
                            det[k].1,
                        ]
                        &&& r.deep_view()[k].conflict_type == det[k].2
                        &&& r.deep_view()[k].resolution == Some(self.resolution_strategy)
                    }
            }),
    {
        let ghost ps = policies.deep_view();
        let ghost det = spec_detect(ps);
        let mut out: Vec<PolicyConflict> = Vec::new();
        let ghost triples: Seq<(PolicyId, PolicyId, ConflictType)> = Seq::empty();
        let mut triples_ghost: Ghost<Seq<(PolicyId, PolicyId, ConflictType)>> = Ghost(triples);
        proof {
            assert(ps.subrange(0, ps.len() as int) =~= ps);
        }
        let mut i: usize = 0;
        while i < policies.len()
            invariant
                0 <= i <= policies@.len(),
                policies@.len() == ps.len(),
                det == spec_detect(ps),
                out.deep_view().len() == triples_ghost@.len(),
                forall|k: int|
                    0 <= k < triples_ghost@.len() ==> {
                        &&& (#[trigger] out.deep_view()[k]).policy_ids == seq![
                            triples_ghost@[k].0,
                            triples_ghost@[k].1,
                        ]
                        &&& out.deep_view()[k].conflict_type == triples_ghost@[k].2
                        &&& out.deep_view()[k].resolution == Some(self.resolution_strategy)
                    },
                det == triples_ghost@ + spec_detect(ps.subrange(i as int, ps.len() as int)),
            decreases policies@.len() - i,
        {
            proof {
                let tail = ps.subrange(i as int, ps.len() as int);
                assert(tail[0] == ps[i as int]);
                assert(tail.subrange(1, tail.len() as int) =~= ps.subrange(
                    i + 1,
                    ps.len() as int,
                ));
            }
            let mut j: usize = i + 1;
            while j < policies.len()
                invariant
                    i < j <= policies@.len(),
                    0 <= i < policies@.len(),
                    policies@.len() == ps.len(),
                    det == spec_detect(ps),
                    out.deep_view().len() == triples_ghost@.len(),
                    forall|k: int|
                        0 <= k < triples_ghost@.len() ==> {
                            &&& (#[trigger] out.deep_view()[k]).policy_ids == seq![
                                triples_ghost@[k].0,
                                triples_ghost@[k].1,
                            ]
                            &&& out.deep_view()[k].conflict_type == triples_ghost@[k].2
                            &&& out.deep_view()[k].resolution == Some(self.resolution_strategy)
                        },
                    det == triples_ghost@ + spec_conflicts_for(
                        ps[i as int],
                        ps.subrange(j as int, ps.len() as int),
                    ) + spec_detect(ps.subrange(i + 1, ps.len() as int)),
                decreases policies@.len() - j,
            {
                proof {
                    let tail = ps.subrange(j as int, ps.len() as int);
                    assert(tail[0] == ps[j as int]);
                    assert(tail.subrange(1, tail.len() as int) =~= ps.subrange(
                        j + 1,
                        ps.len() as int,
                    ));
                }
                if let Some(ct) = self.check_policy_pair(&policies[i], &policies[j]) {
                    let mut policy_ids: Vec<PolicyId> = Vec::new();
                    policy_ids.push(policies[i].id);
                    policy_ids.push(policies[j].id);
                    proof {
                        assert(policy_ids.deep_view() =~= seq![ps[i as int].id, ps[j as int].id]);
                    }
                    let conflict = PolicyConflict {
                        id: fresh_uuid_raw(),
                        policy_ids,
                        conflict_type: ct,
                        description: String::from_str(
                            "conflicting rules between two policies with overlapping targets",
                        ),
                        detected_at: now_millis(),
                        resolution: Some(self.resolution_strategy),
                    };
                    let ghost pre_out = out.deep_view();
                    let ghost cv = conflict.deep_view();
                    out.push(conflict);
                    proof {
                        assert(out.deep_view() =~= pre_out.push(cv));
                        triples_ghost@ = triples_ghost@.push(
                            (ps[i as int].id, ps[j as int].id, ct),
                        );
                        assert(det =~= triples_ghost@ + spec_conflicts_for(
                            ps[i as int],
                            ps.subrange(j + 1, ps.len() as int),
                        ) + spec_detect(ps.subrange(i + 1, ps.len() as int)));
                    }
                } else {
                    proof {
                        assert(det =~= triples_ghost@ + spec_conflicts_for(
                            ps[i as int],
                            ps.subrange(j + 1, ps.len() as int),
                        ) + spec_detect(ps.subrange(i + 1, ps.len() as int)));
                    }
                }
                j = j + 1;
            }
            proof {
                assert(ps.subrange(j as int, ps.len() as int) =~= Seq::<PolicyV>::empty());
                assert(spec_conflicts_for(
                    ps[i as int],
                    ps.subrange(j as int, ps.len() as int),
                ) =~= Seq::<(PolicyId, PolicyId, ConflictType)>::empty());
                assert(det =~= triples_ghost@ + spec_detect(ps.subrange(i + 1, ps.len() as int)));
            }
            i = i + 1;
        }
        proof {
            assert(ps.subrange(i as int, ps.len() as int) =~= Seq::<PolicyV>::empty());
            assert(det =~= triples_ghost@);
        }
        out
    }
}

/// Whether the sequence is ordered by enforcement level, most restrictive
/// first when `descending`, least restrictive first otherwise.
pub open spec fn spec_sorted_by_level(s: Seq<PolicyV>, descending: bool) -> bool {
    forall|i: int, j: int|
        0 <= i < j < s.len() ==> if descending {
            (#[trigger] s[i]).enforcement_level.spec_rank() >= (#[trigger] s[j]).enforcement_level.spec_rank()
        } else {
            s[i].enforcement_level.spec_rank() <= s[j].enforcement_level.spec_rank()
        }
}

/// Orders policies by enforcement level, keeping exactly the same policies.
#[verifier::loop_isolation(false)]
#[verifier::rlimit(100)]
fn sort_policies_by_level(policies: Vec<Policy>, descending: bool) -> (r: Vec<Policy>)
    ensures
        r.deep_view().to_multiset() == policies.deep_view().to_multiset(),
        spec_sorted_by_level(r.deep_view(), descending),
{
    proof {
        broadcast use vstd::seq_lib::group_to_multiset_ensures;
    }
    let ghost ps = policies.deep_view();
    let mut out: Vec<Policy> = Vec::new();
    let mut i: usize = 0;
    proof {
        assert(out.deep_view() =~= Seq::<PolicyV>::empty());
        assert(ps.subrange(0, 0) =~= Seq::<PolicyV>::empty());
        assert(out.deep_view().to_multiset() =~= ps.subrange(0, 0).to_multiset());
    }
    while i < policies.len()
        invariant
            0 <= i <= policies@.len(),
            policies@.len() == ps.len(),
            out.deep_view().len() == i,
            out.deep_view().to_multiset() == ps.subrange(0, i as int).to_multiset(),
            spec_sorted_by_level(out.deep_view(), descending),
        decreases policies@.len() - i,
    {
        let p = policies[i].clone();
        let ghost pv = p.deep_view();
        let rank = p.enforcement_level.rank();
        let mut k: usize = 0;
        while k < out.len()
            invariant
                0 <= k <= out.deep_view().len(),
                out.deep_view().len() == i,
                forall|m: int|
                    0 <= m < k ==> if descending {
                        (#[trigger] out.deep_view()[m]).enforcement_level.spec_rank()
                            >= pv.enforcement_level.spec_rank()
                    } else {
                        out.deep_view()[m].enforcement_level.spec_rank()
                            <= pv.enforcement_level.spec_rank()
                    },
            decreases out.deep_view().len() - k,
        {
            let keep_going: bool = if descending {
                out[k].enforcement_level.rank() >= rank
            } else {
                out[k].enforcement_level.rank() <= rank
            };
            if !keep_going {
                break;
            }
            k = k + 1;
        }
        let ghost pre = out.deep_view();
        out.insert(k, p);
        i = i + 1;
        proof {
            broadcast use vstd::seq_lib::group_to_multiset_ensures;

            assert(out.deep_view() =~= pre.take(k as int) + seq![pv] + pre.skip(k as int));
            vstd::seq_lib::lemma_multiset_commutative(
                pre.take(k as int) + seq![pv],
                pre.skip(k as int),
            );
            vstd::seq_lib::lemma_multiset_commutative(pre.take(k as int), seq![pv]);
            assert(pre.take(k as int) + pre.skip(k as int) =~= pre);
            vstd::seq_lib::lemma_multiset_commutative(pre.take(k as int), pre.skip(k as int));
            assert(seq![pv].to_multiset() =~= Multiset::<PolicyV>::empty().insert(pv)) by {
                assert(seq![pv] =~= Seq::<PolicyV>::empty().push(pv));
                assert(Seq::<PolicyV>::empty().push(pv).to_multiset()
                    =~= Seq::<PolicyV>::empty().to_multiset().insert(pv));
            }
            assert(out.deep_view().to_multiset() =~= pre.to_multiset().insert(pv));
            assert(ps.subrange(0, i as int) =~= ps.subrange(0, i - 1).push(ps[i - 1]));
            assert(ps.subrange(0, i as int).to_multiset() =~= ps.subrange(
                0,
                i - 1,
            ).to_multiset().insert(ps[i - 1]));
            assert forall|a: int, b: int| 0 <= a < b < out.deep_view().len() implies (
            if descending {
                (#[trigger] out.deep_view()[a]).enforcement_level.spec_rank()
                    >= (#[trigger] out.deep_view()[b]).enforcement_level.spec_rank()
            } else {
                out.deep_view()[a].enforcement_level.spec_rank()
                    <= out.deep_view()[b].enforcement_level.spec_rank()
            }) by {
                assert(forall|m: int|
                    0 <= m < k ==> #[trigger] out.deep_view()[m] == pre[m]);
                assert(forall|m: int|
                    k <= m < pre.len() ==> #[trigger] out.deep_view()[m + 1] == pre[m]);
                assert(out.deep_view()[k as int] == pv);
            }
        }
    }
    proof {
        assert(ps.subrange(0, i as int) =~= ps);
    }
    out
}

/// Reverses the order of the policies.
#[verifier::loop_isolation(false)]
fn reverse_policies(policies: Vec<Policy>) -> (r: Vec<Policy>)
    ensures
        r.deep_view() == policies.deep_view().reverse(),
{
    let ghost ps = policies.deep_view();
    let mut out: Vec<Policy> = Vec::new();
    let mut i: usize = policies.len();
    while i > 0
        invariant
            0 <= i <= policies@.len(),
            policies@.len() == ps.len(),
            out.deep_view().len() == ps.len() - i,
            forall|m: int|
                0 <= m < out.deep_view().len() ==> #[trigger] out.deep_view()[m] == ps[ps.len() - 1
                    - m],
        decreases i,
    {
        i = i - 1;
        let ghost pre = out.deep_view();
        let p = policies[i].clone();
        let ghost pv = p.deep_view();
        out.push(p);
        proof {
            assert(out.deep_view() =~= pre.push(pv));
        }
    }
    proof {
        assert(out.deep_view() =~= ps.reverse());
    }
    out
}

impl PolicyConflictResolver {
    /// Resolves conflicts between policies under this resolver's strategy:
    /// with no policies it refuses; with no conflicts it returns the
    /// policies unchanged; otherwise the restrictiveness strategies reorder
    /// by enforcement level, first-wins keeps the order, last-wins reverses
    /// it, and fail-on-conflict surfaces the conflicts as a hard error.
    pub fn resolve_conflicts(&self, policies: Vec<Policy>, conflicts: &Vec<PolicyConflict>) -> (r:
        Result<Vec<Policy>, ConflictResolutionError>)
        ensures
            policies.deep_view().len() == 0 <==> (r matches Err(
                ConflictResolutionError::NoPolicies,
            )),
            policies.deep_view().len() > 0 && conflicts.deep_view().len() == 0 ==> (r matches Ok(
                out,
            ) && out.deep_view() == policies.deep_view()),
            policies.deep_view().len() > 0 && conflicts.deep_view().len() > 0 ==> match self.resolution_strategy {
                ConflictResolution::MostRestrictive => (r matches Ok(out)
                    && out.deep_view().to_multiset() == policies.deep_view().to_multiset()
                    && spec_sorted_by_level(out.deep_view(), true)),
                ConflictResolution::LeastRestrictive => (r matches Ok(out)
                    && out.deep_view().to_multiset() == policies.deep_view().to_multiset()
                    && spec_sorted_by_level(out.deep_view(), false)),
                ConflictResolution::FirstWins => (r matches Ok(out) && out.deep_view()
                    == policies.deep_view()),
                ConflictResolution::LastWins => (r matches Ok(out) && out.deep_view()
                    == policies.deep_view().reverse()),
                ConflictResolution::FailOnConflict => r matches Err(
                    ConflictResolutionError::IrreconcilableConflict(_),
                ),
            },
    {
        if policies.len() == 0 {
            return Err(ConflictResolutionError::NoPolicies);
        }
        if conflicts.len() == 0 {
            proof {
                assert(conflicts.deep_view().len() == conflicts@.len());
            }
            return Ok(policies);
        }
        proof {
            assert(conflicts.deep_view().len() == conflicts@.len());
        }
        match self.resolution_strategy {
            ConflictResolution::MostRestrictive => Ok(sort_policies_by_level(policies, true)),
            ConflictResolution::LeastRestrictive => Ok(sort_policies_by_level(policies, false)),
            ConflictResolution::FirstWins => Ok(policies),
            ConflictResolution::LastWins => Ok(reverse_policies(policies)),
            ConflictResolution::FailOnConflict => Err(
                ConflictResolutionError::IrreconcilableConflict(
                    String::from_str("unresolvable conflicts between the given policies"),
                ),
            ),
        }
    }
}

/// Whether a rule conflicts with any rule already merged.
pub open spec fn spec_conflicts_with_any(existing: Seq<RuleV>, rule: RuleV) -> bool {
    exists|k: int| 0 <= k < existing.len() && (#[trigger] spec_rule_conflict(existing[k], rule)) is Some
}

/// One step of the merge fold: a non-conflicting rule is appended; a
/// conflicting one is kept, dropped or promoted to the front by severity
/// according to the strategy, and is a hard error under fail-on-conflict.
pub open spec fn spec_merge_step(
    existing: Seq<RuleV>,
    rule: RuleV,
    strategy: ConflictResolution,
) -> Result<Seq<RuleV>, ()> {
    if !spec_conflicts_with_any(existing, rule) {
        Ok(existing.push(rule))
    } else {
        match strategy {
            ConflictResolution::MostRestrictive => if existing.len() > 0
                && rule.severity.spec_rank() > existing[0].severity.spec_rank() {
                Ok(seq![rule] + existing)
            } else {
                Ok(existing)
            },
            ConflictResolution::LeastRestrictive => if existing.len() > 0
                && rule.severity.spec_rank() < existing[0].severity.spec_rank() {
                Ok(seq![rule] + existing)
            } else {
                Ok(existing)
            },
            ConflictResolution::LastWins => Ok(existing.push(rule)),
            ConflictResolution::FirstWins => Ok(existing),
            ConflictResolution::FailOnConflict => Err(()),
        }
    }
}

/// The merge fold over a list of pending rules, stopping at the first rule
/// that is a hard error.
pub open spec fn spec_merge_rules(
    existing: Seq<RuleV>,
    pending: Seq<RuleV>,
    strategy: ConflictResolution,
) -> Result<Seq<RuleV>, ()>
    decreases pending,
{
    if pending.len() == 0 {
        Ok(existing)
    } else {
        match spec_merge_step(existing, pending[0], strategy) {
            Ok(next) => spec_merge_rules(
                next,
                pending.subrange(1, pending.len() as int),
                strategy,
            ),
            Err(()) => Err(()),
        }
    }
}

/// The rules of every policy after the first, concatenated in order.
pub open spec fn spec_gathered_rules(ps: Seq<PolicyV>) -> Seq<RuleV>
    decreases ps,
{
    if ps.len() == 0 {
        Seq::empty()
    } else {
        ps[0].rules + spec_gathered_rules(ps.subrange(1, ps.len() as int))
    }
}

impl PolicyConflictResolver {
    /// Merges several policies into one synthetic policy that carries the
    /// first policy's identity and the fold of all rules under this
    /// resolver's strategy; under fail-on-conflict any rule conflict is a
    /// hard error.
    #[verifier::loop_isolation(false)]
    #[verifier::rlimit(100)]
    pub fn merge_policies(&self, policies: &Vec<Policy>) -> (r: Result<
        Policy,
        ConflictResolutionError,
    >)
        ensures
            policies.deep_view().len() == 0 <==> (r matches Err(
                ConflictResolutionError::NoPolicies,
            )),
            policies.deep_view().len() > 0 ==> match spec_merge_rules(
                policies.deep_view()[0].rules,
                spec_gathered_rules(
                    policies.deep_view().subrange(1, policies.deep_view().len() as int),
                ),
                self.resolution_strategy,
            ) {
                Ok(rules) => r matches Ok(merged) && merged.deep_view() == (PolicyV {
                    name: "Merged Policy Set ("@ + crate::text::spec_dec_nat(
                        policies.deep_view().len() as nat,
                    ) + ")"@,
                    description: "Automatically merged policy set"@,
                    rules: rules,
                    ..policies.deep_view()[0]
                }),
                Err(()) => r matches Err(
                    ConflictResolutionError::IrreconcilableConflict(_),
                ),
            },
    {
        if policies.len() == 0 {
            return Err(ConflictResolutionError::NoPolicies);
        }
        let ghost ps = policies.deep_view();
        let mut merged = policies[0].clone();
        let mut name = String::from_str("Merged Policy Set (");
        let digits = crate::text::dec_u64(policies.len() as u64);
        name.append(digits.as_str());
        name.append(")");
        merged.name = name;
        merged.description = String::from_str("Automatically merged policy set");

        // Gather the rules of every policy after the first.
        let mut all_rules: Vec<PolicyRule> = Vec::new();
        proof {
            assert(ps.subrange(1, ps.len() as int).subrange(
                0,
                ps.subrange(1, ps.len() as int).len() as int,
            ) =~= ps.subrange(1, ps.len() as int));
            assert(all_rules.deep_view() =~= Seq::<RuleV>::empty());
        }
        let mut i: usize = 1;
        while i < policies.len()
            invariant
                1 <= i <= policies@.len(),
                policies@.len() == ps.len(),
                all_rules.deep_view() + spec_gathered_rules(
                    ps.subrange(i as int, ps.len() as int),
                ) == spec_gathered_rules(ps.subrange(1, ps.len() as int)),
            decreases policies@.len() - i,
        {
            proof {
                let tail = ps.subrange(i as int, ps.len() as int);
                assert(tail[0] == ps[i as int]);
                assert(tail.subrange(1, tail.len() as int) =~= ps.subrange(
                    i + 1,
                    ps.len() as int,
                ));
            }
            let mut extra = clone_vec_deep(&policies[i].rules);
            let ghost pre = all_rules.deep_view();
            let ghost extra_view = extra.deep_view();
            append_rules(&mut all_rules, &mut extra);
            i = i + 1;
            proof {
                assert(extra_view == ps[i - 1].rules);
                assert(pre + extra_view + spec_gathered_rules(
                    ps.subrange(i as int, ps.len() as int),
                ) =~= pre + (extra_view + spec_gathered_rules(
                    ps.subrange(i as int, ps.len() as int),
                )));
            }
        }
        proof {
            assert(ps.subrange(i as int, ps.len() as int) =~= Seq::<PolicyV>::empty());
            assert(spec_gathered_rules(ps.subrange(i as int, ps.len() as int)) =~= Seq::<
                RuleV,
            >::empty());
            assert(all_rules.deep_view() =~= spec_gathered_rules(ps.subrange(1, ps.len() as int)));
        }

        // Fold the gathered rules into the merged policy.
        let ghost pending_all = all_rules.deep_view();
        let ghost fold_outcome = spec_merge_rules(
            merged.deep_view().rules,
            pending_all,
            self.resolution_strategy,
        );
        proof {
            assert(pending_all.subrange(0, pending_all.len() as int) =~= pending_all);
        }
        let mut j: usize = 0;
        while j < all_rules.len()
            invariant
                0 <= j <= all_rules@.len(),
                all_rules@.len() == pending_all.len(),
                all_rules.deep_view() == pending_all,
                fold_outcome == spec_merge_rules(
                    merged.deep_view().rules,
                    pending_all.subrange(j as int, pending_all.len() as int),
                    self.resolution_strategy,
                ),
                merged.deep_view().name == "Merged Policy Set ("@ + crate::text::spec_dec_nat(
                    ps.len() as nat,
                ) + ")"@,
                merged.deep_view().description == "Automatically merged policy set"@,
                merged.deep_view() == (PolicyV {
                    name: merged.deep_view().name,
                    description: merged.deep_view().description,
                    rules: merged.deep_view().rules,
                    ..ps[0]
                }),
            decreases all_rules@.len() - j,
        {
            proof {
                let tail = pending_all.subrange(j as int, pending_all.len() as int);
                assert(tail[0] == pending_all[j as int]);
                assert(tail.subrange(1, tail.len() as int) =~= pending_all.subrange(
                    j + 1,
                    pending_all.len() as int,
                ));
            }
            let rule = all_rules[j].clone();
            let ghost rv = rule.deep_view();
            let mut conflicts_with_existing = false;
            let mut k: usize = 0;
            while k < merged.rules.len()
                invariant
                    0 <= k <= merged.rules@.len(),
                    !conflicts_with_existing ==> forall|m: int|
                        0 <= m < k ==> (#[trigger] spec_rule_conflict(
                            merged.deep_view().rules[m],
                            rv,
                        )) is None,
                    conflicts_with_existing ==> spec_conflicts_with_any(
                        merged.deep_view().rules,
                        rv,
                    ),
                decreases merged.rules@.len() - k,
            {
                if self.check_rule_conflict(&merged.rules[k], &rule).is_some() {
                    conflicts_with_existing = true;
                    proof {
                        assert(spec_rule_conflict(merged.deep_view().rules[k as int], rv)
                            is Some);
                    }
                    break;
                }
                k = k + 1;
            }
            let ghost pre_rules = merged.deep_view().rules;
            if !conflicts_with_existing {
                proof {
                    assert(!spec_conflicts_with_any(pre_rules, rv));
                }
                push_rule(&mut merged, rule);
                proof {
                    assert(merged.deep_view().rules =~= pre_rules.push(rv));
                }
            } else {
                match self.resolution_strategy {
                    ConflictResolution::MostRestrictive => {
                        if merged.rules.len() > 0 && rule.severity.rank()
                            > merged.rules[0].severity.rank() {
                            insert_rule_front(&mut merged, rule);
                            proof {
                                assert(merged.deep_view().rules =~= seq![rv] + pre_rules);
                            }
                        }
                    },
                    ConflictResolution::LeastRestrictive => {
                        if merged.rules.len() > 0 && rule.severity.rank()
                            < merged.rules[0].severity.rank() {
                            insert_rule_front(&mut merged, rule);
                            proof {
                                assert(merged.deep_view().rules =~= seq![rv] + pre_rules);
                            }
                        }
                    },
                    ConflictResolution::LastWins => {
                        push_rule(&mut merged, rule);
                        proof {
                            assert(merged.deep_view().rules =~= pre_rules.push(rv));
                        }
                    },
                    ConflictResolution::FirstWins => {},
                    ConflictResolution::FailOnConflict => {
                        return Err(ConflictResolutionError::IrreconcilableConflict(
                            String::from_str("cannot merge policies with conflicting rules"),
                        ));
                    },
                }
            }
            j = j + 1;
        }
        proof {
            assert(pending_all.subrange(j as int, pending_all.len() as int) =~= Seq::<
                RuleV,
            >::empty());
        }
        Ok(merged)
    }
}

/// Appends a rule to a policy's rule list.
fn push_rule(policy: &mut Policy, rule: PolicyRule)
    ensures
        final(policy).deep_view() == (PolicyV {
            rules: old(policy).deep_view().rules.push(rule.deep_view()),
            ..old(policy).deep_view()
        }),
{
    let ghost rv = rule.deep_view();
    policy.rules.push(rule);
    proof {
        assert(policy.rules.deep_view() =~= old(policy).rules.deep_view().push(rv));
        assert(policy.deep_view() =~= (PolicyV {
            rules: old(policy).deep_view().rules.push(rv),
            ..old(policy).deep_view()
        }));
    }
}

/// Inserts a rule at the front of a policy's rule list.
fn insert_rule_front(policy: &mut Policy, rule: PolicyRule)
    ensures
        final(policy).deep_view() == (PolicyV {
            rules: seq![rule.deep_view()] + old(policy).deep_view().rules,
            ..old(policy).deep_view()
        }),
{
    let ghost rv = rule.deep_view();
    policy.rules.insert(0, rule);
    proof {
        assert(policy.rules.deep_view() =~= seq![rv] + old(policy).rules.deep_view());
        assert(policy.deep_view() =~= (PolicyV {
            rules: seq![rv] + old(policy).deep_view().rules,
            ..old(policy).deep_view()
        }));
    }
}

/// Moves all rules of the second vector to the end of the first.
#[verifier::loop_isolation(false)]
fn append_rules(dst: &mut Vec<PolicyRule>, src: &mut Vec<PolicyRule>)
    ensures
        final(dst).deep_view() == old(dst).deep_view() + old(src).deep_view(),
{
    let mut i: usize = 0;
    while i < src.len()
        invariant
            0 <= i <= src@.len(),
            src@ == old(src)@,
            dst.deep_view() == old(dst).deep_view() + old(src).deep_view().subrange(0, i as int),
        decreases src@.len() - i,
    {
        let ghost pre = dst.deep_view();
        let v = src[i].clone();
        let ghost vv = v.deep_view();
        dst.push(v);
        i = i + 1;
        proof {
            assert(dst.deep_view() =~= pre.push(vv));
            assert(vv == old(src).deep_view()[i - 1]);
            assert(pre.push(vv) =~= old(dst).deep_view() + old(src).deep_view().subrange(
                0,
                i as int,
            ));
        }
    }
    proof {
        assert(old(src).deep_view().subrange(0, i as int) =~= old(src).deep_view());
        assert(dst.deep_view() =~= old(dst).deep_view() + old(src).deep_view());
    }
}

} // verus!
