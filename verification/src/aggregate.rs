//! The three aggregates of the domain — Policy, PolicySet and
//! PolicyExemption — with their pure event-fold reducers.
//!
//! An aggregate's state is only reachable by folding its ordered event
//! history from its creation event; each `apply_event_pure` is a total, pure
//! function from prior state and event to new state, and events that belong
//! to another aggregate are ignored, never an error.

use vstd::prelude::*;
use crate::value_objects::{
    PolicyId, PolicySetId, ExemptionId, PolicyStatus, PolicyTarget, TargetV, EnforcementLevel,
    Value, ValueV, value_view, PolicyMetadata, PolicyMetadataV, clone_vec_deep, clone_opt_string,
    DeepClone,
};
use crate::entities::{PolicyRule, RuleV};
use crate::events::PolicyEvent;
use crate::value_objects::OperationType;
use crate::runtime::now_millis;

verus! {

broadcast use {
    vstd::std_specs::vec::group_vec_axioms,
    vstd::seq::group_seq_axioms,
    crate::value_objects::lemma_vec_policy_id_view,
};

/// How the compliance of a policy set's members folds into one outcome.
#[derive(Debug, Clone, Copy, PartialEq, Eq, Structural)]
pub enum CompositionRule {
    /// All policies must be satisfied.
    All,
    /// At least one policy must be satisfied.
    Any,
    /// More than half of the policies must be satisfied.
    Majority,
    /// At least the given number of policies must be satisfied.
    AtLeast(usize),
}

impl DeepView for CompositionRule {
    type V = CompositionRule;

    open spec fn deep_view(&self) -> CompositionRule {
        *self
    }
}

/// How conflicts between policies are resolved.
#[derive(Debug, Clone, Copy, PartialEq, Eq, Structural)]
pub enum ConflictResolution {
    /// Use the most restrictive policy.
    MostRestrictive,
    /// Use the least restrictive policy.
    LeastRestrictive,
    /// Use the first policy in order.
    FirstWins,
    /// Use the last policy in order.
    LastWins,
    /// Fail if there is any conflict.
    FailOnConflict,
}

impl DeepView for ConflictResolution {
    type V = ConflictResolution;

    open spec fn deep_view(&self) -> ConflictResolution {
        *self
    }
}

/// An error of the policy domain.
#[derive(Debug)]
pub enum PolicyError {
    /// No policy with the given identifier is known.
    PolicyNotFound(u128),
    /// A validation failed, such as an illegal status transition.
    ValidationError(String),
    /// Policies are in conflict.
    ConflictError(String),
    /// An evaluation failed.
    EvaluationError(String),
    /// An enforcement action failed.
    EnforcementError(String),
    /// A rule expression is malformed.
    InvalidRuleExpression(String),
    /// The caller may not perform the operation.
    UnauthorizedOperation(String),
}

/// The main policy aggregate: a named, versioned bundle of rules with a
/// lifecycle status, a target scope, an enforcement level and a validity
/// window.
#[derive(Debug)]
pub struct Policy {
    /// Unique identifier.
    pub id: PolicyId,
    /// Short name.
    pub name: String,
    /// Human-readable description.
    pub description: String,
    /// Monotonically increasing version counter.
    pub version: u32,
    /// Lifecycle status.
    pub status: PolicyStatus,
    /// The rules this policy bundles.
    pub rules: Vec<PolicyRule>,
    /// What or whom the policy applies to.
    pub target: PolicyTarget,
    /// How strictly the policy is enforced.
    pub enforcement_level: EnforcementLevel,
    /// When the policy becomes effective, as Unix milliseconds, if bounded.
    pub effective_date: Option<i64>,
    /// When the policy expires, as Unix milliseconds, if bounded.
    pub expiry_date: Option<i64>,
    /// The policy this one is a new version of, if any.
    pub parent_policy_id: Option<PolicyId>,
    /// Authoring metadata.
    pub metadata: PolicyMetadata,
}

/// Mathematical view of a `Policy`.
#[verifier::ext_equal]
pub struct PolicyV {
    pub id: PolicyId,
    pub name: Seq<char>,
    pub description: Seq<char>,
    pub version: u32,
    pub status: PolicyStatus,
    pub rules: Seq<RuleV>,
    pub target: TargetV,
    pub enforcement_level: EnforcementLevel,
    pub effective_date: Option<i64>,
    pub expiry_date: Option<i64>,
    pub parent_policy_id: Option<PolicyId>,
    pub metadata: PolicyMetadataV,
}

impl DeepView for Policy {
    type V = PolicyV;

    open spec fn deep_view(&self) -> PolicyV {
        PolicyV {
            id: self.id,
            name: self.name@,
            description: self.description@,
            version: self.version,
            status: self.status,
            rules: self.rules.deep_view(),
            target: self.target.deep_view(),
            enforcement_level: self.enforcement_level,
            effective_date: self.effective_date,
            expiry_date: self.expiry_date,
            parent_policy_id: self.parent_policy_id,
            metadata: self.metadata.deep_view(),
        }
    }
}

impl Clone for Policy {
    /// Copies the policy, preserving its view.
    fn clone(&self) -> (r: Self)
        ensures
            r.deep_view() == self.deep_view(),
    {
        let r = Policy {
            id: self.id,
            name: self.name.clone(),
            description: self.description.clone(),
            version: self.version,
            status: self.status,
            rules: clone_vec_deep(&self.rules),
            target: self.target.clone(),
            enforcement_level: self.enforcement_level,
            effective_date: self.effective_date,
            expiry_date: self.expiry_date,
            parent_policy_id: self.parent_policy_id,
            metadata: self.metadata.clone(),
        };
        proof {
            assert(r.deep_view() =~= self.deep_view());
        }
        r
    }
}

impl DeepClone for Policy {
    fn deep_clone(&self) -> (r: Self)
        ensures
            r.deep_view() == self.deep_view(),
    {
        self.clone()
    }
}

/// Whether a policy status transition is legal: the lifecycle walks from
/// draft through review and approval to active, may suspend and resume,
/// revokes from active or suspended, and archives only what was revoked.
/// Every transition outside this table is rejected.
pub open spec fn spec_legal_transition(from: PolicyStatus, to: PolicyStatus) -> bool {
    ||| (from == PolicyStatus::Draft && to == PolicyStatus::UnderReview)
    ||| (from == PolicyStatus::UnderReview && to == PolicyStatus::Approved)
    ||| (from == PolicyStatus::Approved && to == PolicyStatus::Active)
    ||| (from == PolicyStatus::Active && to == PolicyStatus::Suspended)
    ||| (from == PolicyStatus::Suspended && to == PolicyStatus::Active)
    ||| (from == PolicyStatus::Active && to == PolicyStatus::Revoked)
    ||| (from == PolicyStatus::Suspended && to == PolicyStatus::Revoked)
    ||| (from == PolicyStatus::Revoked && to == PolicyStatus::Archived)
}

/// The pure fold step of the policy aggregate: what the state becomes when
/// one event is applied. Events of other aggregates, and evaluation events
/// that are only audit records, leave the state unchanged.
pub open spec fn spec_apply_policy_event(p: PolicyV, e: PolicyEvent) -> PolicyV {
    match e {
        PolicyEvent::PolicyCreated(ev) => PolicyV {
            id: ev.policy_id,
            name: ev.name@,
            description: ev.description@,
            version: 1,
            status: PolicyStatus::Draft,
            rules: Seq::empty(),
            target: TargetV::Global,
            enforcement_level: EnforcementLevel::Advisory,
            effective_date: None,
            expiry_date: None,
            parent_policy_id: None,
            metadata: PolicyMetadataV {
                created_at: ev.created_at,
                created_by: ev.created_by@,
                ..p.metadata
            },
        },
        PolicyEvent::PolicyUpdated(ev) => PolicyV {
            version: ev.version,
            metadata: PolicyMetadataV {
                last_modified_at: Some(ev.updated_at),
                last_modified_by: Some(ev.updated_by@),
                ..p.metadata
            },
            ..p
        },
        PolicyEvent::PolicyApproved(_) => PolicyV { status: PolicyStatus::Approved, ..p },
        PolicyEvent::PolicyActivated(ev) => PolicyV {
            status: PolicyStatus::Active,
            effective_date: Some(ev.effective_from),
            expiry_date: ev.effective_until,
            ..p
        },
        PolicyEvent::PolicySuspended(_) => PolicyV { status: PolicyStatus::Suspended, ..p },
        PolicyEvent::PolicyRevoked(_) => PolicyV { status: PolicyStatus::Revoked, ..p },
        PolicyEvent::PolicyArchived(_) => PolicyV { status: PolicyStatus::Archived, ..p },
        _ => p,
    }
}

impl Policy {
    /// Creates a fresh draft policy with the given name and description, no
    /// rules, a global target and advisory enforcement.
    pub fn new(name: &str, description: &str) -> (r: Policy)
        ensures
            r.deep_view().name == name@,
            r.deep_view().description == description@,
            r.deep_view().version == 1u32,
            r.deep_view().status == PolicyStatus::Draft,
            r.deep_view().rules.len() == 0,
            r.deep_view().target == TargetV::Global,
            r.deep_view().enforcement_level == EnforcementLevel::Advisory,
            r.deep_view().effective_date is None,
            r.deep_view().expiry_date is None,
            r.deep_view().parent_policy_id is None,
            r.deep_view().metadata.last_modified_by is None,
            r.deep_view().metadata.last_modified_at is None,
            r.deep_view().metadata.tags == Seq::<Seq<char>>::empty(),
            r.deep_view().metadata.compliance_standards == Seq::<Seq<char>>::empty(),
            r.deep_view().metadata.documentation_url is None,
    {
        let r = Policy {
            id: PolicyId::new(),
            name: name.to_owned(),
            description: description.to_owned(),
            version: 1,
            status: PolicyStatus::Draft,
            rules: Vec::new(),
            target: PolicyTarget::Global,
            enforcement_level: EnforcementLevel::Advisory,
            effective_date: None,
            expiry_date: None,
            parent_policy_id: None,
            metadata: PolicyMetadata::default(),
        };
        proof {
            assert(r.rules.deep_view() =~= Seq::<RuleV>::empty());
            assert(r.deep_view().metadata.tags =~= Seq::<Seq<char>>::empty());
            assert(r.deep_view().metadata.compliance_standards =~= Seq::<Seq<char>>::empty());
        }
        r
    }

    /// Applies one event to this state and returns the new state, leaving
    /// this one untouched: the core of event-sourced reconstruction.
    pub fn apply_event_pure(&self, event: &PolicyEvent) -> (r: Result<Policy, PolicyError>)
        ensures
            r matches Ok(p) && p.deep_view() == spec_apply_policy_event(self.deep_view(), *event),
    {
        let mut new_policy = self.clone();
        match event {
            PolicyEvent::PolicyCreated(e) => {
                new_policy.id = e.policy_id;
                new_policy.name = e.name.clone();
                new_policy.description = e.description.clone();
                new_policy.version = 1;
                new_policy.status = PolicyStatus::Draft;
                new_policy.rules = Vec::new();
                new_policy.target = PolicyTarget::Global;
                new_policy.enforcement_level = EnforcementLevel::Advisory;
                new_policy.effective_date = None;
                new_policy.expiry_date = None;
                new_policy.parent_policy_id = None;
                new_policy.metadata.created_at = e.created_at;
                new_policy.metadata.created_by = e.created_by.clone();
                proof {
                    assert(new_policy.rules.deep_view() =~= Seq::<RuleV>::empty());
                    assert(new_policy.deep_view() =~= spec_apply_policy_event(
                        self.deep_view(),
                        *event,
                    ));
                }
            },
            PolicyEvent::PolicyUpdated(e) => {
                new_policy.version = e.version;
                new_policy.metadata.last_modified_at = Some(e.updated_at);
                new_policy.metadata.last_modified_by = Some(e.updated_by.clone());
                proof {
                    assert(new_policy.deep_view() =~= spec_apply_policy_event(
                        self.deep_view(),
                        *event,
                    ));
                }
            },
            PolicyEvent::PolicyApproved(_) => {
                new_policy.status = PolicyStatus::Approved;
            },
            PolicyEvent::PolicyActivated(e) => {
                new_policy.status = PolicyStatus::Active;
                new_policy.effective_date = Some(e.effective_from);
                new_policy.expiry_date = if let Some(t) = e.effective_until {
                    Some(t)
                } else {
                    None
                };
            },
            PolicyEvent::PolicySuspended(_) => {
                new_policy.status = PolicyStatus::Suspended;
            },
            PolicyEvent::PolicyRevoked(_) => {
                new_policy.status = PolicyStatus::Revoked;
            },
            PolicyEvent::PolicyArchived(_) => {
                new_policy.status = PolicyStatus::Archived;
            },
            _ => {},
        }
        proof {
            assert(new_policy.deep_view() =~= spec_apply_policy_event(self.deep_view(), *event));
        }
        Ok(new_policy)
    }

    /// Appends a rule to the policy.
    pub fn add_rule(&mut self, rule: PolicyRule)
        ensures
            final(self).deep_view() == (PolicyV {
                rules: old(self).deep_view().rules.push(rule.deep_view()),
                ..old(self).deep_view()
            }),
    {
        self.rules.push(rule);
        proof {
            assert(self.rules.deep_view() =~= old(self).rules.deep_view().push(
                self.rules@[old(self).rules@.len() as int].deep_view(),
            ));
            assert(self.deep_view() =~= (PolicyV {
                rules: old(self).deep_view().rules.push(
                    self.rules@[old(self).rules@.len() as int].deep_view(),
                ),
                ..old(self).deep_view()
            }));
        }
    }

    /// Moves the policy to the given status when the lifecycle allows it,
    /// and rejects the transition otherwise, leaving the state unchanged.
    pub fn update_status(&mut self, status: PolicyStatus) -> (r: Result<(), PolicyError>)
        ensures
            r is Ok <==> spec_legal_transition(old(self).deep_view().status, status),
            r is Ok ==> final(self).deep_view() == (PolicyV {
                status: status,
                ..old(self).deep_view()
            }),
            r is Err ==> final(self).deep_view() == old(self).deep_view() && r matches Err(
                PolicyError::ValidationError(_),
            ),
    {
        let legal = match (self.status, status) {
            (PolicyStatus::Draft, PolicyStatus::UnderReview) => true,
            (PolicyStatus::UnderReview, PolicyStatus::Approved) => true,
            (PolicyStatus::Approved, PolicyStatus::Active) => true,
            (PolicyStatus::Active, PolicyStatus::Suspended) => true,
            (PolicyStatus::Suspended, PolicyStatus::Active) => true,
            (PolicyStatus::Active, PolicyStatus::Revoked) => true,
            (PolicyStatus::Suspended, PolicyStatus::Revoked) => true,
            (PolicyStatus::Revoked, PolicyStatus::Archived) => true,
            _ => false,
        };
        if legal {
            self.status = status;
            proof {
                assert(self.deep_view() =~= (PolicyV {
                    status: status,
                    ..old(self).deep_view()
                }));
            }
            Ok(())
        } else {
            Err(PolicyError::ValidationError(String::from_str("invalid status transition")))
        }
    }

    /// Whether the policy is effective at the given instant: active, not
    /// before its effective date and not after its expiry date.
    pub open spec fn spec_is_effective_at(p: PolicyV, now: i64) -> bool {
        &&& p.status == PolicyStatus::Active
        &&& !(p.effective_date matches Some(d) && now < d)
        &&& !(p.expiry_date matches Some(d) && now > d)
    }

    /// Returns whether the policy is effective at the given instant.
    pub fn is_effective_at(&self, now: i64) -> (r: bool)
        ensures
            r == Policy::spec_is_effective_at(self.deep_view(), now),
    {
        if !matches!(self.status, PolicyStatus::Active) {
            return false;
        }
        if let Some(effective_date) = self.effective_date {
            if now < effective_date {
                return false;
            }
        }
        if let Some(expiry_date) = self.expiry_date {
            if now > expiry_date {
                return false;
            }
        }
        true
    }

    /// Returns whether the policy is effective now, by the wall clock: the
    /// result is the effectiveness test at the instant that was read.
    pub fn is_effective(&self) -> (r: bool)
        ensures
            exists|now: i64| r == #[trigger] Policy::spec_is_effective_at(self.deep_view(), now),
            r ==> self.deep_view().status == PolicyStatus::Active,
    {
        let now = now_millis();
        self.is_effective_at(now)
    }

    /// Creates a new draft version of this policy: a fresh identifier, the
    /// version counter advanced, and this policy recorded as the parent.
    pub fn create_version(&self) -> (r: Policy)
        requires
            self.deep_view().version < u32::MAX,
        ensures
            r.deep_view() == (PolicyV {
                id: r.deep_view().id,
                version: (self.deep_view().version + 1) as u32,
                status: PolicyStatus::Draft,
                parent_policy_id: Some(self.deep_view().id),
                metadata: PolicyMetadataV {
                    created_at: r.deep_view().metadata.created_at,
                    ..self.deep_view().metadata
                },
                ..self.deep_view()
            }),
    {
        let mut new_version = self.clone();
        new_version.id = PolicyId::new();
        new_version.version = self.version + 1;
        new_version.status = PolicyStatus::Draft;
        new_version.parent_policy_id = Some(self.id);
        new_version.metadata.created_at = now_millis();
        proof {
            assert(new_version.deep_view() =~= (PolicyV {
                id: new_version.deep_view().id,
                version: (self.deep_view().version + 1) as u32,
                status: PolicyStatus::Draft,
                parent_policy_id: Some(self.deep_view().id),
                metadata: PolicyMetadataV {
                    created_at: new_version.deep_view().metadata.created_at,
                    ..self.deep_view().metadata
                },
                ..self.deep_view()
            }));
        }
        new_version
    }
}

/// A group of policies evaluated together under one composition rule and one
/// conflict-resolution strategy.
#[derive(Debug)]
pub struct PolicySet {
    /// Unique identifier.
    pub id: PolicySetId,
    /// Short name.
    pub name: String,
    /// Human-readable description.
    pub description: String,
    /// The member policies, each listed once.
    pub policies: Vec<PolicyId>,
    /// How member compliance folds into one outcome.
    pub composition_rule: CompositionRule,
    /// How conflicts between members are resolved.
    pub conflict_resolution: ConflictResolution,
    /// Lifecycle status.
    pub status: PolicyStatus,
    /// Authoring metadata.
    pub metadata: PolicyMetadata,
}

/// Mathematical view of a `PolicySet`.
#[verifier::ext_equal]
pub struct PolicySetV {
    pub id: PolicySetId,
    pub name: Seq<char>,
    pub description: Seq<char>,
    pub policies: Seq<PolicyId>,
    pub composition_rule: CompositionRule,
    pub conflict_resolution: ConflictResolution,
    pub status: PolicyStatus,
    pub metadata: PolicyMetadataV,
}

impl DeepView for PolicySet {
    type V = PolicySetV;

    open spec fn deep_view(&self) -> PolicySetV {
        PolicySetV {
            id: self.id,
            name: self.name@,
            description: self.description@,
            policies: self.policies.deep_view(),
            composition_rule: self.composition_rule,
            conflict_resolution: self.conflict_resolution,
            status: self.status,
            metadata: self.metadata.deep_view(),
        }
    }
}

impl Clone for PolicySet {
    /// Copies the set, preserving its view.
    fn clone(&self) -> (r: Self)
        ensures
            r.deep_view() == self.deep_view(),
    {
        let r = PolicySet {
            id: self.id,
            name: self.name.clone(),
            description: self.description.clone(),
            policies: clone_policy_ids(&self.policies),
            composition_rule: self.composition_rule,
            conflict_resolution: self.conflict_resolution,
            status: self.status,
            metadata: self.metadata.clone(),
        };
        proof {
            assert(r.deep_view() =~= self.deep_view());
        }
        r
    }
}

/// Copies a vector of policy identifiers.
#[verifier::loop_isolation(false)]
fn clone_policy_ids(v: &Vec<PolicyId>) -> (r: Vec<PolicyId>)
    ensures
        r.deep_view() == v.deep_view(),
        r@ == v@,
{
    let mut out: Vec<PolicyId> = Vec::new();
    let mut i: usize = 0;
    while i < v.len()
        invariant
            0 <= i <= v@.len(),
            out@ == v@.take(i as int),
        decreases v@.len() - i,
    {
        out.push(v[i]);
        i = i + 1;
    }
    proof {
        assert(out@ =~= v@);
        assert(out.deep_view() =~= v.deep_view());
    }
    out
}

/// Returns whether the identifier occurs in the list.
#[verifier::loop_isolation(false)]
fn contains_policy_id(v: &Vec<PolicyId>, id: PolicyId) -> (r: bool)
    ensures
        r == v@.contains(id),
{
    let mut i: usize = 0;
    while i < v.len()
        invariant
            0 <= i <= v@.len(),
            forall|j: int| 0 <= j < i ==> v@[j] != id,
        decreases v@.len() - i,
    {
        if v[i].0 == id.0 {
            return true;
        }
        i = i + 1;
    }
    false
}

/// The list with every occurrence of the identifier removed, order kept.
pub open spec fn spec_remove_policy_id(s: Seq<PolicyId>, id: PolicyId) -> Seq<PolicyId>
    decreases s,
{
    if s.len() == 0 {
        Seq::empty()
    } else {
        let rest = spec_remove_policy_id(s.subrange(1, s.len() as int), id);
        if s[0] == id {
            rest
        } else {
            seq![s[0]] + rest
        }
    }
}

/// Removes every occurrence of the identifier, keeping order.
#[verifier::loop_isolation(false)]
fn remove_policy_id(v: &Vec<PolicyId>, id: PolicyId) -> (r: Vec<PolicyId>)
    ensures
        r@ == spec_remove_policy_id(v@, id),
{
    let mut out: Vec<PolicyId> = Vec::new();
    let mut i: usize = 0;
    proof {
        assert(v@.subrange(0, v@.len() as int) =~= v@);
    }
    while i < v.len()
        invariant
            0 <= i <= v@.len(),
            spec_remove_policy_id(v@, id) == out@ + spec_remove_policy_id(
                v@.subrange(i as int, v@.len() as int),
                id,
            ),
        decreases v@.len() - i,
    {
        proof {
            let tail = v@.subrange(i as int, v@.len() as int);
            assert(tail[0] == v@[i as int]);
            assert(tail.subrange(1, tail.len() as int) =~= v@.subrange(i + 1, v@.len() as int));
        }
        if !(v[i].0 == id.0) {
            out.push(v[i]);
        }
        i = i + 1;
        proof {
            assert(spec_remove_policy_id(v@, id) =~= out@ + spec_remove_policy_id(
                v@.subrange(i as int, v@.len() as int),
                id,
            ));
        }
    }
    proof {
        assert(v@.subrange(i as int, v@.len() as int) =~= Seq::<PolicyId>::empty());
        assert(out@ =~= spec_remove_policy_id(v@, id));
    }
    out
}

/// The pure fold step of the policy-set aggregate: adding deduplicates,
/// removing an absent member is a no-op, and events of other aggregates
/// leave the state unchanged.
pub open spec fn spec_apply_set_event(p: PolicySetV, e: PolicyEvent) -> PolicySetV {
    match e {
        PolicyEvent::PolicySetCreated(ev) => PolicySetV {
            id: ev.policy_set_id,
            name: ev.name@,
            description: ev.description@,
            policies: Seq::empty(),
            composition_rule: CompositionRule::All,
            conflict_resolution: ConflictResolution::MostRestrictive,
            status: PolicyStatus::Draft,
            metadata: PolicyMetadataV {
                created_at: ev.created_at,
                created_by: ev.created_by@,
                ..p.metadata
            },
        },
        PolicyEvent::PolicyAddedToSet(ev) => {
            if p.policies.contains(ev.policy_id) {
                p
            } else {
                PolicySetV { policies: p.policies.push(ev.policy_id), ..p }
            }
        },
        PolicyEvent::PolicyRemovedFromSet(ev) => PolicySetV {
            policies: spec_remove_policy_id(p.policies, ev.policy_id),
            ..p
        },
        _ => p,
    }
}

impl PolicySet {
    /// Creates a fresh draft set with the given name and description, no
    /// members, the `All` composition rule and most-restrictive conflict
    /// resolution.
    pub fn new(name: &str, description: &str) -> (r: PolicySet)
        ensures
            r.deep_view().name == name@,
            r.deep_view().description == description@,
            r.deep_view().policies.len() == 0,
            r.deep_view().composition_rule == CompositionRule::All,
            r.deep_view().conflict_resolution == ConflictResolution::MostRestrictive,
            r.deep_view().status == PolicyStatus::Draft,
            r.deep_view().metadata.last_modified_by is None,
            r.deep_view().metadata.last_modified_at is None,
            r.deep_view().metadata.tags == Seq::<Seq<char>>::empty(),
            r.deep_view().metadata.compliance_standards == Seq::<Seq<char>>::empty(),
            r.deep_view().metadata.documentation_url is None,
    {
        let r = PolicySet {
            id: PolicySetId::new(),
            name: name.to_owned(),
            description: description.to_owned(),
            policies: Vec::new(),
            composition_rule: CompositionRule::All,
            conflict_resolution: ConflictResolution::MostRestrictive,
            status: PolicyStatus::Draft,
            metadata: PolicyMetadata::default(),
        };
        proof {
            assert(r.policies.deep_view() =~= Seq::<PolicyId>::empty());
            assert(r.deep_view().metadata.tags =~= Seq::<Seq<char>>::empty());
            assert(r.deep_view().metadata.compliance_standards =~= Seq::<Seq<char>>::empty());
        }
        r
    }

    /// Applies one event to this state and returns the new state, leaving
    /// this one untouched.
    pub fn apply_event_pure(&self, event: &PolicyEvent) -> (r: Result<PolicySet, PolicyError>)
        ensures
            r matches Ok(p) && p.deep_view() == spec_apply_set_event(self.deep_view(), *event),
    {
        let mut new_set = self.clone();
        match event {
            PolicyEvent::PolicySetCreated(e) => {
                new_set.id = e.policy_set_id;
                new_set.name = e.name.clone();
                new_set.description = e.description.clone();
                new_set.policies = Vec::new();
                new_set.composition_rule = CompositionRule::All;
                new_set.conflict_resolution = ConflictResolution::MostRestrictive;
                new_set.status = PolicyStatus::Draft;
                new_set.metadata.created_at = e.created_at;
                new_set.metadata.created_by = e.created_by.clone();
                proof {
                    assert(new_set.policies.deep_view() =~= Seq::<PolicyId>::empty());
                }
            },
            PolicyEvent::PolicyAddedToSet(e) => {
                proof {
                    assert(new_set.policies@ =~= self.policies@);
                }
                if !contains_policy_id(&new_set.policies, e.policy_id) {
                    new_set.policies.push(e.policy_id);
                }
            },
            PolicyEvent::PolicyRemovedFromSet(e) => {
                proof {
                    assert(new_set.policies@ =~= self.policies@);
                }
                new_set.policies = remove_policy_id(&new_set.policies, e.policy_id);
            },
            _ => {},
        }
        proof {
            assert(new_set.deep_view() =~= spec_apply_set_event(self.deep_view(), *event));
        }
        Ok(new_set)
    }

    /// Adds a member policy; a policy already in the set is not added twice.
    pub fn add_policy(&mut self, policy_id: PolicyId)
        ensures
            final(self).deep_view() == (PolicySetV {
                policies: if old(self).deep_view().policies.contains(policy_id) {
                    old(self).deep_view().policies
                } else {
                    old(self).deep_view().policies.push(policy_id)
                },
                ..old(self).deep_view()
            }),
    {
        proof {
            assert(self.policies.deep_view() =~= self.policies@);
        }
        if !contains_policy_id(&self.policies, policy_id) {
            self.policies.push(policy_id);
        }
        proof {
            assert(self.policies.deep_view() =~= self.policies@);
            assert(self.deep_view() =~= (PolicySetV {
                policies: if old(self).deep_view().policies.contains(policy_id) {
                    old(self).deep_view().policies
                } else {
                    old(self).deep_view().policies.push(policy_id)
                },
                ..old(self).deep_view()
            }));
        }
    }

    /// Removes a member policy; removing an absent member changes nothing.
    pub fn remove_policy(&mut self, policy_id: &PolicyId)
        ensures
            final(self).deep_view() == (PolicySetV {
                policies: spec_remove_policy_id(old(self).deep_view().policies, *policy_id),
                ..old(self).deep_view()
            }),
    {
        proof {
            assert(self.policies.deep_view() =~= self.policies@);
        }
        self.policies = remove_policy_id(&self.policies, *policy_id);
        proof {
            assert(self.policies.deep_view() =~= self.policies@);
            assert(self.deep_view() =~= (PolicySetV {
                policies: spec_remove_policy_id(old(self).deep_view().policies, *policy_id),
                ..old(self).deep_view()
            }));
        }
    }
}

/// Scope of an exemption: whom or what the bypass applies to.
#[derive(Debug, PartialEq)]
pub enum ExemptionScope {
    /// Applies everywhere.
    Global,
    /// Applies to one organization.
    Organization(u128),
    /// Applies to one user.
    User(String),
    /// Applies to one resource.
    Resource(String),
    /// Applies to one operation.
    Operation(OperationType),
}

/// Mathematical view of an `ExemptionScope`.
pub enum ExemptionScopeV {
    Global,
    Organization(u128),
    User(Seq<char>),
    Resource(Seq<char>),
    Operation(crate::value_objects::OperationTypeV),
}

impl DeepView for ExemptionScope {
    type V = ExemptionScopeV;

    open spec fn deep_view(&self) -> ExemptionScopeV {
        match self {
            ExemptionScope::Global => ExemptionScopeV::Global,
            ExemptionScope::Organization(id) => ExemptionScopeV::Organization(*id),
            ExemptionScope::User(u) => ExemptionScopeV::User(u@),
            ExemptionScope::Resource(r) => ExemptionScopeV::Resource(r@),
            ExemptionScope::Operation(op) => ExemptionScopeV::Operation(op.deep_view()),
        }
    }
}

impl Clone for ExemptionScope {
    /// Copies the scope, preserving its view.
    fn clone(&self) -> (r: Self)
        ensures
            r.deep_view() == self.deep_view(),
    {
        match self {
            ExemptionScope::Global => ExemptionScope::Global,
            ExemptionScope::Organization(id) => ExemptionScope::Organization(*id),
            ExemptionScope::User(u) => ExemptionScope::User(u.clone()),
            ExemptionScope::Resource(r) => ExemptionScope::Resource(r.clone()),
            ExemptionScope::Operation(op) => ExemptionScope::Operation(op.clone()),
        }
    }
}

/// Operators an exemption condition can use.
#[derive(Debug, Clone, Copy, PartialEq, Eq, Structural)]
pub enum ConditionOperator {
    Equals,
    NotEquals,
    GreaterThan,
    LessThan,
    Contains,
    NotContains,
}

impl DeepView for ConditionOperator {
    type V = ConditionOperator;

    open spec fn deep_view(&self) -> ConditionOperator {
        *self
    }
}

/// A condition that must hold of the context for an exemption to apply.
#[derive(Debug, PartialEq)]
pub struct ExemptionCondition {
    /// The context field the condition reads.
    pub field: String,
    /// How the field is compared.
    pub operator: ConditionOperator,
    /// The operand compared against.
    pub value: Value,
}

/// Mathematical view of an `ExemptionCondition`.
pub struct ExemptionConditionV {
    pub field: Seq<char>,
    pub operator: ConditionOperator,
    pub value: ValueV,
}

impl DeepView for ExemptionCondition {
    type V = ExemptionConditionV;

    open spec fn deep_view(&self) -> ExemptionConditionV {
        ExemptionConditionV {
            field: self.field@,
            operator: self.operator,
            value: value_view(self.value),
        }
    }
}

impl Clone for ExemptionCondition {
    /// Copies the condition, preserving its view.
    fn clone(&self) -> (r: Self)
        ensures
            r.deep_view() == self.deep_view(),
    {
        ExemptionCondition {
            field: self.field.clone(),
            operator: self.operator,
            value: self.value.clone(),
        }
    }
}

impl DeepClone for ExemptionCondition {
    fn deep_clone(&self) -> (r: Self)
        ensures
            r.deep_view() == self.deep_view(),
    {
        self.clone()
    }
}

/// Status of an exemption; revocation and expiry are terminal.
#[derive(Debug, PartialEq)]
pub enum ExemptionStatus {
    /// The exemption is usable.
    Active,
    /// The exemption ran out; terminal.
    Expired,
    /// The exemption was withdrawn; terminal.
    Revoked { revoked_by: String, revoked_at: i64, reason: String },
}

/// Mathematical view of an `ExemptionStatus`.
pub enum ExemptionStatusV {
    Active,
    Expired,
    Revoked { revoked_by: Seq<char>, revoked_at: i64, reason: Seq<char> },
}

impl DeepView for ExemptionStatus {
    type V = ExemptionStatusV;

    open spec fn deep_view(&self) -> ExemptionStatusV {
        match self {
            ExemptionStatus::Active => ExemptionStatusV::Active,
            ExemptionStatus::Expired => ExemptionStatusV::Expired,
            ExemptionStatus::Revoked { revoked_by, revoked_at, reason } => {
                ExemptionStatusV::Revoked {
                    revoked_by: revoked_by@,
                    revoked_at: *revoked_at,
                    reason: reason@,
                }
            },
        }
    }
}

impl Clone for ExemptionStatus {
    /// Copies the status, preserving its view.
    fn clone(&self) -> (r: Self)
        ensures
            r.deep_view() == self.deep_view(),
    {
        match self {
            ExemptionStatus::Active => ExemptionStatus::Active,
            ExemptionStatus::Expired => ExemptionStatus::Expired,
            ExemptionStatus::Revoked { revoked_by, revoked_at, reason } => {
                ExemptionStatus::Revoked {
                    revoked_by: revoked_by.clone(),
                    revoked_at: *revoked_at,
                    reason: reason.clone(),
                }
            },
        }
    }
}

/// An authorized, time- and scope-bounded bypass of one policy.
#[derive(Debug)]
pub struct PolicyExemption {
    /// Unique identifier.
    pub id: ExemptionId,
    /// The policy this exemption bypasses.
    pub policy_id: PolicyId,
    /// Why the exemption was asked for.
    pub reason: String,
    /// The business justification given.
    pub justification: String,
    /// The recorded risk acceptance, if any.
    pub risk_acceptance: Option<String>,
    /// Who approved the exemption.
    pub approved_by: String,
    /// When it was approved, as Unix milliseconds.
    pub approved_at: i64,
    /// Start of the validity window, as Unix milliseconds.
    pub valid_from: i64,
    /// End of the validity window, as Unix milliseconds.
    pub valid_until: i64,
    /// Whom or what the bypass applies to.
    pub scope: ExemptionScope,
    /// Conditions the context must meet for the bypass to apply.
    pub conditions: Vec<ExemptionCondition>,
    /// Current status; revocation and expiry are terminal.
    pub status: ExemptionStatus,
}

/// Mathematical view of a `PolicyExemption`.
#[verifier::ext_equal]
pub struct PolicyExemptionV {
    pub id: ExemptionId,
    pub policy_id: PolicyId,
    pub reason: Seq<char>,
    pub justification: Seq<char>,
    pub risk_acceptance: Option<Seq<char>>,
    pub approved_by: Seq<char>,
    pub approved_at: i64,
    pub valid_from: i64,
    pub valid_until: i64,
    pub scope: ExemptionScopeV,
    pub conditions: Seq<ExemptionConditionV>,
    pub status: ExemptionStatusV,
}

impl DeepView for PolicyExemption {
    type V = PolicyExemptionV;

    open spec fn deep_view(&self) -> PolicyExemptionV {
        PolicyExemptionV {
            id: self.id,
            policy_id: self.policy_id,
            reason: self.reason@,
            justification: self.justification@,
            risk_acceptance: self.risk_acceptance.deep_view(),
            approved_by: self.approved_by@,
            approved_at: self.approved_at,
            valid_from: self.valid_from,
            valid_until: self.valid_until,
            scope: self.scope.deep_view(),
            conditions: self.conditions.deep_view(),
            status: self.status.deep_view(),
        }
    }
}

impl Clone for PolicyExemption {
    /// Copies the exemption, preserving its view.
    fn clone(&self) -> (r: Self)
        ensures
            r.deep_view() == self.deep_view(),
    {
        let r = PolicyExemption {
            id: self.id,
            policy_id: self.policy_id,
            reason: self.reason.clone(),
            justification: self.justification.clone(),
            risk_acceptance: clone_opt_string(&self.risk_acceptance),
            approved_by: self.approved_by.clone(),
            approved_at: self.approved_at,
            valid_from: self.valid_from,
            valid_until: self.valid_until,
            scope: self.scope.clone(),
            conditions: clone_vec_deep(&self.conditions),
            status: self.status.clone(),
        };
        proof {
            assert(r.deep_view() =~= self.deep_view());
        }
        r
    }
}

impl DeepClone for PolicyExemption {
    fn deep_clone(&self) -> (r: Self)
        ensures
            r.deep_view() == self.deep_view(),
    {
        self.clone()
    }
}

/// The pure fold step of the exemption aggregate: a grant re-initializes an
/// active exemption, revocation and expiry are terminal — once the status is
/// revoked or expired every further event is ignored — and events of other
/// aggregates leave the state unchanged.
pub open spec fn spec_apply_exemption_event(x: PolicyExemptionV, e: PolicyEvent) -> PolicyExemptionV {
    if !(x.status is Active) {
        x
    } else {
        spec_apply_exemption_event_active(x, e)
    }
}

/// The fold step of an exemption that is still active.
pub open spec fn spec_apply_exemption_event_active(
    x: PolicyExemptionV,
    e: PolicyEvent,
) -> PolicyExemptionV {
    match e {
        PolicyEvent::PolicyExemptionGranted(ev) => PolicyExemptionV {
            id: ev.exemption_id,
            policy_id: ev.policy_id,
            reason: ev.reason@,
            justification: Seq::empty(),
            risk_acceptance: ev.risk_acceptance.deep_view(),
            approved_by: ev.granted_by@,
            approved_at: ev.granted_at,
            valid_from: ev.granted_at,
            valid_until: ev.valid_until,
            scope: ExemptionScopeV::Global,
            conditions: Seq::empty(),
            status: ExemptionStatusV::Active,
        },
        PolicyEvent::PolicyExemptionRevoked(ev) => PolicyExemptionV {
            status: ExemptionStatusV::Revoked {
                revoked_by: ev.revoked_by@,
                revoked_at: ev.revoked_at,
                reason: ev.reason@,
            },
            ..x
        },
        PolicyEvent::PolicyExemptionExpired(_) => PolicyExemptionV {
            status: ExemptionStatusV::Expired,
            ..x
        },
        _ => x,
    }
}

impl PolicyExemption {
    /// Creates a fresh active exemption for the policy, approved now, valid
    /// from now until the given instant, with a global scope and no
    /// conditions.
    pub fn new(
        policy_id: PolicyId,
        reason: &str,
        justification: &str,
        approved_by: &str,
        valid_until: i64,
    ) -> (r: PolicyExemption)
        ensures
            r.deep_view().policy_id == policy_id,
            r.deep_view().reason == reason@,
            r.deep_view().justification == justification@,
            r.deep_view().risk_acceptance is None,
            r.deep_view().approved_by == approved_by@,
            r.deep_view().valid_until == valid_until,
            r.deep_view().valid_from == r.deep_view().approved_at,
            r.deep_view().scope == ExemptionScopeV::Global,
            r.deep_view().conditions.len() == 0,
            r.deep_view().status == ExemptionStatusV::Active,
    {
        let now = now_millis();
        let r = PolicyExemption {
            id: ExemptionId::new(),
            policy_id,
            reason: reason.to_owned(),
            justification: justification.to_owned(),
            risk_acceptance: None,
            approved_by: approved_by.to_owned(),
            approved_at: now,
            valid_from: now,
            valid_until,
            scope: ExemptionScope::Global,
            conditions: Vec::new(),
            status: ExemptionStatus::Active,
        };
        proof {
            assert(r.conditions.deep_view() =~= Seq::<ExemptionConditionV>::empty());
        }
        r
    }

    /// Applies one event to this state and returns the new state, leaving
    /// this one untouched.
    pub fn apply_event_pure(&self, event: &PolicyEvent) -> (r: Result<
        PolicyExemption,
        PolicyError,
    >)
        ensures
            r matches Ok(x) && x.deep_view() == spec_apply_exemption_event(
                self.deep_view(),
                *event,
            ),
    {
        let mut new_exemption = self.clone();
        if !matches!(self.status, ExemptionStatus::Active) {
            proof {
                assert(new_exemption.deep_view() =~= spec_apply_exemption_event(
                    self.deep_view(),
                    *event,
                ));
            }
            return Ok(new_exemption);
        }
        match event {
            PolicyEvent::PolicyExemptionGranted(e) => {
                new_exemption.id = e.exemption_id;
                new_exemption.policy_id = e.policy_id;
                new_exemption.reason = e.reason.clone();
                new_exemption.justification = String::new();
                new_exemption.risk_acceptance = clone_opt_string(&e.risk_acceptance);
                new_exemption.approved_by = e.granted_by.clone();
                new_exemption.approved_at = e.granted_at;
                new_exemption.valid_from = e.granted_at;
                new_exemption.valid_until = e.valid_until;
                new_exemption.scope = ExemptionScope::Global;
                new_exemption.conditions = Vec::new();
                new_exemption.status = ExemptionStatus::Active;
                proof {
                    assert(new_exemption.conditions.deep_view() =~= Seq::<
                        ExemptionConditionV,
                    >::empty());
                }
            },
            PolicyEvent::PolicyExemptionRevoked(e) => {
                new_exemption.status = ExemptionStatus::Revoked {
                    revoked_by: e.revoked_by.clone(),
                    revoked_at: e.revoked_at,
                    reason: e.reason.clone(),
                };
            },
            PolicyEvent::PolicyExemptionExpired(_) => {
                new_exemption.status = ExemptionStatus::Expired;
            },
            _ => {},
        }
        proof {
            assert(new_exemption.deep_view() =~= spec_apply_exemption_event(
                self.deep_view(),
                *event,
            ));
        }
        Ok(new_exemption)
    }

    /// Whether the exemption is usable at the given instant: active, and the
    /// instant lies in the validity window.
    pub open spec fn spec_is_valid_at(x: PolicyExemptionV, now: i64) -> bool {
        &&& x.status == ExemptionStatusV::Active
        &&& x.valid_from <= now <= x.valid_until
    }

    /// Returns whether the exemption is usable at the given instant.
    pub fn is_valid_at(&self, now: i64) -> (r: bool)
        ensures
            r == PolicyExemption::spec_is_valid_at(self.deep_view(), now),
    {
        if !matches!(self.status, ExemptionStatus::Active) {
            return false;
        }
        self.valid_from <= now && now <= self.valid_until
    }

    /// Returns whether the exemption is usable now, by the wall clock: the
    /// result is the validity test at the instant that was read.
    pub fn is_valid(&self) -> (r: bool)
        ensures
            exists|now: i64| r == #[trigger] PolicyExemption::spec_is_valid_at(
                self.deep_view(),
                now,
            ),
            r ==> self.deep_view().status == ExemptionStatusV::Active,
    {
        let now = now_millis();
        self.is_valid_at(now)
    }

    /// Revokes the exemption now; revocation is terminal.
    pub fn revoke(&mut self, revoked_by: &str, reason: &str)
        ensures
            final(self).deep_view() == (PolicyExemptionV {
                status: ExemptionStatusV::Revoked {
                    revoked_by: revoked_by@,
                    revoked_at: final(self).deep_view().status->Revoked_revoked_at,
                    reason: reason@,
                },
                ..old(self).deep_view()
            }),
    {
        self.status = ExemptionStatus::Revoked {
            revoked_by: revoked_by.to_owned(),
            revoked_at: now_millis(),
            reason: reason.to_owned(),
        };
        proof {
            assert(self.deep_view() =~= (PolicyExemptionV {
                status: self.deep_view().status,
                ..old(self).deep_view()
            }));
        }
    }
}

} // verus!
