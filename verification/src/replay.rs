//! Event-sourced reconstruction: replaying an aggregate's complete ordered
//! event history to rebuild its current state.
//!
//! The history must begin with the aggregate type's creation event; any other
//! first event is a data-integrity fault, never a partially built aggregate.
//! Fetching histories from the external log and appending new events are the
//! caller's concern; the functions here are pure folds over what was fetched.

use vstd::prelude::*;
use crate::aggregate::{
    Policy, PolicyV, PolicySet, PolicySetV, PolicyExemption, PolicyExemptionV, CompositionRule,
    ConflictResolution, ExemptionScopeV, ExemptionStatusV, spec_apply_policy_event,
    spec_apply_set_event, spec_apply_exemption_event,
};
use crate::value_objects::{PolicyMetadataV, TargetV, EnforcementLevel, PolicyStatus};
use crate::events::{PolicyEvent, PolicyCreated, PolicySetCreated, PolicyExemptionGranted,
    spec_event_type};

verus! {

broadcast use {vstd::std_specs::vec::group_vec_axioms, vstd::seq::group_seq_axioms};

/// An error of event-sourced reconstruction.
#[derive(Debug)]
pub enum RepositoryError {
    /// The history does not begin with the aggregate's creation event.
    InvalidSequence(String),
}

/// The policy state right after its creation event.
pub open spec fn spec_initial_policy(ev: PolicyCreated) -> PolicyV {
    PolicyV {
        id: ev.policy_id,
        name: ev.name@,
        description: ev.description@,
        version: 1,
        status: PolicyStatus::Draft,
        rules: Seq::empty(),
        target: TargetV::Global,
        enforcement_level: EnforcementLevel::Advisory,
        effective_date: None,
        expiry_date: None,
        parent_policy_id: None,
        metadata: PolicyMetadataV {
            created_by: ev.created_by@,
            created_at: ev.created_at,
            last_modified_by: None,
            last_modified_at: None,
            tags: Seq::empty(),
            compliance_standards: Seq::empty(),
            documentation_url: None,
        },
    }
}

/// Folding a sequence of events over a policy state, in order.
pub open spec fn spec_fold_policy(p: PolicyV, events: Seq<PolicyEvent>) -> PolicyV
    decreases events,
{
    if events.len() == 0 {
        p
    } else {
        spec_fold_policy(
            spec_apply_policy_event(p, events[0]),
            events.subrange(1, events.len() as int),
        )
    }
}

/// Reconstructs a policy from its complete ordered event history. An empty
/// history is no policy; a history whose first event is not the policy
/// creation event is an invalid sequence, never a partially built aggregate.
#[verifier::loop_isolation(false)]
pub fn load_policy(events: &Vec<PolicyEvent>) -> (r: Result<Option<Policy>, RepositoryError>)
    ensures
        events@.len() == 0 ==> (r matches Ok(p) && p is None),
        events@.len() > 0 && !(events@[0] is PolicyCreated) <==> (r matches Err(
            RepositoryError::InvalidSequence(m),
        ) && m@ == "the first event of a policy history must be its creation event, not "@
            + spec_event_type(events@[0])),
        events@.len() > 0 ==> match events@[0] {
            PolicyEvent::PolicyCreated(c) => r matches Ok(p) && p matches Some(policy)
                && policy.deep_view() == spec_fold_policy(
                spec_initial_policy(c),
                events@.subrange(1, events@.len() as int),
            ),
            _ => true,
        },
{
    if events.len() == 0 {
        return Ok(None);
    }
    let created = match &events[0] {
        PolicyEvent::PolicyCreated(c) => c,
        other => {
            let mut message = String::from_str(
                "the first event of a policy history must be its creation event, not ",
            );
            message.append(other.event_type());
            return Err(RepositoryError::InvalidSequence(message));
        },
    };
    let base = Policy::new(created.name.as_str(), created.description.as_str());
    let mut policy = match base.apply_event_pure(&events[0]) {
        Ok(p) => p,
        Err(_) => {
            return Err(RepositoryError::InvalidSequence(String::from_str(
                "the creation event could not be applied",
            )));
        },
    };
    proof {
        assert(policy.deep_view() =~= spec_initial_policy(*created));
    }
    let ghost rest = events@.subrange(1, events@.len() as int);
    let ghost target = spec_fold_policy(spec_initial_policy(*created), rest);
    proof {
        assert(rest.subrange(0, rest.len() as int) =~= rest);
    }
    let mut i: usize = 1;
    while i < events.len()
        invariant
            1 <= i <= events@.len(),
            target == spec_fold_policy(
                policy.deep_view(),
                rest.subrange(i - 1, rest.len() as int),
            ),
        decreases events@.len() - i,
    {
        proof {
            let tail = rest.subrange(i - 1, rest.len() as int);
            assert(tail[0] == rest[i - 1]);
            assert(rest[i - 1] == events@[i as int]);
            assert(tail.subrange(1, tail.len() as int) =~= rest.subrange(
                i as int,
                rest.len() as int,
            ));
        }
        policy = match policy.apply_event_pure(&events[i]) {
            Ok(p) => p,
            Err(_) => {
                return Err(RepositoryError::InvalidSequence(String::from_str(
                    "an event of the history could not be applied",
                )));
            },
        };
        i = i + 1;
    }
    proof {
        assert(rest.subrange(i - 1, rest.len() as int) =~= Seq::<PolicyEvent>::empty());
    }
    Ok(Some(policy))
}

/// The policy-set state right after its creation event.
pub open spec fn spec_initial_set(ev: PolicySetCreated) -> PolicySetV {
    PolicySetV {
        id: ev.policy_set_id,
        name: ev.name@,
        description: ev.description@,
        policies: Seq::empty(),
        composition_rule: CompositionRule::All,
        conflict_resolution: ConflictResolution::MostRestrictive,
        status: PolicyStatus::Draft,
        metadata: PolicyMetadataV {
            created_by: ev.created_by@,
            created_at: ev.created_at,
            last_modified_by: None,
            last_modified_at: None,
            tags: Seq::empty(),
            compliance_standards: Seq::empty(),
            documentation_url: None,
        },
    }
}

/// Folding a sequence of events over a policy-set state, in order.
pub open spec fn spec_fold_set(p: PolicySetV, events: Seq<PolicyEvent>) -> PolicySetV
    decreases events,
{
    if events.len() == 0 {
        p
    } else {
        spec_fold_set(
            spec_apply_set_event(p, events[0]),
            events.subrange(1, events.len() as int),
        )
    }
}

/// Reconstructs a policy set from its complete ordered event history.
#[verifier::loop_isolation(false)]
pub fn load_policy_set(events: &Vec<PolicyEvent>) -> (r: Result<
    Option<PolicySet>,
    RepositoryError,
>)
    ensures
        events@.len() == 0 ==> (r matches Ok(p) && p is None),
        events@.len() > 0 && !(events@[0] is PolicySetCreated) <==> (r matches Err(
            RepositoryError::InvalidSequence(m),
        ) && m@ == "the first event of a policy set history must be its creation event, not "@
            + spec_event_type(events@[0])),
        events@.len() > 0 ==> match events@[0] {
            PolicyEvent::PolicySetCreated(c) => r matches Ok(p) && p matches Some(set)
                && set.deep_view() == spec_fold_set(
                spec_initial_set(c),
                events@.subrange(1, events@.len() as int),
            ),
            _ => true,
        },
{
    if events.len() == 0 {
        return Ok(None);
    }
    let created = match &events[0] {
        PolicyEvent::PolicySetCreated(c) => c,
        other => {
            let mut message = String::from_str(
                "the first event of a policy set history must be its creation event, not ",
            );
            message.append(other.event_type());
            return Err(RepositoryError::InvalidSequence(message));
        },
    };
    let base = PolicySet::new(created.name.as_str(), created.description.as_str());
    let mut set = match base.apply_event_pure(&events[0]) {
        Ok(p) => p,
        Err(_) => {
            return Err(RepositoryError::InvalidSequence(String::from_str(
                "the creation event could not be applied",
            )));
        },
    };
    proof {
        assert(set.deep_view() =~= spec_initial_set(*created));
    }
    let ghost rest = events@.subrange(1, events@.len() as int);
    let ghost target = spec_fold_set(spec_initial_set(*created), rest);
    proof {
        assert(rest.subrange(0, rest.len() as int) =~= rest);
    }
    let mut i: usize = 1;
    while i < events.len()
        invariant
            1 <= i <= events@.len(),
            target == spec_fold_set(set.deep_view(), rest.subrange(i - 1, rest.len() as int)),
        decreases events@.len() - i,
    {
        proof {
            let tail = rest.subrange(i - 1, rest.len() as int);
            assert(tail[0] == rest[i - 1]);
            assert(rest[i - 1] == events@[i as int]);
            assert(tail.subrange(1, tail.len() as int) =~= rest.subrange(
                i as int,
                rest.len() as int,
            ));
        }
        set = match set.apply_event_pure(&events[i]) {
            Ok(p) => p,
            Err(_) => {
                return Err(RepositoryError::InvalidSequence(String::from_str(
                    "an event of the history could not be applied",
                )));
            },
        };
        i = i + 1;
    }
    proof {
        assert(rest.subrange(i - 1, rest.len() as int) =~= Seq::<PolicyEvent>::empty());
    }
    Ok(Some(set))
}

/// The exemption state right after its granting event.
pub open spec fn spec_initial_exemption(ev: PolicyExemptionGranted) -> PolicyExemptionV {
    PolicyExemptionV {
        id: ev.exemption_id,
        policy_id: ev.policy_id,
        reason: ev.reason@,
        justification: Seq::empty(),
        risk_acceptance: ev.risk_acceptance.deep_view(),
        approved_by: ev.granted_by@,
        approved_at: ev.granted_at,
        valid_from: ev.granted_at,
        valid_until: ev.valid_until,
        scope: ExemptionScopeV::Global,
        conditions: Seq::empty(),
        status: ExemptionStatusV::Active,
    }
}

/// Folding a sequence of events over an exemption state, in order.
pub open spec fn spec_fold_exemption(x: PolicyExemptionV, events: Seq<PolicyEvent>)
    -> PolicyExemptionV
    decreases events,
{
    if events.len() == 0 {
        x
    } else {
        spec_fold_exemption(
            spec_apply_exemption_event(x, events[0]),
            events.subrange(1, events.len() as int),
        )
    }
}

/// Reconstructs an exemption from its complete ordered event history.
#[verifier::loop_isolation(false)]
pub fn load_exemption(events: &Vec<PolicyEvent>) -> (r: Result<
    Option<PolicyExemption>,
    RepositoryError,
>)
    ensures
        events@.len() == 0 ==> (r matches Ok(p) && p is None),
        events@.len() > 0 && !(events@[0] is PolicyExemptionGranted) <==> (r matches Err(
            RepositoryError::InvalidSequence(m),
        ) && m@ == "the first event of an exemption history must be its granting event, not "@
            + spec_event_type(events@[0])),
        events@.len() > 0 ==> match events@[0] {
            PolicyEvent::PolicyExemptionGranted(c) => r matches Ok(p) && p matches Some(x)
                && x.deep_view() == spec_fold_exemption(
                spec_initial_exemption(c),
                events@.subrange(1, events@.len() as int),
            ),
            _ => true,
        },
{
    if events.len() == 0 {
        return Ok(None);
    }
    let granted = match &events[0] {
        PolicyEvent::PolicyExemptionGranted(c) => c,
        other => {
            let mut message = String::from_str(
                "the first event of an exemption history must be its granting event, not ",
            );
            message.append(other.event_type());
            return Err(RepositoryError::InvalidSequence(message));
        },
    };
    let base = PolicyExemption::new(
        granted.policy_id,
        granted.reason.as_str(),
        granted.reason.as_str(),
        granted.granted_by.as_str(),
        granted.valid_until,
    );
    let mut exemption = match base.apply_event_pure(&events[0]) {
        Ok(p) => p,
        Err(_) => {
            return Err(RepositoryError::InvalidSequence(String::from_str(
                "the granting event could not be applied",
            )));
        },
    };
    proof {
        assert(exemption.deep_view() =~= spec_initial_exemption(*granted));
    }
    let ghost rest = events@.subrange(1, events@.len() as int);
    let ghost target = spec_fold_exemption(spec_initial_exemption(*granted), rest);
    proof {
        assert(rest.subrange(0, rest.len() as int) =~= rest);
    }
    let mut i: usize = 1;
    while i < events.len()
        invariant
            1 <= i <= events@.len(),
            target == spec_fold_exemption(
                exemption.deep_view(),
                rest.subrange(i - 1, rest.len() as int),
            ),
        decreases events@.len() - i,
    {
        proof {
            let tail = rest.subrange(i - 1, rest.len() as int);
            assert(tail[0] == rest[i - 1]);
            assert(rest[i - 1] == events@[i as int]);
            assert(tail.subrange(1, tail.len() as int) =~= rest.subrange(
                i as int,
                rest.len() as int,
            ));
        }
        exemption = match exemption.apply_event_pure(&events[i]) {
            Ok(p) => p,
            Err(_) => {
                return Err(RepositoryError::InvalidSequence(String::from_str(
                    "an event of the history could not be applied",
                )));
            },
        };
        i = i + 1;
    }
    proof {
        assert(rest.subrange(i - 1, rest.len() as int) =~= Seq::<PolicyEvent>::empty());
    }
    Ok(Some(exemption))
}

} // verus!
