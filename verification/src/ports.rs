//! The boundary to the event-publishing transport: the errors it can report
//! and the deterministic mapping from an event to its subject string. The
//! transport itself is a collaborator outside this crate.

use vstd::prelude::*;
use crate::events::{PolicyEvent, spec_aggregate_id};
use crate::text::{uuid_string, spec_uuid_string};

verus! {

broadcast use {vstd::std_specs::vec::group_vec_axioms, vstd::seq::group_seq_axioms};

/// Errors the event-publishing transport can report.
#[derive(Debug)]
pub enum PublishError {
    /// The transport could not be reached.
    Connection(String),
    /// The event could not be put on the wire.
    Serialization(String),
    /// The transport refused the publication.
    Publishing(String),
}

/// Errors the event-query side of the transport can report.
#[derive(Debug)]
pub enum QueryError {
    /// The query could not be run.
    Query(String),
    /// An answer could not be read back.
    Deserialization(String),
}

/// The lowercase tag of each event variant, as it appears in subjects.
pub open spec fn spec_subject_tag(e: PolicyEvent) -> Seq<char> {
    match e {
        PolicyEvent::PolicyCreated(_) => "policycreated"@,
        PolicyEvent::PolicyUpdated(_) => "policyupdated"@,
        PolicyEvent::PolicyApproved(_) => "policyapproved"@,
        PolicyEvent::PolicyActivated(_) => "policyactivated"@,
        PolicyEvent::PolicySuspended(_) => "policysuspended"@,
        PolicyEvent::PolicyRevoked(_) => "policyrevoked"@,
        PolicyEvent::PolicyArchived(_) => "policyarchived"@,
        PolicyEvent::PolicyEvaluated(_) => "policyevaluated"@,
        PolicyEvent::PolicyViolationDetected(_) => "policyviolationdetected"@,
        PolicyEvent::PolicyCompliancePassed(_) => "policycompliancepassed"@,
        PolicyEvent::PolicyExemptionGranted(_) => "policyexemptiongranted"@,
        PolicyEvent::PolicyExemptionRevoked(_) => "policyexemptionrevoked"@,
        PolicyEvent::PolicyExemptionExpired(_) => "policyexemptionexpired"@,
        PolicyEvent::PolicySetCreated(_) => "policysetcreated"@,
        PolicyEvent::PolicyAddedToSet(_) => "policyaddedtoset"@,
        PolicyEvent::PolicyRemovedFromSet(_) => "policyremovedfromset"@,
        PolicyEvent::PolicyConflictDetected(_) => "policyconflictdetected"@,
    }
}

/// The subject string of an event: the fixed prefix, the hyphenated
/// aggregate identifier, and the lowercase event tag, dot-separated.
pub open spec fn spec_event_subject(e: PolicyEvent) -> Seq<char> {
    "events.policy."@ + spec_uuid_string(spec_aggregate_id(e)) + "."@ + spec_subject_tag(e)
}

/// Builds the subject string an event is published under.
pub fn event_to_subject(event: &PolicyEvent) -> (r: String)
    ensures
        r@ == spec_event_subject(*event),
{
    let mut subject = String::from_str("events.policy.");
    let id = uuid_string(event.aggregate_id());
    subject.append(id.as_str());
    subject.append(".");
    let tag: &str = match event {
        PolicyEvent::PolicyCreated(_) => "policycreated",
        PolicyEvent::PolicyUpdated(_) => "policyupdated",
        PolicyEvent::PolicyApproved(_) => "policyapproved",
        PolicyEvent::PolicyActivated(_) => "policyactivated",
        PolicyEvent::PolicySuspended(_) => "policysuspended",
        PolicyEvent::PolicyRevoked(_) => "policyrevoked",
        PolicyEvent::PolicyArchived(_) => "policyarchived",
        PolicyEvent::PolicyEvaluated(_) => "policyevaluated",
        PolicyEvent::PolicyViolationDetected(_) => "policyviolationdetected",
        PolicyEvent::PolicyCompliancePassed(_) => "policycompliancepassed",
        PolicyEvent::PolicyExemptionGranted(_) => "policyexemptiongranted",
        PolicyEvent::PolicyExemptionRevoked(_) => "policyexemptionrevoked",
        PolicyEvent::PolicyExemptionExpired(_) => "policyexemptionexpired",
        PolicyEvent::PolicySetCreated(_) => "policysetcreated",
        PolicyEvent::PolicyAddedToSet(_) => "policyaddedtoset",
        PolicyEvent::PolicyRemovedFromSet(_) => "policyremovedfromset",
        PolicyEvent::PolicyConflictDetected(_) => "policyconflictdetected",
    };
    subject.append(tag);
    subject
}

} // verus!
