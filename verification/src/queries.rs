//! Query shapes of the policy domain, answered by the read side that the
//! surrounding service supplies.

use vstd::prelude::*;
use crate::value_objects::PolicyId;

verus! {

/// Find one policy by its identifier.
#[derive(Debug, Clone, Copy, PartialEq, Eq, Structural)]
pub struct FindPolicyById {
    /// The policy to find.
    pub policy_id: PolicyId,
}

/// List policies, optionally filtered and paginated.
#[derive(Debug)]
pub struct ListPolicies {
    /// Keep only policies of this type, when given.
    pub policy_type: Option<String>,
    /// Return at most this many results, when given.
    pub limit: Option<usize>,
    /// Skip this many results first, when given.
    pub offset: Option<usize>,
}

} // verus!
