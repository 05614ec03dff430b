//! Value objects of the policy domain: identifiers, lifecycle statuses,
//! targets, severities and the closed value union that rule operands and
//! context fields are drawn from.
//!
//! Floating-point operands are carried as the raw IEEE-754 bit pattern of the
//! double they stand for (`Value::Float`); equality and ordering on them are
//! defined bit-level below, matching IEEE-754 comparison for every non-NaN
//! value.
//! Timestamps are carried as Unix milliseconds.
//!
//! Every compound type has a mathematical view (`deep_view`) over which the
//! library's contracts are stated: strings become character sequences, vectors
//! become sequences of element views.

use vstd::prelude::*;
use crate::runtime::fresh_uuid_raw;

verus! {

broadcast use {vstd::std_specs::vec::group_vec_axioms, vstd::seq::group_seq_axioms};

/// Unique identifier for a policy (raw 128-bit UUID value).
#[derive(Debug, Clone, Copy, PartialEq, Eq, Structural, Hash)]
pub struct PolicyId(pub u128);

impl PolicyId {
    /// Draws a fresh version-7 UUID for a new policy.
    pub fn new() -> PolicyId {
        PolicyId(fresh_uuid_raw())
    }
}

/// Unique identifier for a policy set (raw 128-bit UUID value).
#[derive(Debug, Clone, Copy, PartialEq, Eq, Structural, Hash)]
pub struct PolicySetId(pub u128);

impl PolicySetId {
    /// Draws a fresh version-7 UUID for a new policy set.
    pub fn new() -> PolicySetId {
        PolicySetId(fresh_uuid_raw())
    }
}

/// Unique identifier for an exemption (raw 128-bit UUID value).
#[derive(Debug, Clone, Copy, PartialEq, Eq, Structural, Hash)]
pub struct ExemptionId(pub u128);

impl ExemptionId {
    /// Draws a fresh version-7 UUID for a new exemption.
    pub fn new() -> ExemptionId {
        ExemptionId(fresh_uuid_raw())
    }
}

impl DeepView for PolicyId {
    type V = PolicyId;

    open spec fn deep_view(&self) -> PolicyId {
        *self
    }
}

impl DeepView for PolicySetId {
    type V = PolicySetId;

    open spec fn deep_view(&self) -> PolicySetId {
        *self
    }
}

impl DeepView for ExemptionId {
    type V = ExemptionId;

    open spec fn deep_view(&self) -> ExemptionId {
        *self
    }
}

/// Status of a policy in its lifecycle.
#[derive(Debug, Clone, Copy, PartialEq, Eq, Structural)]
pub enum PolicyStatus {
    /// Policy is being drafted.
    Draft,
    /// Policy is under review.
    UnderReview,
    /// Policy has been approved.
    Approved,
    /// Policy is active and being enforced.
    Active,
    /// Policy is temporarily disabled.
    Suspended,
    /// Policy is permanently disabled.
    Revoked,
    /// Policy has been moved to archive.
    Archived,
}

impl DeepView for PolicyStatus {
    type V = PolicyStatus;

    open spec fn deep_view(&self) -> PolicyStatus {
        *self
    }
}

/// Types of resources policies can apply to.
#[derive(Debug, PartialEq)]
pub enum ResourceType {
    Certificate,
    Key,
    Secret,
    Document,
    Service,
    Network,
    Custom(String),
}

/// Mathematical view of a `ResourceType`.
pub enum ResourceTypeV {
    Certificate,
    Key,
    Secret,
    Document,
    Service,
    Network,
    Custom(Seq<char>),
}

impl DeepView for ResourceType {
    type V = ResourceTypeV;

    open spec fn deep_view(&self) -> ResourceTypeV {
        match self {
            ResourceType::Certificate => ResourceTypeV::Certificate,
            ResourceType::Key => ResourceTypeV::Key,
            ResourceType::Secret => ResourceTypeV::Secret,
            ResourceType::Document => ResourceTypeV::Document,
            ResourceType::Service => ResourceTypeV::Service,
            ResourceType::Network => ResourceTypeV::Network,
            ResourceType::Custom(s) => ResourceTypeV::Custom(s@),
        }
    }
}

impl Clone for ResourceType {
    /// Copies the resource type, preserving its view.
    fn clone(&self) -> (r: Self)
        ensures
            r.deep_view() == self.deep_view(),
    {
        match self {
            ResourceType::Certificate => ResourceType::Certificate,
            ResourceType::Key => ResourceType::Key,
            ResourceType::Secret => ResourceType::Secret,
            ResourceType::Document => ResourceType::Document,
            ResourceType::Service => ResourceType::Service,
            ResourceType::Network => ResourceType::Network,
            ResourceType::Custom(s) => ResourceType::Custom(s.clone()),
        }
    }
}

/// Types of operations policies can govern.
#[derive(Debug, PartialEq)]
pub enum OperationType {
    CertificateIssuance,
    CertificateRenewal,
    CertificateRevocation,
    KeyGeneration,
    KeyRotation,
    KeyExport,
    Read,
    Write,
    Delete,
    Execute,
    CreatePolicy,
    ModifyPolicy,
    DeletePolicy,
    GrantExemption,
    Custom(String),
}

/// Mathematical view of an `OperationType`.
pub enum OperationTypeV {
    CertificateIssuance,
    CertificateRenewal,
    CertificateRevocation,
    KeyGeneration,
    KeyRotation,
    KeyExport,
    Read,
    Write,
    Delete,
    Execute,
    CreatePolicy,
    ModifyPolicy,
    DeletePolicy,
    GrantExemption,
    Custom(Seq<char>),
}

impl DeepView for OperationType {
    type V = OperationTypeV;

    open spec fn deep_view(&self) -> OperationTypeV {
        match self {
            OperationType::CertificateIssuance => OperationTypeV::CertificateIssuance,
            OperationType::CertificateRenewal => OperationTypeV::CertificateRenewal,
            OperationType::CertificateRevocation => OperationTypeV::CertificateRevocation,
            OperationType::KeyGeneration => OperationTypeV::KeyGeneration,
            OperationType::KeyRotation => OperationTypeV::KeyRotation,
            OperationType::KeyExport => OperationTypeV::KeyExport,
            OperationType::Read => OperationTypeV::Read,
            OperationType::Write => OperationTypeV::Write,
            OperationType::Delete => OperationTypeV::Delete,
            OperationType::Execute => OperationTypeV::Execute,
            OperationType::CreatePolicy => OperationTypeV::CreatePolicy,
            OperationType::ModifyPolicy => OperationTypeV::ModifyPolicy,
            OperationType::DeletePolicy => OperationTypeV::DeletePolicy,
            OperationType::GrantExemption => OperationTypeV::GrantExemption,
            OperationType::Custom(s) => OperationTypeV::Custom(s@),
        }
    }
}

impl Clone for OperationType {
    /// Copies the operation type, preserving its view.
    fn clone(&self) -> (r: Self)
        ensures
            r.deep_view() == self.deep_view(),
    {
        match self {
            OperationType::CertificateIssuance => OperationType::CertificateIssuance,
            OperationType::CertificateRenewal => OperationType::CertificateRenewal,
            OperationType::CertificateRevocation => OperationType::CertificateRevocation,
            OperationType::KeyGeneration => OperationType::KeyGeneration,
            OperationType::KeyRotation => OperationType::KeyRotation,
            OperationType::KeyExport => OperationType::KeyExport,
            OperationType::Read => OperationType::Read,
            OperationType::Write => OperationType::Write,
            OperationType::Delete => OperationType::Delete,
            OperationType::Execute => OperationType::Execute,
            OperationType::CreatePolicy => OperationType::CreatePolicy,
            OperationType::ModifyPolicy => OperationType::ModifyPolicy,
            OperationType::DeletePolicy => OperationType::DeletePolicy,
            OperationType::GrantExemption => OperationType::GrantExemption,
            OperationType::Custom(s) => OperationType::Custom(s.clone()),
        }
    }
}

/// What or whom a policy applies to.
#[derive(Debug, PartialEq)]
pub enum PolicyTarget {
    /// Applies globally to everything.
    Global,
    /// Applies to a specific organization.
    Organization(u128),
    /// Applies to an organizational unit (department or team).
    OrganizationUnit(u128),
    /// Applies to a specific role.
    Role(String),
    /// Applies to a type of resource.
    Resource(ResourceType),
    /// Applies to a specific operation.
    Operation(OperationType),
    /// Applies to multiple targets.
    Composite(Vec<PolicyTarget>),
}

/// Mathematical view of a `PolicyTarget`.
pub enum TargetV {
    Global,
    Organization(u128),
    OrganizationUnit(u128),
    Role(Seq<char>),
    Resource(ResourceTypeV),
    Operation(OperationTypeV),
    Composite(Seq<TargetV>),
}

/// Mathematical view of one target.
pub open spec fn target_view(t: PolicyTarget) -> TargetV
    decreases t,
{
    match t {
        PolicyTarget::Global => TargetV::Global,
        PolicyTarget::Organization(id) => TargetV::Organization(id),
        PolicyTarget::OrganizationUnit(id) => TargetV::OrganizationUnit(id),
        PolicyTarget::Role(role) => TargetV::Role(role@),
        PolicyTarget::Resource(rt) => TargetV::Resource(rt.deep_view()),
        PolicyTarget::Operation(op) => TargetV::Operation(op.deep_view()),
        PolicyTarget::Composite(ts) => TargetV::Composite(targets_view(ts@)),
    }
}

/// Mathematical view of a sequence of targets, element by element.
pub open spec fn targets_view(s: Seq<PolicyTarget>) -> Seq<TargetV>
    decreases s,
{
    if s.len() == 0 {
        Seq::empty()
    } else {
        seq![target_view(s[0])] + targets_view(s.subrange(1, s.len() as int))
    }
}

/// `targets_view` maps the sequence element by element.
pub broadcast proof fn lemma_targets_view(s: Seq<PolicyTarget>)
    ensures
        (#[trigger] targets_view(s)).len() == s.len(),
        forall|i: int| 0 <= i < s.len() ==> targets_view(s)[i] == target_view(s[i]),
    decreases s.len(),
{
    if s.len() > 0 {
        lemma_targets_view(s.subrange(1, s.len() as int));
    }
}

impl DeepView for PolicyTarget {
    type V = TargetV;

    open spec fn deep_view(&self) -> TargetV {
        target_view(*self)
    }
}

impl Clone for PolicyTarget {
    /// Copies the target, preserving its view.
    #[verifier::loop_isolation(false)]
    fn clone(&self) -> (r: Self)
        ensures
            r.deep_view() == self.deep_view(),
        decreases self,
    {
        match self {
            PolicyTarget::Global => PolicyTarget::Global,
            PolicyTarget::Organization(id) => PolicyTarget::Organization(*id),
            PolicyTarget::OrganizationUnit(id) => PolicyTarget::OrganizationUnit(*id),
            PolicyTarget::Role(role) => PolicyTarget::Role(role.clone()),
            PolicyTarget::Resource(rt) => PolicyTarget::Resource(rt.clone()),
            PolicyTarget::Operation(op) => PolicyTarget::Operation(op.clone()),
            PolicyTarget::Composite(ts) => {
                let mut out: Vec<PolicyTarget> = Vec::new();
                let mut i: usize = 0;
                while i < ts.len()
                    invariant
                        0 <= i <= ts@.len(),
                        out@.len() == i,
                        forall|j: int|
                            0 <= j < i ==> (#[trigger] out@[j]).deep_view() == ts@[j].deep_view(),
                    decreases ts@.len() - i,
                {
                    out.push(ts[i].clone());
                    i = i + 1;
                }
                proof {
                    lemma_targets_view(out@);
                    lemma_targets_view(ts@);
                    assert(targets_view(out@) =~= targets_view(ts@));
                }
                PolicyTarget::Composite(out)
            },
        }
    }
}

/// How strictly a policy should be enforced, from advisory to critical.
#[derive(Debug, Clone, Copy, PartialEq, Eq, Structural, PartialOrd, Ord)]
pub enum EnforcementLevel {
    /// Just a recommendation, no enforcement.
    Advisory,
    /// Log violations but allow the action.
    Soft,
    /// Block the action if the policy is violated.
    Hard,
    /// Block and alert the security team.
    Critical,
}

impl DeepView for EnforcementLevel {
    type V = EnforcementLevel;

    open spec fn deep_view(&self) -> EnforcementLevel {
        *self
    }
}

impl EnforcementLevel {
    /// Numeric rank of the level, for restrictiveness ordering.
    pub open spec fn spec_rank(self) -> u8 {
        match self {
            EnforcementLevel::Advisory => 0,
            EnforcementLevel::Soft => 1,
            EnforcementLevel::Hard => 2,
            EnforcementLevel::Critical => 3,
        }
    }

    /// Returns the numeric rank of the level.
    pub fn rank(&self) -> (r: u8)
        ensures
            r == self.spec_rank(),
    {
        match self {
            EnforcementLevel::Advisory => 0,
            EnforcementLevel::Soft => 1,
            EnforcementLevel::Hard => 2,
            EnforcementLevel::Critical => 3,
        }
    }
}

/// Severity of a policy rule or violation.
#[derive(Debug, Clone, Copy, PartialEq, Eq, Structural, PartialOrd, Ord, Hash)]
pub enum Severity {
    Info,
    Low,
    Medium,
    High,
    Critical,
}

impl DeepView for Severity {
    type V = Severity;

    open spec fn deep_view(&self) -> Severity {
        *self
    }
}

impl Severity {
    /// Numeric rank of the severity, `Info` lowest, `Critical` highest.
    pub open spec fn spec_rank(self) -> u8 {
        match self {
            Severity::Info => 0,
            Severity::Low => 1,
            Severity::Medium => 2,
            Severity::High => 3,
            Severity::Critical => 4,
        }
    }

    /// Returns the numeric rank of the severity.
    pub fn rank(&self) -> (r: u8)
        ensures
            r == self.spec_rank(),
    {
        match self {
            Severity::Info => 0,
            Severity::Low => 1,
            Severity::Medium => 2,
            Severity::High => 3,
            Severity::Critical => 4,
        }
    }
}

/// The closed union of typed literal values used in rule operands and
/// context fields.
///
/// `Float` carries the IEEE-754 bit pattern of a double; `DateTime` carries
/// Unix milliseconds; `Record` carries its field entries as an ordered list of
/// key/value pairs and compares entry by entry in that order.
#[derive(Debug, PartialEq)]
pub enum Value {
    Null,
    Bool(bool),
    Integer(i64),
    Float(u64),
    String(String),
    DateTime(i64),
    List(Vec<Value>),
    Record(Vec<(String, Value)>),
}

/// Mathematical view of a `Value`.
pub enum ValueV {
    Null,
    Bool(bool),
    Integer(i64),
    Float(u64),
    String(Seq<char>),
    DateTime(i64),
    List(Seq<ValueV>),
    Record(Seq<(Seq<char>, ValueV)>),
}

/// Mathematical view of one value.
pub open spec fn value_view(v: Value) -> ValueV
    decreases v,
{
    match v {
        Value::Null => ValueV::Null,
        Value::Bool(b) => ValueV::Bool(b),
        Value::Integer(i) => ValueV::Integer(i),
        Value::Float(bits) => ValueV::Float(bits),
        Value::String(s) => ValueV::String(s@),
        Value::DateTime(t) => ValueV::DateTime(t),
        Value::List(items) => ValueV::List(values_view(items@)),
        Value::Record(entries) => ValueV::Record(entries_view(entries@)),
    }
}

/// Mathematical view of a sequence of values, element by element.
pub open spec fn values_view(s: Seq<Value>) -> Seq<ValueV>
    decreases s,
{
    if s.len() == 0 {
        Seq::empty()
    } else {
        seq![value_view(s[0])] + values_view(s.subrange(1, s.len() as int))
    }
}

/// Mathematical view of a sequence of record entries, element by element.
pub open spec fn entries_view(s: Seq<(String, Value)>) -> Seq<(Seq<char>, ValueV)>
    decreases s,
{
    if s.len() == 0 {
        Seq::empty()
    } else {
        seq![(s[0].0@, value_view(s[0].1))] + entries_view(s.subrange(1, s.len() as int))
    }
}

/// `values_view` maps the sequence element by element.
pub broadcast proof fn lemma_values_view(s: Seq<Value>)
    ensures
        (#[trigger] values_view(s)).len() == s.len(),
        forall|i: int| 0 <= i < s.len() ==> values_view(s)[i] == value_view(s[i]),
    decreases s.len(),
{
    if s.len() > 0 {
        lemma_values_view(s.subrange(1, s.len() as int));
    }
}

/// `entries_view` maps the sequence element by element.
pub broadcast proof fn lemma_entries_view(s: Seq<(String, Value)>)
    ensures
        (#[trigger] entries_view(s)).len() == s.len(),
        forall|i: int|
            0 <= i < s.len() ==> entries_view(s)[i] == (s[i].0@, value_view(s[i].1)),
    decreases s.len(),
{
    if s.len() > 0 {
        lemma_entries_view(s.subrange(1, s.len() as int));
    }
}

impl DeepView for Value {
    type V = ValueV;

    open spec fn deep_view(&self) -> ValueV {
        value_view(*self)
    }
}

impl Clone for Value {
    /// Copies the value, preserving its view.
    #[verifier::loop_isolation(false)]
    fn clone(&self) -> (r: Self)
        ensures
            r.deep_view() == self.deep_view(),
        decreases self,
    {
        match self {
            Value::Null => Value::Null,
            Value::Bool(b) => Value::Bool(*b),
            Value::Integer(i) => Value::Integer(*i),
            Value::Float(bits) => Value::Float(*bits),
            Value::String(s) => Value::String(s.clone()),
            Value::DateTime(t) => Value::DateTime(*t),
            Value::List(items) => {
                let mut out: Vec<Value> = Vec::new();
                let mut i: usize = 0;
                while i < items.len()
                    invariant
                        0 <= i <= items@.len(),
                        out@.len() == i,
                        forall|j: int|
                            0 <= j < i ==> (#[trigger] out@[j]).deep_view()
                                == items@[j].deep_view(),
                    decreases items@.len() - i,
                {
                    out.push(items[i].clone());
                    i = i + 1;
                }
                proof {
                    lemma_values_view(out@);
                    lemma_values_view(items@);
                    assert(values_view(out@) =~= values_view(items@));
                }
                Value::List(out)
            },
            Value::Record(entries) => {
                let mut out: Vec<(String, Value)> = Vec::new();
                let mut i: usize = 0;
                while i < entries.len()
                    invariant
                        0 <= i <= entries@.len(),
                        out@.len() == i,
                        forall|j: int|
                            0 <= j < i ==> (#[trigger] out@[j]).0@ == entries@[j].0@
                                && out@[j].1.deep_view() == entries@[j].1.deep_view(),
                    decreases entries@.len() - i,
                {
                    let (k, v) = &entries[i];
                    out.push((k.clone(), v.clone()));
                    i = i + 1;
                }
                proof {
                    lemma_entries_view(out@);
                    lemma_entries_view(entries@);
                    assert(entries_view(out@) =~= entries_view(entries@));
                }
                Value::Record(out)
            },
        }
    }
}

/// The exponent bits of an IEEE-754 double.
pub const F64_EXPONENT_MASK: u64 = 0x7FF0_0000_0000_0000;

/// The mantissa bits of an IEEE-754 double.
pub const F64_MANTISSA_MASK: u64 = 0x000F_FFFF_FFFF_FFFF;

/// All bits of an IEEE-754 double except the sign.
pub const F64_MAGNITUDE_MASK: u64 = 0x7FFF_FFFF_FFFF_FFFF;

/// The sign bit of an IEEE-754 double.
pub const F64_SIGN_MASK: u64 = 0x8000_0000_0000_0000;

/// Whether the bit pattern encodes an IEEE-754 NaN: exponent all ones and a
/// non-zero mantissa.
pub open spec fn spec_float_is_nan(bits: u64) -> bool {
    bits & F64_EXPONENT_MASK == F64_EXPONENT_MASK && bits & F64_MANTISSA_MASK != 0
}

/// Whether the bit pattern encodes a (positive or negative) IEEE-754 zero.
pub open spec fn spec_float_is_zero(bits: u64) -> bool {
    bits & F64_MAGNITUDE_MASK == 0
}

/// IEEE-754 equality of two doubles given by their bit patterns: NaN equals
/// nothing, the two zeros are equal, and every other value has a unique
/// encoding.
pub open spec fn spec_float_eq(a: u64, b: u64) -> bool {
    &&& !spec_float_is_nan(a)
    &&& !spec_float_is_nan(b)
    &&& (a == b || (spec_float_is_zero(a) && spec_float_is_zero(b)))
}

/// Monotone key for comparing non-NaN doubles by their bit patterns: negative
/// values are bit-flipped, others get the sign bit set, so that unsigned
/// comparison of keys matches IEEE-754 ordering.
pub open spec fn spec_float_order_key(bits: u64) -> u64 {
    if bits & F64_SIGN_MASK != 0 {
        !bits
    } else {
        bits | F64_SIGN_MASK
    }
}

/// IEEE-754 comparison of two doubles given by their bit patterns: `None`
/// when either is NaN, otherwise the ordering of the encoded values.
pub open spec fn spec_float_cmp(a: u64, b: u64) -> Option<core::cmp::Ordering> {
    if spec_float_is_nan(a) || spec_float_is_nan(b) {
        None
    } else if spec_float_is_zero(a) && spec_float_is_zero(b) {
        Some(core::cmp::Ordering::Equal)
    } else if spec_float_order_key(a) < spec_float_order_key(b) {
        Some(core::cmp::Ordering::Less)
    } else if spec_float_order_key(a) == spec_float_order_key(b) {
        Some(core::cmp::Ordering::Equal)
    } else {
        Some(core::cmp::Ordering::Greater)
    }
}

/// Returns whether the two bit patterns are equal as IEEE-754 doubles.
pub fn float_eq(a: u64, b: u64) -> (r: bool)
    ensures
        r == spec_float_eq(a, b),
{
    let a_nan: bool = a & F64_EXPONENT_MASK == F64_EXPONENT_MASK && a & F64_MANTISSA_MASK != 0;
    let b_nan: bool = b & F64_EXPONENT_MASK == F64_EXPONENT_MASK && b & F64_MANTISSA_MASK != 0;
    !a_nan && !b_nan && (a == b || (a & F64_MAGNITUDE_MASK == 0 && b & F64_MAGNITUDE_MASK == 0))
}

/// Compares two bit patterns as IEEE-754 doubles; `None` when either is NaN.
pub fn float_cmp(a: u64, b: u64) -> (r: Option<core::cmp::Ordering>)
    ensures
        r == spec_float_cmp(a, b),
{
    let a_nan: bool = a & F64_EXPONENT_MASK == F64_EXPONENT_MASK && a & F64_MANTISSA_MASK != 0;
    let b_nan: bool = b & F64_EXPONENT_MASK == F64_EXPONENT_MASK && b & F64_MANTISSA_MASK != 0;
    if a_nan || b_nan {
        None
    } else if a & F64_MAGNITUDE_MASK == 0 && b & F64_MAGNITUDE_MASK == 0 {
        Some(core::cmp::Ordering::Equal)
    } else {
        let ka: u64 = if a & F64_SIGN_MASK != 0 { !a } else { a | F64_SIGN_MASK };
        let kb: u64 = if b & F64_SIGN_MASK != 0 { !b } else { b | F64_SIGN_MASK };
        if ka < kb {
            Some(core::cmp::Ordering::Less)
        } else if ka == kb {
            Some(core::cmp::Ordering::Equal)
        } else {
            Some(core::cmp::Ordering::Greater)
        }
    }
}

/// Structural equality of two values, the way the evaluator compares operands:
/// floats by IEEE-754 equality, strings by their characters, lists and records
/// entry by entry.
pub open spec fn spec_value_eq(a: ValueV, b: ValueV) -> bool
    decreases a,
{
    match (a, b) {
        (ValueV::Null, ValueV::Null) => true,
        (ValueV::Bool(x), ValueV::Bool(y)) => x == y,
        (ValueV::Integer(x), ValueV::Integer(y)) => x == y,
        (ValueV::Float(x), ValueV::Float(y)) => spec_float_eq(x, y),
        (ValueV::String(x), ValueV::String(y)) => x == y,
        (ValueV::DateTime(x), ValueV::DateTime(y)) => x == y,
        (ValueV::List(x), ValueV::List(y)) => {
            &&& x.len() == y.len()
            &&& forall|i: int| 0 <= i < x.len() ==> spec_value_eq(#[trigger] x[i], y[i])
        },
        (ValueV::Record(x), ValueV::Record(y)) => {
            &&& x.len() == y.len()
            &&& forall|i: int|
                0 <= i < x.len() ==> {
                    &&& (#[trigger] x[i]).0 == y[i].0
                    &&& spec_value_eq(x[i].1, y[i].1)
                }
        },
        _ => false,
    }
}

/// Returns whether two values are equal under `spec_value_eq`.
#[verifier::loop_isolation(false)]
pub fn value_eq(a: &Value, b: &Value) -> (r: bool)
    ensures
        r == spec_value_eq(a.deep_view(), b.deep_view()),
    decreases *a,
{
    match (a, b) {
        (Value::Null, Value::Null) => true,
        (Value::Bool(x), Value::Bool(y)) => *x == *y,
        (Value::Integer(x), Value::Integer(y)) => *x == *y,
        (Value::Float(x), Value::Float(y)) => float_eq(*x, *y),
        (Value::String(x), Value::String(y)) => *x == *y,
        (Value::DateTime(x), Value::DateTime(y)) => *x == *y,
        (Value::List(x), Value::List(y)) => {
            proof {
                lemma_values_view(x@);
                lemma_values_view(y@);
            }
            if x.len() != y.len() {
                return false;
            }
            let mut i: usize = 0;
            while i < x.len()
                invariant
                    0 <= i <= x@.len(),
                    x@.len() == y@.len(),
                    values_view(x@).len() == x@.len(),
                    values_view(y@).len() == y@.len(),
                    forall|j: int|
                        0 <= j < x@.len() ==> values_view(x@)[j] == value_view(#[trigger] x@[j]),
                    forall|j: int|
                        0 <= j < y@.len() ==> values_view(y@)[j] == value_view(#[trigger] y@[j]),
                    forall|j: int|
                        0 <= j < i ==> spec_value_eq(
                            (#[trigger] x@[j]).deep_view(),
                            y@[j].deep_view(),
                        ),
                decreases x@.len() - i,
            {
                if !value_eq(&x[i], &y[i]) {
                    return false;
                }
                i = i + 1;
            }
            proof {
                assert(a.deep_view() == ValueV::List(values_view(x@)));
                assert(values_view(x@).len() == values_view(y@).len());
                assert(forall|j: int|
                    0 <= j < x@.len() ==> spec_value_eq(
                        #[trigger] values_view(x@)[j],
                        values_view(y@)[j],
                    ));
                assert(spec_value_eq(a.deep_view(), b.deep_view()));
            }
            true
        },
        (Value::Record(x), Value::Record(y)) => {
            proof {
                lemma_entries_view(x@);
                lemma_entries_view(y@);
            }
            if x.len() != y.len() {
                return false;
            }
            let mut i: usize = 0;
            while i < x.len()
                invariant
                    0 <= i <= x@.len(),
                    x@.len() == y@.len(),
                    entries_view(x@).len() == x@.len(),
                    entries_view(y@).len() == y@.len(),
                    forall|j: int|
                        0 <= j < x@.len() ==> entries_view(x@)[j] == ((#[trigger] x@[j]).0@,
                        value_view(x@[j].1)),
                    forall|j: int|
                        0 <= j < y@.len() ==> entries_view(y@)[j] == ((#[trigger] y@[j]).0@,
                        value_view(y@[j].1)),
                    forall|j: int|
                        0 <= j < i ==> {
                            &&& (#[trigger] x@[j]).0@ == y@[j].0@
                            &&& spec_value_eq(x@[j].1.deep_view(), y@[j].1.deep_view())
                        },
                decreases x@.len() - i,
            {
                let xe = &x[i];
                let ye = &y[i];
                if !(xe.0 == ye.0) {
                    return false;
                }
                if !value_eq(&xe.1, &ye.1) {
                    return false;
                }
                i = i + 1;
            }
            proof {
                assert(a.deep_view() == ValueV::Record(entries_view(x@)));
                assert(entries_view(x@).len() == entries_view(y@).len());
                assert(forall|j: int|
                    0 <= j < x@.len() ==> {
                        &&& (#[trigger] entries_view(x@)[j]).0 == entries_view(y@)[j].0
                        &&& spec_value_eq(entries_view(x@)[j].1, entries_view(y@)[j].1)
                    });
                assert(spec_value_eq(a.deep_view(), b.deep_view()));
            }
            true
        },
        _ => false,
    }
}

/// Ordering of two values, defined only between same-kind operands: integers
/// numerically, floats by IEEE-754 ordering, strings lexicographically by
/// character code. Every cross-kind pair has no ordering.
pub open spec fn spec_value_cmp(a: ValueV, b: ValueV) -> Option<core::cmp::Ordering> {
    match (a, b) {
        (ValueV::Integer(x), ValueV::Integer(y)) => {
            if x < y {
                Some(core::cmp::Ordering::Less)
            } else if x == y {
                Some(core::cmp::Ordering::Equal)
            } else {
                Some(core::cmp::Ordering::Greater)
            }
        },
        (ValueV::Float(x), ValueV::Float(y)) => spec_float_cmp(x, y),
        (ValueV::String(x), ValueV::String(y)) => Some(spec_str_cmp(x, y)),
        _ => None,
    }
}

/// Lexicographic ordering of two character sequences by character code.
pub open spec fn spec_str_cmp(a: Seq<char>, b: Seq<char>) -> core::cmp::Ordering
    decreases a.len(),
{
    if a.len() == 0 && b.len() == 0 {
        core::cmp::Ordering::Equal
    } else if a.len() == 0 {
        core::cmp::Ordering::Less
    } else if b.len() == 0 {
        core::cmp::Ordering::Greater
    } else if a[0] < b[0] {
        core::cmp::Ordering::Less
    } else if a[0] > b[0] {
        core::cmp::Ordering::Greater
    } else {
        spec_str_cmp(a.skip(1), b.skip(1))
    }
}

/// Compares two values under `spec_value_cmp`.
pub fn value_cmp(a: &Value, b: &Value) -> (r: Option<core::cmp::Ordering>)
    ensures
        r == spec_value_cmp(a.deep_view(), b.deep_view()),
{
    match (a, b) {
        (Value::Integer(x), Value::Integer(y)) => {
            if *x < *y {
                Some(core::cmp::Ordering::Less)
            } else if *x == *y {
                Some(core::cmp::Ordering::Equal)
            } else {
                Some(core::cmp::Ordering::Greater)
            }
        },
        (Value::Float(x), Value::Float(y)) => float_cmp(*x, *y),
        (Value::String(x), Value::String(y)) => Some(str_cmp(x.as_str(), y.as_str())),
        _ => None,
    }
}

/// Compares two strings lexicographically by character code.
#[verifier::loop_isolation(false)]
pub fn str_cmp(a: &str, b: &str) -> (r: core::cmp::Ordering)
    ensures
        r == spec_str_cmp(a@, b@),
{
    let av = chars_of(a);
    let bv = chars_of(b);
    let mut i: usize = 0;
    proof {
        assert(a@.skip(0) =~= a@);
        assert(b@.skip(0) =~= b@);
    }
    loop
        invariant
            0 <= i <= av@.len(),
            0 <= i <= bv@.len(),
            av@ == a@,
            bv@ == b@,
            spec_str_cmp(a@, b@) == spec_str_cmp(a@.skip(i as int), b@.skip(i as int)),
        decreases av@.len() - i,
    {
        if i == av.len() && i == bv.len() {
            return core::cmp::Ordering::Equal;
        } else if i == av.len() {
            return core::cmp::Ordering::Less;
        } else if i == bv.len() {
            return core::cmp::Ordering::Greater;
        } else {
            let ca = av[i];
            let cb = bv[i];
            proof {
                assert(a@.skip(i as int)[0] == av@[i as int]);
                assert(b@.skip(i as int)[0] == bv@[i as int]);
                assert(a@.skip(i as int).skip(1) =~= a@.skip(i + 1));
                assert(b@.skip(i as int).skip(1) =~= b@.skip(i + 1));
            }
            if ca < cb {
                return core::cmp::Ordering::Less;
            } else if ca > cb {
                return core::cmp::Ordering::Greater;
            }
            i = i + 1;
        }
    }
}

/// Returns whether two string slices hold the same characters.
#[verifier::loop_isolation(false)]
pub fn str_eq(a: &str, b: &str) -> (r: bool)
    ensures
        r == (a@ == b@),
{
    let av = chars_of(a);
    let bv = chars_of(b);
    if av.len() != bv.len() {
        return false;
    }
    let mut i: usize = 0;
    while i < av.len()
        invariant
            0 <= i <= av@.len(),
            av@.len() == bv@.len(),
            av@ == a@,
            bv@ == b@,
            forall|j: int| 0 <= j < i ==> a@[j] == b@[j],
        decreases av@.len() - i,
    {
        if av[i] != bv[i] {
            return false;
        }
        i = i + 1;
    }
    proof {
        assert(a@ =~= b@);
    }
    true
}

/// For identifier vectors the deep view is the plain view.
pub broadcast proof fn lemma_vec_policy_id_view(v: Vec<PolicyId>)
    ensures
        #[trigger] v.deep_view() == v@,
{
    assert(v.deep_view() =~= v@);
}

/// Collects the characters of a string slice into a vector whose view is the
/// string's view.
pub fn chars_of(s: &str) -> (v: Vec<char>)
    ensures
        v@ == s@,
{
    let mut v: Vec<char> = Vec::new();
    for c in it: s.chars()
        invariant
            v@ =~= it.seq().take(it.index() as int),
    {
        v.push(c);
    }
    proof {
        assert(v@ =~= s@);
    }
    v
}

/// A type whose copies preserve the mathematical view.
pub trait DeepClone: DeepView + Sized {
    /// Returns a copy with the same view.
    fn deep_clone(&self) -> (r: Self)
        ensures
            r.deep_view() == self.deep_view(),
    ;
}

impl DeepClone for String {
    fn deep_clone(&self) -> (r: Self)
        ensures
            r.deep_view() == self.deep_view(),
    {
        self.clone()
    }
}

impl DeepClone for Value {
    fn deep_clone(&self) -> (r: Self)
        ensures
            r.deep_view() == self.deep_view(),
    {
        self.clone()
    }
}

impl DeepClone for PolicyTarget {
    fn deep_clone(&self) -> (r: Self)
        ensures
            r.deep_view() == self.deep_view(),
    {
        self.clone()
    }
}

/// Copies a vector element by element, preserving its view.
#[verifier::loop_isolation(false)]
pub fn clone_vec_deep<T: DeepClone>(v: &Vec<T>) -> (r: Vec<T>)
    ensures
        r.deep_view() == v.deep_view(),
{
    let mut out: Vec<T> = Vec::new();
    let mut i: usize = 0;
    while i < v.len()
        invariant
            0 <= i <= v@.len(),
            out@.len() == i,
            forall|j: int| 0 <= j < i ==> (#[trigger] out@[j]).deep_view() == v@[j].deep_view(),
        decreases v@.len() - i,
    {
        out.push(v[i].deep_clone());
        i = i + 1;
    }
    proof {
        assert(out.deep_view() =~= v.deep_view());
    }
    out
}

/// Copies an optional string, preserving its view.
pub fn clone_opt_string(v: &Option<String>) -> (r: Option<String>)
    ensures
        r.deep_view() == v.deep_view(),
{
    match v {
        Some(s) => Some(s.clone()),
        None => None,
    }
}

/// The expression language of policy rules: a closed boolean predicate over
/// an evaluation context.
#[derive(Debug, PartialEq)]
pub enum RuleExpression {
    /// The named field equals the operand.
    Equal { field: String, value: Value },
    /// The named field differs from the operand.
    NotEqual { field: String, value: Value },
    /// The named field is strictly greater than the operand.
    GreaterThan { field: String, value: Value },
    /// The named field is greater than or equal to the operand.
    GreaterThanOrEqual { field: String, value: Value },
    /// The named field is strictly less than the operand.
    LessThan { field: String, value: Value },
    /// The named field is less than or equal to the operand.
    LessThanOrEqual { field: String, value: Value },
    /// Every child holds.
    And(Vec<RuleExpression>),
    /// At least one child holds.
    Or(Vec<RuleExpression>),
    /// The child does not hold.
    Not(Box<RuleExpression>),
    /// The named field is one of the listed values.
    In { field: String, values: Vec<Value> },
    /// The named field is none of the listed values.
    NotIn { field: String, values: Vec<Value> },
    /// The named field (a string or a list) contains the operand.
    Contains { field: String, value: Value },
    /// The named string field contains the pattern as a substring.
    Matches { field: String, pattern: String },
    /// The named string field starts with the prefix.
    StartsWith { field: String, prefix: String },
    /// The named string field ends with the suffix.
    EndsWith { field: String, suffix: String },
    /// The named field is present in the context.
    Exists { field: String },
    /// The named field is absent from the context.
    NotExists { field: String },
    /// A named custom predicate; the core ships none, so evaluating one fails.
    Custom { predicate: String, args: Vec<(String, Value)> },
}

/// Mathematical view of a `RuleExpression`.
pub enum ExprV {
    Equal { field: Seq<char>, value: ValueV },
    NotEqual { field: Seq<char>, value: ValueV },
    GreaterThan { field: Seq<char>, value: ValueV },
    GreaterThanOrEqual { field: Seq<char>, value: ValueV },
    LessThan { field: Seq<char>, value: ValueV },
    LessThanOrEqual { field: Seq<char>, value: ValueV },
    And(Seq<ExprV>),
    Or(Seq<ExprV>),
    Not(Box<ExprV>),
    In { field: Seq<char>, values: Seq<ValueV> },
    NotIn { field: Seq<char>, values: Seq<ValueV> },
    Contains { field: Seq<char>, value: ValueV },
    Matches { field: Seq<char>, pattern: Seq<char> },
    StartsWith { field: Seq<char>, prefix: Seq<char> },
    EndsWith { field: Seq<char>, suffix: Seq<char> },
    Exists { field: Seq<char> },
    NotExists { field: Seq<char> },
    Custom { predicate: Seq<char>, args: Seq<(Seq<char>, ValueV)> },
}

/// Mathematical view of one rule expression.
pub open spec fn expr_view(e: RuleExpression) -> ExprV
    decreases e,
{
    match e {
        RuleExpression::Equal { field, value } => ExprV::Equal {
            field: field@,
            value: value_view(value),
        },
        RuleExpression::NotEqual { field, value } => ExprV::NotEqual {
            field: field@,
            value: value_view(value),
        },
        RuleExpression::GreaterThan { field, value } => ExprV::GreaterThan {
            field: field@,
            value: value_view(value),
        },
        RuleExpression::GreaterThanOrEqual { field, value } => ExprV::GreaterThanOrEqual {
            field: field@,
            value: value_view(value),
        },
        RuleExpression::LessThan { field, value } => ExprV::LessThan {
            field: field@,
            value: value_view(value),
        },
        RuleExpression::LessThanOrEqual { field, value } => ExprV::LessThanOrEqual {
            field: field@,
            value: value_view(value),
        },
        RuleExpression::And(es) => ExprV::And(exprs_view(es@)),
        RuleExpression::Or(es) => ExprV::Or(exprs_view(es@)),
        RuleExpression::Not(inner) => ExprV::Not(Box::new(expr_view(*inner))),
        RuleExpression::In { field, values } => ExprV::In {
            field: field@,
            values: values_view(values@),
        },
        RuleExpression::NotIn { field, values } => ExprV::NotIn {
            field: field@,
            values: values_view(values@),
        },
        RuleExpression::Contains { field, value } => ExprV::Contains {
            field: field@,
            value: value_view(value),
        },
        RuleExpression::Matches { field, pattern } => ExprV::Matches {
            field: field@,
            pattern: pattern@,
        },
        RuleExpression::StartsWith { field, prefix } => ExprV::StartsWith {
            field: field@,
            prefix: prefix@,
        },
        RuleExpression::EndsWith { field, suffix } => ExprV::EndsWith {
            field: field@,
            suffix: suffix@,
        },
        RuleExpression::Exists { field } => ExprV::Exists { field: field@ },
        RuleExpression::NotExists { field } => ExprV::NotExists { field: field@ },
        RuleExpression::Custom { predicate, args } => ExprV::Custom {
            predicate: predicate@,
            args: entries_view(args@),
        },
    }
}

/// Mathematical view of a sequence of rule expressions, element by element.
pub open spec fn exprs_view(s: Seq<RuleExpression>) -> Seq<ExprV>
    decreases s,
{
    if s.len() == 0 {
        Seq::empty()
    } else {
        seq![expr_view(s[0])] + exprs_view(s.subrange(1, s.len() as int))
    }
}

/// `exprs_view` maps the sequence element by element.
pub broadcast proof fn lemma_exprs_view(s: Seq<RuleExpression>)
    ensures
        (#[trigger] exprs_view(s)).len() == s.len(),
        forall|i: int| 0 <= i < s.len() ==> exprs_view(s)[i] == expr_view(s[i]),
    decreases s.len(),
{
    if s.len() > 0 {
        lemma_exprs_view(s.subrange(1, s.len() as int));
    }
}

impl DeepView for RuleExpression {
    type V = ExprV;

    open spec fn deep_view(&self) -> ExprV {
        expr_view(*self)
    }
}

impl Clone for RuleExpression {
    /// Copies the expression, preserving its view.
    #[verifier::loop_isolation(false)]
    fn clone(&self) -> (r: Self)
        ensures
            r.deep_view() == self.deep_view(),
        decreases self,
    {
        match self {
            RuleExpression::Equal { field, value } => RuleExpression::Equal {
                field: field.clone(),
                value: value.clone(),
            },
            RuleExpression::NotEqual { field, value } => RuleExpression::NotEqual {
                field: field.clone(),
                value: value.clone(),
            },
            RuleExpression::GreaterThan { field, value } => RuleExpression::GreaterThan {
                field: field.clone(),
                value: value.clone(),
            },
            RuleExpression::GreaterThanOrEqual { field, value } => {
                RuleExpression::GreaterThanOrEqual { field: field.clone(), value: value.clone() }
            },
            RuleExpression::LessThan { field, value } => RuleExpression::LessThan {
                field: field.clone(),
                value: value.clone(),
            },
            RuleExpression::LessThanOrEqual { field, value } => RuleExpression::LessThanOrEqual {
                field: field.clone(),
                value: value.clone(),
            },
            RuleExpression::And(es) => RuleExpression::And(clone_exprs(es)),
            RuleExpression::Or(es) => RuleExpression::Or(clone_exprs(es)),
            RuleExpression::Not(inner) => RuleExpression::Not(Box::new((**inner).clone())),
            RuleExpression::In { field, values } => {
                let vs = clone_vec_deep(values);
                proof {
                    lemma_values_view(vs@);
                    lemma_values_view(values@);
                    assert(vs@.len() == values@.len()) by {
                        assert(vs.deep_view().len() == values.deep_view().len());
                    }
                    assert forall|j: int| 0 <= j < vs@.len() implies (#[trigger] vs@[j]).deep_view()
                        == values@[j].deep_view() by {
                        assert(vs.deep_view()[j] == values.deep_view()[j]);
                    }
                    assert(values_view(vs@) =~= values_view(values@));
                }
                RuleExpression::In { field: field.clone(), values: vs }
            },
            RuleExpression::NotIn { field, values } => {
                let vs = clone_vec_deep(values);
                proof {
                    lemma_values_view(vs@);
                    lemma_values_view(values@);
                    assert(vs@.len() == values@.len()) by {
                        assert(vs.deep_view().len() == values.deep_view().len());
                    }
                    assert forall|j: int| 0 <= j < vs@.len() implies (#[trigger] vs@[j]).deep_view()
                        == values@[j].deep_view() by {
                        assert(vs.deep_view()[j] == values.deep_view()[j]);
                    }
                    assert(values_view(vs@) =~= values_view(values@));
                }
                RuleExpression::NotIn { field: field.clone(), values: vs }
            },
            RuleExpression::Contains { field, value } => RuleExpression::Contains {
                field: field.clone(),
                value: value.clone(),
            },
            RuleExpression::Matches { field, pattern } => RuleExpression::Matches {
                field: field.clone(),
                pattern: pattern.clone(),
            },
            RuleExpression::StartsWith { field, prefix } => RuleExpression::StartsWith {
                field: field.clone(),
                prefix: prefix.clone(),
            },
            RuleExpression::EndsWith { field, suffix } => RuleExpression::EndsWith {
                field: field.clone(),
                suffix: suffix.clone(),
            },
            RuleExpression::Exists { field } => RuleExpression::Exists { field: field.clone() },
            RuleExpression::NotExists { field } => RuleExpression::NotExists {
                field: field.clone(),
            },
            RuleExpression::Custom { predicate, args } => {
                let mut out: Vec<(String, Value)> = Vec::new();
                let mut i: usize = 0;
                while i < args.len()
                    invariant
                        0 <= i <= args@.len(),
                        out@.len() == i,
                        forall|j: int|
                            0 <= j < i ==> (#[trigger] out@[j]).0@ == args@[j].0@
                                && out@[j].1.deep_view() == args@[j].1.deep_view(),
                    decreases args@.len() - i,
                {
                    let e = &args[i];
                    out.push((e.0.clone(), e.1.clone()));
                    i = i + 1;
                }
                proof {
                    lemma_entries_view(out@);
                    lemma_entries_view(args@);
                    assert(entries_view(out@) =~= entries_view(args@));
                }
                RuleExpression::Custom { predicate: predicate.clone(), args: out }
            },
        }
    }
}

/// Copies a vector of rule expressions, preserving its element views.
#[verifier::loop_isolation(false)]
fn clone_exprs(es: &Vec<RuleExpression>) -> (r: Vec<RuleExpression>)
    ensures
        exprs_view(r@) == exprs_view(es@),
    decreases es@,
{
    let mut out: Vec<RuleExpression> = Vec::new();
    let mut i: usize = 0;
    while i < es.len()
        invariant
            0 <= i <= es@.len(),
            out@.len() == i,
            forall|j: int| 0 <= j < i ==> (#[trigger] out@[j]).deep_view() == es@[j].deep_view(),
        decreases es@.len() - i,
    {
        out.push(es[i].clone());
        i = i + 1;
    }
    proof {
        lemma_exprs_view(out@);
        lemma_exprs_view(es@);
        assert(exprs_view(out@) =~= exprs_view(es@));
    }
    out
}

impl DeepClone for RuleExpression {
    fn deep_clone(&self) -> (r: Self)
        ensures
            r.deep_view() == self.deep_view(),
    {
        self.clone()
    }
}

/// A structured record of one failed rule evaluation.
#[derive(Debug, PartialEq)]
pub struct Violation {
    /// Identifier of the violated rule.
    pub rule_id: u128,
    /// Human-readable description of the violated rule.
    pub rule_description: String,
    /// Severity carried over from the rule.
    pub severity: Severity,
    /// Details of the failure.
    pub details: String,
    /// Optional remediation hint carried over from the rule.
    pub suggested_remediation: Option<String>,
}

/// Mathematical view of a `Violation`.
pub struct ViolationV {
    pub rule_id: u128,
    pub rule_description: Seq<char>,
    pub severity: Severity,
    pub details: Seq<char>,
    pub suggested_remediation: Option<Seq<char>>,
}

impl DeepView for Violation {
    type V = ViolationV;

    open spec fn deep_view(&self) -> ViolationV {
        ViolationV {
            rule_id: self.rule_id,
            rule_description: self.rule_description@,
            severity: self.severity,
            details: self.details@,
            suggested_remediation: self.suggested_remediation.deep_view(),
        }
    }
}

impl Clone for Violation {
    /// Copies the violation, preserving its view.
    fn clone(&self) -> (r: Self)
        ensures
            r.deep_view() == self.deep_view(),
    {
        Violation {
            rule_id: self.rule_id,
            rule_description: self.rule_description.clone(),
            severity: self.severity,
            details: self.details.clone(),
            suggested_remediation: clone_opt_string(&self.suggested_remediation),
        }
    }
}

impl DeepClone for Violation {
    fn deep_clone(&self) -> (r: Self)
        ensures
            r.deep_view() == self.deep_view(),
    {
        self.clone()
    }
}

/// The outcome of evaluating one policy, or a whole set, against a context.
#[derive(Debug, PartialEq)]
pub enum ComplianceResult {
    /// Fully compliant with all rules.
    Compliant,
    /// Not compliant, with the list of violations.
    NonCompliant { violations: Vec<Violation> },
    /// Compliant because a valid exemption applies.
    CompliantWithExemption { exemption_id: ExemptionId },
    /// Partially compliant; never produced by the evaluator itself, kept for
    /// callers that aggregate their own counts.
    PartiallyCompliant { passed: usize, failed: usize },
}

/// Mathematical view of a `ComplianceResult`.
pub enum ComplianceResultV {
    Compliant,
    NonCompliant { violations: Seq<ViolationV> },
    CompliantWithExemption { exemption_id: ExemptionId },
    PartiallyCompliant { passed: usize, failed: usize },
}

impl DeepView for ComplianceResult {
    type V = ComplianceResultV;

    open spec fn deep_view(&self) -> ComplianceResultV {
        match self {
            ComplianceResult::Compliant => ComplianceResultV::Compliant,
            ComplianceResult::NonCompliant { violations } => ComplianceResultV::NonCompliant {
                violations: violations.deep_view(),
            },
            ComplianceResult::CompliantWithExemption { exemption_id } => {
                ComplianceResultV::CompliantWithExemption { exemption_id: *exemption_id }
            },
            ComplianceResult::PartiallyCompliant { passed, failed } => {
                ComplianceResultV::PartiallyCompliant { passed: *passed, failed: *failed }
            },
        }
    }
}

impl ComplianceResultV {
    /// Whether the outcome counts as compliant: fully compliant, or compliant
    /// through an exemption.
    pub open spec fn spec_is_compliant(self) -> bool {
        self is Compliant || self is CompliantWithExemption
    }
}

impl Clone for ComplianceResult {
    /// Copies the result, preserving its view.
    fn clone(&self) -> (r: Self)
        ensures
            r.deep_view() == self.deep_view(),
    {
        match self {
            ComplianceResult::Compliant => ComplianceResult::Compliant,
            ComplianceResult::NonCompliant { violations } => ComplianceResult::NonCompliant {
                violations: clone_vec_deep(violations),
            },
            ComplianceResult::CompliantWithExemption { exemption_id } => {
                ComplianceResult::CompliantWithExemption { exemption_id: *exemption_id }
            },
            ComplianceResult::PartiallyCompliant { passed, failed } => {
                ComplianceResult::PartiallyCompliant { passed: *passed, failed: *failed }
            },
        }
    }
}

impl ComplianceResult {
    /// Returns whether the outcome counts as compliant (fully, or through an
    /// exemption).
    pub fn is_compliant(&self) -> (r: bool)
        ensures
            r == self.deep_view().spec_is_compliant(),
    {
        match self {
            ComplianceResult::Compliant => true,
            ComplianceResult::CompliantWithExemption { .. } => true,
            _ => false,
        }
    }
}

/// Context a policy is evaluated against: named fields, an optional requester
/// identity, the evaluation timestamp and free-form environment tags. Field
/// names are unique; inserting an existing name replaces its value.
#[derive(Debug, PartialEq)]
pub struct EvaluationContext {
    /// Named field values, with pairwise distinct names.
    pub fields: Vec<(String, Value)>,
    /// Who asked for the evaluation, if known.
    pub requester: Option<String>,
    /// When the context was built, as Unix milliseconds.
    pub timestamp: i64,
    /// Free-form environment tags.
    pub environment: Vec<(String, String)>,
}

/// Mathematical view of an `EvaluationContext`.
pub struct ContextV {
    pub fields: Seq<(Seq<char>, ValueV)>,
    pub requester: Option<Seq<char>>,
    pub timestamp: i64,
    pub environment: Seq<(Seq<char>, Seq<char>)>,
}

impl DeepView for EvaluationContext {
    type V = ContextV;

    open spec fn deep_view(&self) -> ContextV {
        ContextV {
            fields: entries_view(self.fields@),
            requester: self.requester.deep_view(),
            timestamp: self.timestamp,
            environment: self.environment.deep_view(),
        }
    }
}

/// The first value bound to the key in a field list, if any.
pub open spec fn spec_lookup(fields: Seq<(Seq<char>, ValueV)>, key: Seq<char>) -> Option<ValueV>
    decreases fields,
{
    if fields.len() == 0 {
        None
    } else if fields[0].0 == key {
        Some(fields[0].1)
    } else {
        spec_lookup(fields.subrange(1, fields.len() as int), key)
    }
}

impl ContextV {
    /// The value of the named field, if present.
    pub open spec fn spec_get_field(self, key: Seq<char>) -> Option<ValueV> {
        spec_lookup(self.fields, key)
    }
}

impl Clone for EvaluationContext {
    /// Copies the context, preserving its view.
    #[verifier::loop_isolation(false)]
    fn clone(&self) -> (r: Self)
        ensures
            r.deep_view() == self.deep_view(),
    {
        let mut fields: Vec<(String, Value)> = Vec::new();
        let mut i: usize = 0;
        while i < self.fields.len()
            invariant
                0 <= i <= self.fields@.len(),
                fields@.len() == i,
                forall|j: int|
                    0 <= j < i ==> (#[trigger] fields@[j]).0@ == self.fields@[j].0@
                        && fields@[j].1.deep_view() == self.fields@[j].1.deep_view(),
            decreases self.fields@.len() - i,
        {
            let e = &self.fields[i];
            fields.push((e.0.clone(), e.1.clone()));
            i = i + 1;
        }
        let mut environment: Vec<(String, String)> = Vec::new();
        let mut k: usize = 0;
        while k < self.environment.len()
            invariant
                0 <= k <= self.environment@.len(),
                environment@.len() == k,
                forall|j: int|
                    0 <= j < k ==> (#[trigger] environment@[j]).0@ == self.environment@[j].0@
                        && environment@[j].1@ == self.environment@[j].1@,
            decreases self.environment@.len() - k,
        {
            let e = &self.environment[k];
            environment.push((e.0.clone(), e.1.clone()));
            k = k + 1;
        }
        proof {
            lemma_entries_view(fields@);
            lemma_entries_view(self.fields@);
            assert(entries_view(fields@) =~= entries_view(self.fields@));
            assert(environment.deep_view() =~= self.environment.deep_view());
        }
        EvaluationContext {
            fields,
            requester: clone_opt_string(&self.requester),
            timestamp: self.timestamp,
            environment,
        }
    }
}

impl EvaluationContext {
    /// Creates an empty context stamped with the current time.
    pub fn new() -> (r: EvaluationContext)
        ensures
            r.deep_view().fields.len() == 0,
            r.deep_view().requester is None,
            r.deep_view().environment.len() == 0,
    {
        EvaluationContext {
            fields: Vec::new(),
            requester: None,
            timestamp: crate::runtime::now_millis(),
            environment: Vec::new(),
        }
    }

    /// Binds the named field to the value: replaces the value of an existing
    /// name, appends a new name at the end.
    #[verifier::loop_isolation(false)]
    pub fn with_field(self, key: &str, value: Value) -> (r: EvaluationContext)
        ensures
            r.deep_view().requester == self.deep_view().requester,
            r.deep_view().timestamp == self.deep_view().timestamp,
            r.deep_view().environment == self.deep_view().environment,
            r.deep_view().fields == spec_insert_field(
                self.deep_view().fields,
                key@,
                value.deep_view(),
            ),
    {
        proof {
            lemma_entries_view(self.fields@);
        }
        let this = self;
        let mut i: usize = 0;
        loop
            invariant
                0 <= i <= this.fields@.len(),
                forall|j: int| 0 <= j < i ==> (#[trigger] this.fields@[j]).0@ != key@,
            decreases this.fields@.len() - i,
        {
            if i == this.fields.len() {
                break;
            }
            if str_eq(this.fields[i].0.as_str(), key) {
                let mut fields = this.fields;
                let name = fields[i].0.clone();
                fields.set(i, (name, value));
                proof {
                    lemma_entries_view(fields@);
                    lemma_spec_insert_found(
                        entries_view(self.fields@),
                        key@,
                        value.deep_view(),
                        i as int,
                    );
                    assert(entries_view(fields@) =~= entries_view(self.fields@).update(
                        i as int,
                        (entries_view(self.fields@)[i as int].0, value.deep_view()),
                    ));
                }
                return EvaluationContext { fields, ..this };
            }
            i = i + 1;
        }
        let mut fields = this.fields;
        fields.push((key.to_owned(), value));
        proof {
            lemma_entries_view(fields@);
            lemma_spec_insert_missing(entries_view(self.fields@), key@, value.deep_view());
            assert(entries_view(fields@) =~= entries_view(self.fields@).push(
                (key@, value.deep_view()),
            ));
        }
        EvaluationContext { fields, ..this }
    }

    /// Returns the value of the named field, if present.
    #[verifier::loop_isolation(false)]
    pub fn get_field(&self, key: &str) -> (r: Option<&Value>)
        ensures
            match r {
                Some(v) => self.deep_view().spec_get_field(key@) == Some(v.deep_view()),
                None => self.deep_view().spec_get_field(key@) is None,
            },
    {
        proof {
            lemma_entries_view(self.fields@);
        }
        let ghost whole = entries_view(self.fields@);
        let mut i: usize = 0;
        proof {
            assert(whole.subrange(0, whole.len() as int) =~= whole);
        }
        loop
            invariant
                0 <= i <= self.fields@.len(),
                spec_lookup(whole, key@) == spec_lookup(
                    whole.subrange(i as int, whole.len() as int),
                    key@,
                ),
            decreases self.fields@.len() - i,
        {
            if i == self.fields.len() {
                proof {
                    assert(whole.subrange(i as int, whole.len() as int) =~= Seq::empty());
                }
                return None;
            }
            proof {
                let tail = whole.subrange(i as int, whole.len() as int);
                assert(tail[0] == whole[i as int]);
                assert(tail.subrange(1, tail.len() as int) =~= whole.subrange(
                    i + 1,
                    whole.len() as int,
                ));
            }
            if str_eq(self.fields[i].0.as_str(), key) {
                return Some(&self.fields[i].1);
            }
            i = i + 1;
        }
    }
}

/// Binding a key in a field list: the first entry with the key gets the new
/// value; a missing key is appended at the end.
pub open spec fn spec_insert_field(
    fields: Seq<(Seq<char>, ValueV)>,
    key: Seq<char>,
    value: ValueV,
) -> Seq<(Seq<char>, ValueV)>
    decreases fields,
{
    if fields.len() == 0 {
        seq![(key, value)]
    } else if fields[0].0 == key {
        seq![(fields[0].0, value)] + fields.subrange(1, fields.len() as int)
    } else {
        seq![fields[0]] + spec_insert_field(fields.subrange(1, fields.len() as int), key, value)
    }
}

/// When the key first occurs at position `i`, inserting updates position `i`.
proof fn lemma_spec_insert_found(
    fields: Seq<(Seq<char>, ValueV)>,
    key: Seq<char>,
    value: ValueV,
    i: int,
)
    requires
        0 <= i < fields.len(),
        fields[i].0 == key,
        forall|j: int| 0 <= j < i ==> (#[trigger] fields[j]).0 != key,
    ensures
        spec_insert_field(fields, key, value) == fields.update(i, (fields[i].0, value)),
    decreases i,
{
    if i == 0 {
        assert(spec_insert_field(fields, key, value) =~= fields.update(0, (fields[0].0, value)));
    } else {
        let tail = fields.subrange(1, fields.len() as int);
        assert(tail[i - 1].0 == key);
        assert(forall|j: int| 0 <= j < i - 1 ==> (#[trigger] tail[j]).0 != key);
        lemma_spec_insert_found(tail, key, value, i - 1);
        assert(spec_insert_field(fields, key, value) =~= fields.update(i, (fields[i].0, value)));
    }
}

/// When the key occurs nowhere, inserting appends at the end.
proof fn lemma_spec_insert_missing(fields: Seq<(Seq<char>, ValueV)>, key: Seq<char>, value: ValueV)
    requires
        forall|j: int| 0 <= j < fields.len() ==> (#[trigger] fields[j]).0 != key,
    ensures
        spec_insert_field(fields, key, value) == fields.push((key, value)),
    decreases fields.len(),
{
    if fields.len() == 0 {
        assert(spec_insert_field(fields, key, value) =~= fields.push((key, value)));
    } else {
        let tail = fields.subrange(1, fields.len() as int);
        lemma_spec_insert_missing(tail, key, value);
        assert(spec_insert_field(fields, key, value) =~= fields.push((key, value)));
    }
}

/// Metadata attached to every policy.
#[derive(Debug, PartialEq)]
pub struct PolicyMetadata {
    /// Who created the policy.
    pub created_by: String,
    /// When it was created, as Unix milliseconds.
    pub created_at: i64,
    /// Who last modified it, if anyone.
    pub last_modified_by: Option<String>,
    /// When it was last modified, if ever.
    pub last_modified_at: Option<i64>,
    /// Free-form tags.
    pub tags: Vec<String>,
    /// Compliance standards this policy supports.
    pub compliance_standards: Vec<String>,
    /// Optional link to documentation.
    pub documentation_url: Option<String>,
}

/// Mathematical view of a `PolicyMetadata`.
pub struct PolicyMetadataV {
    pub created_by: Seq<char>,
    pub created_at: i64,
    pub last_modified_by: Option<Seq<char>>,
    pub last_modified_at: Option<i64>,
    pub tags: Seq<Seq<char>>,
    pub compliance_standards: Seq<Seq<char>>,
    pub documentation_url: Option<Seq<char>>,
}

impl DeepView for PolicyMetadata {
    type V = PolicyMetadataV;

    open spec fn deep_view(&self) -> PolicyMetadataV {
        PolicyMetadataV {
            created_by: self.created_by@,
            created_at: self.created_at,
            last_modified_by: self.last_modified_by.deep_view(),
            last_modified_at: self.last_modified_at,
            tags: self.tags.deep_view(),
            compliance_standards: self.compliance_standards.deep_view(),
            documentation_url: self.documentation_url.deep_view(),
        }
    }
}

impl Clone for PolicyMetadata {
    /// Copies the metadata, preserving its view.
    fn clone(&self) -> (r: Self)
        ensures
            r.deep_view() == self.deep_view(),
    {
        PolicyMetadata {
            created_by: self.created_by.clone(),
            created_at: self.created_at,
            last_modified_by: clone_opt_string(&self.last_modified_by),
            last_modified_at: if let Some(t) = self.last_modified_at {
                Some(t)
            } else {
                None
            },
            tags: clone_vec_deep(&self.tags),
            compliance_standards: clone_vec_deep(&self.compliance_standards),
            documentation_url: clone_opt_string(&self.documentation_url),
        }
    }
}

impl Default for PolicyMetadata {
    /// An empty metadata record stamped with the current time.
    fn default() -> (r: Self)
        ensures
            r.deep_view().created_by.len() == 0,
            r.deep_view().last_modified_by is None,
            r.deep_view().last_modified_at is None,
            r.deep_view().tags.len() == 0,
            r.deep_view().compliance_standards.len() == 0,
            r.deep_view().documentation_url is None,
    {
        PolicyMetadata {
            created_by: String::new(),
            created_at: crate::runtime::now_millis(),
            last_modified_by: None,
            last_modified_at: None,
            tags: Vec::new(),
            compliance_standards: Vec::new(),
            documentation_url: None,
        }
    }
}

/// Whether `sub` occurs as a contiguous substring of `s`.
pub open spec fn spec_str_contains(s: Seq<char>, sub: Seq<char>) -> bool {
    exists|i: int|
        0 <= i && i + sub.len() <= s.len() && #[trigger] s.subrange(i, i + sub.len() as int)
            == sub
}

/// Whether `p` is a prefix of `s`.
pub open spec fn spec_str_starts_with(s: Seq<char>, p: Seq<char>) -> bool {
    p.len() <= s.len() && s.subrange(0, p.len() as int) == p
}

/// Whether `p` is a suffix of `s`.
pub open spec fn spec_str_ends_with(s: Seq<char>, p: Seq<char>) -> bool {
    p.len() <= s.len() && s.subrange(s.len() - p.len(), s.len() as int) == p
}

/// Returns whether the characters of `needle` occur contiguously in `hay`.
#[verifier::loop_isolation(false)]
pub fn str_contains(hay: &str, needle: &str) -> (r: bool)
    ensures
        r == spec_str_contains(hay@, needle@),
{
    let hv = chars_of(hay);
    let nv = chars_of(needle);
    if nv.len() > hv.len() {
        return false;
    }
    let mut i: usize = 0;
    while i <= hv.len() - nv.len()
        invariant
            0 <= i <= hv@.len() - nv@.len() + 1,
            nv@.len() <= hv@.len(),
            hv@ == hay@,
            nv@ == needle@,
            forall|k: int|
                0 <= k < i ==> #[trigger] hay@.subrange(k, k + needle@.len() as int) != needle@,
        decreases hv@.len() - nv@.len() + 1 - i,
    {
        let mut j: usize = 0;
        let mut matched = true;
        while j < nv.len()
            invariant
                0 <= j <= nv@.len(),
                0 <= i <= hv@.len() - nv@.len(),
                matched <==> (forall|k: int| 0 <= k < j ==> hay@[i + k] == needle@[k]),
            decreases nv@.len() - j,
        {
            if hv[i + j] != nv[j] {
                matched = false;
                proof {
                    assert(hay@[i + j] != needle@[j as int]);
                }
                break;
            }
            j = j + 1;
        }
        if matched {
            proof {
                assert(hay@.subrange(i as int, i + needle@.len() as int) =~= needle@);
            }
            return true;
        }
        proof {
            assert(hay@.subrange(i as int, i + needle@.len() as int) != needle@) by {
                let k = choose|k: int| 0 <= k < nv@.len() && hay@[i + k] != needle@[k];
                assert(hay@.subrange(i as int, i + needle@.len() as int)[k] == hay@[i + k]);
            }
        }
        i = i + 1;
    }
    proof {
        assert forall|k: int| 0 <= k && k + needle@.len() <= hay@.len() implies #[trigger] hay@.subrange(
            k,
            k + needle@.len() as int,
        ) != needle@ by {
            assert(k < i);
        }
    }
    false
}

/// Returns whether the characters of `p` are a prefix of `s`.
#[verifier::loop_isolation(false)]
pub fn str_starts_with(s: &str, p: &str) -> (r: bool)
    ensures
        r == spec_str_starts_with(s@, p@),
{
    let sv = chars_of(s);
    let pv = chars_of(p);
    if pv.len() > sv.len() {
        return false;
    }
    let mut j: usize = 0;
    while j < pv.len()
        invariant
            0 <= j <= pv@.len(),
            pv@.len() <= sv@.len(),
            sv@ == s@,
            pv@ == p@,
            forall|k: int| 0 <= k < j ==> s@[k] == p@[k],
        decreases pv@.len() - j,
    {
        if sv[j] != pv[j] {
            proof {
                assert(s@.subrange(0, p@.len() as int)[j as int] == s@[j as int]);
            }
            return false;
        }
        j = j + 1;
    }
    proof {
        assert(s@.subrange(0, p@.len() as int) =~= p@);
    }
    true
}

/// Returns whether the characters of `p` are a suffix of `s`.
#[verifier::loop_isolation(false)]
pub fn str_ends_with(s: &str, p: &str) -> (r: bool)
    ensures
        r == spec_str_ends_with(s@, p@),
{
    let sv = chars_of(s);
    let pv = chars_of(p);
    if pv.len() > sv.len() {
        return false;
    }
    let offset = sv.len() - pv.len();
    let mut j: usize = 0;
    while j < pv.len()
        invariant
            0 <= j <= pv@.len(),
            pv@.len() <= sv@.len(),
            offset == sv@.len() - pv@.len(),
            sv@ == s@,
            pv@ == p@,
            forall|k: int| 0 <= k < j ==> s@[offset + k] == p@[k],
        decreases pv@.len() - j,
    {
        if sv[offset + j] != pv[j] {
            proof {
                assert(s@.subrange(s@.len() - p@.len(), s@.len() as int)[j as int] == s@[
                    offset + j
                ]);
            }
            return false;
        }
        j = j + 1;
    }
    proof {
        assert(s@.subrange(s@.len() - p@.len(), s@.len() as int) =~= p@);
    }
    true
}

/// Whether a policy explicitly allows or denies.
#[derive(Debug, Clone, Copy, PartialEq, Eq, Structural)]
pub enum PolicyEffect {
    Allow,
    Deny,
}

/// How a resource pattern is interpreted.
#[derive(Debug, Clone, Copy, PartialEq, Eq, Structural, Hash)]
pub enum PatternType {
    /// The resource must equal the pattern.
    Exact,
    /// The resource must start with the pattern.
    Prefix,
    /// The resource must end with the pattern.
    Suffix,
    /// The pattern may hold `*` wildcards, each matching any characters.
    Glob,
    /// A regular expression; this core interprets none, so it matches
    /// nothing.
    Regex,
}

impl DeepView for PatternType {
    type V = PatternType;

    open spec fn deep_view(&self) -> PatternType {
        *self
    }
}

/// Glob matching: a `*` matches any sequence of characters, every other
/// character matches itself.
pub open spec fn spec_glob_match(p: Seq<char>, s: Seq<char>) -> bool
    decreases p.len(), s.len(),
{
    if p.len() == 0 {
        s.len() == 0
    } else if p[0] == '*' {
        spec_glob_match(p.skip(1), s) || (s.len() > 0 && spec_glob_match(p, s.skip(1)))
    } else {
        s.len() > 0 && p[0] == s[0] && spec_glob_match(p.skip(1), s.skip(1))
    }
}

/// Whether a resource matches a pattern under a pattern type.
pub open spec fn spec_pattern_matches(
    pattern: Seq<char>,
    pattern_type: PatternType,
    resource: Seq<char>,
) -> bool {
    match pattern_type {
        PatternType::Exact => resource == pattern,
        PatternType::Prefix => spec_str_starts_with(resource, pattern),
        PatternType::Suffix => spec_str_ends_with(resource, pattern),
        PatternType::Glob => spec_glob_match(pattern, resource),
        PatternType::Regex => false,
    }
}

/// A pattern that selects resources by name.
#[derive(Debug, PartialEq)]
pub struct ResourcePattern {
    /// The pattern text.
    pub pattern: String,
    /// How the pattern is interpreted.
    pub pattern_type: PatternType,
}

/// Mathematical view of a `ResourcePattern`.
pub struct ResourcePatternV {
    pub pattern: Seq<char>,
    pub pattern_type: PatternType,
}

impl DeepView for ResourcePattern {
    type V = ResourcePatternV;

    open spec fn deep_view(&self) -> ResourcePatternV {
        ResourcePatternV { pattern: self.pattern@, pattern_type: self.pattern_type }
    }
}

impl Clone for ResourcePattern {
    /// Copies the pattern, preserving its view.
    fn clone(&self) -> (r: Self)
        ensures
            r.deep_view() == self.deep_view(),
    {
        ResourcePattern { pattern: self.pattern.clone(), pattern_type: self.pattern_type }
    }
}

impl ResourcePattern {
    /// Creates a pattern.
    pub fn new(pattern: String, pattern_type: PatternType) -> (r: ResourcePattern)
        ensures
            r.deep_view().pattern == pattern@,
            r.deep_view().pattern_type == pattern_type,
    {
        ResourcePattern { pattern, pattern_type }
    }

    /// Returns whether the resource matches this pattern: equality, prefix,
    /// suffix or glob matching by the pattern type; regular expressions are
    /// not interpreted by this core and match nothing.
    pub fn matches(&self, resource: &str) -> (r: bool)
        ensures
            r == spec_pattern_matches(self.pattern@, self.pattern_type, resource@),
    {
        match self.pattern_type {
            PatternType::Exact => str_eq(resource, self.pattern.as_str()),
            PatternType::Prefix => str_starts_with(resource, self.pattern.as_str()),
            PatternType::Suffix => str_ends_with(resource, self.pattern.as_str()),
            PatternType::Glob => self.glob_matches(resource),
            PatternType::Regex => self.regex_matches(resource),
        }
    }

    /// Returns whether the resource matches the pattern with `*` wildcards.
    pub fn glob_matches(&self, resource: &str) -> (r: bool)
        ensures
            r == spec_glob_match(self.pattern@, resource@),
    {
        let pv = chars_of(self.pattern.as_str());
        let sv = chars_of(resource);
        proof {
            assert(pv@.skip(0) =~= self.pattern@);
            assert(sv@.skip(0) =~= resource@);
        }
        glob_chars(&pv, &sv, 0, 0)
    }

    /// Returns whether the resource matches the pattern as a regular
    /// expression: this core interprets none, so nothing matches.
    pub fn regex_matches(&self, _resource: &str) -> (r: bool)
        ensures
            r == false,
    {
        false
    }
}

/// The recursive glob matcher over character vectors, from the given
/// positions on.
#[verifier::loop_isolation(false)]
fn glob_chars(p: &Vec<char>, s: &Vec<char>, i: usize, j: usize) -> (r: bool)
    requires
        i <= p@.len(),
        j <= s@.len(),
    ensures
        r == spec_glob_match(p@.skip(i as int), s@.skip(j as int)),
    decreases p@.len() - i, s@.len() - j,
{
    proof {
        if i < p@.len() {
            assert(p@.skip(i as int)[0] == p@[i as int]);
            assert(p@.skip(i as int).skip(1) =~= p@.skip(i + 1));
        }
        if j < s@.len() {
            assert(s@.skip(j as int)[0] == s@[j as int]);
            assert(s@.skip(j as int).skip(1) =~= s@.skip(j + 1));
        }
    }
    if i == p.len() {
        j == s.len()
    } else if p[i] == '*' {
        if glob_chars(p, s, i + 1, j) {
            true
        } else if j < s.len() {
            glob_chars(p, s, i, j + 1)
        } else {
            false
        }
    } else if j < s.len() && p[i] == s[j] {
        glob_chars(p, s, i + 1, j + 1)
    } else {
        false
    }
}

/// One claim about a subject, for attribute-based access control.
#[derive(Debug, PartialEq, Eq, Hash)]
pub struct Claim {
    /// What kind of claim this is.
    pub claim_type: String,
    /// The claimed value.
    pub claim_value: String,
}

/// Mathematical view of a `Claim`.
pub struct ClaimV {
    pub claim_type: Seq<char>,
    pub claim_value: Seq<char>,
}

impl DeepView for Claim {
    type V = ClaimV;

    open spec fn deep_view(&self) -> ClaimV {
        ClaimV { claim_type: self.claim_type@, claim_value: self.claim_value@ }
    }
}

impl Clone for Claim {
    /// Copies the claim, preserving its view.
    fn clone(&self) -> (r: Self)
        ensures
            r.deep_view() == self.deep_view(),
    {
        Claim { claim_type: self.claim_type.clone(), claim_value: self.claim_value.clone() }
    }
}

impl DeepClone for Claim {
    fn deep_clone(&self) -> (r: Self)
        ensures
            r.deep_view() == self.deep_view(),
    {
        self.clone()
    }
}

impl Claim {
    /// Creates a claim.
    pub fn new(claim_type: String, claim_value: String) -> (r: Claim)
        ensures
            r.deep_view().claim_type == claim_type@,
            r.deep_view().claim_value == claim_value@,
    {
        Claim { claim_type, claim_value }
    }
}

/// Whether a claim list holds a claim with the given type and value.
pub open spec fn spec_has_claim(
    claims: Seq<ClaimV>,
    claim_type: Seq<char>,
    claim_value: Seq<char>,
) -> bool {
    exists|i: int|
        0 <= i < claims.len() && (#[trigger] claims[i]).claim_type == claim_type
            && claims[i].claim_value == claim_value
}

/// The set of claims issued to one subject, each claim held once.
#[derive(Debug)]
pub struct ClaimSet {
    /// Whom the claims are about.
    pub subject: String,
    /// The claims, pairwise distinct.
    pub claims: Vec<Claim>,
    /// When the claims were issued, as Unix milliseconds.
    pub issued_at: i64,
    /// When the claims run out, as Unix milliseconds, if bounded.
    pub expires_at: Option<i64>,
}

impl ClaimSet {
    /// The claims as a mathematical sequence.
    pub open spec fn spec_claims(&self) -> Seq<ClaimV> {
        self.claims.deep_view()
    }

    /// Creates an empty claim set issued now, without an expiry.
    pub fn new(subject: String) -> (r: ClaimSet)
        ensures
            r.subject@ == subject@,
            r.spec_claims().len() == 0,
            r.expires_at is None,
    {
        let r = ClaimSet {
            subject,
            claims: Vec::new(),
            issued_at: crate::runtime::now_millis(),
            expires_at: None,
        };
        proof {
            assert(r.claims.deep_view() =~= Seq::<ClaimV>::empty());
        }
        r
    }

    /// Adds a claim; a claim already held is not added twice.
    #[verifier::loop_isolation(false)]
    pub fn add_claim(&mut self, claim: Claim)
        ensures
            final(self).spec_claims() == if spec_has_claim(
                old(self).spec_claims(),
                claim.deep_view().claim_type,
                claim.deep_view().claim_value,
            ) {
                old(self).spec_claims()
            } else {
                old(self).spec_claims().push(claim.deep_view())
            },
            final(self).subject == old(self).subject,
            final(self).issued_at == old(self).issued_at,
            final(self).expires_at == old(self).expires_at,
    {
        let present = self.has_claim(claim.claim_type.as_str(), claim.claim_value.as_str());
        if !present {
            let ghost pre = self.spec_claims();
            let ghost cv = claim.deep_view();
            self.claims.push(claim);
            proof {
                assert(self.spec_claims() =~= pre.push(cv));
            }
        }
    }

    /// Returns whether a claim with the given type and value is held.
    #[verifier::loop_isolation(false)]
    pub fn has_claim(&self, claim_type: &str, claim_value: &str) -> (r: bool)
        ensures
            r == spec_has_claim(self.spec_claims(), claim_type@, claim_value@),
    {
        let mut i: usize = 0;
        while i < self.claims.len()
            invariant
                0 <= i <= self.claims@.len(),
                forall|j: int|
                    0 <= j < i ==> !((#[trigger] self.spec_claims()[j]).claim_type == claim_type@
                        && self.spec_claims()[j].claim_value == claim_value@),
            decreases self.claims@.len() - i,
        {
            let c = &self.claims[i];
            if str_eq(c.claim_type.as_str(), claim_type) && str_eq(
                c.claim_value.as_str(),
                claim_value,
            ) {
                proof {
                    assert(self.spec_claims()[i as int].claim_type == claim_type@);
                }
                return true;
            }
            i = i + 1;
        }
        false
    }

    /// Returns whether the claims are usable at the given instant: an
    /// unbounded set always is, a bounded one until its expiry.
    pub fn is_valid_at(&self, now: i64) -> (r: bool)
        ensures
            r == match self.expires_at {
                Some(e) => now < e,
                None => true,
            },
    {
        match self.expires_at {
            Some(expires_at) => now < expires_at,
            None => true,
        }
    }

    /// Returns whether the claims are usable now, by the wall clock. A true
    /// result means the wall clock lay before any recorded expiry.
    pub fn is_valid(&self) -> (r: bool)
        ensures
            self.expires_at is None ==> r,
    {
        let now = crate::runtime::now_millis();
        self.is_valid_at(now)
    }
}

/// A boolean condition over a subject's claims.
#[derive(Debug, PartialEq, Eq)]
pub enum PolicyCondition {
    /// The subject holds the claim.
    HasClaim { claim_type: String, claim_value: String },
    /// The subject holds some claim of the type.
    HasAnyClaim { claim_type: String },
    /// The subject holds every listed claim.
    HasAllClaims { claims: Vec<Claim> },
    /// The subject holds at least one listed claim.
    HasAnyClaims { claims: Vec<Claim> },
    /// Every child holds.
    And(Vec<PolicyCondition>),
    /// At least one child holds.
    Or(Vec<PolicyCondition>),
    /// The child does not hold.
    Not(Box<PolicyCondition>),
}

/// The semantics of a claim condition against a claim list.
pub open spec fn spec_condition_holds(c: PolicyCondition, claims: Seq<ClaimV>) -> bool
    decreases c,
{
    match c {
        PolicyCondition::HasClaim { claim_type, claim_value } => spec_has_claim(
            claims,
            claim_type@,
            claim_value@,
        ),
        PolicyCondition::HasAnyClaim { claim_type } => exists|i: int|
            0 <= i < claims.len() && (#[trigger] claims[i]).claim_type == claim_type@,
        PolicyCondition::HasAllClaims { claims: required } => forall|i: int|
            0 <= i < required@.len() ==> spec_has_claim(
                claims,
                (#[trigger] required@[i]).claim_type@,
                required@[i].claim_value@,
            ),
        PolicyCondition::HasAnyClaims { claims: required } => exists|i: int|
            0 <= i < required@.len() && spec_has_claim(
                claims,
                (#[trigger] required@[i]).claim_type@,
                required@[i].claim_value@,
            ),
        PolicyCondition::And(children) => spec_all_conditions_hold(children@, claims),
        PolicyCondition::Or(children) => spec_any_condition_holds(children@, claims),
        PolicyCondition::Not(child) => !spec_condition_holds(*child, claims),
    }
}

/// Whether every condition in the sequence holds.
pub open spec fn spec_all_conditions_hold(cs: Seq<PolicyCondition>, claims: Seq<ClaimV>) -> bool
    decreases cs,
{
    if cs.len() == 0 {
        true
    } else {
        spec_condition_holds(cs[0], claims) && spec_all_conditions_hold(
            cs.subrange(1, cs.len() as int),
            claims,
        )
    }
}

/// Whether some condition in the sequence holds.
pub open spec fn spec_any_condition_holds(cs: Seq<PolicyCondition>, claims: Seq<ClaimV>) -> bool
    decreases cs,
{
    if cs.len() == 0 {
        false
    } else {
        spec_condition_holds(cs[0], claims) || spec_any_condition_holds(
            cs.subrange(1, cs.len() as int),
            claims,
        )
    }
}

impl PolicyCondition {
    /// Evaluates the condition against the subject's claims.
    #[verifier::loop_isolation(false)]
    pub fn evaluate(&self, claims: &ClaimSet) -> (r: bool)
        ensures
            r == spec_condition_holds(*self, claims.spec_claims()),
        decreases *self,
    {
        match self {
            PolicyCondition::HasClaim { claim_type, claim_value } => {
                claims.has_claim(claim_type.as_str(), claim_value.as_str())
            },
            PolicyCondition::HasAnyClaim { claim_type } => {
                let mut i: usize = 0;
                while i < claims.claims.len()
                    invariant
                        0 <= i <= claims.claims@.len(),
                        forall|j: int|
                            0 <= j < i ==> (#[trigger] claims.spec_claims()[j]).claim_type
                                != claim_type@,
                    decreases claims.claims@.len() - i,
                {
                    if str_eq(claims.claims[i].claim_type.as_str(), claim_type.as_str()) {
                        proof {
                            assert(claims.spec_claims()[i as int].claim_type == claim_type@);
                        }
                        return true;
                    }
                    i = i + 1;
                }
                false
            },
            PolicyCondition::HasAllClaims { claims: required } => {
                let mut i: usize = 0;
                while i < required.len()
                    invariant
                        0 <= i <= required@.len(),
                        forall|j: int|
                            0 <= j < i ==> spec_has_claim(
                                claims.spec_claims(),
                                (#[trigger] required@[j]).claim_type@,
                                required@[j].claim_value@,
                            ),
                    decreases required@.len() - i,
                {
                    let c = &required[i];
                    if !claims.has_claim(c.claim_type.as_str(), c.claim_value.as_str()) {
                        return false;
                    }
                    i = i + 1;
                }
                true
            },
            PolicyCondition::HasAnyClaims { claims: required } => {
                let mut i: usize = 0;
                while i < required.len()
                    invariant
                        0 <= i <= required@.len(),
                        forall|j: int|
                            0 <= j < i ==> !spec_has_claim(
                                claims.spec_claims(),
                                (#[trigger] required@[j]).claim_type@,
                                required@[j].claim_value@,
                            ),
                    decreases required@.len() - i,
                {
                    let c = &required[i];
                    if claims.has_claim(c.claim_type.as_str(), c.claim_value.as_str()) {
                        return true;
                    }
                    i = i + 1;
                }
                false
            },
            PolicyCondition::And(children) => {
                proof {
                    assert(children@.subrange(0, children@.len() as int) =~= children@);
                }
                let mut i: usize = 0;
                while i < children.len()
                    invariant
                        0 <= i <= children@.len(),
                        spec_all_conditions_hold(children@, claims.spec_claims())
                            == spec_all_conditions_hold(
                            children@.subrange(i as int, children@.len() as int),
                            claims.spec_claims(),
                        ),
                    decreases children@.len() - i,
                {
                    proof {
                        let tail = children@.subrange(i as int, children@.len() as int);
                        assert(tail[0] == children@[i as int]);
                        assert(tail.subrange(1, tail.len() as int) =~= children@.subrange(
                            i + 1,
                            children@.len() as int,
                        ));
                    }
                    if !children[i].evaluate(claims) {
                        return false;
                    }
                    i = i + 1;
                }
                proof {
                    assert(children@.subrange(i as int, children@.len() as int) =~= Seq::<
                        PolicyCondition,
                    >::empty());
                }
                true
            },
            PolicyCondition::Or(children) => {
                proof {
                    assert(children@.subrange(0, children@.len() as int) =~= children@);
                }
                let mut i: usize = 0;
                while i < children.len()
                    invariant
                        0 <= i <= children@.len(),
                        spec_any_condition_holds(children@, claims.spec_claims())
                            == spec_any_condition_holds(
                            children@.subrange(i as int, children@.len() as int),
                            claims.spec_claims(),
                        ),
                    decreases children@.len() - i,
                {
                    proof {
                        let tail = children@.subrange(i as int, children@.len() as int);
                        assert(tail[0] == children@[i as int]);
                        assert(tail.subrange(1, tail.len() as int) =~= children@.subrange(
                            i + 1,
                            children@.len() as int,
                        ));
                    }
                    if children[i].evaluate(claims) {
                        return true;
                    }
                    i = i + 1;
                }
                proof {
                    assert(children@.subrange(i as int, children@.len() as int) =~= Seq::<
                        PolicyCondition,
                    >::empty());
                }
                false
            },
            PolicyCondition::Not(child) => !child.evaluate(claims),
        }
    }
}

} // verus!
