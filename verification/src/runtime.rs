//! The crate's boundary to the outside world: fresh identifiers and the clock.
//!
//! Everything else in the library is a pure function of its arguments; the
//! two generators below are the only places where a result depends on the
//! machine rather than on the inputs, and the callers' contracts therefore
//! hold for every value they may return.

use vstd::prelude::*;

verus! {

/// Relies on `uuid::Uuid::now_v7` and `uuid::Uuid::as_u128`: returns the raw
/// 128 bits of a freshly generated version-7 UUID. Nothing beyond the version
/// nibble can be promised of the result, which depends on the clock and on
/// random state.
#[verifier::external_body]
pub(crate) fn fresh_uuid_raw() -> (r: u128)
    ensures
        (r >> 76) & 0xF == 7,
{
    uuid::Uuid::now_v7().as_u128()
}

/// Relies on `chrono::Utc::now` and `DateTime::timestamp_millis`: returns the
/// current Unix time in milliseconds. The result depends on the wall clock,
/// so no caller may assume anything about it.
#[verifier::external_body]
pub(crate) fn now_millis() -> (r: i64)
{
    chrono::Utc::now().timestamp_millis()
}

/// Relies on `String::push`: appends the given character to the string.
#[verifier::external_body]
pub(crate) fn push_char(s: &mut String, c: char)
    ensures
        final(s)@ == old(s)@.push(c),
{
    s.push(c)
}

} // verus!
