//! Calls into the host environment: the wall clock and the random source.

use vstd::prelude::*;

verus! {

/// Relies on chrono's `Utc::now` and `DateTime::timestamp_millis`: the
/// current wall-clock time in milliseconds since the Unix epoch.  Wall
/// clocks may be set back or jump forward, so nothing is promised of the
/// value.
#[verifier::external_body]
pub(crate) fn now_millis() -> i64 {
    chrono::Utc::now().timestamp_millis()
}

/// Relies on uuid's `Uuid::new_v4` and `Uuid::as_u128`: a freshly drawn
/// version-4 identifier as its 128-bit value.  The value comes from the
/// process random source, so nothing is promised of it.
#[verifier::external_body]
pub(crate) fn random_u128() -> u128 {
    uuid::Uuid::new_v4().as_u128()
}

} // verus!
