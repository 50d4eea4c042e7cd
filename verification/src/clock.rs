//! The one place the core reads a wall clock.
//!
//! Every verified function that depends on time takes a timestamp argument,
//! so its contract is exact for every instant; the convenience entry points
//! obtain that timestamp here.

use vstd::prelude::*;

verus! {

/// Relies on `chrono::Utc::now` and `DateTime::timestamp_millis`:
/// milliseconds since the Unix epoch, at some instant during the call.
/// Nothing is assumed of the value; callers must hold for every outcome.
#[verifier::external_body]
pub(crate) fn now_millis() -> i64 {
    chrono::Utc::now().timestamp_millis()
}

} // verus!
