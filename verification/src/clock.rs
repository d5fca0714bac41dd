//! Access to the wall clock. The reading depends on when the call runs,
//! so nothing is promised of the returned value; every caller states what
//! holds whatever came back.

use vstd::prelude::*;

verus! {

/// Relies on chrono's `Utc::now`, converted to milliseconds since the
/// epoch with `timestamp_millis`. The value depends on the moment of the
/// call, so no contract constrains it.
#[verifier::external_body]
pub fn now_millis() -> i64 {
    chrono::Utc::now().timestamp_millis()
}

} // verus!
