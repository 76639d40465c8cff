//! The wall clock.

use vstd::prelude::*;

verus! {

/// Milliseconds since the Unix epoch, from `chrono::Utc::now()` and
/// `DateTime::timestamp_millis`. The value depends on the clock: nothing is
/// stated of it.
#[verifier::external_body]
pub fn common_time() -> i64 {
    chrono::Utc::now().timestamp_millis()
}

} // verus!
