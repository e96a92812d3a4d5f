//! Wall-clock access for creation and completion timestamps.

use vstd::prelude::*;

verus! {

/// Relies on chrono::Utc::now and DateTime::timestamp_millis for the current
/// wall-clock time in milliseconds since the Unix epoch. The value depends on
/// when the call runs, so nothing is promised of it.
#[verifier::external_body]
pub(crate) fn now_millis() -> i64 {
    chrono::Utc::now().timestamp_millis()
}

} // verus!
