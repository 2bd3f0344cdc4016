//! The ledger's source of timestamps.

use vstd::prelude::*;

verus! {

/// Relies on chrono's `Utc::now` and `DateTime::timestamp_millis`: the current
/// wall-clock time, as milliseconds since the Unix epoch. The value depends on
/// the machine's clock, so nothing is promised of it; every contract of the
/// ledger holds whatever this returns. `Utc::now` panics on a system clock
/// set before the Unix epoch.
#[verifier::external_body]
pub(crate) fn now_millis() -> i64 {
    chrono::Utc::now().timestamp_millis()
}

} // verus!
