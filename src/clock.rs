//! The wall clock.
use vstd::prelude::*;

verus! {

/// Relies on chrono's `Utc::now` and `DateTime::timestamp_micros`: the current
/// wall-clock time in microseconds since the Unix epoch. Nothing is promised
/// of the value, which moves with the clock.
#[verifier::external_body]
pub(crate) fn now_micros() -> (r: u64) {
    chrono::Utc::now().timestamp_micros() as u64
}

} // verus!
