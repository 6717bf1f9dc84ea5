//! The wall clock.

use vstd::prelude::*;

verus! {

/// The number of microseconds in a second.
pub const MICROS_PER_SECOND: i64 = 1_000_000;

/// Reads the wall clock through `chrono::Utc::now` and returns the time in
/// microseconds since the Unix epoch. Nothing is claimed of the value: two
/// readings may differ in any way.
#[verifier::external_body]
pub(crate) fn now_micros() -> (t: i64) {
    chrono::Utc::now().timestamp_micros()
}

/// The whole seconds since the Unix epoch of a time in microseconds; a time
/// before the epoch counts as the epoch.
pub open spec fn spec_seconds(micros: i64) -> int {
    if micros < 0 {
        0
    } else {
        micros as int / 1_000_000
    }
}

/// The whole seconds since the Unix epoch of a time in microseconds.
pub fn seconds(micros: i64) -> (s: u64)
    ensures
        s == spec_seconds(micros),
        s <= 9_223_372_036_854,
{
    if micros < 0 {
        0
    } else {
        (micros / MICROS_PER_SECOND) as u64
    }
}

} // verus!
