//! Wall-clock access for the optional parse-duration statistic. Nothing can
//! be promised of the clock, so the contracts here say nothing: every caller
//! is verified for whatever values come back.

use vstd::prelude::*;

verus! {

/// `std::time::Instant`, declared so a reading of the clock can be held.
#[verifier::external_type_specification]
#[verifier::external_body]
pub struct ExInstant(std::time::Instant);

/// Relies on `std::time::Instant::now`: a monotonic clock reading. Its value
/// depends on the moment of the call, so nothing is stated of it.
#[verifier::external_body]
pub(crate) fn instant_now() -> std::time::Instant {
    std::time::Instant::now()
}

/// Relies on `std::time::Instant::elapsed`: the time since `start`,
/// converted to whole milliseconds. Its value depends on the moment of the
/// call, so nothing is stated of it.
#[verifier::external_body]
pub(crate) fn elapsed_ms(start: &std::time::Instant) -> u64 {
    start.elapsed().as_millis() as u64
}

} // verus!
