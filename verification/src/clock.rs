//! The process clock behind flush pacing: an opaque monotonic reading and
//! the milliseconds elapsed since it. Nothing is promised of either value;
//! every decision built on them states what holds whatever the clock says.

use vstd::prelude::*;

verus! {

#[verifier::external_type_specification]
#[verifier::external_body]
pub struct ExInstant(std::time::Instant);

/// Relies on std::time::Instant::now: an opaque reading of the process
/// monotonic clock.
#[verifier::external_body]
pub fn instant_now() -> std::time::Instant {
    std::time::Instant::now()
}

/// Relies on std::time::Instant::elapsed: the milliseconds since the reading,
/// saturated into 64 bits.
#[verifier::external_body]
pub fn elapsed_ms(start: &std::time::Instant) -> u64 {
    u64::try_from(start.elapsed().as_millis()).unwrap_or(u64::MAX)
}

} // verus!
