//! Reading the clocks. Nothing is promised of what they read.

use vstd::prelude::*;

verus! {

#[verifier::external_type_specification]
#[verifier::external_body]
pub struct ExInstant(std::time::Instant);

/// `Instant::now`: a reading of the monotonic clock.
#[verifier::external_body]
pub(crate) fn monotonic_now() -> (r: std::time::Instant) {
    std::time::Instant::now()
}

/// `Instant::elapsed` in whole milliseconds, cut to 64 bits.
#[verifier::external_body]
pub(crate) fn elapsed_ms(start: &std::time::Instant) -> (r: u64) {
    start.elapsed().as_millis() as u64
}

/// `SystemTime::now` in whole milliseconds since the Unix epoch, cut to 64
/// bits; a clock set before the epoch reads as 0.
#[verifier::external_body]
pub(crate) fn now_ms() -> (r: u64) {
    match std::time::SystemTime::now().duration_since(std::time::UNIX_EPOCH) {
        Ok(d) => d.as_millis() as u64,
        Err(_) => 0,
    }
}

} // verus!
