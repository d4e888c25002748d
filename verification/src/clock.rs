//! Monotonic time, for reporting how long an evaluation took.

use vstd::prelude::*;

verus! {

#[verifier::external_type_specification]
#[verifier::external_body]
pub struct ExInstant(std::time::Instant);

/// `Instant::now`. Nothing is promised of the value.
#[verifier::external_body]
pub(crate) fn now() -> std::time::Instant {
    std::time::Instant::now()
}

/// `Instant::elapsed`. Nothing is promised of the value.
#[verifier::external_body]
pub(crate) fn elapsed(start: &std::time::Instant) -> std::time::Duration {
    start.elapsed()
}

/// `Duration::as_micros`. Nothing is promised of the value.
#[verifier::external_body]
pub(crate) fn as_micros(d: &std::time::Duration) -> u128 {
    d.as_micros()
}

} // verus!
