//! Wall-clock readings for simulation timing. The clock is outside the
//! verified world: nothing is promised of the values it returns, and
//! nothing in the library's logic depends on them.

use vstd::prelude::*;

verus! {

/// `std::time::Instant`, kept opaque: a point in time read from the
/// monotonic clock.
#[verifier::external_type_specification]
#[verifier::external_body]
pub struct ExInstant(std::time::Instant);

/// Relies on `std::time::Instant::now`: reads the monotonic clock.
/// Nothing is promised of the value.
#[verifier::external_body]
pub(crate) fn clock_now() -> std::time::Instant {
    std::time::Instant::now()
}

/// Relies on `std::time::Instant::elapsed`: the time that has passed
/// since `start`. Nothing is promised of the value.
#[verifier::external_body]
pub(crate) fn elapsed_since(start: &std::time::Instant) -> core::time::Duration {
    start.elapsed()
}

/// Relies on `core::time::Duration::as_nanos`: the duration in whole
/// nanoseconds, truncated to 64 bits. Nothing is promised of the value,
/// as the duration itself is opaque.
#[verifier::external_body]
pub(crate) fn duration_to_nanos(d: &core::time::Duration) -> u64 {
    d.as_nanos() as u64
}

} // verus!
