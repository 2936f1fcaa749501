use vstd::prelude::*;

verus! {

/// The host's monotonic clock, opaque to verification: the engine's
/// contracts hold whatever instants it hands out, so the time budget only
/// decides where a step pauses, never what it computes.
#[verifier::external_type_specification]
#[verifier::external_body]
pub struct ExInstant(std::time::Instant);

/// Relies on std::time::Instant::now: a reading of the monotonic clock.
pub assume_specification[ std::time::Instant::now ]() -> std::time::Instant;

/// Relies on std::time::Instant::elapsed: the time passed since `start`.
pub assume_specification[ std::time::Instant::elapsed ](
    start: &std::time::Instant,
) -> core::time::Duration;

/// Relies on core::time::Duration::as_millis: the duration in whole
/// milliseconds.
pub assume_specification[ core::time::Duration::as_millis ](d: &core::time::Duration) -> u128;

} // verus!
