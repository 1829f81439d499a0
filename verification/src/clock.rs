use vstd::prelude::*;

verus! {

/// `std::time::Instant`, the host's monotonic clock, held opaquely as the
/// fixed origin of a stopwatch's nanosecond scale.
#[verifier::external_type_specification]
#[verifier::external_body]
pub struct ExInstant(std::time::Instant);

/// Relies on `std::time::Instant::now`: a fresh reading of the monotonic
/// clock. The value depends on when the call is made, so nothing is
/// promised of it; it only serves as an origin to measure from.
pub assume_specification[ std::time::Instant::now ]() -> std::time::Instant;

/// Relies on `std::time::Instant`'s derived `Clone`: `Instant` is `Copy`,
/// so cloning one hands back the very same value.
pub assume_specification[ <std::time::Instant as core::clone::Clone>::clone ](
    i: &std::time::Instant,
) -> (r: std::time::Instant)
    ensures
        r == *i,
;

/// Relies on `std::time::Instant::elapsed`: the time from `origin` to the
/// present, saturating at zero should the clock misbehave; `as_nanos` and
/// the cast convert the result to a plain nanosecond count. The value
/// depends on when the call is made, so nothing is promised of it: every
/// caller states what holds whatever reading comes back.
#[verifier::external_body]
pub(crate) fn nanos_since(origin: &std::time::Instant) -> u64 {
    origin.elapsed().as_nanos() as u64
}

} // verus!
