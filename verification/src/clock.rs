//! Spans of time and the monotonic clock of the standard library.

use vstd::prelude::*;
use std::time::{Duration, Instant};

verus! {

/// The nanoseconds that a duration spans.
pub uninterp spec fn nanos_of(duration: Duration) -> u128;

/// `Duration::from_secs` of the standard library. The claim is that the duration spans
/// so many whole seconds.
pub assume_specification[ Duration::from_secs ](secs: u64) -> (r: Duration)
    ensures
        nanos_of(r) == secs * 1_000_000_000,
;

/// `Duration::as_millis` of the standard library. The claim is that it counts whole
/// milliseconds.
pub assume_specification[ Duration::as_millis ](duration: &Duration) -> (r: u128)
    ensures
        r == nanos_of(*duration) as int / 1_000_000,
;

/// The clone of a `Duration` of the standard library, which is `Copy`, is that duration.
pub assume_specification[ <Duration as Clone>::clone ](duration: &Duration) -> (r: Duration)
    ensures
        r == *duration,
;

/// `std::time::Instant`, carried as it is.
#[verifier::external_type_specification]
#[verifier::external_body]
pub struct ExInstant(std::time::Instant);

/// `Instant::now` of the standard library. Nothing is claimed of the clock.
pub assume_specification[ Instant::now ]() -> (r: Instant);

/// `Instant::elapsed` of the standard library. Nothing is claimed of the clock.
pub assume_specification[ Instant::elapsed ](instant: &Instant) -> (r: Duration);

}
