//! The monotonic clock, as far as a round needs it.

use std::time::{Duration, Instant};
use vstd::prelude::*;

verus! {

/// `std::time::Instant`, a reading of the monotonic clock. Its inside is
/// not modelled.
#[verifier::external_type_specification]
#[verifier::external_body]
pub struct ExInstant(Instant);

/// `Instant::now` reads the monotonic clock. The reading differs from call
/// to call, so nothing is said about it.
pub assume_specification[ Instant::now ]() -> (now: Instant)
;

/// `Instant::elapsed` measures the time since the reading was taken. It
/// depends on the clock, so nothing is said about the result.
pub assume_specification[ Instant::elapsed ](start: &Instant) -> (elapsed: Duration)
;

} // verus!
