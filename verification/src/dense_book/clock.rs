//! What the replay takes from the standard library without proof.
use std::time::{Duration, Instant};
use vstd::prelude::*;

verus! {

/// `std::time::Instant`, a reading of a monotonic clock. Nothing is claimed of its
/// values.
#[verifier::external_type_specification]
#[verifier::external_body]
pub struct ExInstant(std::time::Instant);

/// `std::time::Instant::now` reads the clock. Nothing is claimed of the reading, which
/// depends on the time of the call.
pub assume_specification[ Instant::now ]() -> (now: Instant)
;

/// `std::time::Instant::elapsed` gives the time since a reading. Nothing is claimed of
/// it, which depends on the time of the call.
pub assume_specification[ Instant::elapsed ](started: &Instant) -> (elapsed: Duration)
;

/// `std::hint::black_box` is the identity function; it keeps the optimizer from
/// removing the computation of its argument.
pub assume_specification<T>[ std::hint::black_box::<T> ](dummy: T) -> (same: T)
    ensures
        same == dummy,
;

} // verus!
