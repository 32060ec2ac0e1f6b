//! The monotonic clock of the machine.
//!
//! Nothing in this module is proved, and nothing is promised of what the
//! clock shows: the filters take every reading as it comes.

use vstd::prelude::*;
use std::time::{Duration, Instant};

verus! {

/// `std::time::Instant`, taken as it is.
#[verifier::external_type_specification]
#[verifier::external_body]
pub struct ExInstant(Instant);

/// `Instant::now`: the present moment.
#[verifier::external_body]
pub(crate) fn instant_now() -> Instant {
    Instant::now()
}

/// `Instant::elapsed`: the time that has passed since `start`.
#[verifier::external_body]
pub(crate) fn instant_elapsed(start: &Instant) -> Duration {
    start.elapsed()
}

/// `Duration::as_millis`: the whole milliseconds in `span`.
#[verifier::external_body]
pub(crate) fn duration_millis(span: &Duration) -> u128 {
    span.as_millis()
}

} // verus!
