use vstd::prelude::*;

use std::time::{Duration, Instant};

verus! {

/// `std::time::Instant`, opaque to the verifier: a reading of the monotonic
/// clock. The search only ever compares two readings through `elapsed`.
#[verifier::external_type_specification]
#[verifier::external_body]
pub struct ExInstant(Instant);

/// Relies on `std::time::Instant::now`: a reading of the monotonic clock.
/// Nothing is assumed of its value.
pub assume_specification[ Instant::now ]() -> Instant;

/// Relies on `std::time::Instant::elapsed`: the time that has passed since the
/// reading was taken. It depends on the clock, so nothing is assumed of it.
pub assume_specification[ Instant::elapsed ](start: &Instant) -> Duration;

/// Relies on `std::time::Duration::as_millis`: the span in whole milliseconds.
/// The span is opaque here, so nothing is assumed of the number.
pub assume_specification[ Duration::as_millis ](span: &Duration) -> u128;

} // verus!
