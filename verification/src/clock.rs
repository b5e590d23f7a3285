//! The monotonic clock of the standard library, as far as the tracker needs
//! it. Nothing here is proved: the verifier takes these declarations as given,
//! and none of them promises anything about the time that is read.

use std::time::{Duration, Instant};
use vstd::prelude::*;

verus! {

/// `std::time::Instant`, a reading of the monotonic clock. The verifier sees
/// nothing inside a value of it.
#[verifier::external_type_specification]
#[verifier::external_body]
pub struct ExInstant(Instant);

/// `Instant::now` reads the clock. No claim is made about the reading.
pub assume_specification[ Instant::now ]() -> (now: Instant);

/// `Instant::elapsed` gives the time that has passed since the instant was
/// read. No claim is made about how long that is.
pub assume_specification[ Instant::elapsed ](instant: &Instant) -> (elapsed: Duration);

/// `Duration::as_nanos` gives a duration as a number of nanoseconds. A
/// duration is opaque to the verifier, so no claim is made about the number.
pub assume_specification[ Duration::as_nanos ](duration: &Duration) -> (nanos: u128);

} // verus!
