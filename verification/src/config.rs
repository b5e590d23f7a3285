//! The threshold that the options ask for.

use vstd::prelude::*;
use crate::model::NANOS_PER_MILLI;

verus! {

/// The threshold in nanoseconds. `millisecond`, where it is not zero, decides
/// alone. Where it is zero the threshold is `seconds`: the seconds option as
/// nanoseconds, or `None` where that option is no length of time.
pub fn detection_threshold(millisecond: u64, seconds: Option<u128>) -> (threshold: Option<u128>)
    ensures
        millisecond != 0 ==> threshold == Some((millisecond * NANOS_PER_MILLI) as u128),
        millisecond == 0 ==> threshold == seconds,
{
    if millisecond == 0 {
        seconds
    } else {
        Some(millisecond as u128 * NANOS_PER_MILLI)
    }
}

} // verus!
