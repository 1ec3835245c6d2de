//! The time of day.

use vstd::prelude::*;

verus! {

/// A moment: how far behind the start of 1970 it lies, and how the local
/// calendar writes it.
#[derive(Debug)]
pub struct Moment {
    pub seconds: i64,
    pub microseconds: u32,
    pub text: String,
}

/// Reads the clock with `Local::now` of the crate `chrono`, and takes from
/// the time it gives the seconds, the microseconds within the second, and
/// the time as the crate writes it. Nothing is promised of any of them: the
/// clock decides.
#[verifier::external_body]
pub(crate) fn now() -> (moment: Moment) {
    let time = chrono::Local::now();
    Moment {
        seconds: time.timestamp(),
        microseconds: time.timestamp_subsec_micros(),
        text: format!("{}", time),
    }
}

} // verus!
