//! The wall clock.

use vstd::prelude::*;

verus! {

/// `SystemTime::now` of the standard library, as whole seconds since the Unix
/// epoch, or `None` where the clock is set before the epoch. Nothing is
/// claimed of the value: it is whatever the machine's clock reads.
#[verifier::external_body]
fn system_clock_secs() -> (secs: Option<u64>) {
    match std::time::SystemTime::now().duration_since(std::time::UNIX_EPOCH) {
        Ok(elapsed) => Some(elapsed.as_secs()),
        Err(_) => None,
    }
}

/// The current time in seconds since the Unix epoch: what `seconds_of` makes
/// of the clock's reading, whatever that reading is.
pub(crate) fn unix_time_now() -> (secs: u64) {
    seconds_of(system_clock_secs())
}

/// The time that a clock reading stands for: its seconds, and zero for a
/// clock that is set before the epoch.
pub open spec fn reading_secs(reading: Option<u64>) -> u64 {
    match reading {
        Some(secs) => secs,
        None => 0,
    }
}

/// Turns a clock reading into seconds since the Unix epoch. A clock that is
/// set before the epoch reads as zero.
pub fn seconds_of(reading: Option<u64>) -> (secs: u64)
    ensures
        secs == reading_secs(reading),
{
    match reading {
        Some(secs) => secs,
        None => 0,
    }
}

} // verus!
