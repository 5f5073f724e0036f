//! The scheduler's clock.

use vstd::prelude::*;

verus! {

/// `std::time::SystemTime::now`, as whole microseconds since the Unix epoch,
/// or 0 where the system clock stands before the epoch. Nothing is claimed of
/// the result: the clock may stand still, jump or run backwards.
#[verifier::external_body]
pub(crate) fn wall_clock_micros() -> u64 {
    match std::time::SystemTime::now().duration_since(std::time::UNIX_EPOCH) {
        Ok(since_epoch) => since_epoch.as_micros() as u64,
        Err(_) => 0,
    }
}

} // verus!
