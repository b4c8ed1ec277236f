//! The wall clock.
use std::time::{SystemTime, UNIX_EPOCH};
use vstd::prelude::*;

verus! {

/// The time since the Unix epoch in milliseconds, read with
/// `std::time::SystemTime::now`; 0 where the clock stands before the epoch.
/// Nothing is claimed of the number.
#[verifier::external_body]
pub(crate) fn unix_millis() -> (now: u64) {
    let millis = SystemTime::now().duration_since(UNIX_EPOCH).unwrap_or_default().as_millis();
    u64::try_from(millis).unwrap_or(u64::MAX)
}

} // verus!
