//! The wall clock, read in milliseconds.

use vstd::prelude::*;

verus! {

/// Milliseconds since the Unix epoch, read from the system clock.
///
/// Trusted: calls `std::time::SystemTime::now`; the reading is not stated.
/// A clock set before the epoch reads as 0.
#[verifier::external_body]
pub(crate) fn unix_millis() -> u64 {
    match std::time::SystemTime::now().duration_since(std::time::UNIX_EPOCH) {
        Ok(d) => d.as_millis() as u64,
        Err(_) => 0,
    }
}

} // verus!
