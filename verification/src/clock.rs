//! The time source.
//!
//! The current time enters the engine only as a parameter (the evolver
//! samples it once per update), so everything downstream of this one
//! wrapper is verified for every clock value.

use vstd::prelude::*;

verus! {

/// Relies on `std::time::SystemTime::now` (with `duration_since` and
/// `as_secs`): the current unix time in whole seconds, or 0 should the
/// clock lie before the epoch.  Nothing is promised of the value.
#[verifier::external_body]
pub fn now_secs() -> u64 {
    match std::time::SystemTime::now().duration_since(std::time::UNIX_EPOCH) {
        Ok(d) => d.as_secs(),
        Err(_) => 0,
    }
}

} // verus!
