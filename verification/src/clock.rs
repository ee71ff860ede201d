//! Access to the wall clock.
//!
//! Spans and logs carry their times as nanoseconds since the Unix epoch, so
//! the rest of the crate works on plain integers.
use vstd::prelude::*;

verus! {

/// Relies on `std::time::SystemTime::now` for the current wall-clock time,
/// converted to nanoseconds since the Unix epoch (zero if the clock reads
/// earlier than the epoch).  Nothing is assumed of the value returned.
#[verifier::external_body]
pub(crate) fn now_nanos() -> u64 {
    match std::time::SystemTime::now().duration_since(std::time::UNIX_EPOCH) {
        Ok(d) => d.as_nanos() as u64,
        Err(_) => 0,
    }
}

} // verus!
