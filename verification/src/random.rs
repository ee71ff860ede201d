//! Random identifier generation.
//!
//! Backends draw fresh trace and span identifiers from the `rand` crate.
use vstd::prelude::*;

verus! {

/// Relies on `rand::random` for a value drawn from the standard
/// distribution.  Nothing can be promised of a random value, so the
/// specification is empty.
pub assume_specification<T>[ rand::random::<T> ]() -> (r: T)
    where
        rand::distributions::Standard: rand::distributions::Distribution<T>,
;

} // verus!
