//! Random draws. Nothing is known of a draw but its type.

use vstd::prelude::*;

verus! {

/// Relies on rand's `random`: a value drawn from the thread-local
/// generator. Any value of the type may come back.
pub assume_specification<T>[ rand::random::<T> ]() -> (r: T)
    where
        rand::distributions::Standard: rand::distributions::Distribution<T>,
;

} // verus!
