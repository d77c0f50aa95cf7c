//! Filling a vector with pseudo-random integers from a bounded range.

use vstd::prelude::*;
use crate::rng::PseudoRNG;

verus! {

/// Builds a vector of exactly `capacity` pseudo-random integers, each
/// drawn from `[min_value, max_value)` by a single freshly seeded
/// generator.
pub fn make_random_vec(capacity: usize, min_value: i32, max_value: i32) -> (r: Vec<i32>)
    requires
        min_value < max_value,
    ensures
        r@.len() == capacity,
        forall|k: int| 0 <= k < capacity ==> min_value <= #[trigger] r@[k] < max_value,
{
    let mut rng: PseudoRNG = PseudoRNG::new();
    let mut vec: Vec<i32> = Vec::with_capacity(capacity);
    for _i in 0..capacity
        invariant
            min_value < max_value,
            vec@.len() == _i,
            forall|k: int| 0 <= k < _i ==> min_value <= #[trigger] vec@[k] < max_value,
    {
        vec.push(rng.random_i32(min_value, max_value));
    }
    vec
}

} // verus!
