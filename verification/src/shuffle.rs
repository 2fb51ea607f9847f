//! The one point where chance enters the library: a uniform in-place
//! shuffle, taken from the `rand` crate.

use vstd::prelude::*;
use rand::seq::SliceRandom;

verus! {

/// Relies on rand's `SliceRandom::shuffle`: it permutes the slice in place
/// (uniformly over all permutations), so the elements are kept, only
/// reordered. Nothing more is promised of the order that comes out.
#[verifier::external_body]
pub(crate) fn shuffle_indices(v: &mut Vec<u32>)
    ensures
        final(v)@.len() == old(v)@.len(),
        final(v)@.to_multiset() == old(v)@.to_multiset(),
{
    v.shuffle(&mut rand::rng());
}

} // verus!
