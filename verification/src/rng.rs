//! The engine's only brush with randomness: the catalog shuffle at startup.
//! The shuffle itself is done by an outside generator; nothing downstream
//! depends on which permutation comes out, only that it is one.

use rand::seq::SliceRandom;
use rand::SeedableRng;
use vstd::prelude::*;

verus! {

/// The pseudo-random generator that the catalog shuffle draws from.
#[verifier::external_type_specification]
#[verifier::external_body]
pub struct ExHc128Rng(rand_hc::Hc128Rng);

/// Relies on rand's `SeedableRng::seed_from_u64`: builds a generator from a
/// 64-bit seed. Nothing is assumed of the stream it produces.
#[verifier::external_body]
pub(crate) fn seeded_rng(seed: u64) -> rand_hc::Hc128Rng {
    rand_hc::Hc128Rng::seed_from_u64(seed)
}

/// Relies on rand's `SliceRandom::shuffle`, a Fisher-Yates shuffle: it
/// permutes the slice in place, so whatever order comes out, the elements
/// are kept as a multiset.
#[verifier::external_body]
pub(crate) fn shuffle_in_place<T>(v: &mut Vec<T>, rng: &mut rand_hc::Hc128Rng)
    ensures
        final(v)@.to_multiset() == old(v)@.to_multiset(),
        final(v)@.len() == old(v)@.len(),
{
    v.shuffle(rng);
}

} // verus!
