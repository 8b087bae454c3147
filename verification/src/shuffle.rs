//! Randomness: the one place where the order of a library is decided.
//!
//! Nothing here is proved. Each function states what is taken on trust of the
//! `rand` crate. A shuffle is driven by a generator that is seeded for that
//! shuffle alone, so that a game can be replayed from its seed.

use vstd::prelude::*;
use rand::rngs::StdRng;
use rand::seq::SliceRandom;
use rand::RngCore;
use rand::SeedableRng;

verus! {

/// The order in which `rand` leaves a list after shuffling it with its
/// standard generator, seeded with `seed`.
pub uninterp spec fn shuffled(order: Seq<usize>, seed: u64) -> Seq<usize>;

/// Shuffles `order` in place with `SliceRandom::shuffle`, driven by a
/// `StdRng` that `SeedableRng::seed_from_u64` made from `seed`.
///
/// Trusted: the generator is a function of its seed (in this version of
/// `rand` it is ChaCha with twelve rounds, seeded through a fixed expansion
/// of the 64 bits) and the shuffle only swaps entries, at positions that it
/// draws as 32-bit numbers for any list that a 32-bit length can count. So the
/// outcome is a function of the list and the seed, and it holds the same
/// entries as before, each as often as before.
#[verifier::external_body]
pub(crate) fn shuffle_with_seed(order: &mut Vec<usize>, seed: u64)
    ensures
        final(order)@ == shuffled(old(order)@, seed),
        final(order)@.to_multiset() == old(order)@.to_multiset(),
{
    let mut rng = StdRng::seed_from_u64(seed);
    order.shuffle(&mut rng);
}

/// A seed from the thread's own generator, `rand::thread_rng`, by
/// `RngCore::next_u64`.
///
/// Trusted: nothing. Any value may come back, and two calls may differ.
#[verifier::external_body]
pub(crate) fn fresh_seed() -> (seed: u64) {
    rand::thread_rng().next_u64()
}

} // verus!
