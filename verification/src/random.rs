//! The random source behind shuffling and the random flip, as provided by
//! the `rand` crate. Nothing here is proved: each contract states what the
//! crate's source shows of every outcome, never which outcome comes.

use crate::cards::Card;
use rand::rngs::ThreadRng;
use rand::seq::SliceRandom;
use rand::Rng;
use vstd::prelude::*;

verus! {

/// `rand::rngs::ThreadRng`, the thread-local generator. Its state is opaque
/// to verification.
#[verifier::external_type_specification]
#[verifier::external_body]
pub struct ExThreadRng(rand::rngs::ThreadRng);

/// `rand::thread_rng` hands out the calling thread's generator. Nothing is
/// claimed of the result. The generator is seeded from the operating system
/// on first use in a thread, and `rand` aborts that first use with a panic if
/// the system has no entropy to give.
pub assume_specification[ rand::thread_rng ]() -> (rng: ThreadRng);

/// `SliceRandom::shuffle` on the cards of a vector. The method walks the
/// slice from the back and swaps each position with a randomly chosen one
/// at or below it, so whatever the generator yields the result holds
/// exactly the cards that were there, each as often as before.
#[verifier::external_body]
pub(crate) fn shuffle_cards(cards: &mut Vec<Card>, rng: &mut ThreadRng)
    ensures
        final(cards)@.to_multiset() == old(cards)@.to_multiset(),
{
    cards.shuffle(rng);
}

/// `Rng::gen_range` on the half-open range from `0` to `len`. The method
/// panics on an empty range, which `requires` rules out; otherwise it
/// returns a value inside the range.
#[verifier::external_body]
pub(crate) fn random_index(rng: &mut ThreadRng, len: usize) -> (i: usize)
    requires
        len > 0,
    ensures
        i < len,
{
    rng.gen_range(0..len)
}

} // verus!
