//! The randomness that the library draws from the `rand` crate.
//!
//! Nothing here is proved: each item states what the source of `rand` shows
//! of every outcome, and the rest of the library is verified for whatever
//! value comes back.

use rand::rngs::ThreadRng;
use rand::seq::SliceRandom;
use rand::Rng;
use vstd::prelude::*;

verus! {

/// `rand::rngs::ThreadRng`: the handle to the random number generator of
/// the current thread. Nothing is known of what it holds.
#[verifier::external_type_specification]
#[verifier::external_body]
pub struct ExThreadRng(rand::rngs::ThreadRng);

/// `rand::thread_rng` hands out the generator of the current thread, which
/// the operating system seeds when it is first used. Nothing is promised of
/// the generator. Without entropy from the operating system the call panics;
/// no argument decides that.
pub assume_specification[ rand::thread_rng ]() -> (rng: rand::rngs::ThreadRng);

/// Calls `Rng::gen_range` with the inclusive range `low..=high`. The
/// sampler returns `low` plus an offset below the width of the range, so
/// the result lies between the two bounds. An empty range makes `gen_range`
/// panic, hence the precondition.
#[verifier::external_body]
pub(crate) fn uniform(rng: &mut ThreadRng, low: u8, high: u8) -> (drawn: u8)
    requires
        low <= high,
    ensures
        low <= drawn <= high,
{
    rng.gen_range(low..=high)
}

/// Calls `Rng::gen` for a `bool`. Either value may come back.
#[verifier::external_body]
pub(crate) fn coin(rng: &mut ThreadRng) -> bool {
    rng.gen()
}

/// Calls `SliceRandom::shuffle` on the items. The shuffle only swaps pairs
/// of items, so what comes out is a rearrangement of what went in.
#[verifier::external_body]
pub(crate) fn shuffle<T>(rng: &mut ThreadRng, items: &mut Vec<T>)
    ensures
        final(items)@.to_multiset() == old(items)@.to_multiset(),
{
    items.shuffle(rng);
}

} // verus!
