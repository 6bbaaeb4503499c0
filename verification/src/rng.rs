//! Trusted boundary to the `rand` crate: a seedable generator, an in-place
//! shuffle, and a uniform draw from a pool. Nothing is assumed about which
//! values come out, only about structure (a shuffle permutes, a draw picks an
//! element of the pool), so every function that consumes the results is
//! verified for every possible outcome.

use vstd::prelude::*;

use crate::catalog::ResourceType;
use rand::seq::SliceRandom;
use rand::SeedableRng;

verus! {

/// Declares `rand::rngs::StdRng` so that signatures in this crate can carry a
/// generator. The type is opaque: no contract speaks of its state.
#[verifier::external_type_specification]
#[verifier::external_body]
pub struct ExStdRng(rand::rngs::StdRng);

/// Relies on `rand::rngs::StdRng::seed_from_u64`: builds a generator from a
/// word-sized seed. Nothing is assumed about the stream it produces.
#[verifier::external_body]
pub(crate) fn seeded_rng(seed: u64) -> rand::rngs::StdRng {
    rand::rngs::StdRng::seed_from_u64(seed)
}

/// Relies on `rand::seq::SliceRandom::shuffle`: a Fisher-Yates pass that
/// permutes the slice in place, so the multiset of elements is unchanged.
#[verifier::external_body]
pub(crate) fn shuffle_positions(v: &mut Vec<u16>, rng: &mut rand::rngs::StdRng)
    ensures
        final(v)@.to_multiset() == old(v)@.to_multiset(),
        final(v)@.len() == old(v)@.len(),
{
    v.shuffle(rng)
}

/// Relies on `rand::seq::SliceRandom::choose`: returns `None` exactly when
/// the slice is empty, and otherwise a uniformly indexed element of it.
#[verifier::external_body]
pub(crate) fn choose_kind(pool: &Vec<ResourceType>, rng: &mut rand::rngs::StdRng) -> (r: Option<
    ResourceType,
>)
    ensures
        r is Some <==> pool@.len() > 0,
        r matches Some(k) ==> pool@.contains(k),
{
    pool.choose(rng).copied()
}

} // verus!
