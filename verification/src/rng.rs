//! Trusted boundary around the pseudo-random generator of the `rand` crate.
//!
//! The simulation draws every random value from a `StdRng` derived once from a
//! 64-bit seed. `StdRng` (rand 0.8) is a deterministic pseudo-random generator:
//! `seed_from_u64` builds its state from the seed alone, and each `next_u64`
//! returns a value and a new state that are functions of the current state
//! alone. The whole draw sequence is therefore a function of the seed and of
//! the position in the sequence, which `stream` names. `rng_seed` and
//! `rng_drawn` name what a generator value holds: the seed it was derived from
//! and how many values it has yielded so far.

use vstd::prelude::*;

verus! {

#[verifier::external_type_specification]
#[verifier::external_body]
pub struct ExStdRng(rand::rngs::StdRng);

/// The value of the `i`-th `next_u64` draw of a generator seeded with `seed`.
pub uninterp spec fn stream(seed: u64, i: int) -> u64;

/// The seed a generator was derived from.
pub uninterp spec fn rng_seed(r: rand::rngs::StdRng) -> u64;

/// How many values a generator has yielded since it was seeded.
pub uninterp spec fn rng_drawn(r: rand::rngs::StdRng) -> int;

/// Relies on `<StdRng as SeedableRng>::seed_from_u64`: the generator state is
/// derived from the 64-bit seed alone, with no other input.
#[verifier::external_body]
pub fn rng_from_seed(seed: u64) -> (r: rand::rngs::StdRng)
    ensures
        rng_seed(r) == seed,
        rng_drawn(r) == 0,
{
    <rand::rngs::StdRng as rand::SeedableRng>::seed_from_u64(seed)
}

/// Relies on `<StdRng as RngCore>::next_u64`: the value drawn and the new
/// generator state are functions of the current state alone, so the value of
/// the n-th draw after seeding is a function of the seed and n.
#[verifier::external_body]
pub fn rng_next(r: &mut rand::rngs::StdRng) -> (v: u64)
    ensures
        rng_seed(*final(r)) == rng_seed(*old(r)),
        rng_drawn(*final(r)) == rng_drawn(*old(r)) + 1,
        v == stream(rng_seed(*old(r)), rng_drawn(*old(r))),
{
    rand::RngCore::next_u64(r)
}

} // verus!
