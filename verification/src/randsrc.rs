//! The random source the stochastic strategies draw from: a seeded
//! standard generator of the `rand` crate, behind a trusted interface.
//! Nothing is promised of a drawn value beyond its range, so every
//! caller is verified for every outcome.

use vstd::prelude::*;

verus! {

/// Declares `rand`'s standard generator so it can stand in fields.
#[verifier::external_type_specification]
#[verifier::external_body]
pub struct ExStdRng(rand::rngs::StdRng);

/// Relies on `rand_core::SeedableRng::seed_from_u64`: builds the
/// generator from a word-sized seed, deterministically.
#[verifier::external_body]
pub(crate) fn rng_from_seed(seed: u64) -> (r: rand::rngs::StdRng) {
    <rand::rngs::StdRng as rand::SeedableRng>::seed_from_u64(seed)
}

/// Relies on `rand::RngExt::random_range`: a value drawn uniformly
/// from `0..n`; nothing more is assumed of it than its range.
#[verifier::external_body]
pub(crate) fn rng_below(rng: &mut rand::rngs::StdRng, n: usize) -> (r: usize)
    requires
        n > 0,
    ensures
        r < n,
{
    rand::RngExt::random_range(rng, 0..n)
}

} // verus!
