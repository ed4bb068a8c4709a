//! The random source the rules engine draws from.
//!
//! The session needs randomness in two places: re-rolling the secret number
//! when a difficulty is applied, and breaking ties between equally voted
//! difficulty tiers.  Both go through [`GameRng`], which is injected into the
//! rules engine so that a test can pass a seeded generator.

use vstd::prelude::*;
use rand::Rng;
use rand::SeedableRng;

verus! {

#[verifier::external_type_specification]
#[verifier::external_body]
pub struct ExStdRng(rand::rngs::StdRng);

/// A random source for the rules engine, either seeded (reproducible) or
/// drawn from the operating system's entropy.
pub struct GameRng {
    inner: rand::rngs::StdRng,
}

impl GameRng {
    /// Relies on rand::SeedableRng::seed_from_u64: builds a generator whose
    /// stream is a function of the seed alone.
    #[verifier::external_body]
    pub fn from_seed(seed: u64) -> GameRng {
        GameRng { inner: rand::rngs::StdRng::seed_from_u64(seed) }
    }

    /// Relies on rand::SeedableRng::from_entropy: builds a generator seeded
    /// from the operating system.
    #[verifier::external_body]
    pub fn from_entropy() -> GameRng {
        GameRng { inner: rand::rngs::StdRng::from_entropy() }
    }

    /// Relies on rand::Rng::gen for `bool`: a fair coin flip.  Nothing is
    /// promised of the outcome; callers must hold for either.
    #[verifier::external_body]
    pub(crate) fn coin_flip(&mut self) -> bool {
        self.inner.gen()
    }

    /// Relies on rand::Rng::gen_range on the inclusive range `lo..=hi`:
    /// the result lies within that range.  The range must be non-empty,
    /// since rand panics on an empty one.
    #[verifier::external_body]
    pub(crate) fn pick_in_range(&mut self, lo: u32, hi: u32) -> (r: u32)
        requires
            lo <= hi,
        ensures
            lo <= r <= hi,
    {
        self.inner.gen_range(lo..=hi)
    }
}

} // verus!
