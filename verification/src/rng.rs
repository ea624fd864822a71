//! An explicitly owned, seedable source of pseudo-random draws.
//!
//! The grammar engine and the jittered movement policy take a
//! [`RandomSource`] as a parameter instead of consulting process-wide
//! entropy, so a caller that seeds the source can reproduce a run.

use vstd::prelude::*;

verus! {

/// Declares rand's standard generator so that it can stand in a field;
/// its values are opaque here.
#[verifier::external_type_specification]
#[verifier::external_body]
pub struct ExStdRng(rand::rngs::StdRng);

/// Relies on rand::SeedableRng::seed_from_u64, which builds a generator
/// from the given seed.
#[verifier::external_body]
fn seeded_std_rng(seed: u64) -> rand::rngs::StdRng {
    <rand::rngs::StdRng as rand::SeedableRng>::seed_from_u64(seed)
}

/// Relies on rand::RngCore::next_u64, which yields some 64-bit value;
/// nothing is assumed about which value comes back.
#[verifier::external_body]
fn next_std_u64(generator: &mut rand::rngs::StdRng) -> u64 {
    rand::RngCore::next_u64(generator)
}

/// A source of pseudo-random draws, owned by the caller and passed into
/// every operation that needs entropy.
pub struct RandomSource {
    generator: rand::rngs::StdRng,
}

impl RandomSource {
    /// Builds a source from a seed.  At run time, sources built from equal
    /// seeds hand out equal draw sequences.
    pub fn from_seed(seed: u64) -> RandomSource {
        RandomSource { generator: seeded_std_rng(seed) }
    }

    /// Draws a value below `bound`.
    pub fn next_below(&mut self, bound: u64) -> (r: u64)
        requires
            bound >= 1,
        ensures
            r < bound,
    {
        let x = next_std_u64(&mut self.generator);
        x % bound
    }
}

} // verus!
