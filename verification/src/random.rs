//! Seeds and the small generator that a seed starts.

use vstd::prelude::*;
use rand::rngs::SmallRng;
use rand::{RngCore, SeedableRng};

verus! {

#[verifier::external_type_specification]
#[verifier::external_body]
pub struct ExSmallRng(SmallRng);

/// A number from which a generator can be started.
#[derive(Clone, PartialEq, Eq, Structural)]
pub struct Seed(u64);

/// A small, fast generator of pseudo-random numbers. What it yields is fixed
/// by the seed it was started from, but differs between machines and between
/// versions of the generator, so nothing is said of the numbers themselves.
pub struct Rng(SmallRng);

/// `SmallRng::seed_from_u64`: the generator that `seed` starts. The state of
/// a generator cannot be told from outside, so nothing is claimed of it.
#[verifier::external_body]
fn start_generator(seed: u64) -> SmallRng {
    SmallRng::seed_from_u64(seed)
}

/// `RngCore::next_u64` on a `SmallRng`: the generator's next number. Any
/// number may come; the generator moves on.
#[verifier::external_body]
fn next_number(generator: &mut SmallRng) -> u64 {
    generator.next_u64()
}

impl Seed {
    /// The number that this seed holds.
    pub closed spec fn number(&self) -> u64 {
        self.0
    }

    pub fn new(seed: u64) -> (made: Self)
        ensures
            made.number() == seed,
    {
        Seed(seed)
    }

    /// The number that this seed holds.
    pub fn value(&self) -> (number: u64)
        ensures
            number == self.number(),
    {
        self.0
    }

    /// Starts a generator from this seed.
    pub fn rng(&self) -> Rng {
        Rng(start_generator(self.0))
    }
}

impl Rng {
    /// Draws the generator's next number as a seed for another generator.
    pub fn seed(&mut self) -> Seed {
        Seed(next_number(&mut self.0))
    }

    /// The generator itself, for sampling that this library does not do.
    pub fn generator(&mut self) -> (generator: &mut SmallRng)
        ensures
            *generator == old(self).held(),
            final(self).held() == *final(generator),
    {
        &mut self.0
    }

    /// The generator that this value holds, in the state it is in.
    pub closed spec fn held(&self) -> SmallRng {
        self.0
    }
}

} // verus!
