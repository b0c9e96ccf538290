use vstd::prelude::*;
use vstd::wrapping::u64_specs;

verus! {

pub const GOLDEN_GAMMA: u64 = 0x9E3779B97F4A7C15;

pub const MIX_A: u64 = 0xBF58476D1CE4E5B9;

pub const MIX_B: u64 = 0x94D049BB133111EB;

/// The state that follows `s`.
pub open spec fn advance(s: u64) -> u64 {
    u64_specs::wrapping_add(s, GOLDEN_GAMMA)
}

/// The number drawn from state `s`.
pub open spec fn mix(s: u64) -> u64 {
    let z1 = u64_specs::wrapping_mul(s ^ (s >> 30u64), MIX_A);
    let z2 = u64_specs::wrapping_mul(z1 ^ (z1 >> 27u64), MIX_B);
    z2 ^ (z2 >> 31u64)
}

/// A seeded generator of 64-bit numbers: the same seed gives the same numbers.
#[derive(PartialEq, Eq, Structural, Clone, Copy, Debug)]
pub struct Rng {
    pub state: u64,
}

impl Rng {
    pub fn with_seed(seed: u64) -> (r: Rng)
        ensures
            r.state == seed,
    {
        Rng { state: seed }
    }

    /// Moves to the next state and returns the number it gives.
    pub fn next(&mut self) -> (r: u64)
        ensures
            final(self).state == advance(old(self).state),
            r == mix(final(self).state),
    {
        self.state = self.state.wrapping_add(GOLDEN_GAMMA);
        let s = self.state;
        let z1 = (s ^ (s >> 30u64)).wrapping_mul(MIX_A);
        let z2 = (z1 ^ (z1 >> 27u64)).wrapping_mul(MIX_B);
        z2 ^ (z2 >> 31u64)
    }
}

} // verus!
