//! The random source of the simulation: a small deterministic generator.
//!
//! Every roll of the simulation is drawn from one `Rng`, so a run is a pure
//! function of its seed.

use vstd::prelude::*;

verus! {

/// The amount by which the state grows at every draw.
pub const RNG_GAMMA: u64 = 0x9E37_79B9_7F4A_7C15;

/// First mixing multiplier.
pub const RNG_MIX_A: u64 = 0xBF58_476D_1CE4_E5B9;

/// Second mixing multiplier.
pub const RNG_MIX_B: u64 = 0x94D0_49BB_1331_11EB;

/// One million: probabilities are given in parts per million.
pub const PPM: u32 = 1_000_000;

/// The state that follows `state`.
pub open spec fn rng_advance(state: u64) -> u64 {
    state.wrapping_add(RNG_GAMMA)
}

/// The number drawn when the generator is in `state`.
pub open spec fn rng_output(state: u64) -> u64 {
    let z0: u64 = rng_advance(state);
    let z1: u64 = (z0 ^ (z0 >> 30)).wrapping_mul(RNG_MIX_A);
    let z2: u64 = (z1 ^ (z1 >> 27)).wrapping_mul(RNG_MIX_B);
    z2 ^ (z2 >> 31)
}

/// The number below `bound` drawn when the generator is in `state`.
pub open spec fn rng_below(state: u64, bound: u64) -> u64
    recommends
        bound > 0,
{
    rng_output(state) % bound
}

/// Whether an event of probability `ppm` parts per million happens when the
/// generator is in `state`.
pub open spec fn rng_chance(state: u64, ppm: u32) -> bool {
    rng_below(state, PPM as u64) < ppm
}

/// A deterministic pseudo-random number generator.
#[derive(Clone, Copy, Debug, PartialEq, Eq)]
pub struct Rng {
    pub state: u64,
}

impl Rng {
    /// A generator that starts from `seed`.
    pub fn new(seed: u64) -> (rng: Rng)
        ensures
            rng.state == seed,
    {
        Rng { state: seed }
    }

    /// Draws the next 64-bit number.
    pub fn next_u64(&mut self) -> (out: u64)
        ensures
            out == rng_output(old(self).state),
            final(self).state == rng_advance(old(self).state),
    {
        let z0: u64 = self.state.wrapping_add(RNG_GAMMA);
        self.state = z0;
        let z1: u64 = (z0 ^ (z0 >> 30)).wrapping_mul(RNG_MIX_A);
        let z2: u64 = (z1 ^ (z1 >> 27)).wrapping_mul(RNG_MIX_B);
        z2 ^ (z2 >> 31)
    }

    /// Draws a number in `0..bound`.
    pub fn below(&mut self, bound: u64) -> (out: u64)
        requires
            bound > 0,
        ensures
            out == rng_below(old(self).state, bound),
            out < bound,
            final(self).state == rng_advance(old(self).state),
    {
        let raw: u64 = self.next_u64();
        raw % bound
    }

    /// Rolls for an event of probability `ppm` parts per million. A probability
    /// of zero never happens, one of a million or more always does.
    pub fn chance(&mut self, ppm: u32) -> (hit: bool)
        ensures
            hit == rng_chance(old(self).state, ppm),
            ppm == 0 ==> !hit,
            ppm >= PPM ==> hit,
            final(self).state == rng_advance(old(self).state),
    {
        let roll: u64 = self.below(PPM as u64);
        roll < ppm as u64
    }
}

} // verus!
