use vstd::prelude::*;
use crate::key::AccountKey;

verus! {

/// The odd increment added to the state on every step (the golden-ratio constant).
pub const GAMMA: u64 = 0x9e3779b97f4a7c15;

/// First multiplier of the output mix.
pub const MIX1: u64 = 0xbf58476d1ce4e5b9;

/// Second multiplier of the output mix.
pub const MIX2: u64 = 0x94d049bb133111eb;

/// The whitening function applied to a state to produce one output.
pub open spec fn mix(state: u64) -> u64 {
    let z1 = vstd::wrapping::u64_specs::wrapping_mul(state ^ (state >> 30u64), MIX1);
    let z2 = vstd::wrapping::u64_specs::wrapping_mul(z1 ^ (z1 >> 27u64), MIX2);
    z2 ^ (z2 >> 31u64)
}

/// The state reached from `state` after `n` steps.
pub open spec fn advance(state: u64, n: nat) -> u64
    decreases n,
{
    if n == 0 {
        state
    } else {
        vstd::wrapping::u64_specs::wrapping_add(advance(state, (n - 1) as nat), GAMMA)
    }
}

/// The output drawn right after `skipped` outputs were discarded from a stream at `seed`.
pub open spec fn draw_after(seed: u64, skipped: nat) -> u64 {
    mix(advance(seed, skipped + 1))
}

/// A SplitMix64 pseudo-random stream that remembers its seed.
pub struct SplitMix64 {
    pub seed: u64,
    pub state: u64,
}

impl SplitMix64 {
    /// A stream seeded by the first eight bytes of `seed`, read as a big-endian integer.
    pub fn new(seed: &AccountKey) -> (r: SplitMix64)
        ensures
            r.seed == seed.w0,
            r.state == seed.w0,
    {
        SplitMix64 { seed: seed.w0, state: seed.w0 }
    }

    /// Puts the stream back at its seed.
    pub fn reset(&mut self)
        ensures
            final(self).seed == old(self).seed,
            final(self).state == old(self).seed,
    {
        self.state = self.seed
    }

    /// Draws one raw 64-bit output.
    pub fn next(&mut self) -> (r: u64)
        ensures
            final(self).seed == old(self).seed,
            final(self).state == vstd::wrapping::u64_specs::wrapping_add(old(self).state, GAMMA),
            final(self).state == advance(old(self).state, 1),
            r == mix(final(self).state),
    {
        proof {
            assert(advance(self.state, 0) == self.state);
        }
        self.state = self.state.wrapping_add(GAMMA);
        let mut z = self.state;
        z = (z ^ (z >> 30u64)).wrapping_mul(MIX1);
        z = (z ^ (z >> 27u64)).wrapping_mul(MIX2);
        z ^ (z >> 31u64)
    }

    /// Draws an integer in `[min, max)`: `min` plus the raw draw modulo the width of the range.
    pub fn range(&mut self, min: i32, max: i32) -> (r: i32)
        requires
            min < max,
        ensures
            final(self).seed == old(self).seed,
            final(self).state == advance(old(self).state, 1),
            r == min + (mix(final(self).state) as int) % (max - min),
            min <= r < max,
    {
        let width: u64 = (max as i64 - min as i64) as u64;
        let raw = self.next();
        let offset: u64 = raw % width;
        (min as i64 + offset as i64) as i32
    }

    /// Discards `amount` outputs.
    pub fn skip(&mut self, amount: u32)
        ensures
            final(self).seed == old(self).seed,
            final(self).state == advance(old(self).state, amount as nat),
    {
        let mut i: u32 = 0;
        while i < amount
            invariant
                i <= amount,
                self.seed == old(self).seed,
                self.state == advance(old(self).state, i as nat),
            decreases amount - i,
        {
            self.next();
            i = i + 1;
        }
    }
}

} // verus!
