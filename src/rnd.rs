use vstd::prelude::*;

verus! {

/// Increment added to the state on every draw.
pub const RND_STEP: u32 = 0x6D2B79F5;

/// Mixes a freshly stepped state `z` into the value handed out.
pub open spec fn rnd_mix(z: u32) -> u32 {
    let z1 = (z ^ (z >> 15u32)).wrapping_mul(z | 1u32);
    let z2 = z1 ^ (z1.wrapping_add((z1 ^ (z1 >> 7u32)).wrapping_mul(z1 | 61u32)));
    z2 ^ (z2 >> 14u32)
}

/// The state after one draw from state `s`.
pub open spec fn rnd_step(s: u32) -> u32 {
    s.wrapping_add(RND_STEP)
}

/// The value drawn from state `s`.
pub open spec fn rnd_value(s: u32) -> u32 {
    rnd_mix(rnd_step(s))
}

/// The state after `n` draws from state `s`.
pub open spec fn rnd_state_after(s: u32, n: nat) -> u32
    decreases n,
{
    if n == 0 {
        s
    } else {
        rnd_state_after(rnd_step(s), (n - 1) as nat)
    }
}

/// A 32-bit variant of the Thrust pseudo-random generator: a counter that
/// moves by a fixed odd step, with each state scrambled into the output.
#[derive(Debug, Clone, PartialEq, Eq)]
pub struct Rnd(pub u32);

impl Rnd {
    /// The generator's whole state.
    pub open spec fn state(&self) -> u32 {
        self.0
    }

    /// A generator whose sequence is fixed by `seed`.
    pub fn new(seed: u32) -> (r: Rnd)
        ensures
            r.state() == seed,
    {
        Rnd(seed)
    }

    /// Draws the next value.
    pub fn next(&mut self) -> (r: u32)
        ensures
            final(self).state() == rnd_step(old(self).state()),
            r == rnd_value(old(self).state()),
    {
        let z: u32 = self.0.wrapping_add(RND_STEP);
        self.0 = z;
        let z1: u32 = (z ^ (z >> 15u32)).wrapping_mul(z | 1u32);
        let z2: u32 = z1 ^ (z1.wrapping_add((z1 ^ (z1 >> 7u32)).wrapping_mul(z1 | 61u32)));
        z2 ^ (z2 >> 14u32)
    }
}

} // verus!
