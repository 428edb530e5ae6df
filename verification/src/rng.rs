//! Gameplay randomness: a small xorshift generator.

use vstd::prelude::*;

verus! {

/// The state every generator starts from.
pub const SEED: u64 = 0x9E37_79B9_7F4A_7C15;

/// One xorshift step (shifts 13, 7, 17) of a 64-bit state.
pub open spec fn xorshift(x: u64) -> u64 {
    let a = x ^ (x << 13u64);
    let b = a ^ (a >> 7u64);
    b ^ (b << 17u64)
}

/// A pseudo-random number generator for gameplay decisions.
pub struct Rng {
    state: u64,
}

impl Rng {
    /// The generator's current state.
    pub closed spec fn state(&self) -> u64 {
        self.state
    }

    /// A generator at `SEED`.
    pub fn new() -> (r: Self)
        ensures
            r.state() == SEED,
    {
        Rng { state: SEED }
    }

    /// Steps the generator and returns its new state.
    pub fn next_u64(&mut self) -> (x: u64)
        ensures
            x == xorshift(old(self).state()),
            final(self).state() == x,
    {
        let mut x = self.state;
        x = x ^ (x << 13u64);
        x = x ^ (x >> 7u64);
        x = x ^ (x << 17u64);
        self.state = x;
        x
    }

    /// Steps the generator and returns a number below `n`: the new state
    /// modulo `n`.
    pub fn range(&mut self, n: u32) -> (r: u32)
        requires
            n > 0,
        ensures
            r == xorshift(old(self).state()) % (n as u64),
            r < n,
            final(self).state() == xorshift(old(self).state()),
    {
        let x = self.next_u64();
        (x % (n as u64)) as u32
    }
}

impl Default for Rng {
    /// A generator at `SEED`.
    fn default() -> (r: Self)
        ensures
            r.state() == SEED,
    {
        Rng::new()
    }
}

} // verus!
