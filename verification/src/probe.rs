//! The deterministic pseudo-random source that drives the robustness probes
//! (xorshift64* with a fixed seed, so every run sees the same inputs).
use vstd::prelude::*;

verus! {

/// Multiplier of the xorshift64* output scramble.
pub const XORSHIFT_STAR_MULTIPLIER: u64 = 0x2545F4914F6CDD1D;

/// One xorshift64 state transition.
pub open spec fn xorshift_step(x: u64) -> u64 {
    let a = x ^ (x >> 12u64);
    let b = a ^ (a << 25u64);
    b ^ (b >> 27u64)
}

/// The output drawn from state `x`: the next state, scrambled.
pub open spec fn xorshift_output(x: u64) -> u64 {
    xorshift_step(x).wrapping_mul(XORSHIFT_STAR_MULTIPLIER)
}

/// xorshift64* generator; the field is its state.
pub struct Rng(pub u64);

impl Rng {
    /// Advances the state and returns the scrambled new state.
    pub fn next(&mut self) -> (r: u64)
        ensures
            final(self).0 == xorshift_step(old(self).0),
            r == xorshift_output(old(self).0),
    {
        let mut x = self.0;
        x ^= x >> 12u64;
        x ^= x << 25u64;
        x ^= x >> 27u64;
        self.0 = x;
        x.wrapping_mul(XORSHIFT_STAR_MULTIPLIER)
    }

    /// A byte drawn from bits 32..40 of the next output.
    pub fn byte(&mut self) -> (r: u8)
        ensures
            final(self).0 == xorshift_step(old(self).0),
            r == (xorshift_output(old(self).0) >> 32u64) as u8,
    {
        let v = self.next();
        #[verifier::truncate]
        ((v >> 32u64) as u8)
    }

    /// The next output reduced modulo `n`, which must be positive.
    pub fn below(&mut self, n: usize) -> (r: usize)
        requires
            n > 0,
        ensures
            final(self).0 == xorshift_step(old(self).0),
            r == xorshift_output(old(self).0) % (n as u64),
            r < n,
    {
        let v = self.next();
        let m = n as u64;
        (v % m) as usize
    }
}

} // verus!
