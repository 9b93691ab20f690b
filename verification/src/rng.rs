//! Random number sources.
//!
//! Control-side draws (choosing a concrete value for a `Value::Random`)
//! come from the thread-local generator of the `nanorand` crate, behind a
//! trusted wrapper that promises only a range.  The audio thread never
//! touches thread-local state: it owns a [`AudioRng`], a deterministic
//! scrambler whose step is specified exactly, so the whole audio side
//! remains a pure function of its state.

use vstd::prelude::*;

verus! {

/// A uniformly distributed draw between `lo` and `hi`, both inclusive.
///
/// Relies on `nanorand::Rng::generate_range` over the thread-local
/// generator: the result lies within the requested bounds.
#[verifier::external_body]
pub fn tls_random_in(lo: u64, hi: u64) -> (r: u64)
    requires
        lo <= hi,
    ensures
        lo <= r <= hi,
{
    nanorand::Rng::generate_range(&mut nanorand::tls_rng(), lo..=hi)
}

/// The next state of the audio-side scrambler: an xorshift-and-multiply
/// permutation of the previous state.
pub open spec fn rng_next_spec(s: u64) -> u64 {
    let a = s ^ (s >> 12);
    let b = a ^ (a << 25);
    let c = b ^ (b >> 27);
    ((c as nat * 0x2545_f491_4f6c_dd1d) % 0x1_0000_0000_0000_0000) as u64
}

/// The audio thread's own random state, seeded at construction and stepped
/// deterministically, so equal engine states draw equal values.
#[derive(Clone, Copy, Debug, PartialEq, Eq, Structural)]
pub struct AudioRng {
    pub state: u64,
}

impl AudioRng {
    /// A generator starting from `seed`.
    pub fn new(seed: u64) -> (r: AudioRng)
        ensures
            r.state == seed,
    {
        AudioRng { state: seed }
    }

    /// Step the state and return it scrambled.
    pub fn next(&mut self) -> (r: u64)
        ensures
            final(self).state == rng_next_spec(old(self).state),
            r == final(self).state,
    {
        let s = self.state;
        let a = s ^ (s >> 12u64);
        let b = a ^ (a << 25u64);
        let c = b ^ (b >> 27u64);
        let r = c.wrapping_mul(0x2545_f491_4f6c_dd1d);
        self.state = r;
        r
    }

    /// A draw below `n`, stepping the state once.
    pub fn below(&mut self, n: u64) -> (r: u64)
        requires
            n >= 1,
        ensures
            final(self).state == rng_next_spec(old(self).state),
            r == rng_next_spec(old(self).state) % n,
            r < n,
    {
        let v = self.next();
        v % n
    }
}

} // verus!
