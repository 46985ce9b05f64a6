//! A seedable generator of pseudo-random numbers (PCG32).
//!
//! The generator is a pure function of its two words of state, so every draw
//! is stated exactly: the value drawn is `spec_output` of the state before the
//! draw, and the state after it is `spec_advance`.

use vstd::prelude::*;
use crate::sample::Sample;

verus! {

/// The state of a generator that was never seeded.
pub const PCG32_DEFAULT_STATE: u64 = 0x853c_49e6_748f_ea9b;

/// The increment of a generator that was never seeded.
pub const PCG32_DEFAULT_STREAM: u64 = 0xda3e_39cb_94b9_5bdb;

/// The multiplier of the congruential step.
pub const PCG32_MULT: u64 = 0x5851_f42d_4c95_7f2d;

/// How many draws a bounded draw may reject before it takes the next one as it is.
///
/// A draw is rejected with probability below one half, so the limit is met
/// with probability below `2^-64`; it is there so that every call ends.
pub const REJECTION_LIMIT: u32 = 64;

/// A generator: the state of a linear congruential sequence, and its
/// increment, which is odd and tells the sequences apart.
#[derive(Clone, Copy, Debug, PartialEq, Eq, Structural)]
pub struct Rng {
    pub state: u64,
    pub inc: u64,
}

/// The output permutation: an xorshift of the high bits, rotated by the top five bits.
pub open spec fn spec_permute(state: u64) -> u32 {
    let xorshifted: u32 = (((state >> 18u64) ^ state) >> 27u64) as u32;
    let rot: u32 = (state >> 59u64) as u32;
    (xorshifted >> rot) | (xorshifted << ((!rot).wrapping_add(1) & 31))
}

/// Draws below this value are rejected by a bounded draw: `2^32 mod bound`.
pub open spec fn spec_threshold(bound: u32) -> int {
    (0x1_0000_0000 - bound) % (bound as int)
}

fn permute(state: u64) -> (r: u32)
    ensures
        r == spec_permute(state),
{
    let xorshifted: u32 = #[verifier::truncate]
    ((((state >> 18u64) ^ state) >> 27u64) as u32);
    let rot: u32 = #[verifier::truncate]
    ((state >> 59u64) as u32);
    assert(((state >> 59u64) as u32) < 32) by (bit_vector);
    let back: u32 = (!rot).wrapping_add(1) & 31;
    assert(((!rot).wrapping_add(1) & 31) < 32) by (bit_vector);
    (xorshifted >> rot) | (xorshifted << back)
}

impl Rng {
    /// The value that the next draw returns.
    pub open spec fn spec_output(self) -> u32 {
        spec_permute(self.state)
    }

    /// The generator after one draw.
    pub open spec fn spec_advance(self) -> Rng {
        Rng { state: self.state.wrapping_mul(PCG32_MULT).wrapping_add(self.inc), inc: self.inc }
    }

    /// The generator after `k` draws.
    pub open spec fn spec_skip(self, k: nat) -> Rng
        decreases k,
    {
        if k == 0 {
            self
        } else {
            self.spec_skip((k - 1) as nat).spec_advance()
        }
    }

    /// The value of the `k`-th draw from now, counting from zero.
    pub open spec fn spec_draw(self, k: nat) -> u32 {
        self.spec_skip(k).spec_output()
    }

    /// The generator in its default state.
    pub open spec fn spec_new() -> Rng {
        Rng { state: PCG32_DEFAULT_STATE, inc: PCG32_DEFAULT_STREAM }
    }

    /// The generator at the start of sequence `initseq`.
    pub open spec fn spec_seeded(initseq: u64) -> Rng {
        let first = Rng { state: 0, inc: (initseq << 1u64) | 1 }.spec_advance();
        Rng { state: first.state.wrapping_add(PCG32_DEFAULT_STATE), inc: first.inc }.spec_advance()
    }

    /// A bounded draw that may still reject `tries` draws: the value and the generator after it.
    pub open spec fn spec_bounded_from(self, bound: u32, tries: nat) -> (u32, Rng)
        decreases tries,
    {
        let r = self.spec_output();
        if tries == 0 || r >= spec_threshold(bound) {
            ((r as int % bound as int) as u32, self.spec_advance())
        } else {
            self.spec_advance().spec_bounded_from(bound, (tries - 1) as nat)
        }
    }

    /// A draw below `bound`: the value and the generator after it.
    pub open spec fn spec_bounded(self, bound: u32) -> (u32, Rng) {
        self.spec_bounded_from(bound, REJECTION_LIMIT as nat)
    }

    /// The generator in its default state.
    pub fn new() -> (rng: Rng)
        ensures
            rng == Rng::spec_new(),
    {
        Rng { state: PCG32_DEFAULT_STATE, inc: PCG32_DEFAULT_STREAM }
    }

    /// Restarts the generator at the beginning of sequence `initseq`.
    ///
    /// The new state depends on `initseq` alone, and sequences whose numbers
    /// differ below `2^63` use different increments.
    pub fn set_sequence(&mut self, initseq: u64)
        ensures
            *final(self) == Rng::spec_seeded(initseq),
    {
        self.state = 0;
        self.inc = (initseq << 1u64) | 1;
        let _ = self.uniform_uint32();
        self.state = self.state.wrapping_add(PCG32_DEFAULT_STATE);
        let _ = self.uniform_uint32();
    }

    /// Draws 32 uniform bits.
    pub fn uniform_uint32(&mut self) -> (r: u32)
        ensures
            r == old(self).spec_output(),
            *final(self) == old(self).spec_advance(),
    {
        let oldstate: u64 = self.state;
        self.state = oldstate.wrapping_mul(PCG32_MULT).wrapping_add(self.inc);
        permute(oldstate)
    }

    /// Draws a uniform value below `bound`.
    ///
    /// Draws below `2^32 mod bound` are rejected, which removes the bias of
    /// the remainder; the first draw that is kept is reduced modulo `bound`.
    pub fn uniform_uint32_bounded(&mut self, bound: u32) -> (r: u32)
        requires
            bound > 0,
        ensures
            r == old(self).spec_bounded(bound).0,
            *final(self) == old(self).spec_bounded(bound).1,
            r < bound,
    {
        let threshold: u32 = (u32::MAX - bound + 1) % bound;
        let mut tries: u32 = REJECTION_LIMIT;
        loop
            invariant
                bound > 0,
                threshold == spec_threshold(bound),
                old(self).spec_bounded(bound) == self.spec_bounded_from(bound, tries as nat),
            decreases tries,
        {
            let r: u32 = self.uniform_uint32();
            if tries == 0 || r >= threshold {
                return r % bound;
            }
            tries -= 1;
        }
    }

    /// Draws a uniform value of the unit interval: 32 bits over `2^32`.
    pub fn uniform_sample(&mut self) -> (s: Sample)
        ensures
            s == Sample::spec_uniform(old(self).spec_output()),
            *final(self) == old(self).spec_advance(),
            s.wf(),
    {
        Sample::uniform(self.uniform_uint32())
    }
}

/// Every bounded draw is below its bound, whatever the state and the number of tries left.
pub proof fn lemma_bounded_below(rng: Rng, bound: u32, tries: nat)
    requires
        bound > 0,
    ensures
        rng.spec_bounded_from(bound, tries).0 < bound,
    decreases tries,
{
    let r = rng.spec_output();
    if tries == 0 || r >= spec_threshold(bound) {
    } else {
        lemma_bounded_below(rng.spec_advance(), bound, (tries - 1) as nat);
    }
}

/// Two sequence numbers that differ below `2^63` give generators with different increments.
pub proof fn law_distinct_sequences(a: u64, b: u64)
    requires
        a != b,
        a < 0x8000_0000_0000_0000,
        b < 0x8000_0000_0000_0000,
    ensures
        Rng::spec_seeded(a).inc != Rng::spec_seeded(b).inc,
{
    assert(((a << 1u64) | 1) != ((b << 1u64) | 1)) by (bit_vector)
        requires
            a != b,
            a < 0x8000_0000_0000_0000u64,
            b < 0x8000_0000_0000_0000u64,
    ;
}

} // verus!
