//! Deterministic 16-bit noise sequence primitive.

use vstd::prelude::*;

use crate::bits::{signed16, to_i16};

verus! {

/// Nonzero 16-bit Fibonacci LFSR used as a reproducible noise source.
#[derive(Clone, Copy, Debug, PartialEq, Eq, Structural)]
pub struct NoiseGenerator {
    pub state: u16,
}

/// The state that follows `state` in the `x^16 + x^14 + x^13 + x^11 + 1` sequence.
pub open spec fn noise_next(state: u16) -> u16 {
    (state >> 1) | (((state ^ (state >> 2) ^ (state >> 3) ^ (state >> 5)) & 1) << 15)
}

proof fn lemma_noise_next_nonzero(state: u16)
    by (bit_vector)
    requires
        state != 0,
    ensures
        (state >> 1) | (((state ^ (state >> 2) ^ (state >> 3) ^ (state >> 5)) & 1) << 15) != 0,
{
}

impl Default for NoiseGenerator {
    fn default() -> (result: Self)
        ensures
            result.state == 1,
    {
        Self::new(1)
    }
}

impl NoiseGenerator {
    /// The shift register never holds zero.
    pub open spec fn wf(self) -> bool {
        self.state != 0
    }

    /// Constructs the generator; a zero seed is replaced with one.
    pub fn new(seed: u16) -> (result: Self)
        ensures
            result.wf(),
            result.state == if seed == 0 {
                1
            } else {
                seed
            },
    {
        Self {
            state: if seed == 0 {
                1
            } else {
                seed
            },
        }
    }

    /// Returns the current nonzero state.
    pub fn state(self) -> (result: u16)
        ensures
            result == self.state,
    {
        self.state
    }

    /// Advances the `x^16 + x^14 + x^13 + x^11 + 1` sequence one step.
    pub fn step(&mut self) -> (result: i16)
        ensures
            final(self).state == noise_next(old(self).state),
            old(self).wf() ==> final(self).wf(),
            result == signed16(final(self).state),
            (result - final(self).state) % 0x1_0000 == 0,
    {
        let feedback: u16 = (self.state ^ (self.state >> 2) ^ (self.state >> 3) ^ (self.state
            >> 5)) & 1;
        proof {
            if self.state != 0 {
                lemma_noise_next_nonzero(self.state);
            }
        }
        self.state = (self.state >> 1) | (feedback << 15);
        to_i16(self.state)
    }
}

} // verus!
