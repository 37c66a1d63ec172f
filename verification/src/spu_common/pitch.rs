//! PS1 12-bit fractional pitch stepping.

use vstd::prelude::*;

use crate::bits::lemma_low12;

verus! {

/// Result of advancing one output sample at a programmed pitch.
#[derive(Clone, Copy, Debug, PartialEq, Eq, Structural)]
pub struct PitchStep {
    /// Number of decoded input samples crossed.
    pub whole_samples: u32,
    /// Remaining 12-bit fractional phase.
    pub phase: u16,
}

/// Remainder-preserving 12.12 pitch accumulator.
#[derive(Clone, Copy, Debug, PartialEq, Eq, Structural)]
pub struct PitchCounter {
    pub phase: u16,
}

/// The position, in 1/4096 of a sample, reached by one output sample.
pub open spec fn pitch_total(phase: u16, pitch: u16) -> int {
    phase + if pitch > 0x3fff {
        0x3fff
    } else {
        pitch as int
    }
}

impl Default for PitchCounter {
    fn default() -> (result: Self)
        ensures
            result.phase == 0,
    {
        Self::new()
    }
}

impl PitchCounter {
    /// The fractional phase has twelve bits.
    pub open spec fn wf(self) -> bool {
        self.phase < 0x1000
    }

    /// Constructs a zero-phase pitch counter.
    pub fn new() -> (result: Self)
        ensures
            result == (PitchCounter { phase: 0 }),
    {
        Self { phase: 0 }
    }

    /// Returns the current 12-bit fractional phase.
    pub fn phase(self) -> (result: u16)
        ensures
            result == self.phase,
    {
        self.phase
    }

    /// The counter after one output sample.
    pub open spec fn advanced(self, pitch: u16) -> PitchCounter {
        PitchCounter { phase: (pitch_total(self.phase, pitch) % 0x1000) as u16 }
    }

    /// Advances by one output sample, clamping pitch to the hardware maximum.
    pub fn advance(&mut self, pitch: u16) -> (result: PitchStep)
        ensures
            *final(self) == old(self).advanced(pitch),
            final(self).wf(),
            result.phase == final(self).phase,
            result.whole_samples == pitch_total(old(self).phase, pitch) / 0x1000,
            pitch <= 0x3fff ==> 0x1000 * result.whole_samples + final(self).phase == old(self).phase
                + pitch,
            pitch > 0x3fff ==> 0x1000 * result.whole_samples + final(self).phase == old(self).phase
                + 0x3fff,
    {
        let limited: u16 = if pitch > 0x3fff {
            0x3fff
        } else {
            pitch
        };
        let total: u32 = u32::from(self.phase) + u32::from(limited);
        proof {
            lemma_low12(total);
        }
        self.phase = (total & 0x0fff) as u16;
        PitchStep { whole_samples: total >> 12, phase: self.phase }
    }

    /// Resets the fractional phase.
    pub fn reset(&mut self)
        ensures
            *final(self) == (PitchCounter { phase: 0 }),
    {
        self.phase = 0;
    }
}

/// Stepping loses no fraction: whole samples and phase account for exactly the
/// position that was added.
pub proof fn law_pitch_preserves_remainder(phase: u16, pitch: u16)
    ensures
        pitch_total(phase, pitch) == 0x1000 * (pitch_total(phase, pitch) / 0x1000) + (PitchCounter {
            phase,
        }).advanced(pitch).phase,
{
}

} // verus!
