//! PS1 ADPCM block decoding.

use vstd::prelude::*;

use crate::arrays::{array_of, lemma_array_is};
use crate::bits::{lemma_adpcm_header, lemma_adpcm_source, lemma_shr_i32};
use crate::spu_common::fixed::{clamp16, clamp_i16};

verus! {

/// Predictor history carried between ADPCM blocks.
#[derive(Clone, Copy, Debug, PartialEq, Eq, Structural)]
pub struct AdpcmHistory {
    pub previous: i16,
    pub previous2: i16,
}

impl Default for AdpcmHistory {
    fn default() -> (result: Self)
        ensures
            result == (AdpcmHistory { previous: 0, previous2: 0 }),
    {
        AdpcmHistory { previous: 0, previous2: 0 }
    }
}

impl AdpcmHistory {
    /// Constructs explicit predictor history.
    pub fn new(previous: i16, previous2: i16) -> (result: Self)
        ensures
            result == (AdpcmHistory { previous, previous2 }),
    {
        Self { previous, previous2 }
    }

    /// Returns the most recently decoded sample.
    pub fn previous(self) -> (result: i16)
        ensures
            result == self.previous,
    {
        self.previous
    }

    /// Returns the sample preceding [`AdpcmHistory::previous`].
    pub fn previous2(self) -> (result: i16)
        ensures
            result == self.previous2,
    {
        self.previous2
    }
}

/// Loop and end markers carried by one ADPCM block.
#[derive(Clone, Copy, Debug, Default, PartialEq, Eq, Structural)]
pub struct AdpcmFlags {
    /// Voice stops after this block unless repeat is also set.
    pub end: bool,
    /// Voice jumps to its captured repeat address after the block.
    pub repeat: bool,
    /// This block captures the voice repeat address.
    pub loop_start: bool,
}

/// Twenty-eight decoded samples and their source flags.
#[verifier::ext_equal]
#[derive(Clone, Copy, Debug, PartialEq, Eq)]
pub struct DecodedBlock {
    /// Signed decoded PCM samples in playback order.
    pub samples: [i16; 28],
    /// Loop/end flags from the block header.
    pub flags: AdpcmFlags,
}

/// Malformed ADPCM header.
#[derive(Clone, Copy, Debug, PartialEq, Eq, Structural)]
pub enum AdpcmError {
    /// Shift exceeds the defined 0 through 12 range.
    InvalidShift {
        /// Four-bit header value.
        shift: u8,
    },
    /// Predictor filter exceeds the defined 0 through 4 range.
    InvalidFilter {
        /// Four-bit header value.
        filter: u8,
    },
}

/// The weight of the previous sample, in 1/64, for each predictor filter.
pub open spec fn filter_positive(filter: int) -> int {
    if filter == 0 {
        0
    } else if filter == 1 {
        60
    } else if filter == 2 {
        115
    } else if filter == 3 {
        98
    } else {
        122
    }
}

/// The weight of the sample before the previous one, in 1/64.
pub open spec fn filter_negative(filter: int) -> int {
    if filter == 0 || filter == 1 {
        0
    } else if filter == 2 {
        -52
    } else if filter == 3 {
        -55
    } else {
        -60
    }
}

/// The shift field of a block header.
pub open spec fn block_shift(block: Seq<u8>) -> int {
    block[0] as int % 16
}

/// The predictor field of a block header.
pub open spec fn block_filter(block: Seq<u8>) -> int {
    block[0] as int / 16
}

/// The four-bit two's-complement residual of one sample, low nibble first.
pub open spec fn block_nibble(block: Seq<u8>, index: int) -> int {
    let packed = block[2 + index / 2] as int;
    let nibble = if index % 2 == 0 {
        packed % 16
    } else {
        packed / 16
    };
    if nibble < 8 {
        nibble
    } else {
        nibble - 16
    }
}

/// `2^(12 - shift)`, the scale of a residual.
pub open spec fn residual_scale(shift: int) -> int {
    vstd::arithmetic::power2::pow2((12 - shift) as nat) as int
}

/// Sample `index` of a block decoded after `history`; indices -1 and -2 are the
/// two samples before the block.
pub open spec fn block_sample(block: Seq<u8>, history: AdpcmHistory, index: int) -> int
    decreases index + 2,
{
    if index <= -2 {
        history.previous2 as int
    } else if index == -1 {
        history.previous as int
    } else {
        clamp16(
            block_nibble(block, index) * residual_scale(block_shift(block)) + (block_sample(
                block,
                history,
                index - 1,
            ) * filter_positive(block_filter(block)) + block_sample(block, history, index - 2)
                * filter_negative(block_filter(block)) + 32) / 64,
        )
    }
}

/// The 28 samples of a block.
pub open spec fn block_samples(block: Seq<u8>, history: AdpcmHistory) -> Seq<i16> {
    Seq::new(28, |index: int| block_sample(block, history, index) as i16)
}

/// The loop markers in the second header byte.
pub open spec fn block_flags(block: Seq<u8>) -> AdpcmFlags {
    AdpcmFlags {
        end: block[1] & 1 != 0,
        repeat: block[1] & 2 != 0,
        loop_start: block[1] & 4 != 0,
    }
}

/// What a block decodes to after `history`.
pub open spec fn block_decoded(block: Seq<u8>, history: AdpcmHistory) -> Result<
    DecodedBlock,
    AdpcmError,
> {
    if block_shift(block) > 12 {
        Err(AdpcmError::InvalidShift { shift: block_shift(block) as u8 })
    } else if block_filter(block) > 4 {
        Err(AdpcmError::InvalidFilter { filter: block_filter(block) as u8 })
    } else {
        Ok(
            DecodedBlock {
                samples: array_of(block_samples(block, history)),
                flags: block_flags(block),
            },
        )
    }
}

/// The history that a block leaves behind.
pub open spec fn block_history(block: Seq<u8>, history: AdpcmHistory) -> AdpcmHistory {
    if block_shift(block) > 12 || block_filter(block) > 4 {
        history
    } else {
        AdpcmHistory {
            previous: block_sample(block, history, 27) as i16,
            previous2: block_sample(block, history, 26) as i16,
        }
    }
}

fn filter_weights(filter: u8) -> (result: (i32, i32))
    requires
        filter <= 4,
    ensures
        result.0 == filter_positive(filter as int),
        result.1 == filter_negative(filter as int),
{
    match filter {
        0 => (0, 0),
        1 => (60, 0),
        2 => (115, -52),
        3 => (98, -55),
        _ => (122, -60),
    }
}

/// Decodes one 16-byte ADPCM block and updates predictor history.
///
/// An undefined shift or filter is an error that leaves the history alone.
pub fn decode_block(block: &[u8; 16], history: &mut AdpcmHistory) -> (result: Result<
    DecodedBlock,
    AdpcmError,
>)
    ensures
        result == block_decoded(block@, *old(history)),
        *final(history) == block_history(block@, *old(history)),
{
    let shift: u8 = block[0] & 0x0f;
    let filter: u8 = block[0] >> 4;
    proof {
        lemma_adpcm_header(block[0]);
    }
    if shift > 12 {
        return Err(AdpcmError::InvalidShift { shift });
    }
    if filter > 4 {
        return Err(AdpcmError::InvalidFilter { filter });
    }
    let (positive, negative) = filter_weights(filter);
    let ghost before = *history;
    let mut samples: [i16; 28] = [0i16;28];
    let mut index: usize = 0;
    while index < 28
        invariant
            index <= 28,
            shift <= 12,
            filter <= 4,
            shift == block_shift(block@),
            filter == block_filter(block@),
            positive == filter_positive(filter as int),
            negative == filter_negative(filter as int),
            history.previous == block_sample(block@, before, index - 1),
            history.previous2 == block_sample(block@, before, index - 2),
            forall|i: int|
                0 <= i < index ==> samples@[i] == block_sample(block@, before, i) as i16,
        decreases 28 - index,
    {
        let packed: u8 = block[2 + index / 2];
        proof {
            lemma_adpcm_header(packed);
        }
        let nibble: u8 = if index % 2 == 0 {
            packed & 0x0f
        } else {
            packed >> 4
        };
        let signed: i32 = if nibble & 8 == 0 {
            i32::from(nibble as i8)
        } else {
            i32::from(nibble as i8) - 16
        };
        proof {
            lemma_adpcm_header(nibble);
            lemma_adpcm_source(signed, shift as u32);
            assert(signed == block_nibble(block@, index as int));
        }
        let source: i32 = (signed << 12) >> (shift as u32);
        let sum: i32 = i32::from(history.previous) * positive + i32::from(history.previous2)
            * negative + 32;
        proof {
            lemma_shr_i32(sum);
        }
        let sample = clamp_i16(source + (sum >> 6));
        proof {
            assert(sample == block_sample(block@, before, index as int));
        }
        history.previous2 = history.previous;
        history.previous = sample;
        samples[index] = sample;
        index += 1;
    }
    proof {
        assert(samples@ =~= block_samples(block@, before));
        lemma_array_is(samples, block_samples(block@, before));
    }
    Ok(
        DecodedBlock {
            samples,
            flags: AdpcmFlags {
                end: block[1] & 1 != 0,
                repeat: block[1] & 2 != 0,
                loop_start: block[1] & 4 != 0,
            },
        },
    )
}

/// Every decoded sample lies in the 16-bit range.
pub proof fn law_samples_saturate(block: Seq<u8>, history: AdpcmHistory, index: int)
    ensures
        -0x8000 <= block_sample(block, history, index) <= 0x7fff,
{
}

} // verus!
