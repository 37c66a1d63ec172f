//! Voice output, volumes, and voice masks.

use vstd::prelude::*;

use crate::bits::{lemma_shr_i32, lemma_shr_i64, signed16, to_i16};
use crate::spu_common::adpcm::AdpcmError;
use crate::spu_common::fixed::{clamp16, clamp_i16, multiply_q15, q15};

verus! {

/// What a voice produced for one output sample.
#[derive(Clone, Copy, Debug, PartialEq, Eq, Structural)]
pub struct VoiceOutput {
    /// Sample after the envelope.
    pub dry: i16,
    /// Address of the last block that was fetched.
    pub fetched: Option<usize>,
    /// A block with the end marker was played out.
    pub loop_end: bool,
}

/// A block that could not be decoded, and where it was.
pub type BlockFault = (usize, AdpcmError);

/// The sixteen bytes at `address`, which wrap around sound RAM.
pub open spec fn block_at(ram: Seq<u8>, address: int) -> Seq<u8> {
    Seq::new(16, |i: int| ram[(address + i) % ram.len() as int])
}

/// Reads the sixteen bytes at `address`.
pub fn read_block(ram: &Vec<u8>, address: usize) -> (result: [u8; 16])
    requires
        address < ram@.len(),
        ram@.len() <= 0x100_0000,
    ensures
        result@ == block_at(ram@, address as int),
{
    let mut block: [u8; 16] = [0u8;16];
    let mut index: usize = 0;
    while index < 16
        invariant
            index <= 16,
            address < ram@.len() <= 0x100_0000,
            forall|i: int|
                0 <= i < index ==> block@[i] == #[trigger] block_at(ram@, address as int)[i],
        decreases 16 - index,
    {
        block[index] = ram[(address + index) % ram.len()];
        index += 1;
    }
    assert(block@ =~= block_at(ram@, address as int));
    block
}

/// Whether the bit of voice `index` is set.
pub open spec fn selected(mask: u32, index: int) -> bool {
    mask & (1u32 << (index as u32)) != 0
}

/// A direct volume: fifteen bits in two's complement.
pub open spec fn direct_volume(register: u16) -> int {
    let direct = register as int % 0x8000;
    if direct >= 0x4000 {
        direct - 0x8000
    } else {
        direct
    }
}

/// A sample at a direct volume.
pub open spec fn at_volume(sample: int, register: u16) -> int {
    clamp16((sample * direct_volume(register)) / 0x4000)
}

/// A sample at a signed Q15 volume.
pub open spec fn at_signed_volume(sample: int, register: u16) -> int {
    clamp16(q15(sample, signed16(register)))
}

/// The pitch of a voice that the previous voice modulates.
pub open spec fn modulated(base: u16, previous: i16) -> u16 {
    let pitch = (base * (previous + 0x8000)) / 0x8000;
    if pitch > 0x3fff {
        0x3fff
    } else {
        pitch as u16
    }
}

/// A sample at an envelope level.
pub open spec fn at_level(sample: i16, level: u16) -> i16 {
    clamp16((sample * level) / 0x8000) as i16
}

/// Applies an envelope level.
pub fn apply_level(sample: i16, level: u16) -> (result: i16)
    requires
        level <= 0x7fff,
    ensures
        result == at_level(sample, level),
{
    proof {
        assert(-0x4000_0000 <= sample * level <= 0x4000_0000) by (nonlinear_arith)
            requires
                -0x8000 <= sample <= 0x7fff,
                0 <= level <= 0x7fff,
        ;
        lemma_shr_i32((sample * level) as i32);
    }
    let scaled: i32 = (i32::from(sample) * level as i32) >> 15;
    clamp_i16(scaled)
}

/// Returns a direct volume.
pub fn direct_level(register: u16) -> (result: i16)
    ensures
        result == direct_volume(register),
        -0x4000 <= result <= 0x3fff,
{
    let direct: i32 = (register % 0x8000) as i32;
    if direct >= 0x4000 {
        (direct - 0x8000) as i16
    } else {
        direct as i16
    }
}

/// Applies a direct volume.
pub fn apply_volume(sample: i16, register: u16) -> (result: i16)
    ensures
        result == at_volume(sample as int, register),
{
    let volume: i32 = i32::from(direct_level(register));
    proof {
        assert(-0x4000_0000 <= sample * volume <= 0x4000_0000) by (nonlinear_arith)
            requires
                -0x8000 <= sample <= 0x7fff,
                -0x4000 <= volume <= 0x3fff,
        ;
        lemma_shr_i32((sample * volume) as i32);
    }
    clamp_i16((i32::from(sample) * volume) >> 14)
}

/// Applies a signed Q15 volume.
pub fn apply_signed_volume(sample: i16, register: u16) -> (result: i16)
    ensures
        result == at_signed_volume(sample as int, register),
{
    clamp_i16(multiply_q15(sample, to_i16(register)))
}

/// Applies pitch modulation.
pub fn modulated_pitch(base: u16, previous: i16) -> (result: u16)
    ensures
        result == modulated(base, previous),
{
    let factor: i64 = i64::from(previous) + 0x8000;
    proof {
        assert(0 <= base * factor <= 0xffff_ffff) by (nonlinear_arith)
            requires
                0 <= base <= 0xffff,
                0 <= factor <= 0xffff,
        ;
        lemma_shr_i64((base * factor) as i64);
    }
    let pitch: i64 = (base as i64 * factor) >> 15;
    if pitch > 0x3fff {
        0x3fff
    } else {
        pitch as u16
    }
}

/// Before the first voice no end marker is cleared.
pub proof fn lemma_endx_start(endx: u32, mask: u32)
    by (bit_vector)
    ensures
        endx == endx & !(mask & !(0xffff_ffffu32 << 0u32)),
{
}

/// Clearing the end marker of one voice more.
pub proof fn lemma_endx_step(endx: u32, mask: u32, index: u32, next: u32)
    by (bit_vector)
    requires
        index < 24,
        next == index + 1,
    ensures
        mask & (1u32 << index) != 0 ==> (endx & !(mask & !(0xffff_ffffu32 << index))) & !(1u32
            << index) == endx & !(mask & !(0xffff_ffffu32 << next)),
        mask & (1u32 << index) == 0 ==> endx & !(mask & !(0xffff_ffffu32 << index)) == endx & !(
        mask & !(0xffff_ffffu32 << next)),
{
}

/// After the last voice the end markers of all keyed voices are cleared.
pub proof fn lemma_endx_end(endx: u32, mask: u32)
    by (bit_vector)
    ensures
        endx & !(mask & !(0xffff_ffffu32 << 24u32)) == endx & !(mask & 0x00ff_ffff),
{
}

} // verus!
