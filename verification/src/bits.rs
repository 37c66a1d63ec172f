//! Arithmetic meaning of the bit operations that the hardware registers use.

use vstd::prelude::*;

verus! {

/// The two's-complement value of a 16-bit register.
pub open spec fn signed16(value: u16) -> int {
    if value < 0x8000 {
        value as int
    } else {
        value - 0x1_0000
    }
}

/// The two's-complement value of a 32-bit register.
pub open spec fn signed32(value: u32) -> int {
    if value < 0x8000_0000 {
        value as int
    } else {
        value - 0x1_0000_0000
    }
}

/// `value` modulo 2^32.
pub open spec fn wrap32(value: int) -> u32 {
    (value % 0x1_0000_0000) as u32
}

proof fn lemma_signed16_bits(value: u16)
    by (bit_vector)
    ensures
        value < 0x8000u16 ==> (value as i16) as int == value as int,
        value >= 0x8000u16 ==> (value as i16) as int == value - 0x1_0000,
{
}

/// Reinterprets a 16-bit register as a signed value.
pub fn to_i16(value: u16) -> (result: i16)
    ensures
        result == signed16(value),
{
    proof {
        lemma_signed16_bits(value);
    }
    value as i16
}

proof fn lemma_signed32_bits(value: u32)
    by (bit_vector)
    ensures
        value < 0x8000_0000u32 ==> (value as i32) as int == value as int,
        value >= 0x8000_0000u32 ==> (value as i32) as int == value - 0x1_0000_0000,
{
}

/// The 16-bit register that holds a signed value.
pub open spec fn unsigned16(value: int) -> u16 {
    (value % 0x1_0000) as u16
}

proof fn lemma_unsigned16_bits(value: i16)
    by (bit_vector)
    ensures
        value >= 0i16 ==> value as u16 == value,
        value < 0i16 ==> value as u16 == value + 0x1_0000,
{
}

/// The two's-complement register that holds a sample.
pub fn from_i16(value: i16) -> (result: u16)
    ensures
        result == unsigned16(value as int),
{
    proof {
        lemma_unsigned16_bits(value);
    }
    value as u16
}

/// Reinterprets a 32-bit register as a signed value.
pub fn to_i32(value: u32) -> (result: i32)
    ensures
        result == signed32(value),
{
    proof {
        lemma_signed32_bits(value);
    }
    value as i32
}

proof fn lemma_unsigned32_bits(value: i32)
    by (bit_vector)
    ensures
        value >= 0i32 ==> (value as u32) as int == value as int,
        value < 0i32 ==> (value as u32) as int == value + 0x1_0000_0000,
{
}

/// The two's-complement register that holds a signed value.
pub fn from_i32(value: i32) -> (result: u32)
    ensures
        result == wrap32(value as int),
{
    proof {
        lemma_unsigned32_bits(value);
    }
    value as u32
}

proof fn lemma_shr_i32_bits(value: i32)
    by (bit_vector)
    ensures
        (value >> 6i32) as int * 0x40 <= value as int,
        (value as int) < (value >> 6i32) as int * 0x40 + 0x40,
        (value >> 14i32) as int * 0x4000 <= value as int,
        (value as int) < (value >> 14i32) as int * 0x4000 + 0x4000,
        (value >> 15i32) as int * 0x8000 <= value as int,
        (value as int) < (value >> 15i32) as int * 0x8000 + 0x8000,
{
}

/// Arithmetic right shifts of a 32-bit accumulator divide and round down.
pub proof fn lemma_shr_i32(value: i32)
    ensures
        value >> 6i32 == value as int / 0x40,
        value >> 14i32 == value as int / 0x4000,
        value >> 15i32 == value as int / 0x8000,
{
    lemma_shr_i32_bits(value);
}

proof fn lemma_shr_i64_bits(value: i64)
    by (bit_vector)
    ensures
        (value >> 14i32) as int * 0x4000 <= value as int,
        (value as int) < (value >> 14i32) as int * 0x4000 + 0x4000,
        (value >> 15i32) as int * 0x8000 <= value as int,
        (value as int) < (value >> 15i32) as int * 0x8000 + 0x8000,
{
}

/// Arithmetic right shifts of a 64-bit accumulator divide and round down.
pub proof fn lemma_shr_i64(value: i64)
    ensures
        value >> 14i32 == value as int / 0x4000,
        value >> 15i32 == value as int / 0x8000,
{
    lemma_shr_i64_bits(value);
}

/// The low twelve bits and the bits above them.
pub proof fn lemma_low12(value: u32)
    by (bit_vector)
    ensures
        value & 0x0fff == value % 0x1000,
        value >> 12u32 == value / 0x1000,
{
}

/// The two nibbles of a byte, and the sign bit of a nibble.
pub proof fn lemma_adpcm_header(value: u8)
    by (bit_vector)
    ensures
        value & 0x0f == value % 16,
        value >> 4u8 == value / 16,
        value < 16 ==> (value & 8 == 0 <==> value < 8),
{
}

proof fn lemma_adpcm_source_bits(signed: i32, shift: u32, rest: u32)
    by (bit_vector)
    requires
        -8 <= signed <= 7,
        shift <= 12,
        shift + rest == 12,
    ensures
        ((signed << 12i32) >> shift) as int == signed as int * (1u32 << rest) as int,
        (1u32 << rest) <= 4096,
{
}

/// A residual moved to the top of a sample and back by `shift` is scaled by
/// `2^(12 - shift)`.
pub proof fn lemma_adpcm_source(signed: i32, shift: u32)
    requires
        -8 <= signed <= 7,
        shift <= 12,
    ensures
        (signed << 12i32) >> shift == signed * vstd::arithmetic::power2::pow2((12 - shift) as nat),
        -32768 <= (signed << 12i32) >> shift <= 28672,
{
    lemma_adpcm_source_bits(signed, shift, (12 - shift) as u32);
    vstd::arithmetic::power2::lemma2_to64();
    vstd::bits::lemma_u32_shl_is_mul(1, (12 - shift) as u32);
    assert(-32768 <= signed * (1u32 << (12 - shift) as u32) <= 28672) by (nonlinear_arith)
        requires
            -8 <= signed <= 7,
            0 <= (1u32 << (12 - shift) as u32) <= 4096,
    ;
}

/// The fields of the two ADSR registers.
pub proof fn lemma_adsr_registers(value: u16)
    by (bit_vector)
    ensures
        (value >> 8u16) & 3 == (value / 0x100) % 4,
        (value >> 6u16) & 3 == (value / 0x40) % 4,
        (value >> 10u16) & 0x1f == (value / 0x400) % 32,
        (value >> 8u16) & 0x1f == (value / 0x100) % 32,
        (value >> 4u16) & 0x0f == (value / 0x10) % 16,
        value & 0x1f == value % 32,
        value & 0x0f == value % 16,
        (value & 0x8000 != 0) == (value >= 0x8000),
        (value & 0x4000 != 0) == ((value / 0x4000) % 2 == 1),
        (value & 0x20 != 0) == ((value / 0x20) % 2 == 1),
{
}

/// The bytes of a halfword.
pub proof fn lemma_half_bytes(half: u16)
    by (bit_vector)
    ensures
        (half as u8) as u16 == half & 0xff,
        half & 0xff == half % 0x100,
        half >> 8u16 == half / 0x100,
{
}

/// The halves of a word.
pub proof fn lemma_word_halves(word: u32)
    by (bit_vector)
    ensures
        (word as u16) as u32 == word % 0x1_0000,
        word >> 16u32 == word / 0x1_0000,
{
}

/// The synchronization field of a DMA channel control register.
pub proof fn lemma_dma_sync(control: u32)
    by (bit_vector)
    ensures
        (control & 0x600) >> 9u32 == (control / 0x200) % 4,
{
}

/// The fields of a MIPS instruction.
pub proof fn lemma_mips_fields(instruction: u32)
    by (bit_vector)
    ensures
        instruction >> 26u32 == instruction / 0x400_0000,
        (instruction >> 21u32) & 31 == (instruction / 0x20_0000) % 32,
        (instruction >> 16u32) & 31 == (instruction / 0x1_0000) % 32,
        (instruction >> 11u32) & 31 == (instruction / 0x800) % 32,
        (instruction >> 6u32) & 31 == (instruction / 64) % 32,
        instruction & 63 == instruction % 64,
        instruction & 31 == instruction % 32,
        (instruction as u16) as u32 == instruction % 0x1_0000,
        instruction & 0x03ff_ffff == instruction % 0x400_0000,
        (instruction as u8) as u32 == instruction % 0x100,
{
}

/// The alignment of an address.
pub proof fn lemma_alignment(address: u32)
    by (bit_vector)
    ensures
        address & 1 == address % 2,
        address & 3 == address % 4,
        address & 0xffff_fffc == address - address % 4,
{
}

/// The region bits of an address over a word offset.
pub proof fn lemma_jump_address(next: u32, offset: u32)
    by (bit_vector)
    ensures
        (next & 0xf000_0000) | ((offset & 0x03ff_ffff) << 2u32) == (next / 0x1000_0000)
            * 0x1000_0000 + (offset % 0x400_0000) * 4,
{
}

/// The two halves of 64-bit products.
pub proof fn lemma_product_halves(signed: i64, unsigned: u64)
    by (bit_vector)
    ensures
        signed as int == (signed >> 32i32) as int * 0x1_0000_0000 + (signed as u32) as int,
        unsigned as int == (unsigned >> 32u32) as int * 0x1_0000_0000 + (unsigned
            as u32) as int,
{
}

proof fn lemma_shift_left_bits(value: u32, amount: u32)
    by (bit_vector)
    requires
        amount < 32,
    ensures
        (value << amount) as u64 == ((value as u64) << (amount as u64)) % 0x1_0000_0000,
        (value as u64) <= 0xffff_ffffu64,
{
}

/// A left shift multiplies and drops what leaves the register.
pub proof fn lemma_shift_left(value: u32, amount: u32)
    requires
        amount < 32,
    ensures
        value << amount == wrap32(value * vstd::arithmetic::power2::pow2(amount as nat)),
{
    lemma_shift_left_bits(value, amount);
    let scale = vstd::arithmetic::power2::pow2(amount as nat) as int;
    vstd::arithmetic::power2::lemma2_to64();
    vstd::arithmetic::power2::lemma_pow2_pos(amount as nat);
    vstd::arithmetic::power2::lemma_pow2_strictly_increases(amount as nat, 32);
    assert(0 <= value * scale <= 0xffff_ffff * 0x1_0000_0000) by (nonlinear_arith)
        requires
            0 <= value <= 0xffff_ffff,
            0 <= scale <= 0x1_0000_0000,
    ;
    vstd::bits::lemma_u64_shl_is_mul(value as u64, amount as u64);
}

proof fn lemma_shift_arithmetic_bits(value: u32, amount: u32)
    by (bit_vector)
    requires
        amount < 32,
    ensures
        value < 0x8000_0000 ==> ((value as i32) >> amount) as int == (value >> amount) as int,
        value >= 0x8000_0000 ==> ((value as i32) >> amount) as int == -1 - ((!value)
            >> amount) as int,
        (!value) as int == 0xffff_ffff - value,
{
}

/// An arithmetic right shift divides and rounds down.
pub proof fn lemma_shift_arithmetic(value: u32, amount: u32)
    requires
        amount < 32,
    ensures
        ((value as i32) >> amount) == signed32(value) / (vstd::arithmetic::power2::pow2(
            amount as nat,
        ) as int),
{
    lemma_shift_arithmetic_bits(value, amount);
    let scale = vstd::arithmetic::power2::pow2(amount as nat) as int;
    vstd::arithmetic::power2::lemma_pow2_pos(amount as nat);
    if value < 0x8000_0000 {
        vstd::bits::lemma_u32_shr_is_div(value, amount);
    } else {
        vstd::bits::lemma_u32_shr_is_div(!value, amount);
        let rest = 0xffff_ffff - value;
        let quotient = rest / scale;
        let remainder = rest % scale;
        vstd::arithmetic::div_mod::lemma_fundamental_div_mod(rest, scale);
        assert(signed32(value) == (-1 - quotient) * scale + (scale - 1 - remainder))
            by (nonlinear_arith)
            requires
                signed32(value) == -1 - rest,
                rest == scale * quotient + remainder,
        ;
        vstd::arithmetic::div_mod::lemma_fundamental_div_mod_converse(
            signed32(value),
            scale,
            -1 - quotient,
            scale - 1 - remainder,
        );
    }
}

/// The words that an unaligned access puts together.
pub proof fn lemma_lanes(base: u32, word: u32)
    by (bit_vector)
    ensures
        (base & 0x00ff_ffff) | (word << 24u32) == (word % 0x100) * 0x100_0000 + base
            % 0x100_0000,
        (base & 0x0000_ffff) | (word << 16u32) == (word % 0x1_0000) * 0x1_0000 + base
            % 0x1_0000,
        (base & 0x0000_00ff) | (word << 8u32) == (word % 0x100_0000) * 0x100 + base % 0x100,
        (base & 0xff00_0000) | (word >> 8u32) == (base / 0x100_0000) * 0x100_0000 + word
            / 0x100,
        (base & 0xffff_0000) | (word >> 16u32) == (base / 0x1_0000) * 0x1_0000 + word
            / 0x1_0000,
        (base & 0xffff_ff00) | (word >> 24u32) == (base / 0x100) * 0x100 + word
            / 0x100_0000,
{
}

/// Whether bit `index` of `value` is set.
pub open spec fn bit(value: u32, index: int) -> bool {
    (value as int / vstd::arithmetic::power2::pow2(index as nat) as int) % 2 == 1
}

proof fn lemma_bit_operations(left: u32, right: u32, index: u32, other: u32)
    by (bit_vector)
    requires
        index < 32,
        other < 32,
    ensures
        ((left & right) >> index) % 2 == 1 <==> (left >> index) % 2 == 1 && (right >> index) % 2
            == 1,
        ((left | right) >> index) % 2 == 1 <==> (left >> index) % 2 == 1 || (right >> index) % 2
            == 1,
        ((left ^ right) >> index) % 2 == 1 <==> ((left >> index) % 2 == 1) != ((right >> index) % 2
            == 1),
        ((!left) >> index) % 2 == 1 <==> (left >> index) % 2 == 0,
        left & (1u32 << index) != 0 <==> (left >> index) % 2 == 1,
        ((1u32 << other) >> index) % 2 == 1 <==> index == other,
{
}

/// The bitwise operators work on each bit alone, and one shifted up is that bit alone.
pub proof fn lemma_bits(left: u32, right: u32, index: int, other: int)
    requires
        0 <= index < 32,
        0 <= other < 32,
    ensures
        bit(left & right, index) <==> bit(left, index) && bit(right, index),
        bit(left | right, index) <==> bit(left, index) || bit(right, index),
        bit(left ^ right, index) <==> bit(left, index) != bit(right, index),
        bit(!left, index) <==> !bit(left, index),
        left & (1u32 << (index as u32)) != 0 <==> bit(left, index),
        bit(1u32 << (other as u32), index) <==> index == other,
        (1u32 << (index as u32)) == vstd::arithmetic::power2::pow2(index as nat),
{
    lemma_bit_operations(left, right, index as u32, other as u32);
    vstd::bits::lemma_u32_shr_is_div(left & right, index as u32);
    vstd::bits::lemma_u32_shr_is_div(left | right, index as u32);
    vstd::bits::lemma_u32_shr_is_div(left ^ right, index as u32);
    vstd::bits::lemma_u32_shr_is_div(!left, index as u32);
    vstd::bits::lemma_u32_shr_is_div(left, index as u32);
    vstd::bits::lemma_u32_shr_is_div(right, index as u32);
    vstd::bits::lemma_u32_shr_is_div(1u32 << (other as u32), index as u32);
    vstd::arithmetic::power2::lemma_pow2_pos(index as nat);
    vstd::arithmetic::power2::lemma_pow2_strictly_increases(index as nat, 32);
    vstd::arithmetic::power2::lemma2_to64();
    vstd::bits::lemma_u32_shl_is_mul(1, index as u32);
}

/// Clearing bits of a halfword clears them in the word that holds it.
pub proof fn lemma_cleared_half(value: u16, mask: u16)
    by (bit_vector)
    ensures
        (value & !mask) as u32 == (value as u32) & !(mask as u32),
{
}

} // verus!
