//! The arithmetic of the interpreter.

use vstd::prelude::*;

use crate::bits::{
    from_i32, lemma_alignment, lemma_jump_address, lemma_lanes, lemma_mips_fields,
    lemma_product_halves, lemma_shift_arithmetic, lemma_shift_left, signed32, to_i16, to_i32, wrap32,
};
use crate::r3000::isa;
use crate::r3000::isa::{
    jump_address, magnitude, product_high, product_low, shifted_arithmetic, shifted_left,
    shifted_right, signed_quotient, signed_remainder, LoadKind, StoreKind,
};

verus! {

/// The major opcode field of an instruction.
pub fn opcode_field(instruction: u32) -> (result: u32)
    ensures
        result == isa::opcode(instruction),
        result < 64,
{
    proof {
        reveal(isa::opcode);
        lemma_mips_fields(instruction);
    }
    instruction >> 26
}

/// The first source register field of an instruction.
pub fn rs_field(instruction: u32) -> (result: u32)
    ensures
        result == isa::rs(instruction),
        result < 32,
{
    proof {
        reveal(isa::rs);
        lemma_mips_fields(instruction);
    }
    (instruction >> 21) & 31
}

/// The second source register field of an instruction.
pub fn rt_field(instruction: u32) -> (result: u32)
    ensures
        result == isa::rt(instruction),
        result < 32,
{
    proof {
        reveal(isa::rt);
        lemma_mips_fields(instruction);
    }
    (instruction >> 16) & 31
}

/// The destination register field of an instruction.
pub fn rd_field(instruction: u32) -> (result: u32)
    ensures
        result == isa::rd(instruction),
        result < 32,
{
    proof {
        reveal(isa::rd);
        lemma_mips_fields(instruction);
    }
    (instruction >> 11) & 31
}

/// The shift amount field of an instruction.
pub fn shift_amount_field(instruction: u32) -> (result: u32)
    ensures
        result == isa::shift_amount(instruction),
        result < 32,
{
    proof {
        reveal(isa::shift_amount);
        lemma_mips_fields(instruction);
    }
    (instruction >> 6) & 31
}

/// The function field of an instruction.
pub fn function_field(instruction: u32) -> (result: u32)
    ensures
        result == isa::function(instruction),
        result < 64,
{
    proof {
        reveal(isa::function);
        lemma_mips_fields(instruction);
    }
    instruction & 63
}

/// The immediate field of an instruction.
pub fn immediate_field(instruction: u32) -> (result: u16)
    ensures
        result == isa::immediate(instruction),
{
    proof {
        reveal(isa::immediate);
        lemma_mips_fields(instruction);
    }
    instruction as u16
}

/// The address of a load or store: a base register and a signed offset.
pub fn effective_address(base: u32, instruction: u32) -> (result: u32)
    ensures
        result == wrap32(base + isa::signed_immediate(instruction)),
{
    base.wrapping_add_signed(i32::from(to_i16(immediate_field(instruction))))
}

/// The low five bits of a register.
pub fn variable_amount(value: u32) -> (result: u32)
    ensures
        result == value % 32,
{
    proof {
        lemma_mips_fields(value);
    }
    value & 31
}

pub fn shift_left(value: u32, amount: u32) -> (result: u32)
    requires
        amount < 32,
    ensures
        result == shifted_left(value, amount),
{
    proof {
        reveal(shifted_left);
        lemma_shift_left(value, amount);
    }
    value << amount
}

pub fn shift_right(value: u32, amount: u32) -> (result: u32)
    requires
        amount < 32,
    ensures
        result == shifted_right(value, amount),
{
    proof {
        reveal(shifted_right);
        vstd::bits::lemma_u32_shr_is_div(value, amount);
    }
    value >> amount
}

pub fn shift_right_arithmetic(value: u32, amount: u32) -> (result: u32)
    requires
        amount < 32,
    ensures
        result == shifted_arithmetic(value, amount),
{
    proof {
        reveal(shifted_arithmetic);
        lemma_shift_arithmetic(value, amount);
    }
    from_i32((value as i32) >> amount)
}

/// The two halves of a signed product, high half first.
pub fn multiply_signed(left: u32, right: u32) -> (result: (u32, u32))
    ensures
        result.0 == product_high(signed32(left), signed32(right)),
        result.1 == product_low(signed32(left), signed32(right)),
{
    proof {
        reveal(product_high);
        reveal(product_low);
        let x = signed32(left);
        let y = signed32(right);
        assert(-0x4000_0000_0000_0000 <= x * y <= 0x4000_0000_0000_0000) by (nonlinear_arith)
            requires
                -0x8000_0000 <= x <= 0x7fff_ffff,
                -0x8000_0000 <= y <= 0x7fff_ffff,
        ;
    }
    let product: i64 = i64::from(to_i32(left)) * i64::from(to_i32(right));
    let high: i64 = product >> 32;
    proof {
        lemma_product_halves(product, 0);
        lemma_product_halves(high, 0);
    }
    (high as u32, product as u32)
}

/// The two halves of an unsigned product, high half first.
pub fn multiply_unsigned(left: u32, right: u32) -> (result: (u32, u32))
    ensures
        result.0 == product_high(left as int, right as int),
        result.1 == product_low(left as int, right as int),
{
    proof {
        reveal(product_high);
        reveal(product_low);
        assert(0 <= left * right <= 0xffff_ffff * 0xffff_ffff) by (nonlinear_arith)
            requires
                0 <= left <= 0xffff_ffff,
                0 <= right <= 0xffff_ffff,
        ;
    }
    let product: u64 = u64::from(left) * u64::from(right);
    let high: u64 = product >> 32;
    proof {
        lemma_product_halves(0, product);
        lemma_product_halves(0, high);
    }
    (high as u32, product as u32)
}

/// Divides toward zero into a remainder and a quotient; division by zero and the
/// one overflowing quotient have fixed results.
pub fn signed_divide(numerator: u32, denominator: u32, hi: &mut u32, lo: &mut u32)
    ensures
        *final(hi) == signed_remainder(numerator, denominator),
        *final(lo) == signed_quotient(numerator, denominator),
{
    proof {
        reveal(signed_quotient);
        reveal(signed_remainder);
    }
    let dividend: i32 = to_i32(numerator);
    let divisor: i32 = to_i32(denominator);
    if divisor == 0 {
        *hi = numerator;
        *lo = if dividend >= 0 {
            u32::MAX
        } else {
            1
        };
    } else {
        proof {
            let x = magnitude(dividend as int);
            let d = magnitude(divisor as int);
            vstd::arithmetic::div_mod::lemma_fundamental_div_mod(x, d);
            assert(0 <= x / d <= x && 0 <= x % d < d && (d >= 2 ==> x / d <= 0x4000_0000))
                by (nonlinear_arith)
                requires
                    0 <= x <= 0x8000_0000,
                    d > 0,
            ;
            assert(d == 1 ==> x / d == x && x % d == 0) by (nonlinear_arith)
                requires
                    0 <= x,
            ;
        }
        match (dividend.checked_rem(divisor), dividend.checked_div(divisor)) {
            (Some(remainder), Some(quotient)) => {
                *hi = from_i32(remainder);
                *lo = from_i32(quotient);
            },
            _ => {
                *hi = 0;
                *lo = from_i32(i32::MIN);
            },
        }
    }
}

pub fn jump_target(pc: u32, instruction: u32) -> (result: u32)
    ensures
        result == jump_address(pc, instruction),
{
    proof {
        reveal(jump_address);
    }
    let next: u32 = pc.wrapping_add(4);
    proof {
        lemma_jump_address(next, instruction);
    }
    (next & 0xf000_0000) | ((instruction & 0x03ff_ffff) << 2)
}

/// Extends the sign of a halfword.
pub fn sign_extend(value: i16) -> (result: u32)
    ensures
        result == wrap32(value as int),
{
    from_i32(i32::from(value))
}

/// Extends the sign of a byte that was read.
pub fn sign_extend_byte(raw: u8, base: u32, address: u32) -> (result: u32)
    ensures
        result == LoadKind::SignedByte.value(raw as u32, base, address),
{
    proof {
        reveal(LoadKind::value);
    }
    if raw < 0x80 {
        u32::from(raw)
    } else {
        u32::from(raw) + 0xffff_ff00
    }
}

/// Extends the sign of a halfword that was read.
pub fn sign_extend_half(raw: u16, base: u32, address: u32) -> (result: u32)
    ensures
        result == LoadKind::SignedHalf.value(raw as u32, base, address),
{
    proof {
        reveal(LoadKind::value);
    }
    sign_extend(to_i16(raw))
}

/// Merges a word into the upper bytes of a register.
pub fn load_left(word: u32, base: u32, address: u32) -> (result: u32)
    ensures
        result == LoadKind::Left.value(word, base, address),
{
    proof {
        reveal(LoadKind::value);
        lemma_alignment(address);
        lemma_lanes(base, word);
    }
    match address & 3 {
        0 => (base & 0x00ff_ffff) | (word << 24),
        1 => (base & 0x0000_ffff) | (word << 16),
        2 => (base & 0x0000_00ff) | (word << 8),
        _ => word,
    }
}

/// Merges a word into the lower bytes of a register.
pub fn load_right(word: u32, base: u32, address: u32) -> (result: u32)
    ensures
        result == LoadKind::Right.value(word, base, address),
{
    proof {
        reveal(LoadKind::value);
        lemma_alignment(address);
        lemma_lanes(base, word);
    }
    match address & 3 {
        0 => word,
        1 => (base & 0xff00_0000) | (word >> 8),
        2 => (base & 0xffff_0000) | (word >> 16),
        _ => (base & 0xffff_ff00) | (word >> 24),
    }
}

/// Merges the upper bytes of a register into a word.
pub fn store_left(old_word: u32, value: u32, address: u32) -> (result: u32)
    ensures
        result == StoreKind::Left.merged(old_word, value, address),
{
    proof {
        reveal(StoreKind::merged);
        lemma_alignment(address);
        lemma_lanes(old_word, value);
    }
    match address & 3 {
        0 => (old_word & 0xffff_ff00) | (value >> 24),
        1 => (old_word & 0xffff_0000) | (value >> 16),
        2 => (old_word & 0xff00_0000) | (value >> 8),
        _ => value,
    }
}

/// Merges the lower bytes of a register into a word.
pub fn store_right(old_word: u32, value: u32, address: u32) -> (result: u32)
    ensures
        result == StoreKind::Right.merged(old_word, value, address),
{
    proof {
        reveal(StoreKind::merged);
        lemma_alignment(address);
        lemma_lanes(old_word, value);
    }
    match address & 3 {
        0 => value,
        1 => (old_word & 0x0000_00ff) | (value << 8),
        2 => (old_word & 0x0000_ffff) | (value << 16),
        _ => (old_word & 0x00ff_ffff) | (value << 24),
    }
}

} // verus!
