//! What each MIPS-I instruction does, as mathematics.
//!
//! [`operation`] decodes an instruction against the current processor state into
//! an [`Operation`], which says what is computed and what is asked of the bus.

use vstd::prelude::*;

use crate::bits::{signed16, signed32, wrap32};
use crate::r3000::cpu::{Cop0, Cpu, Exception};

verus! {

/// `2^exponent`.
pub open spec fn two_to(exponent: u32) -> int {
    vstd::arithmetic::power2::pow2(exponent as nat) as int
}

/// `value` without its sign.
pub open spec fn magnitude(value: int) -> int {
    if value < 0 {
        -value
    } else {
        value
    }
}

/// The quotient rounded toward zero.
pub open spec fn truncated_quotient(numerator: int, denominator: int) -> int {
    if (numerator < 0) == (denominator < 0) {
        magnitude(numerator) / magnitude(denominator)
    } else {
        -(magnitude(numerator) / magnitude(denominator))
    }
}

/// The remainder that has the sign of the numerator.
pub open spec fn truncated_remainder(numerator: int, denominator: int) -> int {
    if numerator < 0 {
        -(magnitude(numerator) % magnitude(denominator))
    } else {
        magnitude(numerator) % magnitude(denominator)
    }
}

/// The major opcode field.
#[verifier::opaque]
pub open spec fn opcode(instruction: u32) -> u32 {
    instruction / 0x400_0000
}

/// The first source register field.
#[verifier::opaque]
pub open spec fn rs(instruction: u32) -> u32 {
    (instruction / 0x20_0000) % 32
}

/// The second source register field.
#[verifier::opaque]
pub open spec fn rt(instruction: u32) -> u32 {
    (instruction / 0x1_0000) % 32
}

/// The destination register field.
#[verifier::opaque]
pub open spec fn rd(instruction: u32) -> u32 {
    (instruction / 0x800) % 32
}

/// The shift amount field.
#[verifier::opaque]
pub open spec fn shift_amount(instruction: u32) -> u32 {
    (instruction / 64) % 32
}

/// The function field of register instructions.
#[verifier::opaque]
pub open spec fn function(instruction: u32) -> u32 {
    instruction % 64
}

/// The immediate field.
#[verifier::opaque]
pub open spec fn immediate(instruction: u32) -> u32 {
    instruction % 0x1_0000
}

/// The immediate field as a signed value.
pub open spec fn signed_immediate(instruction: u32) -> int {
    signed16(immediate(instruction) as u16)
}

/// The address in the return register after a call at `pc`.
pub open spec fn link_address(pc: u32) -> u32 {
    wrap32(pc + 8)
}

/// Where a conditional branch at `pc` leads.
#[verifier::opaque]
pub open spec fn branch_target(taken: bool, pc: u32, offset: int) -> u32 {
    if taken {
        wrap32(pc + 4 + 4 * offset)
    } else {
        wrap32(pc + 8)
    }
}

/// Where an absolute jump at `pc` leads: a word in the 256 MiB region of the
/// delay slot.
#[verifier::opaque]
pub open spec fn jump_address(pc: u32, instruction: u32) -> u32 {
    ((wrap32(pc + 4) / 0x1000_0000) * 0x1000_0000 + (instruction % 0x400_0000) * 4) as u32
}

/// `value * 256^lanes`.
pub open spec fn lanes_up(value: int, lanes: int) -> int {
    if lanes <= 0 {
        value
    } else if lanes == 1 {
        value * 0x100
    } else if lanes == 2 {
        value * 0x1_0000
    } else if lanes == 3 {
        value * 0x100_0000
    } else {
        value * 0x1_0000_0000
    }
}

/// `value / 256^lanes`.
pub open spec fn lanes_down(value: int, lanes: int) -> int {
    if lanes <= 0 {
        value
    } else if lanes == 1 {
        value / 0x100
    } else if lanes == 2 {
        value / 0x1_0000
    } else if lanes == 3 {
        value / 0x100_0000
    } else {
        value / 0x1_0000_0000
    }
}

/// `value % 256^lanes`.
pub open spec fn low_lanes(value: int, lanes: int) -> int {
    if lanes <= 0 {
        0
    } else if lanes == 1 {
        value % 0x100
    } else if lanes == 2 {
        value % 0x1_0000
    } else if lanes == 3 {
        value % 0x100_0000
    } else {
        value % 0x1_0000_0000
    }
}

/// How a load turns what it reads into a register value.
#[verifier::ext_equal]
pub ghost enum LoadKind {
    SignedByte,
    Byte,
    SignedHalf,
    Half,
    Word,
    /// Fills the upper bytes of a register up to an unaligned address.
    Left,
    /// Fills the lower bytes of a register from an unaligned address.
    Right,
}

/// How a store turns a register value into what it writes.
#[verifier::ext_equal]
pub ghost enum StoreKind {
    Byte,
    Half,
    Word,
    /// Stores the upper bytes of a register up to an unaligned address.
    Left,
    /// Stores the lower bytes of a register from an unaligned address.
    Right,
}

/// What one instruction does.
#[verifier::ext_equal]
pub ghost enum Operation {
    /// Writes a register.
    Write { register: u32, value: u32 },
    /// Sets the multiply and divide result registers.
    HiLo { hi: u32, lo: u32, cycles: u32 },
    /// Transfers control after the delay slot, and may leave a return address.
    Branch { target: u32, link: Option<u32> },
    /// Raises an exception.
    Trap { exception: Exception },
    /// Raises an exception that reports an address.
    AddressTrap { exception: Exception, address: u32 },
    /// Replaces the system control registers.
    Control { cop0: Cop0 },
    /// Reads a system control register, with the delay of a load.
    ControlLoad { register: u32, value: u32 },
    /// Reads memory into a register.
    Load { kind: LoadKind, register: u32, address: u32 },
    /// Writes a register to memory.
    Store { form: StoreKind, address: u32, value: u32 },
}

impl LoadKind {
    /// Whether `address` is aligned for this load.
    pub open spec fn aligned(self, address: u32) -> bool {
        match self {
            LoadKind::SignedHalf | LoadKind::Half => address % 2 == 0,
            LoadKind::Word => address % 4 == 0,
            _ => true,
        }
    }

    /// The address that is put on the bus.
    pub open spec fn bus_address(self, address: u32) -> u32 {
        match self {
            LoadKind::Left | LoadKind::Right => (address - address % 4) as u32,
            _ => address,
        }
    }

    /// The register value for `raw` read from `address` over the old value `base`.
    #[verifier::opaque]
    pub open spec fn value(self, raw: u32, base: u32, address: u32) -> u32 {
        let lane = address as int % 4;
        match self {
            LoadKind::SignedByte => if raw < 0x80 {
                raw
            } else {
                wrap32(raw - 0x100)
            },
            LoadKind::SignedHalf => wrap32(signed16(raw as u16)),
            LoadKind::Byte | LoadKind::Half | LoadKind::Word => raw,
            LoadKind::Left => (lanes_up(low_lanes(raw as int, lane + 1), 3 - lane) + low_lanes(
                base as int,
                3 - lane,
            )) as u32,
            LoadKind::Right => (lanes_up(lanes_down(base as int, 4 - lane), 4 - lane) + lanes_down(
                raw as int,
                lane,
            )) as u32,
        }
    }
}

impl StoreKind {
    /// Whether `address` is aligned for this store.
    pub open spec fn aligned(self, address: u32) -> bool {
        match self {
            StoreKind::Half => address % 2 == 0,
            StoreKind::Word => address % 4 == 0,
            _ => true,
        }
    }

    /// Whether the store first reads the word that it changes.
    pub open spec fn merges(self) -> bool {
        self is Left || self is Right
    }

    /// The word that takes the place of `old` when `value` is stored to `address`.
    #[verifier::opaque]
    pub open spec fn merged(self, old_word: u32, value: u32, address: u32) -> u32 {
        let lane = address as int % 4;
        match self {
            StoreKind::Left => (lanes_up(lanes_down(old_word as int, lane + 1), lane + 1)
                + lanes_down(value as int, 3 - lane)) as u32,
            _ => (lanes_up(low_lanes(value as int, 4 - lane), lane) + low_lanes(
                old_word as int,
                lane,
            )) as u32,
        }
    }
}

/// An aligned load, or the trap that a misaligned one raises.
pub open spec fn load_operation(kind: LoadKind, register: u32, address: u32) -> Operation {
    if kind.aligned(address) {
        Operation::Load { kind, register, address }
    } else {
        Operation::AddressTrap { exception: Exception::AddressLoad, address }
    }
}

/// An aligned store, or the trap that a misaligned one raises.
pub open spec fn store_operation(kind: StoreKind, address: u32, value: u32) -> Operation {
    if kind.aligned(address) {
        Operation::Store { form: kind, address, value }
    } else {
        Operation::AddressTrap { exception: Exception::AddressStore, address }
    }
}

/// A signed sum or difference, or the trap that overflow raises.
pub open spec fn checked_operation(register: u32, value: int) -> Operation {
    if i32::MIN <= value <= i32::MAX {
        Operation::Write { register, value: wrap32(value) }
    } else {
        Operation::Trap { exception: Exception::Overflow }
    }
}

/// A logical left shift.
#[verifier::opaque]
pub open spec fn shifted_left(value: u32, amount: u32) -> u32 {
    wrap32(value * two_to(amount))
}

/// A logical right shift.
#[verifier::opaque]
pub open spec fn shifted_right(value: u32, amount: u32) -> u32 {
    (value as int / two_to(amount)) as u32
}

/// An arithmetic right shift.
#[verifier::opaque]
pub open spec fn shifted_arithmetic(value: u32, amount: u32) -> u32 {
    wrap32(signed32(value) / two_to(amount))
}

/// The high word of a product.
#[verifier::opaque]
pub open spec fn product_high(left: int, right: int) -> u32 {
    wrap32(left * right / 0x1_0000_0000)
}

/// The low word of a product.
#[verifier::opaque]
pub open spec fn product_low(left: int, right: int) -> u32 {
    wrap32(left * right)
}

/// A register write.
pub open spec fn writes(register: u32, value: u32) -> Operation {
    Operation::Write { register, value }
}

/// A branch that does not link.
pub open spec fn branches(pc: u32, offset: int, taken: bool) -> Operation {
    Operation::Branch { target: branch_target(taken, pc, offset), link: None }
}

/// The register instructions.
#[verifier::opaque]
pub open spec fn register_operation(cpu: Cpu, pc: u32, instruction: u32) -> Operation {
    let left = cpu.registers@[rs(instruction) as int];
    let right = cpu.registers@[rt(instruction) as int];
    let register = rd(instruction);
    let amount = shift_amount(instruction);
    let variable = left % 32;
    match function(instruction) {
        0x00 => writes(register, shifted_left(right, amount)),
        0x02 => writes(register, shifted_right(right, amount)),
        0x03 => writes(register, shifted_arithmetic(right, amount)),
        0x04 => writes(register, shifted_left(right, variable)),
        0x06 => writes(register, shifted_right(right, variable)),
        0x07 => writes(register, shifted_arithmetic(right, variable)),
        0x08 => Operation::Branch { target: left, link: None },
        0x09 => Operation::Branch { target: left, link: Some(register) },
        0x0c => Operation::Trap { exception: Exception::Syscall },
        0x0d => Operation::Trap { exception: Exception::Break },
        0x10 => writes(register, cpu.hi),
        0x11 => Operation::HiLo { hi: left, lo: cpu.lo, cycles: 1 },
        0x12 => writes(register, cpu.lo),
        0x13 => Operation::HiLo { hi: cpu.hi, lo: left, cycles: 1 },
        0x18 => Operation::HiLo {
            hi: product_high(signed32(left), signed32(right)),
            lo: product_low(signed32(left), signed32(right)),
            cycles: 6,
        },
        0x19 => Operation::HiLo {
            hi: product_high(left as int, right as int),
            lo: product_low(left as int, right as int),
            cycles: 6,
        },
        0x1a => Operation::HiLo {
            hi: signed_remainder(left, right),
            lo: signed_quotient(left, right),
            cycles: 10,
        },
        0x1b => Operation::HiLo {
            hi: if right == 0 {
                left
            } else {
                left % right
            },
            lo: if right == 0 {
                u32::MAX
            } else {
                left / right
            },
            cycles: 10,
        },
        0x20 => checked_operation(register, signed32(left) + signed32(right)),
        0x21 => writes(register, wrap32(left + right)),
        0x22 => checked_operation(register, signed32(left) - signed32(right)),
        0x23 => writes(register, wrap32(left - right)),
        0x24 => writes(register, left & right),
        0x25 => writes(register, left | right),
        0x26 => writes(register, left ^ right),
        0x27 => writes(register, !(left | right)),
        0x2a => writes(
            register,
            if signed32(left) < signed32(right) {
                1
            } else {
                0
            },
        ),
        0x2b => writes(
            register,
            if left < right {
                1
            } else {
                0
            },
        ),
        _ => Operation::Trap { exception: Exception::ReservedInstruction },
    }
}

/// What a signed division leaves in LO.
#[verifier::opaque]
pub open spec fn signed_quotient(numerator: u32, denominator: u32) -> u32 {
    if denominator == 0 {
        if signed32(numerator) >= 0 {
            u32::MAX
        } else {
            1
        }
    } else {
        wrap32(truncated_quotient(signed32(numerator), signed32(denominator)))
    }
}

/// What a signed division leaves in HI.
#[verifier::opaque]
pub open spec fn signed_remainder(numerator: u32, denominator: u32) -> u32 {
    if denominator == 0 {
        numerator
    } else {
        wrap32(truncated_remainder(signed32(numerator), signed32(denominator)))
    }
}

/// The branches that compare one register with zero and may link.
#[verifier::opaque]
pub open spec fn sign_branch_operation(cpu: Cpu, pc: u32, instruction: u32) -> Operation {
    let left = signed32(cpu.registers@[rs(instruction) as int]);
    let offset = signed_immediate(instruction);
    match rt(instruction) {
        0x00 => Operation::Branch { target: branch_target(left < 0, pc, offset), link: None },
        0x01 => Operation::Branch { target: branch_target(left >= 0, pc, offset), link: None },
        0x10 => Operation::Branch {
            target: branch_target(left < 0, pc, offset),
            link: Some(31),
        },
        0x11 => Operation::Branch {
            target: branch_target(left >= 0, pc, offset),
            link: Some(31),
        },
        _ => Operation::Trap { exception: Exception::ReservedInstruction },
    }
}

/// The instructions of the system control coprocessor.
#[verifier::opaque]
pub open spec fn control_operation(cpu: Cpu, instruction: u32) -> Operation {
    let value = cpu.registers@[rt(instruction) as int];
    let reserved = Operation::Trap { exception: Exception::ReservedInstruction };
    match rs(instruction) {
        0x00 => match cpu.cop0.register(rd(instruction) as int) {
            Some(value) => Operation::ControlLoad { register: rt(instruction), value },
            None => reserved,
        },
        0x04 => match cpu.cop0.replaced(rd(instruction) as int, value) {
            Some(cop0) => Operation::Control { cop0 },
            None => reserved,
        },
        0x10 => if function(instruction) == 0x10 {
            Operation::Control { cop0: cpu.cop0.returned() }
        } else {
            reserved
        },
        _ => reserved,
    }
}

/// What `instruction`, fetched from `pc`, does in the state `cpu`.
pub open spec fn operation(cpu: Cpu, pc: u32, instruction: u32) -> Operation {
    let left = cpu.registers@[rs(instruction) as int];
    let right = cpu.registers@[rt(instruction) as int];
    let register = rt(instruction);
    let offset = signed_immediate(instruction);
    let address = wrap32(left + offset);
    match opcode(instruction) {
        0x00 => register_operation(cpu, pc, instruction),
        0x01 => sign_branch_operation(cpu, pc, instruction),
        0x02 => Operation::Branch { target: jump_address(pc, instruction), link: None },
        0x03 => Operation::Branch { target: jump_address(pc, instruction), link: Some(31) },
        0x04 => branches(pc, offset, left == right),
        0x05 => branches(pc, offset, left != right),
        0x06 => branches(pc, offset, signed32(left) <= 0),
        0x07 => branches(pc, offset, signed32(left) > 0),
        0x08 => checked_operation(register, signed32(left) + offset),
        0x09 => writes(register, wrap32(left + offset)),
        0x0a => writes(
            register,
            if signed32(left) < offset {
                1
            } else {
                0
            },
        ),
        0x0b => writes(
            register,
            if left < wrap32(offset) {
                1
            } else {
                0
            },
        ),
        0x0c => writes(register, left & immediate(instruction)),
        0x0d => writes(register, left | immediate(instruction)),
        0x0e => writes(register, left ^ immediate(instruction)),
        0x0f => writes(register, (immediate(instruction) * 0x1_0000) as u32),
        0x10 => control_operation(cpu, instruction),
        0x11 | 0x12 | 0x13 | 0x30 | 0x31 | 0x32 | 0x33 | 0x38 | 0x39 | 0x3a | 0x3b =>
            Operation::Trap { exception: Exception::CoprocessorUnusable },
        0x20 => load_operation(LoadKind::SignedByte, register, address),
        0x21 => load_operation(LoadKind::SignedHalf, register, address),
        0x22 => load_operation(LoadKind::Left, register, address),
        0x23 => load_operation(LoadKind::Word, register, address),
        0x24 => load_operation(LoadKind::Byte, register, address),
        0x25 => load_operation(LoadKind::Half, register, address),
        0x26 => load_operation(LoadKind::Right, register, address),
        0x28 => store_operation(StoreKind::Byte, address, right),
        0x29 => store_operation(StoreKind::Half, address, right),
        0x2a => store_operation(StoreKind::Left, address, right),
        0x2b => store_operation(StoreKind::Word, address, right),
        0x2e => store_operation(StoreKind::Right, address, right),
        _ => Operation::Trap { exception: Exception::ReservedInstruction },
    }
}

} // verus!
