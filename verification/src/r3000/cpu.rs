//! Processor state and instruction retirement.

use vstd::prelude::*;

use crate::arrays::with;
use crate::r3000::bus::{AccessType, Bus, BusFault, CpuError};
use crate::bits::{from_i32, lemma_alignment, lemma_mips_fields, to_i16, to_i32, wrap32};
use crate::r3000::alu::{
    effective_address, function_field, immediate_field, opcode_field, rd_field, rs_field, rt_field,
    shift_amount_field, variable_amount,
    jump_target, load_left, load_right, multiply_signed, multiply_unsigned, shift_left,
    shift_right, shift_right_arithmetic, sign_extend, sign_extend_byte, sign_extend_half,
    signed_divide, store_left, store_right,
};
use crate::r3000::isa;
use crate::r3000::isa::{link_address, LoadKind, Operation, StoreKind};

verus! {

/// Branch-delay bit of the cause register.
pub const CAUSE_BD: u32 = 0x8000_0000;

/// External interrupt bit of the cause register.
pub const CAUSE_IP2: u32 = 0x400;

/// Bootstrap exception vector bit of the status register.
pub const STATUS_BEV: u32 = 0x40_0000;

/// The interrupt request bits of the cause register.
pub const INTERRUPTS: u32 = 0xff00;

/// The interrupt request bits that software sets.
pub const SOFTWARE_INTERRUPTS: u32 = 0x300;

/// Reset and exception-vector policy supplied by a machine profile.
#[derive(Clone, Copy, Debug, PartialEq, Eq, Structural)]
pub struct ResetProfile {
    /// Initial program counter.
    pub pc: u32,
    /// General exception vector when bootstrap vectors are disabled.
    pub exception_vector: u32,
    /// General exception vector when the COP0 `BEV` bit is set.
    pub bootstrap_exception_vector: u32,
    /// Initial COP0 status value.
    pub status: u32,
    /// Processor revision identifier returned by COP0 register 15.
    pub processor_id: u32,
}

impl Default for ResetProfile {
    fn default() -> (result: Self)
        ensures
            result == (ResetProfile {
                pc: 0xbfc0_0000,
                exception_vector: 0x8000_0080,
                bootstrap_exception_vector: 0xbfc0_0180,
                status: STATUS_BEV,
                processor_id: 2,
            }),
    {
        Self {
            pc: 0xbfc0_0000,
            exception_vector: 0x8000_0080,
            bootstrap_exception_vector: 0xbfc0_0180,
            status: STATUS_BEV,
            processor_id: 0x0000_0002,
        }
    }
}

/// Visibility of a completed load to the immediately following instruction.
#[derive(Clone, Copy, Debug, Default, PartialEq, Eq, Structural)]
pub enum LoadDelayMode {
    /// Preserve the R3000A architectural load-delay slot.
    #[default]
    Architectural,
    /// Make the loaded value visible after the load instruction completes.
    ///
    /// This models the interlocked behavior assumed by some emulator-oriented
    /// PSF driver executables while leaving the standalone CPU hardware-accurate
    /// by default.
    Interlocked,
}

/// Implemented architectural exception classes.
#[derive(Clone, Copy, Debug, PartialEq, Eq, Structural)]
pub enum Exception {
    /// Enabled interrupt request.
    Interrupt,
    /// Misaligned instruction or data load address.
    AddressLoad,
    /// Misaligned data store address.
    AddressStore,
    /// `syscall` instruction.
    Syscall,
    /// `break` instruction.
    Break,
    /// Unsupported or invalid instruction encoding.
    ReservedInstruction,
    /// Access to an unusable coprocessor.
    CoprocessorUnusable,
    /// Signed add/subtract overflow.
    Overflow,
}

impl Exception {
    /// The architectural exception code.
    pub open spec fn number(self) -> u32 {
        match self {
            Exception::Interrupt => 0,
            Exception::AddressLoad => 4,
            Exception::AddressStore => 5,
            Exception::Syscall => 8,
            Exception::Break => 9,
            Exception::ReservedInstruction => 10,
            Exception::CoprocessorUnusable => 11,
            Exception::Overflow => 12,
        }
    }

    fn code(self) -> (result: u32)
        ensures
            result == self.number(),
    {
        match self {
            Exception::Interrupt => 0,
            Exception::AddressLoad => 4,
            Exception::AddressStore => 5,
            Exception::Syscall => 8,
            Exception::Break => 9,
            Exception::ReservedInstruction => 10,
            Exception::CoprocessorUnusable => 11,
            Exception::Overflow => 12,
        }
    }
}

/// COP0 state exposed for machine diagnostics and tested HLE setup.
#[derive(Clone, Copy, Debug, PartialEq, Eq, Structural)]
pub struct Cop0 {
    /// Virtual address associated with the latest address exception.
    pub bad_vaddr: u32,
    /// Status register.
    pub status: u32,
    /// Cause register.
    pub cause: u32,
    /// Exception program counter.
    pub epc: u32,
    /// Processor revision identifier.
    pub processor_id: u32,
}

impl Default for Cop0 {
    fn default() -> (result: Self)
        ensures
            result == (Cop0 { bad_vaddr: 0, status: 0, cause: 0, epc: 0, processor_id: 0 }),
    {
        Self { bad_vaddr: 0, status: 0, cause: 0, epc: 0, processor_id: 0 }
    }
}

impl Cop0 {
    /// The implemented register with this number.
    pub open spec fn register(self, index: int) -> Option<u32> {
        if index == 8 {
            Some(self.bad_vaddr)
        } else if index == 12 {
            Some(self.status)
        } else if index == 13 {
            Some(self.cause)
        } else if index == 14 {
            Some(self.epc)
        } else if index == 15 {
            Some(self.processor_id)
        } else {
            None
        }
    }

    /// The registers after a write; only the two software interrupt bits of the
    /// cause register are writable.
    pub open spec fn replaced(self, index: int, value: u32) -> Option<Cop0> {
        if index == 8 {
            Some(Cop0 { bad_vaddr: value, ..self })
        } else if index == 12 {
            Some(Cop0 { status: value, ..self })
        } else if index == 13 {
            Some(Cop0 { cause: (self.cause & !0x300u32) | (value & 0x300), ..self })
        } else if index == 14 {
            Some(Cop0 { epc: value, ..self })
        } else {
            None
        }
    }

    /// The registers after a return from exception, which pops the mode stack.
    pub open spec fn returned(self) -> Cop0 {
        Cop0 { status: (self.status & !0x0fu32) | ((self.status >> 2) & 0x0f), ..self }
    }

    fn read(self, index: usize) -> (result: Option<u32>)
        ensures
            result == self.register(index as int),
    {
        match index {
            8 => Some(self.bad_vaddr),
            12 => Some(self.status),
            13 => Some(self.cause),
            14 => Some(self.epc),
            15 => Some(self.processor_id),
            _ => None,
        }
    }

    fn write(&mut self, index: usize, value: u32) -> (result: bool)
        ensures
            result == old(self).replaced(index as int, value) is Some,
            *final(self) == match old(self).replaced(index as int, value) {
                Some(cop0) => cop0,
                None => *old(self),
            },
    {
        match index {
            8 => {
                self.bad_vaddr = value;
            },
            12 => {
                self.status = value;
            },
            13 => {
                self.cause = (self.cause & !0x300u32) | (value & 0x300);
            },
            14 => {
                self.epc = value;
            },
            _ => {
                return false;
            },
        }
        true
    }
}

/// Observable event produced by one interpreter step.
#[derive(Clone, Copy, Debug, PartialEq, Eq, Structural)]
pub enum StepEvent {
    /// One instruction completed normally.
    Instruction,
    /// The CPU entered an exception vector.
    Exception(Exception),
}

/// Result of one bounded interpreter step.
#[derive(Clone, Copy, Debug, PartialEq, Eq, Structural)]
pub struct StepOutcome {
    /// Address at which the instruction was fetched or the exception recognized.
    pub pc: u32,
    /// Fetched instruction, or `None` for a pre-fetch interrupt/alignment trap.
    pub instruction: Option<u32>,
    /// Explicit nominal cycle charge.
    pub cycles: u32,
    /// Architectural event.
    pub event: StepEvent,
}

/// What an instruction asks for when it retires.
#[derive(Clone, Copy, Debug)]
pub struct Execution {
    /// Register written at once.
    pub register_write: Option<(usize, u32)>,
    /// Register written with the delay of a load.
    pub delayed_write: Option<(usize, u32)>,
    /// Address of the instruction after the delay slot.
    pub branch_target: Option<u32>,
    /// The next instruction is in a delay slot.
    pub is_branch: bool,
    /// Exception raised in place of retiring.
    pub exception: Option<Exception>,
    /// Address that the exception reports.
    pub bad_vaddr: Option<u32>,
    /// Nominal cycle charge.
    pub cycles: u32,
}

impl Execution {
    /// Nothing but one cycle.
    pub open spec fn plain() -> Execution {
        Execution {
            register_write: None,
            delayed_write: None,
            branch_target: None,
            is_branch: false,
            exception: None,
            bad_vaddr: None,
            cycles: 1,
        }
    }

    /// A load of `value`.
    pub open spec fn loading(register: u32, value: u32) -> Execution {
        Execution {
            delayed_write: Some((register as usize, value)),
            cycles: 2,
            ..Execution::plain()
        }
    }

    /// The registers that are named exist.
    pub open spec fn wf(self) -> bool {
        &&& self.register_write matches Some(write) ==> write.0 < 32
        &&& self.delayed_write matches Some(write) ==> write.0 < 32
    }

    fn new() -> (result: Self)
        ensures
            result == Execution::plain(),
    {
        Self {
            register_write: None,
            delayed_write: None,
            branch_target: None,
            is_branch: false,
            exception: None,
            bad_vaddr: None,
            cycles: 1,
        }
    }

    fn write(&mut self, register: usize, value: u32)
        ensures
            *final(self) == (Execution { register_write: Some((register, value)), ..*old(self) }),
    {
        self.register_write = Some((register, value));
    }

    fn load(&mut self, register: usize, value: u32)
        ensures
            *final(self) == (Execution {
                delayed_write: Some((register, value)),
                cycles: 2,
                ..*old(self)
            }),
    {
        self.delayed_write = Some((register, value));
        self.cycles = 2;
    }

    fn branch(&mut self, target: u32)
        ensures
            *final(self) == (Execution {
                is_branch: true,
                branch_target: Some(target),
                ..*old(self)
            }),
    {
        self.is_branch = true;
        self.branch_target = Some(target);
    }

    fn conditional_branch(&mut self, condition: bool, pc: u32, immediate: i16)
        ensures
            *final(self) == (Execution {
                is_branch: true,
                branch_target: Some(
                    isa::branch_target(condition, pc, immediate as int),
                ),
                ..*old(self)
            }),
    {
        proof {
            reveal(isa::branch_target);
        }
        self.is_branch = true;
        self.branch_target = Some(
            if condition {
                pc.wrapping_add(4).wrapping_add_signed(i32::from(immediate) * 4)
            } else {
                pc.wrapping_add(8)
            },
        );
    }

    fn address_exception(&mut self, exception: Exception, address: u32)
        ensures
            *final(self) == (Execution {
                exception: Some(exception),
                bad_vaddr: Some(address),
                ..*old(self)
            }),
    {
        self.exception = Some(exception);
        self.bad_vaddr = Some(address);
    }
}

/// Complete movable R3000 architectural state.
#[verifier::ext_equal]
#[derive(Clone, Debug, PartialEq, Eq)]
pub struct Cpu {
    pub registers: [u32; 32],
    pub hi: u32,
    pub lo: u32,
    pub pc: u32,
    pub next_pc: u32,
    pub delay_branch_pc: Option<u32>,
    pub pending_load: Option<(usize, u32)>,
    pub cop0: Cop0,
    pub profile: ResetProfile,
    pub load_delay_mode: LoadDelayMode,
}

impl Operation {
    /// Whether the operation reads or writes memory.
    pub open spec fn uses_bus(self) -> bool {
        self is Load || self is Store
    }

    /// What an operation that leaves the bus alone asks for when it retires.
    pub open spec fn execution(self, pc: u32) -> Execution {
        match self {
            Operation::Write { register, value } => Execution {
                register_write: Some((register as usize, value)),
                ..Execution::plain()
            },
            Operation::HiLo { hi: _, lo: _, cycles } => Execution { cycles, ..Execution::plain() },
            Operation::Branch { target, link } => Execution {
                register_write: match link {
                    Some(register) => Some((register as usize, link_address(pc))),
                    None => None,
                },
                branch_target: Some(target),
                is_branch: true,
                ..Execution::plain()
            },
            Operation::Trap { exception } => Execution {
                exception: Some(exception),
                ..Execution::plain()
            },
            Operation::AddressTrap { exception, address } => Execution {
                exception: Some(exception),
                bad_vaddr: Some(address),
                ..Execution::plain()
            },
            Operation::ControlLoad { register, value } => Execution::loading(register, value),
            _ => Execution::plain(),
        }
    }

    /// The state in which an operation that leaves the bus alone has been carried
    /// out but not retired.
    pub open spec fn applied(self, cpu: Cpu) -> Cpu {
        match self {
            Operation::HiLo { hi, lo, cycles: _ } => Cpu { hi, lo, ..cpu },
            Operation::Control { cop0 } => Cpu { cop0, ..cpu },
            _ => cpu,
        }
    }
}

/// A read of the width of `kind` may return `raw` and leave `after`.
pub open spec fn bus_read<B: Bus>(
    before: B,
    kind: LoadKind,
    address: u32,
    raw: Result<u32, BusFault>,
    after: B,
) -> bool {
    match kind {
        LoadKind::SignedByte | LoadKind::Byte => match raw {
            Ok(value) => value < 0x100 && B::byte_read(before, address, Ok(value as u8), after),
            Err(fault) => B::byte_read(before, address, Err(fault), after),
        },
        LoadKind::SignedHalf | LoadKind::Half => match raw {
            Ok(value) => value < 0x1_0000 && B::half_read(
                before,
                address,
                Ok(value as u16),
                after,
            ),
            Err(fault) => B::half_read(before, address, Err(fault), after),
        },
        _ => B::word_read(before, address, raw, after),
    }
}

/// A write of the low bytes of `value` of the width of `kind` may end as `done`.
pub open spec fn bus_written<B: Bus>(
    before: B,
    kind: StoreKind,
    address: u32,
    value: u32,
    done: Result<(), BusFault>,
    after: B,
) -> bool {
    match kind {
        StoreKind::Byte => B::byte_written(before, address, (value % 0x100) as u8, done, after),
        StoreKind::Half => B::half_written(before, address, (value % 0x1_0000) as u16, done, after),
        _ => B::word_written(before, address, value, done, after),
    }
}

/// The result of a write that ended as `done`.
pub open spec fn store_result(pc: u32, address: u32, done: Result<(), BusFault>) -> Result<
    Execution,
    CpuError,
> {
    match done {
        Ok(_) => Ok(Execution { cycles: 2, ..Execution::plain() }),
        Err(source) => Err(CpuError { pc, address, access: AccessType::Store, source }),
    }
}

/// A store of the width of `kind` may end as `result`.
pub open spec fn value_stored<B: Bus>(
    before: B,
    pc: u32,
    kind: StoreKind,
    address: u32,
    value: u32,
    result: Result<Execution, CpuError>,
    after: B,
) -> bool {
    exists|done: Result<(), BusFault>| #[trigger]
        bus_written(before, kind, address, value, done, after) && result == store_result(
            pc,
            address,
            done,
        )
}

/// A store that replaces some bytes of a word may end as `result`: it reads the
/// word, then writes it back merged with `value`.
pub open spec fn word_merged<B: Bus>(
    before: B,
    pc: u32,
    kind: StoreKind,
    address: u32,
    value: u32,
    result: Result<Execution, CpuError>,
    after: B,
) -> bool {
    let aligned = (address - address % 4) as u32;
    ||| exists|fault: BusFault| #[trigger]
        B::word_read(before, aligned, Err(fault), after) && result == Err::<Execution, CpuError>(
            CpuError { pc, address: aligned, access: AccessType::Load, source: fault },
        )
    ||| exists|word: u32, between: B, done: Result<(), BusFault>|
        #![trigger B::word_read(before, aligned, Ok(word), between), B::word_written(
            between,
            aligned,
            kind.merged(word, value, address),
            done,
            after,
        )]
        B::word_read(before, aligned, Ok(word), between) && B::word_written(
            between,
            aligned,
            kind.merged(word, value, address),
            done,
            after,
        ) && result == store_result(pc, aligned, done)
}

/// Carrying out `instruction` in the state `cpu` may end as `result` and leave
/// `cpu_after` and `after`.
pub open spec fn executed<B: Bus>(
    cpu: Cpu,
    before: B,
    pc: u32,
    instruction: u32,
    result: Result<Execution, CpuError>,
    cpu_after: Cpu,
    after: B,
) -> bool {
    let operation = crate::r3000::isa::operation(cpu, pc, instruction);
    match operation {
        Operation::Load { kind, register, address } => {
            &&& cpu_after == cpu
            &&& exists|raw: Result<u32, BusFault>| #[trigger]
                bus_read(before, kind, kind.bus_address(address), raw, after) && result
                    == match raw {
                    Ok(value) => Ok::<Execution, CpuError>(
                        Execution::loading(
                            register,
                            kind.value(value, cpu.load_base(register), address),
                        ),
                    ),
                    Err(source) => Err(
                        CpuError {
                            pc,
                            address: kind.bus_address(address),
                            access: AccessType::Load,
                            source,
                        },
                    ),
                }
        },
        Operation::Store { form, address, value } => {
            &&& cpu_after == cpu
            &&& if form.merges() {
                word_merged(before, pc, form, address, value, result, after)
            } else {
                value_stored(before, pc, form, address, value, result, after)
            }
        },
        _ => {
            &&& cpu_after == operation.applied(cpu)
            &&& after == before
            &&& result == Ok::<Execution, CpuError>(operation.execution(pc))
        },
    }
}

/// `registers` after a write; register zero stays as it is.
pub open spec fn register_written(registers: [u32; 32], index: int, value: u32) -> [u32; 32] {
    if index == 0 {
        registers
    } else {
        with(registers, index, value)
    }
}

impl Cpu {
    /// Register zero reads as zero and a pending load names a register.
    pub open spec fn wf(self) -> bool {
        &&& self.registers@[0] == 0
        &&& self.pending_load matches Some(load) ==> load.0 < 32
    }

    /// Reset state.
    pub open spec fn at_reset(self, profile: ResetProfile, load_delay_mode: LoadDelayMode) -> bool {
        &&& self.wf()
        &&& forall|i: int| 0 <= i < 32 ==> #[trigger] self.registers@[i] == 0
        &&& self.hi == 0
        &&& self.lo == 0
        &&& self.pc == profile.pc
        &&& self.next_pc == wrap32(profile.pc + 4)
        &&& self.delay_branch_pc is None
        &&& self.pending_load is None
        &&& self.cop0 == (Cop0 {
            bad_vaddr: 0,
            status: profile.status,
            cause: 0,
            epc: 0,
            processor_id: profile.processor_id,
        })
        &&& self.profile == profile
        &&& self.load_delay_mode == load_delay_mode
    }

    /// The value that an unaligned load merges into: a load still in flight to the
    /// same register counts.
    pub open spec fn load_base(self, register: u32) -> u32 {
        match self.pending_load {
            Some((pending, value)) => if pending == register {
                value
            } else {
                self.registers@[register as int]
            },
            None => self.registers@[register as int],
        }
    }

    /// The registers once the load in flight has landed.
    pub open spec fn landed(self) -> [u32; 32] {
        match self.pending_load {
            Some((register, value)) => register_written(self.registers, register as int, value),
            None => self.registers,
        }
    }

    /// The state after the load in flight and then `write` reach the registers.
    pub open spec fn committed(self, write: Option<(usize, u32)>) -> Cpu {
        Cpu {
            registers: match write {
                Some((register, value)) => register_written(self.landed(), register as int, value),
                None => self.landed(),
            },
            pending_load: None,
            ..self
        }
    }

    /// The state with the external interrupt line latched.
    pub open spec fn sampled(self, pending: bool) -> Cpu {
        Cpu {
            cop0: Cop0 {
                cause: if pending {
                    self.cop0.cause | CAUSE_IP2
                } else {
                    self.cop0.cause & !CAUSE_IP2
                },
                ..self.cop0
            },
            ..self
        }
    }

    /// Interrupts are enabled and one of those in `mask` is requested.
    pub open spec fn interrupt_due(self, mask: u32) -> bool {
        self.cop0.status & 1 != 0 && self.cop0.status & self.cop0.cause & mask != 0
    }

    /// The system control registers after an exception at `pc`: a delay slot is
    /// reported by its branch, and the mode stack is pushed.
    pub open spec fn cop0_trapped(
        self,
        exception: Exception,
        pc: u32,
        bad_vaddr: Option<u32>,
    ) -> Cop0 {
        let kept = (self.cop0.cause & !(0x7c | CAUSE_BD)) | (exception.number() << 2);
        Cop0 {
            bad_vaddr: match bad_vaddr {
                Some(address) => address,
                None => self.cop0.bad_vaddr,
            },
            status: (self.cop0.status & !0x3fu32) | ((self.cop0.status << 2) & 0x3f),
            cause: if self.delay_branch_pc is Some {
                kept | CAUSE_BD
            } else {
                kept
            },
            epc: match self.delay_branch_pc {
                Some(branch_pc) => branch_pc,
                None => pc,
            },
            processor_id: self.cop0.processor_id,
        }
    }

    /// Where exceptions lead under `status`.
    pub open spec fn vector(self, status: u32) -> u32 {
        if status & STATUS_BEV != 0 {
            self.profile.bootstrap_exception_vector
        } else {
            self.profile.exception_vector
        }
    }

    /// The state after an exception at `pc`.
    pub open spec fn trapped(self, exception: Exception, pc: u32, bad_vaddr: Option<u32>) -> Cpu {
        let cop0 = self.cop0_trapped(exception, pc, bad_vaddr);
        let vector = self.vector(cop0.status);
        Cpu {
            registers: self.landed(),
            pc: vector,
            next_pc: wrap32(vector + 4),
            delay_branch_pc: None,
            pending_load: None,
            cop0,
            ..self
        }
    }

    /// The registers after `execution` retires.
    pub open spec fn registers_retired(self, execution: Execution) -> [u32; 32] {
        let settled = self.committed(execution.register_write).registers;
        match execution.delayed_write {
            Some((register, value)) => if self.load_delay_mode == LoadDelayMode::Interlocked {
                register_written(settled, register as int, value)
            } else {
                settled
            },
            None => settled,
        }
    }

    /// The state after `execution` of the instruction at the current address
    /// retires normally.
    pub open spec fn retired(self, execution: Execution) -> Cpu {
        Cpu {
            registers: self.registers_retired(execution),
            pc: self.next_pc,
            next_pc: match execution.branch_target {
                Some(target) => target,
                None => wrap32(self.next_pc + 4),
            },
            delay_branch_pc: if execution.is_branch {
                Some(self.pc)
            } else {
                None
            },
            pending_load: if self.load_delay_mode == LoadDelayMode::Interlocked {
                None
            } else {
                execution.delayed_write
            },
            ..self
        }
    }

    /// The state after `execution` retires or traps.
    pub open spec fn completed(self, execution: Execution) -> Cpu {
        match execution.exception {
            Some(exception) => self.trapped(exception, self.pc, execution.bad_vaddr),
            None => self.retired(execution),
        }
    }

    /// What is reported of `execution` of `instruction`.
    pub open spec fn outcome(self, instruction: u32, execution: Execution) -> StepOutcome {
        StepOutcome {
            pc: self.pc,
            instruction: Some(instruction),
            cycles: execution.cycles,
            event: match execution.exception {
                Some(exception) => StepEvent::Exception(exception),
                None => StepEvent::Instruction,
            },
        }
    }

    /// What is reported of an exception before the fetch.
    pub open spec fn unfetched(self, exception: Exception) -> StepOutcome {
        StepOutcome {
            pc: self.pc,
            instruction: None,
            cycles: 1,
            event: StepEvent::Exception(exception),
        }
    }

    /// Fetching and carrying out the instruction at the current address may end as
    /// `result`. A bus failure leaves the processor as it was.
    pub open spec fn fetched<B: Bus>(
        self,
        before: B,
        result: Result<StepOutcome, CpuError>,
        cpu_after: Cpu,
        after: B,
    ) -> bool {
        ||| exists|fault: BusFault| #[trigger]
            B::word_read(before, self.pc, Err(fault), after) && cpu_after == self && result == Err::<
                StepOutcome,
                CpuError,
            >(
                CpuError {
                    pc: self.pc,
                    address: self.pc,
                    access: AccessType::Instruction,
                    source: fault,
                },
            )
        ||| exists|
            instruction: u32,
            between: B,
            done: Result<Execution, CpuError>,
            carried_out: Cpu,
        |
            #![trigger B::word_read(before, self.pc, Ok(instruction), between), executed(
                self,
                between,
                self.pc,
                instruction,
                done,
                carried_out,
                after,
            )]
            B::word_read(before, self.pc, Ok(instruction), between) && executed(
                self,
                between,
                self.pc,
                instruction,
                done,
                carried_out,
                after,
            ) && match done {
                Ok(execution) => cpu_after == carried_out.completed(execution) && result == Ok::<
                    StepOutcome,
                    CpuError,
                >(carried_out.outcome(instruction, execution)),
                Err(error) => cpu_after == self && result == Err::<StepOutcome, CpuError>(error),
            }
    }

    /// One step with the interrupts in `mask` recognized may end as `result`.
    pub open spec fn advanced<B: Bus>(
        self,
        mask: u32,
        before: B,
        result: Result<StepOutcome, CpuError>,
        cpu_after: Cpu,
        after: B,
    ) -> bool {
        if self.interrupt_due(mask) {
            &&& cpu_after == self.trapped(Exception::Interrupt, self.pc, None)
            &&& after == before
            &&& result == Ok::<StepOutcome, CpuError>(self.unfetched(Exception::Interrupt))
        } else if self.pc % 4 != 0 {
            &&& cpu_after == self.trapped(Exception::AddressLoad, self.pc, Some(self.pc))
            &&& after == before
            &&& result == Ok::<StepOutcome, CpuError>(self.unfetched(Exception::AddressLoad))
        } else {
            self.fetched(before, result, cpu_after, after)
        }
    }

    /// One step that samples the external interrupt line may end as `result`.
    pub open spec fn stepped<B: Bus>(
        self,
        before: B,
        result: Result<StepOutcome, CpuError>,
        cpu_after: Cpu,
        after: B,
    ) -> bool {
        exists|pending: bool| #[trigger]
            before.line_sampled(pending) && self.sampled(pending).advanced(
                INTERRUPTS,
                before,
                result,
                cpu_after,
                after,
            )
    }
}

/// An access error with the fault of `error`.
spec fn access_error(pc: u32, address: u32, access: AccessType, error: CpuError) -> CpuError {
    CpuError { pc, address, access, source: error.source }
}

spec fn load_raw8(result: Result<u8, CpuError>) -> Result<u32, BusFault> {
    match result {
        Ok(value) => Ok(value as u32),
        Err(error) => Err(error.source),
    }
}

spec fn load_raw16(result: Result<u16, CpuError>) -> Result<u32, BusFault> {
    match result {
        Ok(value) => Ok(value as u32),
        Err(error) => Err(error.source),
    }
}

spec fn load_raw32(result: Result<u32, CpuError>) -> Result<u32, BusFault> {
    match result {
        Ok(value) => Ok(value),
        Err(error) => Err(error.source),
    }
}

spec fn store_done(result: Result<(), CpuError>) -> Result<(), BusFault> {
    match result {
        Ok(done) => Ok(done),
        Err(error) => Err(error.source),
    }
}

impl Cpu {
    /// Constructs reset state for a machine profile.
    pub fn new(profile: ResetProfile) -> (result: Self)
        ensures
            result.at_reset(profile, LoadDelayMode::Architectural),
    {
        Self::with_load_delay_mode(profile, LoadDelayMode::Architectural)
    }

    /// Constructs reset state with an explicit load-delay policy.
    pub fn with_load_delay_mode(
        profile: ResetProfile,
        load_delay_mode: LoadDelayMode,
    ) -> (result: Self)
        ensures
            result.at_reset(profile, load_delay_mode),
    {
        Self {
            registers: [0u32;32],
            hi: 0,
            lo: 0,
            pc: profile.pc,
            next_pc: profile.pc.wrapping_add(4),
            delay_branch_pc: None,
            pending_load: None,
            cop0: Cop0 {
                bad_vaddr: 0,
                status: profile.status,
                cause: 0,
                epc: 0,
                processor_id: profile.processor_id,
            },
            profile,
            load_delay_mode,
        }
    }

    /// Restores architectural reset state.
    pub fn reset(&mut self)
        ensures
            final(self).at_reset(old(self).profile, old(self).load_delay_mode),
    {
        *self = Self::with_load_delay_mode(self.profile, self.load_delay_mode);
    }

    /// Returns a general-purpose register; register zero is always zero.
    pub fn register(&self, index: usize) -> (result: Option<u32>)
        ensures
            result == if index < 32 {
                Some(self.registers@[index as int])
            } else {
                None
            },
            self.wf() && index == 0 ==> result == Some(0u32),
    {
        if index < 32 {
            Some(self.registers[index])
        } else {
            None
        }
    }

    /// Sets a general-purpose register for machine initialization.
    ///
    /// Writes to register zero are ignored. An out-of-range index returns false.
    pub fn set_register(&mut self, index: usize, value: u32) -> (result: bool)
        ensures
            result == (index < 32),
            *final(self) == if index < 32 {
                Cpu {
                    registers: register_written(old(self).registers, index as int, value),
                    ..*old(self)
                }
            } else {
                *old(self)
            },
            old(self).wf() ==> final(self).wf(),
    {
        if index >= 32 {
            return false;
        }
        self.write_register(index, value);
        true
    }

    /// Returns the current instruction address.
    pub fn pc(&self) -> (result: u32)
        ensures
            result == self.pc,
    {
        self.pc
    }

    /// Sets the current instruction address and clears pipeline delays.
    pub fn set_pc(&mut self, pc: u32)
        ensures
            *final(self) == (Cpu {
                pc,
                next_pc: wrap32(pc + 4),
                delay_branch_pc: None,
                pending_load: None,
                ..*old(self)
            }),
            final(self).next_pc == (pc + 4) % 0x1_0000_0000,
            old(self).wf() ==> final(self).wf(),
    {
        self.pc = pc;
        self.next_pc = pc.wrapping_add(4);
        self.delay_branch_pc = None;
        self.pending_load = None;
    }

    /// Returns the HI multiply/divide register.
    pub fn hi(&self) -> (result: u32)
        ensures
            result == self.hi,
    {
        self.hi
    }

    /// Returns the LO multiply/divide register.
    pub fn lo(&self) -> (result: u32)
        ensures
            result == self.lo,
    {
        self.lo
    }

    /// Replaces the multiply/divide result registers for an HLE context switch.
    pub fn set_hi_lo(&mut self, hi: u32, lo: u32)
        ensures
            *final(self) == (Cpu { hi, lo, ..*old(self) }),
    {
        self.hi = hi;
        self.lo = lo;
    }

    /// Returns COP0 state.
    pub fn cop0(&self) -> (result: &Cop0)
        ensures
            *result == self.cop0,
    {
        &self.cop0
    }

    /// Returns mutable COP0 state for machine reset/HLE initialization.
    pub fn cop0_mut(&mut self) -> (result: &mut Cop0)
        ensures
            *result == old(self).cop0,
            *final(self) == (Cpu { cop0: *final(result), ..*old(self) }),
    {
        &mut self.cop0
    }

    /// Executes at most one instruction or recognizes one interrupt.
    ///
    /// Returns [`CpuError`] only for a machine bus failure. Architectural traps
    /// enter the configured exception vector and are returned in [`StepOutcome`].
    pub fn step<B: Bus>(&mut self, bus: &mut B) -> (result: Result<StepOutcome, CpuError>)
        requires
            old(self).wf(),
        ensures
            final(self).wf(),
            old(self).stepped(*old(bus), result, *final(self), *final(bus)),
    {
        self.step_inner(bus, true)
    }

    /// Executes one instruction without sampling the external interrupt line.
    ///
    /// Machine profiles that route interrupts through HLE can use this entry
    /// point to avoid redundant external interrupt checks on every instruction.
    /// Software interrupts and all instruction-raised exceptions remain
    /// architectural.
    ///
    /// Returns [`CpuError`] only for a machine bus failure. Architectural traps
    /// enter the configured exception vector and are returned in [`StepOutcome`].
    pub fn step_without_external_interrupts<B: Bus>(&mut self, bus: &mut B) -> (result: Result<
        StepOutcome,
        CpuError,
    >)
        requires
            old(self).wf(),
        ensures
            final(self).wf(),
            old(self).advanced(
                SOFTWARE_INTERRUPTS,
                *old(bus),
                result,
                *final(self),
                *final(bus),
            ),
    {
        self.step_inner(bus, false)
    }

    fn step_inner<B: Bus>(
        &mut self,
        bus: &mut B,
        sample_external_interrupt: bool,
    ) -> (result: Result<StepOutcome, CpuError>)
        requires
            old(self).wf(),
        ensures
            final(self).wf(),
            sample_external_interrupt ==> old(self).stepped(
                *old(bus),
                result,
                *final(self),
                *final(bus),
            ),
            !sample_external_interrupt ==> old(self).advanced(
                SOFTWARE_INTERRUPTS,
                *old(bus),
                result,
                *final(self),
                *final(bus),
            ),
    {
        let mut mask: u32 = SOFTWARE_INTERRUPTS;
        if sample_external_interrupt {
            let pending = bus.interrupt_pending();
            self.update_interrupt_line(pending);
            mask = INTERRUPTS;
        }
        let ghost start = *self;
        let ghost bus_start = *bus;
        let current_pc: u32 = self.pc;
        if self.interrupt_enabled(mask) {
            self.commit_old_load(None);
            self.enter_exception(Exception::Interrupt, current_pc, None);
            return Ok(
                StepOutcome {
                    pc: current_pc,
                    instruction: None,
                    cycles: 1,
                    event: StepEvent::Exception(Exception::Interrupt),
                },
            );
        }
        proof {
            lemma_alignment(current_pc);
        }
        if current_pc & 3 != 0 {
            self.commit_old_load(None);
            self.enter_exception(Exception::AddressLoad, current_pc, Some(current_pc));
            return Ok(
                StepOutcome {
                    pc: current_pc,
                    instruction: None,
                    cycles: 1,
                    event: StepEvent::Exception(Exception::AddressLoad),
                },
            );
        }
        let instruction: u32 = match bus.read_u32(current_pc) {
            Ok(instruction) => instruction,
            Err(source) => {
                return Err(
                    CpuError {
                        pc: current_pc,
                        address: current_pc,
                        access: AccessType::Instruction,
                        source,
                    },
                );
            },
        };
        let ghost bus_fetched = *bus;
        let done = self.execute(bus, current_pc, instruction);
        let ghost carried_out = *self;
        proof {
            assert(B::word_read(bus_start, start.pc, Ok(instruction), bus_fetched));
            assert(executed(start, bus_fetched, start.pc, instruction, done, carried_out, *bus));
        }
        let execution = match done {
            Ok(execution) => execution,
            Err(error) => {
                return Err(error);
            },
        };
        let cycles: u32 = execution.cycles;
        match execution.exception {
            Some(exception) => {
                self.commit_old_load(None);
                self.enter_exception(exception, current_pc, execution.bad_vaddr);
                Ok(
                    StepOutcome {
                        pc: current_pc,
                        instruction: Some(instruction),
                        cycles,
                        event: StepEvent::Exception(exception),
                    },
                )
            },
            None => {
                self.retire(execution);
                Ok(
                    StepOutcome {
                        pc: current_pc,
                        instruction: Some(instruction),
                        cycles,
                        event: StepEvent::Instruction,
                    },
                )
            },
        }
    }

    fn retire(&mut self, execution: Execution)
        requires
            old(self).wf(),
            execution.wf(),
        ensures
            final(self).wf(),
            *final(self) == old(self).retired(execution),
    {
        let current_pc: u32 = self.pc;
        self.commit_old_load(execution.register_write);
        match self.load_delay_mode {
            LoadDelayMode::Architectural => {
                self.pending_load = execution.delayed_write;
            },
            LoadDelayMode::Interlocked => {
                if let Some((register, value)) = execution.delayed_write {
                    self.write_register(register, value);
                }
                self.pending_load = None;
            },
        }
        let sequential: u32 = self.next_pc;
        self.pc = sequential;
        self.next_pc = match execution.branch_target {
            Some(target) => target,
            None => sequential.wrapping_add(4),
        };
        self.delay_branch_pc = if execution.is_branch {
            Some(current_pc)
        } else {
            None
        };
    }

    fn execute<B: Bus>(&mut self, bus: &mut B, pc: u32, instruction: u32) -> (result: Result<
        Execution,
        CpuError,
    >)
        requires
            old(self).wf(),
        ensures
            executed(*old(self), *old(bus), pc, instruction, result, *final(self), *final(bus)),
            final(self).wf(),
            final(self).pc == old(self).pc,
            result is Err ==> *final(self) == *old(self),
            result matches Ok(execution) ==> execution.wf(),
    {
        match opcode_field(instruction) {
            0x00 => Ok(self.execute_register(pc, instruction)),
            0x10 => Ok(self.execute_cop0(pc, instruction)),
            0x20..=0x26 => self.execute_load(bus, pc, instruction),
            0x28..=0x2b | 0x2e => self.execute_store(bus, pc, instruction),
            0x01..=0x07 => Ok(self.execute_branch(pc, instruction)),
            _ => Ok(self.execute_immediate(pc, instruction)),
        }
    }

    /// Carries out a register instruction.
    fn execute_register(&mut self, pc: u32, instruction: u32) -> (result: Execution)
        requires
            old(self).wf(),
        ensures
            result == isa::register_operation(*old(self), pc, instruction).execution(pc),
            *final(self) == isa::register_operation(*old(self), pc, instruction).applied(
                *old(self),
            ),
            !isa::register_operation(*old(self), pc, instruction).uses_bus(),
            final(self).wf(),
            final(self).pc == old(self).pc,
            result.wf(),
    {
        match function_field(instruction) {
            0x00..=0x0d => self.execute_shift_or_jump(pc, instruction),
            0x10..=0x1b => self.execute_hi_lo(pc, instruction),
            _ => self.execute_arithmetic(pc, instruction),
        }
    }

    /// Carries out a shift, a register jump or a system call.
    fn execute_shift_or_jump(&self, pc: u32, instruction: u32) -> (result: Execution)
        requires
            self.wf(),
            isa::function(instruction) <= 0x0d,
        ensures
            result == isa::register_operation(*self, pc, instruction).execution(pc),
            *self == isa::register_operation(*self, pc, instruction).applied(*self),
            !isa::register_operation(*self, pc, instruction).uses_bus(),
            result.wf(),
    {
        proof {
            reveal(isa::register_operation);
        }
        let left: u32 = self.registers[rs_field(instruction) as usize];
        let right: u32 = self.registers[rt_field(instruction) as usize];
        let rd: usize = rd_field(instruction) as usize;
        let shift: u32 = shift_amount_field(instruction);
        let variable: u32 = variable_amount(left);
        let mut result = Execution::new();
        match function_field(instruction) {
            0x00 => result.write(rd, shift_left(right, shift)),
            0x02 => result.write(rd, shift_right(right, shift)),
            0x03 => result.write(rd, shift_right_arithmetic(right, shift)),
            0x04 => result.write(rd, shift_left(right, variable)),
            0x06 => result.write(rd, shift_right(right, variable)),
            0x07 => result.write(rd, shift_right_arithmetic(right, variable)),
            0x08 => result.branch(left),
            0x09 => {
                result.write(rd, pc.wrapping_add(8));
                result.branch(left);
            },
            0x0c => {
                result.exception = Some(Exception::Syscall);
            },
            0x0d => {
                result.exception = Some(Exception::Break);
            },
            _ => {
                result.exception = Some(Exception::ReservedInstruction);
            },
        }
        result
    }

    /// Carries out a multiplication, a division or a move of their results.
    fn execute_hi_lo(&mut self, pc: u32, instruction: u32) -> (result: Execution)
        requires
            old(self).wf(),
            0x10 <= isa::function(instruction) <= 0x1b,
        ensures
            result == isa::register_operation(*old(self), pc, instruction).execution(pc),
            *final(self) == isa::register_operation(*old(self), pc, instruction).applied(
                *old(self),
            ),
            !isa::register_operation(*old(self), pc, instruction).uses_bus(),
            final(self).wf(),
            final(self).pc == old(self).pc,
            result.wf(),
    {
        proof {
            reveal(isa::register_operation);
        }
        let left: u32 = self.registers[rs_field(instruction) as usize];
        let right: u32 = self.registers[rt_field(instruction) as usize];
        let rd: usize = rd_field(instruction) as usize;
        let mut result = Execution::new();
        match function_field(instruction) {
            0x10 => result.write(rd, self.hi),
            0x11 => {
                self.hi = left;
            },
            0x12 => result.write(rd, self.lo),
            0x13 => {
                self.lo = left;
            },
            0x18 => {
                let (high, low) = multiply_signed(left, right);
                self.hi = high;
                self.lo = low;
                result.cycles = 6;
            },
            0x19 => {
                let (high, low) = multiply_unsigned(left, right);
                self.hi = high;
                self.lo = low;
                result.cycles = 6;
            },
            0x1a => {
                signed_divide(left, right, &mut self.hi, &mut self.lo);
                result.cycles = 10;
            },
            0x1b => {
                if right == 0 {
                    self.hi = left;
                    self.lo = u32::MAX;
                } else {
                    self.hi = left % right;
                    self.lo = left / right;
                }
                result.cycles = 10;
            },
            _ => {
                result.exception = Some(Exception::ReservedInstruction);
            },
        }
        result
    }

    /// Carries out an addition, a subtraction, a comparison or a logical operation.
    fn execute_arithmetic(&self, pc: u32, instruction: u32) -> (result: Execution)
        requires
            self.wf(),
            isa::function(instruction) > 0x1b || isa::function(instruction) == 0x0e
                || isa::function(instruction) == 0x0f,
        ensures
            result == isa::register_operation(*self, pc, instruction).execution(pc),
            *self == isa::register_operation(*self, pc, instruction).applied(*self),
            !isa::register_operation(*self, pc, instruction).uses_bus(),
            result.wf(),
    {
        proof {
            reveal(isa::register_operation);
        }
        let left: u32 = self.registers[rs_field(instruction) as usize];
        let right: u32 = self.registers[rt_field(instruction) as usize];
        let rd: usize = rd_field(instruction) as usize;
        let mut result = Execution::new();
        match function_field(instruction) {
            0x20 => match to_i32(left).checked_add(to_i32(right)) {
                Some(value) => result.write(rd, from_i32(value)),
                None => {
                    result.exception = Some(Exception::Overflow);
                },
            },
            0x21 => result.write(rd, left.wrapping_add(right)),
            0x22 => match to_i32(left).checked_sub(to_i32(right)) {
                Some(value) => result.write(rd, from_i32(value)),
                None => {
                    result.exception = Some(Exception::Overflow);
                },
            },
            0x23 => result.write(rd, left.wrapping_sub(right)),
            0x24 => result.write(rd, left & right),
            0x25 => result.write(rd, left | right),
            0x26 => result.write(rd, left ^ right),
            0x27 => result.write(rd, !(left | right)),
            0x2a => result.write(
                rd,
                if to_i32(left) < to_i32(right) {
                    1
                } else {
                    0
                },
            ),
            0x2b => result.write(
                rd,
                if left < right {
                    1
                } else {
                    0
                },
            ),
            _ => {
                result.exception = Some(Exception::ReservedInstruction);
            },
        }
        result
    }

    /// Carries out a jump or a branch.
    fn execute_branch(&self, pc: u32, instruction: u32) -> (result: Execution)
        requires
            self.wf(),
            1 <= isa::opcode(instruction) <= 7,
        ensures
            result == isa::operation(*self, pc, instruction).execution(pc),
            *self == isa::operation(*self, pc, instruction).applied(*self),
            !isa::operation(*self, pc, instruction).uses_bus(),
            result.wf(),
    {
        proof {
            reveal(isa::sign_branch_operation);
        }
        let left: u32 = self.registers[rs_field(instruction) as usize];
        let rt: usize = rt_field(instruction) as usize;
        let right: u32 = self.registers[rt];
        let signed_immediate: i16 = to_i16(immediate_field(instruction));
        let mut result = Execution::new();
        match opcode_field(instruction) {
            0x01 => {
                let condition = match rt {
                    0x00 => to_i32(left) < 0,
                    0x01 => to_i32(left) >= 0,
                    0x10 => {
                        result.write(31, pc.wrapping_add(8));
                        to_i32(left) < 0
                    },
                    0x11 => {
                        result.write(31, pc.wrapping_add(8));
                        to_i32(left) >= 0
                    },
                    _ => {
                        result.exception = Some(Exception::ReservedInstruction);
                        false
                    },
                };
                if result.exception.is_none() {
                    result.conditional_branch(condition, pc, signed_immediate);
                }
            },
            0x02 => result.branch(jump_target(pc, instruction)),
            0x03 => {
                result.write(31, pc.wrapping_add(8));
                result.branch(jump_target(pc, instruction));
            },
            0x04 => result.conditional_branch(left == right, pc, signed_immediate),
            0x05 => result.conditional_branch(left != right, pc, signed_immediate),
            0x06 => result.conditional_branch(to_i32(left) <= 0, pc, signed_immediate),
            _ => result.conditional_branch(to_i32(left) > 0, pc, signed_immediate),
        }
        result
    }

    /// Carries out an instruction with an immediate operand, or traps.
    fn execute_immediate(&self, pc: u32, instruction: u32) -> (result: Execution)
        requires
            self.wf(),
            isa::opcode(instruction) > 7,
            isa::opcode(instruction) != 0x10,
            !(0x20 <= isa::opcode(instruction) <= 0x26),
            !(0x28 <= isa::opcode(instruction) <= 0x2b),
            isa::opcode(instruction) != 0x2e,
        ensures
            result == isa::operation(*self, pc, instruction).execution(pc),
            *self == isa::operation(*self, pc, instruction).applied(*self),
            !isa::operation(*self, pc, instruction).uses_bus(),
            result.wf(),
    {
        let left: u32 = self.registers[rs_field(instruction) as usize];
        let rt: usize = rt_field(instruction) as usize;
        let immediate: u16 = immediate_field(instruction);
        let signed_immediate: i16 = to_i16(immediate);
        let mut result = Execution::new();
        match opcode_field(instruction) {
            0x08 => match to_i32(left).checked_add(i32::from(signed_immediate)) {
                Some(value) => result.write(rt, from_i32(value)),
                None => {
                    result.exception = Some(Exception::Overflow);
                },
            },
            0x09 => result.write(rt, left.wrapping_add_signed(i32::from(signed_immediate))),
            0x0a => result.write(
                rt,
                if to_i32(left) < i32::from(signed_immediate) {
                    1
                } else {
                    0
                },
            ),
            0x0b => result.write(
                rt,
                if left < sign_extend(signed_immediate) {
                    1
                } else {
                    0
                },
            ),
            0x0c => result.write(rt, left & u32::from(immediate)),
            0x0d => result.write(rt, left | u32::from(immediate)),
            0x0e => result.write(rt, left ^ u32::from(immediate)),
            0x0f => result.write(rt, u32::from(immediate) * 0x1_0000),
            0x11..=0x13 | 0x30..=0x33 | 0x38..=0x3b => {
                result.exception = Some(Exception::CoprocessorUnusable);
            },
            _ => {
                result.exception = Some(Exception::ReservedInstruction);
            },
        }
        result
    }

    fn execute_cop0(&mut self, pc: u32, instruction: u32) -> (result: Execution)
        requires
            old(self).wf(),
        ensures
            result == isa::control_operation(*old(self), instruction).execution(pc),
            *final(self) == isa::control_operation(*old(self), instruction).applied(*old(self)),
            !isa::control_operation(*old(self), instruction).uses_bus(),
            final(self).wf(),
            final(self).pc == old(self).pc,
            result.wf(),
    {
        proof {
            reveal(isa::control_operation);
        }
        let rt: usize = rt_field(instruction) as usize;
        let rd: usize = rd_field(instruction) as usize;
        let mut result = Execution::new();
        match rs_field(instruction) {
            0x00 => match self.cop0.read(rd) {
                Some(value) => result.load(rt, value),
                None => {
                    result.exception = Some(Exception::ReservedInstruction);
                },
            },
            0x04 => {
                let value: u32 = self.registers[rt];
                if !self.cop0.write(rd, value) {
                    result.exception = Some(Exception::ReservedInstruction);
                }
            },
            0x10 => if function_field(instruction) == 0x10 {
                self.cop0.status = (self.cop0.status & !0x0fu32) | ((self.cop0.status >> 2) & 0x0f);
            } else {
                result.exception = Some(Exception::ReservedInstruction);
            },
            _ => {
                result.exception = Some(Exception::ReservedInstruction);
            },
        }
        result
    }

    /// Carries out a load.
    fn execute_load<B: Bus>(&self, bus: &mut B, pc: u32, instruction: u32) -> (result: Result<
        Execution,
        CpuError,
    >)
        requires
            self.wf(),
            0x20 <= isa::opcode(instruction) <= 0x26,
        ensures
            executed(*self, *old(bus), pc, instruction, result, *self, *final(bus)),
            result matches Ok(execution) ==> execution.wf(),
    {
        proof {
            reveal(LoadKind::value);
        }
        let left: u32 = self.registers[rs_field(instruction) as usize];
        let rt: usize = rt_field(instruction) as usize;
        let address: u32 = effective_address(left, instruction);
        let aligned: u32 = address & 0xffff_fffc;
        proof {
            lemma_alignment(address);
        }
        let base: u32 = self.merge_base(rt);
        let mut result = Execution::new();
        match opcode_field(instruction) {
            0x20 => match Self::load_u8(bus, pc, address) {
                Ok(value) => result.load(rt, sign_extend_byte(value, base, address)),
                Err(error) => {
                    return Err(error);
                },
            },
            0x21 => if address & 1 != 0 {
                result.address_exception(Exception::AddressLoad, address);
            } else {
                match Self::load_u16(bus, pc, address) {
                    Ok(value) => result.load(rt, sign_extend_half(value, base, address)),
                    Err(error) => {
                        return Err(error);
                    },
                }
            },
            0x22 => match Self::load_u32(bus, pc, aligned) {
                Ok(word) => result.load(rt, load_left(word, base, address)),
                Err(error) => {
                    return Err(error);
                },
            },
            0x23 => if address & 3 != 0 {
                result.address_exception(Exception::AddressLoad, address);
            } else {
                match Self::load_u32(bus, pc, address) {
                    Ok(word) => result.load(rt, word),
                    Err(error) => {
                        return Err(error);
                    },
                }
            },
            0x24 => match Self::load_u8(bus, pc, address) {
                Ok(value) => result.load(rt, u32::from(value)),
                Err(error) => {
                    return Err(error);
                },
            },
            0x25 => if address & 1 != 0 {
                result.address_exception(Exception::AddressLoad, address);
            } else {
                match Self::load_u16(bus, pc, address) {
                    Ok(value) => result.load(rt, u32::from(value)),
                    Err(error) => {
                        return Err(error);
                    },
                }
            },
            _ => match Self::load_u32(bus, pc, aligned) {
                Ok(word) => result.load(rt, load_right(word, base, address)),
                Err(error) => {
                    return Err(error);
                },
            },
        }
        Ok(result)
    }

    /// Carries out a store.
    fn execute_store<B: Bus>(&self, bus: &mut B, pc: u32, instruction: u32) -> (result: Result<
        Execution,
        CpuError,
    >)
        requires
            self.wf(),
            0x28 <= isa::opcode(instruction) <= 0x2b || isa::opcode(instruction) == 0x2e,
        ensures
            executed(*self, *old(bus), pc, instruction, result, *self, *final(bus)),
            result matches Ok(execution) ==> execution.wf(),
    {
        let left: u32 = self.registers[rs_field(instruction) as usize];
        let right: u32 = self.registers[rt_field(instruction) as usize];
        let address: u32 = effective_address(left, instruction);
        proof {
            lemma_alignment(address);
        }
        let mut trap = Execution::new();
        trap.address_exception(Exception::AddressStore, address);
        match opcode_field(instruction) {
            0x28 => Self::store_byte(bus, pc, address, right),
            0x29 => if address & 1 != 0 {
                Ok(trap)
            } else {
                Self::store_half(bus, pc, address, right)
            },
            0x2a => Self::store_merged(bus, pc, address, right, true),
            0x2b => if address & 3 != 0 {
                Ok(trap)
            } else {
                Self::store_word(bus, pc, address, right)
            },
            _ => Self::store_merged(bus, pc, address, right, false),
        }
    }

    /// Stores the low byte of a register.
    fn store_byte<B: Bus>(bus: &mut B, pc: u32, address: u32, value: u32) -> (result: Result<
        Execution,
        CpuError,
    >)
        ensures
            value_stored(
                *old(bus),
                pc,
                StoreKind::Byte,
                address,
                value,
                result,
                *final(bus),
            ),
            result matches Ok(execution) ==> execution.wf(),
    {
        proof {
            lemma_mips_fields(value);
        }
        let done = Self::store_u8(bus, pc, address, value as u8);
        assert(bus_written(
            *old(bus),
            StoreKind::Byte,
            address,
            value,
            store_done(done),
            *bus,
        ));
        Self::stored(pc, address, done)
    }

    /// Stores the low half of a register.
    fn store_half<B: Bus>(bus: &mut B, pc: u32, address: u32, value: u32) -> (result: Result<
        Execution,
        CpuError,
    >)
        ensures
            value_stored(
                *old(bus),
                pc,
                StoreKind::Half,
                address,
                value,
                result,
                *final(bus),
            ),
            result matches Ok(execution) ==> execution.wf(),
    {
        proof {
            lemma_mips_fields(value);
        }
        let done = Self::store_u16(bus, pc, address, value as u16);
        assert(bus_written(
            *old(bus),
            StoreKind::Half,
            address,
            value,
            store_done(done),
            *bus,
        ));
        Self::stored(pc, address, done)
    }

    /// Stores a register.
    fn store_word<B: Bus>(bus: &mut B, pc: u32, address: u32, value: u32) -> (result: Result<
        Execution,
        CpuError,
    >)
        ensures
            value_stored(
                *old(bus),
                pc,
                StoreKind::Word,
                address,
                value,
                result,
                *final(bus),
            ),
            result matches Ok(execution) ==> execution.wf(),
    {
        let done = Self::store_u32(bus, pc, address, value);
        assert(bus_written(
            *old(bus),
            StoreKind::Word,
            address,
            value,
            store_done(done),
            *bus,
        ));
        Self::stored(pc, address, done)
    }

    /// Stores the upper or the lower bytes of a register around an unaligned address.
    fn store_merged<B: Bus>(
        bus: &mut B,
        pc: u32,
        address: u32,
        value: u32,
        upper: bool,
    ) -> (result: Result<Execution, CpuError>)
        ensures
            word_merged(
                *old(bus),
                pc,
                if upper {
                    StoreKind::Left
                } else {
                    StoreKind::Right
                },
                address,
                value,
                result,
                *final(bus),
            ),
            result matches Ok(execution) ==> execution.wf(),
    {
        proof {
            lemma_alignment(address);
        }
        let aligned: u32 = address & 0xffff_fffc;
        let word: u32 = match Self::load_u32(bus, pc, aligned) {
            Ok(word) => word,
            Err(error) => {
                assert(B::word_read(*old(bus), aligned, Err(error.source), *bus));
                return Err(error);
            },
        };
        let ghost between = *bus;
        let merged: u32 = if upper {
            store_left(word, value, address)
        } else {
            store_right(word, value, address)
        };
        let done = Self::store_u32(bus, pc, aligned, merged);
        proof {
            assert(B::word_read(*old(bus), aligned, Ok(word), between));
            assert(B::word_written(between, aligned, merged, store_done(done), *bus));
        }
        Self::stored(pc, aligned, done)
    }

    /// Charges a completed store.
    fn stored(pc: u32, address: u32, done: Result<(), CpuError>) -> (result: Result<
        Execution,
        CpuError,
    >)
        requires
            done matches Err(error) ==> error == access_error(
                pc,
                address,
                AccessType::Store,
                error,
            ),
        ensures
            result == store_result(pc, address, store_done(done)),
            result matches Ok(execution) ==> execution.wf(),
    {
        match done {
            Ok(_) => {
                let mut result = Execution::new();
                result.cycles = 2;
                Ok(result)
            },
            Err(error) => Err(error),
        }
    }

    fn merge_base(&self, register: usize) -> (result: u32)
        requires
            register < 32,
        ensures
            result == self.load_base(register as u32),
    {
        match self.pending_load {
            Some((pending, value)) if pending == register => value,
            _ => self.registers[register],
        }
    }

    fn commit_old_load(&mut self, current_write: Option<(usize, u32)>)
        requires
            old(self).wf(),
            current_write matches Some(write) ==> write.0 < 32,
        ensures
            *final(self) == old(self).committed(current_write),
            final(self).wf(),
    {
        if let Some((register, value)) = self.pending_load {
            self.write_register(register, value);
        }
        self.pending_load = None;
        if let Some((register, value)) = current_write {
            self.write_register(register, value);
        }
    }

    fn write_register(&mut self, index: usize, value: u32)
        requires
            index < 32,
        ensures
            *final(self) == (Cpu {
                registers: register_written(old(self).registers, index as int, value),
                ..*old(self)
            }),
            old(self).wf() ==> final(self).wf(),
    {
        if index != 0 {
            self.registers[index] = value;
        }
    }

    fn update_interrupt_line(&mut self, pending: bool)
        ensures
            *final(self) == old(self).sampled(pending),
    {
        if pending {
            self.cop0.cause = self.cop0.cause | CAUSE_IP2;
        } else {
            self.cop0.cause = self.cop0.cause & !CAUSE_IP2;
        }
    }

    fn interrupt_enabled(&self, mask: u32) -> (result: bool)
        ensures
            result == self.interrupt_due(mask),
    {
        self.cop0.status & 1 != 0 && self.cop0.status & self.cop0.cause & mask != 0
    }

    fn enter_exception(&mut self, exception: Exception, pc: u32, bad_vaddr: Option<u32>)
        requires
            old(self).wf(),
            old(self).pending_load is None,
        ensures
            *final(self) == old(self).trapped(exception, pc, bad_vaddr),
            final(self).wf(),
    {
        self.cop0.cause = (self.cop0.cause & !(0x7c | CAUSE_BD)) | (exception.code() << 2);
        if let Some(branch_pc) = self.delay_branch_pc {
            self.cop0.cause = self.cop0.cause | CAUSE_BD;
            self.cop0.epc = branch_pc;
        } else {
            self.cop0.epc = pc;
        }
        if let Some(address) = bad_vaddr {
            self.cop0.bad_vaddr = address;
        }
        self.cop0.status = (self.cop0.status & !0x3fu32) | ((self.cop0.status << 2) & 0x3f);
        let vector: u32 = if self.cop0.status & STATUS_BEV != 0 {
            self.profile.bootstrap_exception_vector
        } else {
            self.profile.exception_vector
        };
        self.pc = vector;
        self.next_pc = vector.wrapping_add(4);
        self.delay_branch_pc = None;
        self.pending_load = None;
    }

    fn load_u8<B: Bus>(bus: &mut B, pc: u32, address: u32) -> (result: Result<u8, CpuError>)
        ensures
            result matches Err(error) ==> error == access_error(
                pc,
                address,
                AccessType::Load,
                error,
            ),
            bus_read(*old(bus), LoadKind::SignedByte, address, load_raw8(result), *final(bus)),
            bus_read(*old(bus), LoadKind::Byte, address, load_raw8(result), *final(bus)),
    {
        match bus.read_u8(address) {
            Ok(value) => Ok(value),
            Err(source) => Err(CpuError { pc, address, access: AccessType::Load, source }),
        }
    }

    fn load_u16<B: Bus>(bus: &mut B, pc: u32, address: u32) -> (result: Result<u16, CpuError>)
        ensures
            result matches Err(error) ==> error == access_error(
                pc,
                address,
                AccessType::Load,
                error,
            ),
            bus_read(*old(bus), LoadKind::SignedHalf, address, load_raw16(result), *final(bus)),
            bus_read(*old(bus), LoadKind::Half, address, load_raw16(result), *final(bus)),
    {
        match bus.read_u16(address) {
            Ok(value) => Ok(value),
            Err(source) => Err(CpuError { pc, address, access: AccessType::Load, source }),
        }
    }

    fn load_u32<B: Bus>(bus: &mut B, pc: u32, address: u32) -> (result: Result<u32, CpuError>)
        ensures
            result matches Err(error) ==> error == access_error(
                pc,
                address,
                AccessType::Load,
                error,
            ),
            bus_read(*old(bus), LoadKind::Word, address, load_raw32(result), *final(bus)),
            bus_read(*old(bus), LoadKind::Left, address, load_raw32(result), *final(bus)),
            bus_read(*old(bus), LoadKind::Right, address, load_raw32(result), *final(bus)),
            B::word_read(*old(bus), address, load_raw32(result), *final(bus)),
    {
        match bus.read_u32(address) {
            Ok(value) => Ok(value),
            Err(source) => Err(CpuError { pc, address, access: AccessType::Load, source }),
        }
    }

    fn store_u8<B: Bus>(bus: &mut B, pc: u32, address: u32, value: u8) -> (result: Result<
        (),
        CpuError,
    >)
        ensures
            result matches Err(error) ==> error == access_error(
                pc,
                address,
                AccessType::Store,
                error,
            ),
            B::byte_written(*old(bus), address, value, store_done(result), *final(bus)),
    {
        match bus.write_u8(address, value) {
            Ok(done) => Ok(done),
            Err(source) => Err(CpuError { pc, address, access: AccessType::Store, source }),
        }
    }

    fn store_u16<B: Bus>(bus: &mut B, pc: u32, address: u32, value: u16) -> (result: Result<
        (),
        CpuError,
    >)
        ensures
            result matches Err(error) ==> error == access_error(
                pc,
                address,
                AccessType::Store,
                error,
            ),
            B::half_written(*old(bus), address, value, store_done(result), *final(bus)),
    {
        match bus.write_u16(address, value) {
            Ok(done) => Ok(done),
            Err(source) => Err(CpuError { pc, address, access: AccessType::Store, source }),
        }
    }

    fn store_u32<B: Bus>(bus: &mut B, pc: u32, address: u32, value: u32) -> (result: Result<
        (),
        CpuError,
    >)
        ensures
            result matches Err(error) ==> error == access_error(
                pc,
                address,
                AccessType::Store,
                error,
            ),
            B::word_written(*old(bus), address, value, store_done(result), *final(bus)),
    {
        match bus.write_u32(address, value) {
            Ok(done) => Ok(done),
            Err(source) => Err(CpuError { pc, address, access: AccessType::Store, source }),
        }
    }
}

} // verus!
