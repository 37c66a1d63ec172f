//! Which exceptions are raised, and what an exception does.

use vstd::prelude::*;

use crate::r3000::bus::{Bus, CpuError};
use crate::r3000::cpu::{Cpu, Exception, StepEvent, StepOutcome};
use crate::r3000::data::has_loaded;
use crate::r3000::isa::{
    control_operation, function, opcode, operation, register_operation, sign_branch_operation,
    Operation,
};
use crate::r3000::program::{
    as_offset, as_signed, has_results, immediate_form, lemma_immediate_fields, lemma_quiet,
    lemma_register_fields, lemma_registers, register_form, runs, settled,
};
use crate::r3000::unaligned::{unchanged, word_in};

verus! {

/// The processor entered the exception with the number `code`: the cause register names it
/// and tells whether it struck in a delay slot, the program counter to return to is kept,
/// the three-deep stack of modes is pushed, and control goes to the vector that status bit
/// 22 selects.
pub open spec fn has_trapped(cpu: Cpu, after: Cpu, code: int, bad_vaddr: u32) -> bool {
    let vector = if (cpu.cop0.status / 0x40_0000) % 2 == 1 {
        cpu.profile.bootstrap_exception_vector
    } else {
        cpu.profile.exception_vector
    };
    &&& (after.cop0.cause / 4) % 32 == code
    &&& after.cop0.cause / 0x8000_0000 == if cpu.delay_branch_pc is Some {
        1int
    } else {
        0
    }
    &&& (after.cop0.cause / 0x100) % 4 == (cpu.cop0.cause / 0x100) % 4
    &&& after.cop0.epc == match cpu.delay_branch_pc {
        Some(branch) => branch,
        None => cpu.pc,
    }
    &&& after.cop0.bad_vaddr == bad_vaddr
    &&& after.cop0.status % 0x40 == 4 * (cpu.cop0.status % 0x10)
    &&& after.cop0.status / 0x40 == cpu.cop0.status / 0x40
    &&& after.cop0.processor_id == cpu.cop0.processor_id
    &&& after.pc == vector
    &&& after.next_pc == (vector + 4) % 0x1_0000_0000
    &&& after.delay_branch_pc is None
    &&& after.pending_load is None
    &&& after.hi == cpu.hi
    &&& after.lo == cpu.lo
    &&& forall|i: int| 0 <= i < 32 ==> #[trigger] after.registers@[i] == settled(cpu, i)
}

/// The step was an instruction that raised an exception: memory is as before.
pub open spec fn has_raised<B>(
    contents: spec_fn(B, u32) -> u8,
    cpu: Cpu,
    before: B,
    step: (Result<StepOutcome, CpuError>, Cpu, B),
    exception: Exception,
    code: int,
    bad_vaddr: u32,
) -> bool {
    &&& step.0 matches Ok(outcome)
    &&& outcome.pc == cpu.pc
    &&& outcome.instruction == Some(word_in(contents, before, cpu.pc))
    &&& outcome.cycles == 1
    &&& outcome.event == StepEvent::Exception(exception)
    &&& unchanged(contents, before, step.2)
    &&& has_trapped(cpu, step.1, code, bad_vaddr)
}

proof fn lemma_control_bits(cause: u32, status: u32, code: u32)
    by (bit_vector)
    requires
        code < 32,
    ensures
        ((cause & 0x7fff_ff83u32) | (code << 2u32)) / 4 % 32 == code,
        ((cause & 0x7fff_ff83u32) | (code << 2u32)) / 0x8000_0000 == 0,
        ((cause & 0x7fff_ff83u32) | (code << 2u32)) / 0x100 % 4 == cause / 0x100 % 4,
        (((cause & 0x7fff_ff83u32) | (code << 2u32)) | 0x8000_0000u32) / 4 % 32 == code,
        (((cause & 0x7fff_ff83u32) | (code << 2u32)) | 0x8000_0000u32) / 0x8000_0000 == 1,
        (((cause & 0x7fff_ff83u32) | (code << 2u32)) | 0x8000_0000u32) / 0x100 % 4 == cause / 0x100
            % 4,
        !(0x7cu32 | 0x8000_0000u32) == 0x7fff_ff83u32,
        ((status & !0x3fu32) | ((status << 2u32) & 0x3f)) % 0x40 == (4 * (status % 0x10)) as u32,
        ((status & !0x3fu32) | ((status << 2u32) & 0x3f)) / 0x40 == status / 0x40,
        status & 0x40_0000 != 0 <==> (status / 0x40_0000) % 2 == 1,
        ((status & !0x0fu32) | ((status >> 2u32) & 0x0f)) % 0x10 == (status / 4) % 0x10,
        ((status & !0x0fu32) | ((status >> 2u32) & 0x0f)) / 0x10 == status / 0x10,
        ((cause & !0x300u32) | (status & 0x300)) / 0x100 % 4 == (status / 0x100) % 4,
        ((cause & !0x300u32) | (status & 0x300)) / 0x400 == cause / 0x400,
        ((cause & !0x300u32) | (status & 0x300)) % 0x100 == cause % 0x100,
        (cause | 0x400u32) / 0x100 % 4 == cause / 0x100 % 4,
        (cause & !0x400u32) / 0x100 % 4 == cause / 0x100 % 4,
        (cause | 0x400u32) | 0x400u32 == cause | 0x400u32,
        (cause & !0x400u32) | 0x400u32 == cause | 0x400u32,
{
}

proof fn lemma_trapped(cpu: Cpu, pending: bool, exception: Exception, bad_vaddr: Option<u32>)
    requires
        cpu.wf(),
    ensures
        has_trapped(
            cpu,
            cpu.sampled(pending).trapped(exception, cpu.pc, bad_vaddr),
            exception.number() as int,
            match bad_vaddr {
                Some(address) => address,
                None => cpu.cop0.bad_vaddr,
            },
        ),
{
    let start = cpu.sampled(pending);
    lemma_control_bits(cpu.cop0.cause, cpu.cop0.status, exception.number());
    lemma_control_bits(start.cop0.cause, cpu.cop0.status, exception.number());
    let after = start.trapped(exception, cpu.pc, bad_vaddr);
    lemma_control_bits(cpu.cop0.cause, after.cop0.status, exception.number());
    assert((after.cop0.status / 0x40_0000) % 2 == (cpu.cop0.status / 0x40_0000) % 2) by {
        assert(after.cop0.status / 0x40_0000 == (after.cop0.status / 0x40) / 0x1_0000);
        assert(cpu.cop0.status / 0x40_0000 == (cpu.cop0.status / 0x40) / 0x1_0000);
    }
    lemma_registers(start, None);
}

proof fn lemma_raised<B: Bus>(
    contents: spec_fn(B, u32) -> u8,
    mapped: Set<u32>,
    word: u32,
    cpu: Cpu,
    before: B,
    step: (Result<StepOutcome, CpuError>, Cpu, B),
    exception: Exception,
    address: Option<u32>,
)
    requires
        runs(contents, mapped, word as int, cpu, before, step),
        forall|pending: bool| #[trigger]
            operation(cpu.sampled(pending), cpu.pc, word) == match address {
                Some(address) => Operation::AddressTrap { exception, address },
                None => Operation::Trap { exception },
            },
    ensures
        has_raised(
            contents,
            cpu,
            before,
            step,
            exception,
            exception.number() as int,
            match address {
                Some(address) => address,
                None => cpu.cop0.bad_vaddr,
            },
        ),
{
    let pending = lemma_quiet(contents, mapped, word, cpu, before, step);
    let start = cpu.sampled(pending);
    let carried = operation(start, cpu.pc, word);
    assert(carried == match address {
        Some(address) => Operation::AddressTrap { exception, address },
        None => Operation::Trap { exception },
    });
    lemma_trapped(cpu, pending, exception, address);
}

/// Selectors 12 and 13 are the system call and the breakpoint.
pub proof fn law_calls<B: Bus>(
    contents: spec_fn(B, u32) -> u8,
    mapped: Set<u32>,
    source: int,
    second: int,
    destination: int,
    amount: int,
    selector: int,
    cpu: Cpu,
    before: B,
    step: (Result<StepOutcome, CpuError>, Cpu, B),
)
    requires
        selector == 12 || selector == 13,
        0 <= source < 32,
        0 <= second < 32,
        0 <= destination < 32,
        0 <= amount < 32,
        runs(
            contents,
            mapped,
            register_form(source, second, destination, amount, selector),
            cpu,
            before,
            step,
        ),
    ensures
        selector == 12 ==> has_raised(
            contents,
            cpu,
            before,
            step,
            Exception::Syscall,
            8,
            cpu.cop0.bad_vaddr,
        ),
        selector == 13 ==> has_raised(
            contents,
            cpu,
            before,
            step,
            Exception::Break,
            9,
            cpu.cop0.bad_vaddr,
        ),
{
    let word = register_form(source, second, destination, amount, selector) as u32;
    lemma_register_fields(source, second, destination, amount, selector, word);
    reveal(register_operation);
    let exception = if selector == 12 {
        Exception::Syscall
    } else {
        Exception::Break
    };
    lemma_raised(contents, mapped, word, cpu, before, step, exception, None);
}

/// A signed sum or difference that is no word raises an exception and writes no register.
pub proof fn law_overflow<B: Bus>(
    contents: spec_fn(B, u32) -> u8,
    mapped: Set<u32>,
    source: int,
    second: int,
    destination: int,
    amount: int,
    selector: int,
    cpu: Cpu,
    before: B,
    step: (Result<StepOutcome, CpuError>, Cpu, B),
)
    requires
        selector == 32 || selector == 34,
        0 <= source < 32,
        0 <= second < 32,
        0 <= destination < 32,
        0 <= amount < 32,
        runs(
            contents,
            mapped,
            register_form(source, second, destination, amount, selector),
            cpu,
            before,
            step,
        ),
        ({
            let left = as_signed(cpu.registers@[source]);
            let right = as_signed(cpu.registers@[second]);
            let exact = if selector == 32 {
                left + right
            } else {
                left - right
            };
            exact < -0x8000_0000 || exact > 0x7fff_ffff
        }),
    ensures
        has_raised(contents, cpu, before, step, Exception::Overflow, 12, cpu.cop0.bad_vaddr),
{
    let word = register_form(source, second, destination, amount, selector) as u32;
    lemma_register_fields(source, second, destination, amount, selector, word);
    reveal(register_operation);
    lemma_raised(contents, mapped, word, cpu, before, step, Exception::Overflow, None);
}

/// A signed sum with the immediate that is no word raises an exception and writes no
/// register.
pub proof fn law_immediate_overflow<B: Bus>(
    contents: spec_fn(B, u32) -> u8,
    mapped: Set<u32>,
    source: int,
    second: int,
    value: int,
    cpu: Cpu,
    before: B,
    step: (Result<StepOutcome, CpuError>, Cpu, B),
)
    requires
        0 <= source < 32,
        0 <= second < 32,
        0 <= value < 0x1_0000,
        runs(contents, mapped, immediate_form(8, source, second, value), cpu, before, step),
        ({
            let exact = as_signed(cpu.registers@[source]) + as_offset(value);
            exact < -0x8000_0000 || exact > 0x7fff_ffff
        }),
    ensures
        has_raised(contents, cpu, before, step, Exception::Overflow, 12, cpu.cop0.bad_vaddr),
{
    let word = immediate_form(8, source, second, value) as u32;
    lemma_immediate_fields(8, source, second, value, word);
    lemma_raised(contents, mapped, word, cpu, before, step, Exception::Overflow, None);
}

/// A half-word at an odd address and a word at one that is no multiple of four are neither
/// loaded nor stored: the address is reported.
pub proof fn law_misaligned_accesses<B: Bus>(
    contents: spec_fn(B, u32) -> u8,
    mapped: Set<u32>,
    major: int,
    source: int,
    second: int,
    offset: int,
    cpu: Cpu,
    before: B,
    step: (Result<StepOutcome, CpuError>, Cpu, B),
)
    requires
        major == 33 || major == 35 || major == 37 || major == 41 || major == 43,
        0 <= source < 32,
        0 <= second < 32,
        -0x8000 <= offset < 0x8000,
        runs(
            contents,
            mapped,
            immediate_form(major, source, second, offset % 0x1_0000),
            cpu,
            before,
            step,
        ),
        ({
            let address = (cpu.registers@[source] + offset) % 0x1_0000_0000;
            if major == 35 || major == 43 {
                address % 4 != 0
            } else {
                address % 2 != 0
            }
        }),
    ensures
        major < 40 ==> has_raised(
            contents,
            cpu,
            before,
            step,
            Exception::AddressLoad,
            4,
            ((cpu.registers@[source] + offset) % 0x1_0000_0000) as u32,
        ),
        major > 40 ==> has_raised(
            contents,
            cpu,
            before,
            step,
            Exception::AddressStore,
            5,
            ((cpu.registers@[source] + offset) % 0x1_0000_0000) as u32,
        ),
{
    let word = immediate_form(major, source, second, offset % 0x1_0000) as u32;
    lemma_immediate_fields(major, source, second, offset % 0x1_0000, word);
    assert(crate::r3000::isa::signed_immediate(word) == offset);
    let address = ((cpu.registers@[source] + offset) % 0x1_0000_0000) as u32;
    let exception = if major < 40 {
        Exception::AddressLoad
    } else {
        Exception::AddressStore
    };
    lemma_raised(contents, mapped, word, cpu, before, step, exception, Some(address));
}

/// The opcodes of the coprocessors that are not there, and those that no instruction has.
pub proof fn law_missing_instructions<B: Bus>(
    contents: spec_fn(B, u32) -> u8,
    mapped: Set<u32>,
    major: int,
    rest: int,
    cpu: Cpu,
    before: B,
    step: (Result<StepOutcome, CpuError>, Cpu, B),
)
    requires
        0 <= rest < 0x400_0000,
        17 <= major <= 31 || major == 39 || major == 44 || major == 45 || 47 <= major < 64,
        runs(contents, mapped, major * 0x400_0000 + rest, cpu, before, step),
    ensures
        17 <= major <= 19 || 48 <= major <= 51 || 56 <= major <= 59 ==> has_raised(
            contents,
            cpu,
            before,
            step,
            Exception::CoprocessorUnusable,
            11,
            cpu.cop0.bad_vaddr,
        ),
        20 <= major <= 47 || 52 <= major <= 55 || 60 <= major ==> has_raised(
            contents,
            cpu,
            before,
            step,
            Exception::ReservedInstruction,
            10,
            cpu.cop0.bad_vaddr,
        ),
{
    let word = (major * 0x400_0000 + rest) as u32;
    assert(opcode(word) == major) by {
        reveal(opcode);
    }
    let exception = if 17 <= major <= 19 || 48 <= major <= 51 || 56 <= major <= 59 {
        Exception::CoprocessorUnusable
    } else {
        Exception::ReservedInstruction
    };
    lemma_raised(contents, mapped, word, cpu, before, step, exception, None);
}

/// The selectors that no register instruction has.
pub proof fn law_missing_selectors<B: Bus>(
    contents: spec_fn(B, u32) -> u8,
    mapped: Set<u32>,
    source: int,
    second: int,
    destination: int,
    amount: int,
    selector: int,
    cpu: Cpu,
    before: B,
    step: (Result<StepOutcome, CpuError>, Cpu, B),
)
    requires
        selector == 1 || selector == 5 || selector == 10 || selector == 11 || selector == 14
            || selector == 15 || 20 <= selector <= 23 || 28 <= selector <= 31 || selector == 40
            || selector == 41 || 44 <= selector < 64,
        0 <= source < 32,
        0 <= second < 32,
        0 <= destination < 32,
        0 <= amount < 32,
        runs(
            contents,
            mapped,
            register_form(source, second, destination, amount, selector),
            cpu,
            before,
            step,
        ),
    ensures
        has_raised(
            contents,
            cpu,
            before,
            step,
            Exception::ReservedInstruction,
            10,
            cpu.cop0.bad_vaddr,
        ),
{
    let word = register_form(source, second, destination, amount, selector) as u32;
    lemma_register_fields(source, second, destination, amount, selector, word);
    reveal(register_operation);
    lemma_raised(contents, mapped, word, cpu, before, step, Exception::ReservedInstruction, None);
}

/// The conditions that no branch of opcode 1 has.
pub proof fn law_missing_conditions<B: Bus>(
    contents: spec_fn(B, u32) -> u8,
    mapped: Set<u32>,
    source: int,
    second: int,
    value: int,
    cpu: Cpu,
    before: B,
    step: (Result<StepOutcome, CpuError>, Cpu, B),
)
    requires
        2 <= second <= 15 || 18 <= second < 32,
        0 <= source < 32,
        0 <= value < 0x1_0000,
        runs(contents, mapped, immediate_form(1, source, second, value), cpu, before, step),
    ensures
        has_raised(
            contents,
            cpu,
            before,
            step,
            Exception::ReservedInstruction,
            10,
            cpu.cop0.bad_vaddr,
        ),
{
    let word = immediate_form(1, source, second, value) as u32;
    lemma_immediate_fields(1, source, second, value, word);
    reveal(sign_branch_operation);
    lemma_raised(contents, mapped, word, cpu, before, step, Exception::ReservedInstruction, None);
}

/// The system control register with this number: 8 is the reported address, 12 the status,
/// 13 the cause, 14 the address to return to and 15 the processor's revision.
pub open spec fn control_value(cpu: Cpu, index: int) -> u32 {
    if index == 8 {
        cpu.cop0.bad_vaddr
    } else if index == 12 {
        cpu.cop0.status
    } else if index == 13 {
        cpu.cop0.cause
    } else if index == 14 {
        cpu.cop0.epc
    } else {
        cpu.cop0.processor_id
    }
}

/// A move from a system control register takes effect like a load. Of the cause, bit 10 is
/// the interrupt line as this step found it.
pub proof fn law_move_from_control<B: Bus>(
    contents: spec_fn(B, u32) -> u8,
    mapped: Set<u32>,
    second: int,
    index: int,
    rest: int,
    cpu: Cpu,
    before: B,
    step: (Result<StepOutcome, CpuError>, Cpu, B),
)
    requires
        index == 8 || 12 <= index <= 15,
        0 <= second < 32,
        0 <= rest < 0x800,
        runs(
            contents,
            mapped,
            immediate_form(16, 0, second, index * 0x800 + rest),
            cpu,
            before,
            step,
        ),
    ensures
        index != 13 ==> has_loaded(
            contents,
            cpu,
            before,
            step,
            second,
            control_value(cpu, index) as int,
        ),
        index == 13 ==> exists|value: u32| #[trigger]
            has_loaded(contents, cpu, before, step, second, value as int) && value | 0x400
                == cpu.cop0.cause | 0x400,
{
    let word = immediate_form(16, 0, second, index * 0x800 + rest) as u32;
    lemma_control_fields(0, second, index, rest, word);
    reveal(control_operation);
    let pending = lemma_quiet(contents, mapped, word, cpu, before, step);
    let start = cpu.sampled(pending);
    let value = control_value(start, index);
    lemma_control_bits(cpu.cop0.cause, 0, 0);
    crate::r3000::data::lemma_retired_load(start, second as u32, value);
    assert(has_loaded(contents, cpu, before, step, second, value as int));
}

proof fn lemma_control_fields(source: int, second: int, index: int, rest: int, word: u32)
    requires
        0 <= source < 32,
        0 <= second < 32,
        0 <= index < 32,
        0 <= rest < 0x800,
        word == immediate_form(16, source, second, index * 0x800 + rest),
    ensures
        opcode(word) == 16,
        crate::r3000::isa::rs(word) == source,
        crate::r3000::isa::rt(word) == second,
        crate::r3000::isa::rd(word) == index,
        function(word) == rest % 0x40,
{
    lemma_immediate_fields(16, source, second, index * 0x800 + rest, word);
    reveal(crate::r3000::isa::rd);
    reveal(function);
    assert(word / 0x800 == 16 * 0x8000 + source * 0x400 + second * 0x20 + index);
    assert(word % 0x40 == rest % 0x40);
}

/// A move to a system control register replaces the reported address, the status or the
/// address to return to, and of the cause the two software requests alone.
pub proof fn law_move_to_control<B: Bus>(
    contents: spec_fn(B, u32) -> u8,
    mapped: Set<u32>,
    second: int,
    index: int,
    rest: int,
    cpu: Cpu,
    before: B,
    step: (Result<StepOutcome, CpuError>, Cpu, B),
)
    requires
        index == 8 || index == 12 || index == 13 || index == 14,
        0 <= second < 32,
        0 <= rest < 0x800,
        runs(
            contents,
            mapped,
            immediate_form(16, 4, second, index * 0x800 + rest),
            cpu,
            before,
            step,
        ),
    ensures
        ({
            let value = cpu.registers@[second];
            let cop0 = step.1.cop0;
            &&& cop0.bad_vaddr == if index == 8 {
                value
            } else {
                cpu.cop0.bad_vaddr
            }
            &&& cop0.status == if index == 12 {
                value
            } else {
                cpu.cop0.status
            }
            &&& cop0.epc == if index == 14 {
                value
            } else {
                cpu.cop0.epc
            }
            &&& cop0.processor_id == cpu.cop0.processor_id
            &&& (cop0.cause / 0x100) % 4 == if index == 13 {
                (value / 0x100) % 4
            } else {
                (cpu.cop0.cause / 0x100) % 4
            }
            &&& step.1.pc == cpu.next_pc
            &&& step.1.pending_load is None
            &&& step.0 matches Ok(outcome)
            &&& outcome.event == StepEvent::Instruction
            &&& outcome.cycles == 1
            &&& unchanged(contents, before, step.2)
            &&& forall|i: int|
                0 <= i < 32 ==> #[trigger] step.1.registers@[i] == settled(cpu, i)
        }),
{
    let word = immediate_form(16, 4, second, index * 0x800 + rest) as u32;
    lemma_control_fields(4, second, index, rest, word);
    reveal(control_operation);
    let pending = lemma_quiet(contents, mapped, word, cpu, before, step);
    let start = cpu.sampled(pending);
    let value = cpu.registers@[second];
    lemma_control_bits(start.cop0.cause, value, 0);
    lemma_control_bits(cpu.cop0.cause, value, 0);
    let carried = operation(start, cpu.pc, word);
    assert(carried is Control);
    lemma_registers(carried.applied(start), None);
}

/// A return from an exception pops the stack of modes: the two older ones move down and
/// the oldest stays.
pub proof fn law_return_from_exception<B: Bus>(
    contents: spec_fn(B, u32) -> u8,
    mapped: Set<u32>,
    second: int,
    index: int,
    rest: int,
    cpu: Cpu,
    before: B,
    step: (Result<StepOutcome, CpuError>, Cpu, B),
)
    requires
        0 <= second < 32,
        0 <= index < 32,
        0 <= rest < 0x800,
        rest % 0x40 == 16,
        runs(
            contents,
            mapped,
            immediate_form(16, 16, second, index * 0x800 + rest),
            cpu,
            before,
            step,
        ),
    ensures
        step.1.cop0.status % 0x10 == (cpu.cop0.status / 4) % 0x10,
        step.1.cop0.status / 0x10 == cpu.cop0.status / 0x10,
        step.1.cop0.epc == cpu.cop0.epc,
        step.1.cop0.bad_vaddr == cpu.cop0.bad_vaddr,
        step.1.pc == cpu.next_pc,
        step.1.pending_load is None,
        step.0 matches Ok(outcome) && outcome.event == StepEvent::Instruction,
        unchanged(contents, before, step.2),
        forall|i: int| 0 <= i < 32 ==> #[trigger] step.1.registers@[i] == settled(cpu, i),
{
    let word = immediate_form(16, 16, second, index * 0x800 + rest) as u32;
    lemma_control_fields(16, second, index, rest, word);
    reveal(control_operation);
    let pending = lemma_quiet(contents, mapped, word, cpu, before, step);
    let start = cpu.sampled(pending);
    lemma_control_bits(cpu.cop0.cause, cpu.cop0.status, 0);
    let carried = operation(start, cpu.pc, word);
    assert(carried is Control);
    lemma_registers(carried.applied(start), None);
}

/// Other forms and registers of the system control coprocessor do not exist.
pub proof fn law_missing_control<B: Bus>(
    contents: spec_fn(B, u32) -> u8,
    mapped: Set<u32>,
    source: int,
    second: int,
    index: int,
    rest: int,
    cpu: Cpu,
    before: B,
    step: (Result<StepOutcome, CpuError>, Cpu, B),
)
    requires
        0 <= source < 32,
        0 <= second < 32,
        0 <= index < 32,
        0 <= rest < 0x800,
        source == 0 ==> index != 8 && !(12 <= index <= 15),
        source == 4 ==> index != 8 && !(12 <= index <= 14),
        source == 16 ==> rest % 0x40 != 16,
        runs(
            contents,
            mapped,
            immediate_form(16, source, second, index * 0x800 + rest),
            cpu,
            before,
            step,
        ),
    ensures
        has_raised(
            contents,
            cpu,
            before,
            step,
            Exception::ReservedInstruction,
            10,
            cpu.cop0.bad_vaddr,
        ),
{
    let word = immediate_form(16, source, second, index * 0x800 + rest) as u32;
    lemma_control_fields(source, second, index, rest, word);
    reveal(control_operation);
    lemma_raised(contents, mapped, word, cpu, before, step, Exception::ReservedInstruction, None);
}

/// An interrupt is taken before the fetch exactly when status bit 0 is set and one of the
/// requests in bits 8 to 15 of the cause is enabled by the same bit of the status; the line
/// of the machine is the request in bit 10. A program counter that is no multiple of four
/// is reported as a load address.
pub proof fn law_before_the_fetch<B: Bus>(
    cpu: Cpu,
    before: B,
    step: (Result<StepOutcome, CpuError>, Cpu, B),
    line: bool,
)
    requires
        cpu.wf(),
        forall|pending: bool| #[trigger] before.line_sampled(pending) ==> pending == line,
        cpu.stepped(before, step.0, step.1, step.2),
    ensures
        ({
            let requests = if line {
                cpu.cop0.cause | 0x400
            } else {
                cpu.cop0.cause & !0x400u32
            };
            if cpu.cop0.status & 1 != 0 && cpu.cop0.status & requests & 0xff00 != 0 {
                &&& has_trapped(cpu, step.1, 0, cpu.cop0.bad_vaddr)
                &&& step.2 == before
                &&& step.0 == Ok::<StepOutcome, CpuError>(
                    StepOutcome {
                        pc: cpu.pc,
                        instruction: None,
                        cycles: 1,
                        event: StepEvent::Exception(Exception::Interrupt),
                    },
                )
            } else if cpu.pc % 4 != 0 {
                &&& has_trapped(cpu, step.1, 4, cpu.pc)
                &&& step.2 == before
                &&& step.0 == Ok::<StepOutcome, CpuError>(
                    StepOutcome {
                        pc: cpu.pc,
                        instruction: None,
                        cycles: 1,
                        event: StepEvent::Exception(Exception::AddressLoad),
                    },
                )
            } else {
                step.0 matches Ok(outcome) ==> outcome.instruction is Some
            }
        }),
{
    let (result, cpu_after, after) = step;
    let pending = choose|pending: bool| #[trigger]
        before.line_sampled(pending) && cpu.sampled(pending).advanced(
            crate::r3000::cpu::INTERRUPTS,
            before,
            result,
            cpu_after,
            after,
        );
    assert(pending == line);
    lemma_trapped(cpu, pending, Exception::Interrupt, None);
    lemma_trapped(cpu, pending, Exception::AddressLoad, Some(cpu.pc));
}

/// A step that leaves the interrupt line alone hears the two software requests in bits 8
/// and 9 of the cause alone.
pub proof fn law_software_interrupts<B: Bus>(
    cpu: Cpu,
    before: B,
    step: (Result<StepOutcome, CpuError>, Cpu, B),
)
    requires
        cpu.wf(),
        cpu.advanced(crate::r3000::cpu::SOFTWARE_INTERRUPTS, before, step.0, step.1, step.2),
    ensures
        cpu.cop0.status & 1 != 0 && cpu.cop0.status & cpu.cop0.cause & 0x300 != 0 ==> {
            &&& step.2 == before
            &&& step.1.cop0.epc == match cpu.delay_branch_pc {
                Some(branch) => branch,
                None => cpu.pc,
            }
            &&& step.0 == Ok::<StepOutcome, CpuError>(
                StepOutcome {
                    pc: cpu.pc,
                    instruction: None,
                    cycles: 1,
                    event: StepEvent::Exception(Exception::Interrupt),
                },
            )
        },
        !(cpu.cop0.status & 1 != 0 && cpu.cop0.status & cpu.cop0.cause & 0x300 != 0) && cpu.pc % 4
            == 0 ==> (step.0 matches Ok(outcome) ==> outcome.instruction is Some),
{
}

} // verus!
