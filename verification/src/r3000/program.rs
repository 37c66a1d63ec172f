//! What programs do: instructions given by their encoding, one step at a time.

use vstd::arithmetic::power2::pow2;
use vstd::prelude::*;

use crate::r3000::bus::{Bus, CpuError};
use crate::r3000::cpu::{executed, Cpu, Exception, Execution, StepEvent, StepOutcome};
use crate::r3000::isa::{
    branch_target, function, immediate, jump_address, opcode, operation, product_high,
    product_low, rd, register_operation, rs, rt, shift_amount, shifted_arithmetic, shifted_left,
    shifted_right, sign_branch_operation, signed_quotient, signed_remainder, Operation,
};
use crate::r3000::unaligned::{
    is_plain_memory, is_undisturbed, lemma_step, unchanged, word_in,
};

verus! {

/// A register instruction with these fields.
pub open spec fn register_form(
    source: int,
    second: int,
    destination: int,
    amount: int,
    selector: int,
) -> int {
    source * 0x20_0000 + second * 0x1_0000 + destination * 0x800 + amount * 0x40 + selector
}

/// An instruction with an immediate and these fields.
pub open spec fn immediate_form(major: int, source: int, second: int, value: int) -> int {
    major * 0x400_0000 + source * 0x20_0000 + second * 0x1_0000 + value
}

/// `value` as a signed word.
pub open spec fn as_signed(value: u32) -> int {
    if value >= 0x8000_0000 {
        value - 0x1_0000_0000
    } else {
        value as int
    }
}

/// A 16-bit field as a signed number.
pub open spec fn as_offset(value: int) -> int {
    if value >= 0x8000 {
        value - 0x1_0000
    } else {
        value
    }
}

/// The value that a register holds once the load in flight has reached it.
pub open spec fn settled(cpu: Cpu, register: int) -> u32 {
    match cpu.pending_load {
        Some((pending, value)) => if pending == register && register != 0 {
            value
        } else {
            cpu.registers@[register]
        },
        None => cpu.registers@[register],
    }
}

/// A step of a processor that takes no interrupt, on a machine with plain memory that
/// holds `instruction` at the current address.
#[verifier::opaque]
pub open spec fn runs<B: Bus>(
    contents: spec_fn(B, u32) -> u8,
    mapped: Set<u32>,
    instruction: int,
    cpu: Cpu,
    before: B,
    step: (Result<StepOutcome, CpuError>, Cpu, B),
) -> bool {
    &&& is_plain_memory(contents, mapped)
    &&& is_undisturbed(cpu, before)
    &&& cpu.wf()
    &&& cpu.pc % 4 == 0
    &&& mapped.contains(cpu.pc)
    &&& word_in(contents, before, cpu.pc) == instruction
    &&& cpu.stepped(before, step.0, step.1, step.2)
}

/// The instruction retired after `cycles`, went on to the next one, left memory alone, and
/// set the register `register` to `value` and no other.
pub open spec fn has_written<B>(
    contents: spec_fn(B, u32) -> u8,
    cpu: Cpu,
    before: B,
    step: (Result<StepOutcome, CpuError>, Cpu, B),
    register: int,
    value: int,
) -> bool {
    &&& has_retired(contents, cpu, before, step, 1)
    &&& step.1.pc == cpu.next_pc
    &&& step.1.next_pc == (cpu.next_pc + 4) % 0x1_0000_0000
    &&& step.1.delay_branch_pc is None
    &&& step.1.hi == cpu.hi
    &&& step.1.lo == cpu.lo
    &&& step.1.registers@[0] == 0
    &&& forall|i: int|
        0 < i < 32 ==> #[trigger] step.1.registers@[i] == if i == register {
            value
        } else {
            settled(cpu, i) as int
        }
}

/// The instruction retired after `cycles` and left memory and the system control registers
/// alone; no load is in flight.
pub open spec fn has_retired<B>(
    contents: spec_fn(B, u32) -> u8,
    cpu: Cpu,
    before: B,
    step: (Result<StepOutcome, CpuError>, Cpu, B),
    cycles: int,
) -> bool {
    &&& step.0 matches Ok(outcome)
    &&& outcome.pc == cpu.pc
    &&& outcome.instruction == Some(word_in(contents, before, cpu.pc))
    &&& outcome.cycles == cycles
    &&& outcome.event == StepEvent::Instruction
    &&& unchanged(contents, before, step.2)
    &&& step.1.pending_load is None
    &&& step.1.cop0.status == cpu.cop0.status
    &&& step.1.cop0.epc == cpu.cop0.epc
    &&& step.1.cop0.bad_vaddr == cpu.cop0.bad_vaddr
    &&& step.1.profile == cpu.profile
    &&& step.1.load_delay_mode == cpu.load_delay_mode
}

/// The instruction retired after `cycles`, went on to the next one, left memory and the
/// registers alone, and set the two result registers.
pub open spec fn has_results<B>(
    contents: spec_fn(B, u32) -> u8,
    cpu: Cpu,
    before: B,
    step: (Result<StepOutcome, CpuError>, Cpu, B),
    cycles: int,
) -> bool {
    &&& has_retired(contents, cpu, before, step, cycles)
    &&& step.1.pc == cpu.next_pc
    &&& step.1.next_pc == (cpu.next_pc + 4) % 0x1_0000_0000
    &&& step.1.delay_branch_pc is None
    &&& forall|i: int|
        0 <= i < 32 ==> #[trigger] step.1.registers@[i] == settled(cpu, i)
}

/// The instruction retired, and after the delay slot control goes to `target`. The
/// register `link`, if it is none of zero, got the address after the delay slot.
pub open spec fn has_branched<B>(
    contents: spec_fn(B, u32) -> u8,
    cpu: Cpu,
    before: B,
    step: (Result<StepOutcome, CpuError>, Cpu, B),
    target: int,
    link: int,
) -> bool {
    &&& has_retired(contents, cpu, before, step, 1)
    &&& step.1.pc == cpu.next_pc
    &&& step.1.next_pc == target
    &&& step.1.delay_branch_pc == Some(cpu.pc)
    &&& step.1.hi == cpu.hi
    &&& step.1.lo == cpu.lo
    &&& step.1.registers@[0] == 0
    &&& forall|i: int|
        0 < i < 32 ==> #[trigger] step.1.registers@[i] == if i == link {
            (cpu.pc + 8) % 0x1_0000_0000
        } else {
            settled(cpu, i) as int
        }
}

pub proof fn lemma_register_fields(
    source: int,
    second: int,
    destination: int,
    amount: int,
    selector: int,
    word: u32,
)
    requires
        0 <= source < 32,
        0 <= second < 32,
        0 <= destination < 32,
        0 <= amount < 32,
        0 <= selector < 64,
        word == register_form(source, second, destination, amount, selector),
    ensures
        opcode(word) == 0,
        rs(word) == source,
        rt(word) == second,
        rd(word) == destination,
        shift_amount(word) == amount,
        function(word) == selector,
{
    reveal(opcode);
    reveal(rs);
    reveal(rt);
    reveal(rd);
    reveal(shift_amount);
    reveal(function);
    assert(word / 0x40 == source * 0x8000 + second * 0x400 + destination * 0x20 + amount);
    assert(word / 0x800 == source * 0x400 + second * 0x20 + destination);
    assert(word / 0x1_0000 == source * 0x20 + second);
    assert(word / 0x20_0000 == source);
}

pub proof fn lemma_immediate_fields(major: int, source: int, second: int, value: int, word: u32)
    requires
        0 <= major < 64,
        0 <= source < 32,
        0 <= second < 32,
        0 <= value < 0x1_0000,
        word == immediate_form(major, source, second, value),
    ensures
        opcode(word) == major,
        rs(word) == source,
        rt(word) == second,
        immediate(word) == value,
{
    reveal(opcode);
    reveal(rs);
    reveal(rt);
    reveal(immediate);
    assert(word / 0x1_0000 == major * 0x400 + source * 0x20 + second);
    assert(word / 0x20_0000 == major * 0x20 + source);
    assert(word / 0x400_0000 == major);
}

/// What a step does that leaves the bus to the fetch alone.
pub proof fn lemma_quiet<B: Bus>(
    contents: spec_fn(B, u32) -> u8,
    mapped: Set<u32>,
    word: u32,
    cpu: Cpu,
    before: B,
    step: (Result<StepOutcome, CpuError>, Cpu, B),
) -> (pending: bool)
    requires
        runs(contents, mapped, word as int, cpu, before, step),
    ensures
        cpu.wf(),
        word_in(contents, before, cpu.pc) == word,
        ({
            let start = cpu.sampled(pending);
            let carried = operation(start, cpu.pc, word);
            !carried.uses_bus() ==> {
                &&& step.1 == carried.applied(start).completed(carried.execution(cpu.pc))
                &&& step.0 == Ok::<StepOutcome, CpuError>(
                    carried.applied(start).outcome(word, carried.execution(cpu.pc)),
                )
                &&& unchanged(contents, before, step.2)
            }
        }),
{
    reveal(runs);
    let parts = lemma_step(contents, mapped, cpu, before, step.0, step.1, step.2);
    parts.0
}

proof fn lemma_written<B: Bus>(
    contents: spec_fn(B, u32) -> u8,
    mapped: Set<u32>,
    word: u32,
    cpu: Cpu,
    before: B,
    step: (Result<StepOutcome, CpuError>, Cpu, B),
    register: u32,
    value: u32,
)
    requires
        register < 32,
        runs(contents, mapped, word as int, cpu, before, step),
        forall|pending: bool| #[trigger]
            operation(cpu.sampled(pending), cpu.pc, word) == (Operation::Write {
                register,
                value,
            }),
    ensures
        has_written(contents, cpu, before, step, register as int, value as int),
{
    let pending = lemma_quiet(contents, mapped, word, cpu, before, step);
    let start = cpu.sampled(pending);
    assert(operation(start, cpu.pc, word) == (Operation::Write { register, value }));
    lemma_registers(start, Some((register as usize, value)));
}

pub proof fn lemma_registers(cpu: Cpu, write: Option<(usize, u32)>)
    requires
        cpu.wf(),
        write matches Some(named) ==> named.0 < 32,
    ensures
        cpu.committed(write).registers@[0] == 0,
        forall|i: int|
            0 < i < 32 ==> #[trigger] cpu.committed(write).registers@[i] == match write {
                Some((register, value)) => if register == i {
                    value
                } else {
                    settled(cpu, i)
                },
                None => settled(cpu, i),
            },
{
}

proof fn lemma_results<B: Bus>(
    contents: spec_fn(B, u32) -> u8,
    mapped: Set<u32>,
    word: u32,
    cpu: Cpu,
    before: B,
    step: (Result<StepOutcome, CpuError>, Cpu, B),
    hi: u32,
    lo: u32,
    cycles: u32,
)
    requires
        runs(contents, mapped, word as int, cpu, before, step),
        forall|pending: bool| #[trigger]
            operation(cpu.sampled(pending), cpu.pc, word) == (Operation::HiLo { hi, lo, cycles }),
    ensures
        has_results(contents, cpu, before, step, cycles as int),
        step.1.hi == hi,
        step.1.lo == lo,
{
    let pending = lemma_quiet(contents, mapped, word, cpu, before, step);
    let start = cpu.sampled(pending);
    assert(operation(start, cpu.pc, word) == (Operation::HiLo { hi, lo, cycles }));
    lemma_registers(Cpu { hi, lo, ..start }, None);
}

proof fn lemma_branched<B: Bus>(
    contents: spec_fn(B, u32) -> u8,
    mapped: Set<u32>,
    word: u32,
    cpu: Cpu,
    before: B,
    step: (Result<StepOutcome, CpuError>, Cpu, B),
    target: u32,
    link: Option<u32>,
)
    requires
        link matches Some(register) ==> register < 32,
        runs(contents, mapped, word as int, cpu, before, step),
        forall|pending: bool| #[trigger]
            operation(cpu.sampled(pending), cpu.pc, word) == (Operation::Branch { target, link }),
    ensures
        has_branched(
            contents,
            cpu,
            before,
            step,
            target as int,
            match link {
                Some(register) => register as int,
                None => 0,
            },
        ),
{
    let pending = lemma_quiet(contents, mapped, word, cpu, before, step);
    let start = cpu.sampled(pending);
    let carried = operation(start, cpu.pc, word);
    assert(carried == (Operation::Branch { target, link }));
    lemma_registers(start, carried.execution(cpu.pc).register_write);
}

/// An instruction that retires hands control to the one that was next.
proof fn lemma_goes_on<B: Bus>(
    cpu: Cpu,
    before: B,
    step: (Result<StepOutcome, CpuError>, Cpu, B),
)
    requires
        cpu.stepped(before, step.0, step.1, step.2),
        step.0 matches Ok(outcome) && outcome.event == StepEvent::Instruction,
    ensures
        step.1.pc == cpu.next_pc,
{
    let (result, cpu_after, after) = step;
    let pending = choose|pending: bool| #[trigger]
        before.line_sampled(pending) && cpu.sampled(pending).advanced(
            crate::r3000::cpu::INTERRUPTS,
            before,
            result,
            cpu_after,
            after,
        );
    let start = cpu.sampled(pending);
    assert(start.fetched(before, result, cpu_after, after));
    let (instruction, between, done, carried) = choose|
        instruction: u32,
        between: B,
        done: Result<Execution, CpuError>,
        carried: Cpu,
    |
        #![trigger B::word_read(before, start.pc, Ok(instruction), between), executed(
            start,
            between,
            start.pc,
            instruction,
            done,
            carried,
            after,
        )]
        B::word_read(before, start.pc, Ok(instruction), between) && executed(
            start,
            between,
            start.pc,
            instruction,
            done,
            carried,
            after,
        ) && match done {
            Ok(execution) => cpu_after == carried.completed(execution) && result == Ok::<
                StepOutcome,
                CpuError,
            >(carried.outcome(instruction, execution)),
            Err(error) => cpu_after == start && result == Err::<StepOutcome, CpuError>(error),
        };
    assert(executed(start, between, start.pc, instruction, done, carried, after));
    assert(carried.next_pc == cpu.next_pc);
}

/// The two equality branches are complementary: where the two registers are equal, opcode
/// 4 continues, after the delay slot, at its target and opcode 5 behind the slot; where
/// they differ it is the other way round. Neither writes a register.
pub proof fn law_equality_branches<B: Bus>(
    contents: spec_fn(B, u32) -> u8,
    mapped: Set<u32>,
    major: int,
    source: int,
    second: int,
    offset: int,
    cpu: Cpu,
    before: B,
    branch: (Result<StepOutcome, CpuError>, Cpu, B),
    slot: (Result<StepOutcome, CpuError>, Cpu, B),
)
    requires
        major == 4 || major == 5,
        0 <= source < 32,
        0 <= second < 32,
        -0x8000 <= offset < 0x8000,
        runs(
            contents,
            mapped,
            immediate_form(major, source, second, offset % 0x1_0000),
            cpu,
            before,
            branch,
        ),
        branch.1.stepped(branch.2, slot.0, slot.1, slot.2),
        slot.0 matches Ok(outcome) && outcome.event == StepEvent::Instruction,
    ensures
        ({
            let equal = cpu.registers@[source] == cpu.registers@[second];
            let goes = if major == 4 {
                equal
            } else {
                !equal
            };
            let target = if goes {
                (cpu.pc + 4 + 4 * offset) % 0x1_0000_0000
            } else {
                (cpu.pc + 8) % 0x1_0000_0000
            };
            &&& has_branched(contents, cpu, before, branch, target, 0)
            &&& slot.1.pc == target
        }),
{
    let word = immediate_form(major, source, second, offset % 0x1_0000) as u32;
    lemma_immediate_fields(major, source, second, offset % 0x1_0000, word);
    let equal = cpu.registers@[source] == cpu.registers@[second];
    let goes = if major == 4 {
        equal
    } else {
        !equal
    };
    reveal(branch_target);
    let target = branch_target(goes, cpu.pc, offset);
    lemma_branched(contents, mapped, word, cpu, before, branch, target, None);
    lemma_goes_on(branch.1, branch.2, slot);
}

/// The branches on the sign of one register: opcode 6 is taken up to zero and opcode 7
/// above it. With opcode 1 the second field selects below zero when even and from zero on
/// when odd, and 16 and 17 leave the return address in register 31 either way.
pub proof fn law_sign_branches<B: Bus>(
    contents: spec_fn(B, u32) -> u8,
    mapped: Set<u32>,
    major: int,
    source: int,
    second: int,
    offset: int,
    cpu: Cpu,
    before: B,
    branch: (Result<StepOutcome, CpuError>, Cpu, B),
    slot: (Result<StepOutcome, CpuError>, Cpu, B),
)
    requires
        major == 1 || major == 6 || major == 7,
        0 <= source < 32,
        0 <= second < 32,
        major == 1 ==> second == 0 || second == 1 || second == 16 || second == 17,
        -0x8000 <= offset < 0x8000,
        runs(
            contents,
            mapped,
            immediate_form(major, source, second, offset % 0x1_0000),
            cpu,
            before,
            branch,
        ),
        branch.1.stepped(branch.2, slot.0, slot.1, slot.2),
        slot.0 matches Ok(outcome) && outcome.event == StepEvent::Instruction,
    ensures
        ({
            let value = cpu.registers@[source];
            let negative = value >= 0x8000_0000;
            let goes = if major == 6 {
                negative || value == 0
            } else if major == 7 {
                !negative && value != 0
            } else if second % 2 == 0 {
                negative
            } else {
                !negative
            };
            let target = if goes {
                (cpu.pc + 4 + 4 * offset) % 0x1_0000_0000
            } else {
                (cpu.pc + 8) % 0x1_0000_0000
            };
            let link = if major == 1 && second >= 16 {
                31int
            } else {
                0
            };
            &&& has_branched(contents, cpu, before, branch, target, link)
            &&& slot.1.pc == target
        }),
{
    let word = immediate_form(major, source, second, offset % 0x1_0000) as u32;
    let (goes, link) = lemma_sign_branch(cpu, major, source, second, offset, word);
    assert(branch_target(goes, cpu.pc, offset) == if goes {
        (cpu.pc + 4 + 4 * offset) % 0x1_0000_0000
    } else {
        (cpu.pc + 8) % 0x1_0000_0000
    }) by {
        reveal(branch_target);
    }
    let target = branch_target(goes, cpu.pc, offset);
    lemma_branched(contents, mapped, word, cpu, before, branch, target, link);
    lemma_goes_on(branch.1, branch.2, slot);
}

proof fn lemma_sign_branch(
    cpu: Cpu,
    major: int,
    source: int,
    second: int,
    offset: int,
    word: u32,
) -> (found: (bool, Option<u32>))
    requires
        major == 1 || major == 6 || major == 7,
        0 <= source < 32,
        0 <= second < 32,
        major == 1 ==> second == 0 || second == 1 || second == 16 || second == 17,
        -0x8000 <= offset < 0x8000,
        word == immediate_form(major, source, second, offset % 0x1_0000),
    ensures
        found.0 == ({
            let value = cpu.registers@[source];
            let negative = value >= 0x8000_0000;
            if major == 6 {
                negative || value == 0
            } else if major == 7 {
                !negative && value != 0
            } else if second % 2 == 0 {
                negative
            } else {
                !negative
            }
        }),
        found.1 == if major == 1 && second >= 16 {
            Some(31u32)
        } else {
            None
        },
        forall|pending: bool| #[trigger]
            operation(cpu.sampled(pending), cpu.pc, word) == (Operation::Branch {
                target: branch_target(found.0, cpu.pc, offset),
                link: found.1,
            }),
{
    lemma_immediate_fields(major, source, second, offset % 0x1_0000, word);
    assert(crate::r3000::isa::signed_immediate(word) == offset);
    reveal(sign_branch_operation);
    let value = cpu.registers@[source];
    let negative = value >= 0x8000_0000;
    let goes = if major == 6 {
        negative || value == 0
    } else if major == 7 {
        !negative && value != 0
    } else if second % 2 == 0 {
        negative
    } else {
        !negative
    };
    let link = if major == 1 && second >= 16 {
        Some(31u32)
    } else {
        None
    };
    (goes, link)
}

/// Opcode 2 jumps to a word of the 256 MiB that the delay slot is in; opcode 3 also leaves
/// the return address in register 31.
pub proof fn law_jumps<B: Bus>(
    contents: spec_fn(B, u32) -> u8,
    mapped: Set<u32>,
    major: int,
    index: int,
    cpu: Cpu,
    before: B,
    jump: (Result<StepOutcome, CpuError>, Cpu, B),
    slot: (Result<StepOutcome, CpuError>, Cpu, B),
)
    requires
        major == 2 || major == 3,
        0 <= index < 0x400_0000,
        runs(contents, mapped, major * 0x400_0000 + index, cpu, before, jump),
        jump.1.stepped(jump.2, slot.0, slot.1, slot.2),
        slot.0 matches Ok(outcome) && outcome.event == StepEvent::Instruction,
    ensures
        ({
            let region = ((cpu.pc + 4) % 0x1_0000_0000) / 0x1000_0000;
            let target = region * 0x1000_0000 + 4 * index;
            &&& has_branched(
                contents,
                cpu,
                before,
                jump,
                target,
                if major == 3 {
                    31
                } else {
                    0
                },
            )
            &&& slot.1.pc == target
        }),
{
    let word = (major * 0x400_0000 + index) as u32;
    assert(opcode(word) == major) by {
        reveal(opcode);
    }
    assert(word % 0x400_0000 == index);
    reveal(jump_address);
    let target = jump_address(cpu.pc, word);
    let link = if major == 3 {
        Some(31u32)
    } else {
        None
    };
    lemma_branched(contents, mapped, word, cpu, before, jump, target, link);
    lemma_goes_on(jump.1, jump.2, slot);
}

/// Selectors 8 and 9 jump to the address in a register; 9 also leaves the return address
/// in the destination register.
pub proof fn law_register_jumps<B: Bus>(
    contents: spec_fn(B, u32) -> u8,
    mapped: Set<u32>,
    source: int,
    second: int,
    destination: int,
    amount: int,
    selector: int,
    cpu: Cpu,
    before: B,
    jump: (Result<StepOutcome, CpuError>, Cpu, B),
    slot: (Result<StepOutcome, CpuError>, Cpu, B),
)
    requires
        selector == 8 || selector == 9,
        0 <= source < 32,
        0 <= second < 32,
        0 <= destination < 32,
        0 <= amount < 32,
        runs(
            contents,
            mapped,
            register_form(source, second, destination, amount, selector),
            cpu,
            before,
            jump,
        ),
        jump.1.stepped(jump.2, slot.0, slot.1, slot.2),
        slot.0 matches Ok(outcome) && outcome.event == StepEvent::Instruction,
    ensures
        has_branched(
            contents,
            cpu,
            before,
            jump,
            cpu.registers@[source] as int,
            if selector == 9 {
                destination
            } else {
                0
            },
        ),
        slot.1.pc == cpu.registers@[source],
{
    let word = register_form(source, second, destination, amount, selector) as u32;
    lemma_register_fields(source, second, destination, amount, selector, word);
    reveal(register_operation);
    let link = if selector == 9 {
        Some(destination as u32)
    } else {
        None
    };
    lemma_branched(contents, mapped, word, cpu, before, jump, cpu.registers@[source], link);
    lemma_goes_on(jump.1, jump.2, slot);
}

/// Selectors 33 and 35 add and subtract modulo 2^32; 36 to 39 are the bitwise and, or,
/// exclusive or and nor; 42 and 43 compare signed and unsigned.
pub proof fn law_register_arithmetic<B: Bus>(
    contents: spec_fn(B, u32) -> u8,
    mapped: Set<u32>,
    source: int,
    second: int,
    destination: int,
    amount: int,
    selector: int,
    cpu: Cpu,
    before: B,
    step: (Result<StepOutcome, CpuError>, Cpu, B),
)
    requires
        selector == 33 || selector == 35 || 36 <= selector <= 39 || selector == 42 || selector
            == 43,
        0 <= source < 32,
        0 <= second < 32,
        0 <= destination < 32,
        0 <= amount < 32,
        runs(contents, mapped, register_form(source, second, destination, amount, selector), cpu, before, step),
    ensures
        ({
            let left = cpu.registers@[source];
            let right = cpu.registers@[second];
            let value = if selector == 33 {
                (left + right) % 0x1_0000_0000
            } else if selector == 35 {
                (left - right) % 0x1_0000_0000
            } else if selector == 36 {
                (left & right) as int
            } else if selector == 37 {
                (left | right) as int
            } else if selector == 38 {
                (left ^ right) as int
            } else if selector == 39 {
                0xffff_ffff - (left | right)
            } else if (selector == 42 && as_signed(left) < as_signed(right)) || (selector == 43
                && left < right) {
                1
            } else {
                0
            };
            has_written(contents, cpu, before, step, destination, value)
        }),
{
    let word = register_form(source, second, destination, amount, selector) as u32;
    lemma_register_fields(source, second, destination, amount, selector, word);
    reveal(register_operation);
    let left = cpu.registers@[source];
    let right = cpu.registers@[second];
    lemma_complement(left | right);
    let value = if selector == 33 {
        ((left + right) % 0x1_0000_0000) as u32
    } else if selector == 35 {
        ((left - right) % 0x1_0000_0000) as u32
    } else if selector == 36 {
        left & right
    } else if selector == 37 {
        left | right
    } else if selector == 38 {
        left ^ right
    } else if selector == 39 {
        !(left | right)
    } else if (selector == 42 && as_signed(left) < as_signed(right)) || (selector == 43 && left
        < right) {
        1u32
    } else {
        0u32
    };
    lemma_written(contents, mapped, word, cpu, before, step, destination as u32, value);
}

proof fn lemma_complement(value: u32)
    by (bit_vector)
    ensures
        !value == 0xffff_ffff - value,
{
}

/// Selectors 32 and 34 add and subtract signed words where the result is one.
pub proof fn law_checked_arithmetic<B: Bus>(
    contents: spec_fn(B, u32) -> u8,
    mapped: Set<u32>,
    source: int,
    second: int,
    destination: int,
    amount: int,
    selector: int,
    cpu: Cpu,
    before: B,
    step: (Result<StepOutcome, CpuError>, Cpu, B),
)
    requires
        selector == 32 || selector == 34,
        0 <= source < 32,
        0 <= second < 32,
        0 <= destination < 32,
        0 <= amount < 32,
        ({
            let left = as_signed(cpu.registers@[source]);
            let right = as_signed(cpu.registers@[second]);
            let exact = if selector == 32 {
                left + right
            } else {
                left - right
            };
            -0x8000_0000 <= exact <= 0x7fff_ffff
        }),
        runs(contents, mapped, register_form(source, second, destination, amount, selector), cpu, before, step),
    ensures
        ({
            let left = as_signed(cpu.registers@[source]);
            let right = as_signed(cpu.registers@[second]);
            let exact = if selector == 32 {
                left + right
            } else {
                left - right
            };
            has_written(contents, cpu, before, step, destination, exact % 0x1_0000_0000)
        }),
{
    let word = register_form(source, second, destination, amount, selector) as u32;
    lemma_register_fields(source, second, destination, amount, selector, word);
    reveal(register_operation);
    let left = cpu.registers@[source];
    let right = cpu.registers@[second];
    let exact = if selector == 32 {
        as_signed(left) + as_signed(right)
    } else {
        as_signed(left) - as_signed(right)
    };
    let value = (exact % 0x1_0000_0000) as u32;
    lemma_written(contents, mapped, word, cpu, before, step, destination as u32, value);
}

/// Selectors 0, 2 and 3 shift by the amount field, and 4, 6 and 7 by the low five bits of
/// the first register: up modulo 2^32, down, and down with the sign kept.
pub proof fn law_shifts<B: Bus>(
    contents: spec_fn(B, u32) -> u8,
    mapped: Set<u32>,
    source: int,
    second: int,
    destination: int,
    amount: int,
    selector: int,
    cpu: Cpu,
    before: B,
    step: (Result<StepOutcome, CpuError>, Cpu, B),
)
    requires
        selector == 0 || selector == 2 || selector == 3 || selector == 4 || selector == 6
            || selector == 7,
        0 <= source < 32,
        0 <= second < 32,
        0 <= destination < 32,
        0 <= amount < 32,
        runs(contents, mapped, register_form(source, second, destination, amount, selector), cpu, before, step),
    ensures
        ({
            let places = if selector < 4 {
                amount
            } else {
                cpu.registers@[source] as int % 32
            };
            let scale = pow2(places as nat) as int;
            let right = cpu.registers@[second];
            let value = if selector % 4 == 0 {
                (right * scale) % 0x1_0000_0000
            } else if selector % 4 == 2 {
                right as int / scale
            } else {
                (as_signed(right) / scale) % 0x1_0000_0000
            };
            has_written(contents, cpu, before, step, destination, value)
        }),
{
    let word = register_form(source, second, destination, amount, selector) as u32;
    lemma_register_fields(source, second, destination, amount, selector, word);
    reveal(register_operation);
    let left = cpu.registers@[source];
    let right = cpu.registers@[second];
    let places = if selector < 4 {
        amount
    } else {
        left as int % 32
    };
    let scale = pow2(places as nat) as int;
    vstd::arithmetic::power2::lemma_pow2_pos(places as nat);
    assert(0 <= right as int / scale <= right) by {
        vstd::arithmetic::div_mod::lemma_div_pos_is_pos(right as int, scale);
        vstd::arithmetic::div_mod::lemma_div_is_ordered_by_denominator(right as int, 1, scale);
    }
    reveal(shifted_left);
    reveal(shifted_right);
    reveal(shifted_arithmetic);
    let value = if selector % 4 == 0 {
        shifted_left(right, places as u32)
    } else if selector % 4 == 2 {
        shifted_right(right, places as u32)
    } else {
        shifted_arithmetic(right, places as u32)
    };
    lemma_written(contents, mapped, word, cpu, before, step, destination as u32, value);
}

/// Selectors 16 and 18 read the result registers HI and LO; 17 and 19 write them.
pub proof fn law_result_moves<B: Bus>(
    contents: spec_fn(B, u32) -> u8,
    mapped: Set<u32>,
    source: int,
    second: int,
    destination: int,
    amount: int,
    selector: int,
    cpu: Cpu,
    before: B,
    step: (Result<StepOutcome, CpuError>, Cpu, B),
)
    requires
        16 <= selector <= 19,
        0 <= source < 32,
        0 <= second < 32,
        0 <= destination < 32,
        0 <= amount < 32,
        runs(contents, mapped, register_form(source, second, destination, amount, selector), cpu, before, step),
    ensures
        selector == 16 ==> has_written(contents, cpu, before, step, destination, cpu.hi as int),
        selector == 18 ==> has_written(contents, cpu, before, step, destination, cpu.lo as int),
        selector == 17 ==> has_results(contents, cpu, before, step, 1) && step.1.hi
            == cpu.registers@[source] && step.1.lo == cpu.lo,
        selector == 19 ==> has_results(contents, cpu, before, step, 1) && step.1.lo
            == cpu.registers@[source] && step.1.hi == cpu.hi,
{
    let word = register_form(source, second, destination, amount, selector) as u32;
    lemma_register_fields(source, second, destination, amount, selector, word);
    reveal(register_operation);
    let left = cpu.registers@[source];
    let right = cpu.registers@[second];
    if selector == 16 {
        lemma_written(contents, mapped, word, cpu, before, step, destination as u32, cpu.hi);
    } else if selector == 18 {
        lemma_written(contents, mapped, word, cpu, before, step, destination as u32, cpu.lo);
    } else if selector == 17 {
        lemma_results(contents, mapped, word, cpu, before, step, left, cpu.lo, 1);
    } else {
        lemma_results(contents, mapped, word, cpu, before, step, cpu.hi, left, 1);
    }
}

/// Selectors 24 and 25 multiply, signed and unsigned: HI and LO hold the upper and the
/// lower word of the product.
pub proof fn law_multiply<B: Bus>(
    contents: spec_fn(B, u32) -> u8,
    mapped: Set<u32>,
    source: int,
    second: int,
    destination: int,
    amount: int,
    selector: int,
    cpu: Cpu,
    before: B,
    step: (Result<StepOutcome, CpuError>, Cpu, B),
)
    requires
        selector == 24 || selector == 25,
        0 <= source < 32,
        0 <= second < 32,
        0 <= destination < 32,
        0 <= amount < 32,
        runs(contents, mapped, register_form(source, second, destination, amount, selector), cpu, before, step),
    ensures
        has_results(contents, cpu, before, step, 6),
        ({
            let left = cpu.registers@[source];
            let right = cpu.registers@[second];
            let product = if selector == 24 {
                as_signed(left) * as_signed(right)
            } else {
                left * right
            };
            let hi = if selector == 24 {
                as_signed(step.1.hi)
            } else {
                step.1.hi as int
            };
            0x1_0000_0000 * hi + step.1.lo == product
        }),
{
    let word = register_form(source, second, destination, amount, selector) as u32;
    lemma_register_fields(source, second, destination, amount, selector, word);
    reveal(register_operation);
    let left = cpu.registers@[source];
    let right = cpu.registers@[second];
    let (a, b) = if selector == 24 {
        (as_signed(left), as_signed(right))
    } else {
        (left as int, right as int)
    };
    lemma_results(
        contents,
        mapped,
        word,
        cpu,
        before,
        step,
        product_high(a, b),
        product_low(a, b),
        6,
    );
    lemma_product_words(left, right);
}

proof fn lemma_product_words(left: u32, right: u32)
    ensures
        0x1_0000_0000 * product_high(left as int, right as int) + product_low(
            left as int,
            right as int,
        ) == left * right,
        0x1_0000_0000 * as_signed(product_high(as_signed(left), as_signed(right))) + product_low(
            as_signed(left),
            as_signed(right),
        ) == as_signed(left) * as_signed(right),
{
    reveal(product_high);
    reveal(product_low);
    assert(0 <= left * right < 0x1_0000_0000 * 0x1_0000_0000) by (nonlinear_arith)
        requires
            0 <= left < 0x1_0000_0000,
            0 <= right < 0x1_0000_0000,
    ;
    let a = as_signed(left);
    let b = as_signed(right);
    assert(-0x4000_0000_0000_0000 <= a * b <= 0x4000_0000_0000_0000) by (nonlinear_arith)
        requires
            -0x8000_0000 <= a <= 0x8000_0000,
            -0x8000_0000 <= b <= 0x8000_0000,
    ;
    lemma_halves(left * right);
    lemma_halves(a * b);
}

proof fn lemma_halves(product: int)
    requires
        -0x4000_0000_0000_0000 <= product < 0x1_0000_0000 * 0x1_0000_0000,
    ensures
        ({
            let hi = ((product / 0x1_0000_0000) % 0x1_0000_0000) as u32;
            let lo = (product % 0x1_0000_0000) as u32;
            &&& product >= 0 ==> 0x1_0000_0000 * hi + lo == product
            &&& product <= 0x4000_0000_0000_0000 ==> 0x1_0000_0000 * as_signed(hi) + lo == product
        }),
{
}

/// Selector 27 divides unsigned words: LO times the divisor plus HI is the dividend, and HI
/// is less than the divisor. Dividing by zero leaves the dividend in HI and all ones in LO.
pub proof fn law_unsigned_divide<B: Bus>(
    contents: spec_fn(B, u32) -> u8,
    mapped: Set<u32>,
    source: int,
    second: int,
    destination: int,
    amount: int,
    selector: int,
    cpu: Cpu,
    before: B,
    step: (Result<StepOutcome, CpuError>, Cpu, B),
)
    requires
        selector == 27,
        0 <= source < 32,
        0 <= second < 32,
        0 <= destination < 32,
        0 <= amount < 32,
        runs(contents, mapped, register_form(source, second, destination, amount, selector), cpu, before, step),
    ensures
        has_results(contents, cpu, before, step, 10),
        ({
            let left = cpu.registers@[source];
            let right = cpu.registers@[second];
            if right == 0 {
                step.1.hi == left && step.1.lo == 0xffff_ffff
            } else {
                step.1.lo * right + step.1.hi == left && step.1.hi < right
            }
        }),
{
    let word = register_form(source, second, destination, amount, selector) as u32;
    lemma_register_fields(source, second, destination, amount, selector, word);
    reveal(register_operation);
    let left = cpu.registers@[source];
    let right = cpu.registers@[second];
    if right == 0 {
        lemma_results(contents, mapped, word, cpu, before, step, left, u32::MAX, 10);
    } else {
        lemma_results(contents, mapped, word, cpu, before, step, left % right, left / right, 10);
        vstd::arithmetic::div_mod::lemma_fundamental_div_mod(left as int, right as int);
        vstd::arithmetic::mul::lemma_mul_is_commutative(right as int, left as int / right as int);
        vstd::arithmetic::div_mod::lemma_mod_bound(left as int, right as int);
    }
}

/// Selector 26 divides signed words toward zero: LO times the divisor plus HI is the
/// dividend, and HI is smaller than the divisor and has the sign of the dividend. The one
/// quotient that is no word leaves itself modulo 2^32. Dividing by zero leaves the dividend
/// in HI, and in LO one for a negative dividend and minus one for another.
pub proof fn law_signed_divide<B: Bus>(
    contents: spec_fn(B, u32) -> u8,
    mapped: Set<u32>,
    source: int,
    second: int,
    destination: int,
    amount: int,
    selector: int,
    cpu: Cpu,
    before: B,
    step: (Result<StepOutcome, CpuError>, Cpu, B),
)
    requires
        selector == 26,
        0 <= source < 32,
        0 <= second < 32,
        0 <= destination < 32,
        0 <= amount < 32,
        runs(contents, mapped, register_form(source, second, destination, amount, selector), cpu, before, step),
    ensures
        has_results(contents, cpu, before, step, 10),
        ({
            let left = as_signed(cpu.registers@[source]);
            let right = as_signed(cpu.registers@[second]);
            let quotient = as_signed(step.1.lo);
            let remainder = as_signed(step.1.hi);
            if right == 0 {
                remainder == left && quotient == if left < 0 {
                    1int
                } else {
                    -1
                }
            } else if left == -0x8000_0000 && right == -1 {
                remainder == 0 && quotient == -0x8000_0000
            } else {
                &&& quotient * right + remainder == left
                &&& left >= 0 ==> 0 <= remainder
                &&& left <= 0 ==> remainder <= 0
                &&& right > 0 ==> -right < remainder < right
                &&& right < 0 ==> right < remainder < -right
            }
        }),
{
    let word = register_form(source, second, destination, amount, selector) as u32;
    lemma_register_fields(source, second, destination, amount, selector, word);
    reveal(register_operation);
    let left = cpu.registers@[source];
    let right = cpu.registers@[second];
    let hi = signed_remainder(left, right);
    let lo = signed_quotient(left, right);
    lemma_results(contents, mapped, word, cpu, before, step, hi, lo, 10);
    lemma_signed_words(left, right);
}

proof fn lemma_signed_words(numerator: u32, denominator: u32)
    ensures
        ({
            let left = as_signed(numerator);
            let right = as_signed(denominator);
            let quotient = as_signed(signed_quotient(numerator, denominator));
            let remainder = as_signed(signed_remainder(numerator, denominator));
            if right == 0 {
                remainder == left && quotient == if left < 0 {
                    1int
                } else {
                    -1
                }
            } else if left == -0x8000_0000 && right == -1 {
                remainder == 0 && quotient == -0x8000_0000
            } else {
                &&& quotient * right + remainder == left
                &&& left >= 0 ==> 0 <= remainder
                &&& left <= 0 ==> remainder <= 0
                &&& right > 0 ==> -right < remainder < right
                &&& right < 0 ==> right < remainder < -right
            }
        }),
{
    reveal(signed_quotient);
    reveal(signed_remainder);
    if denominator != 0 {
        let left = as_signed(numerator);
        let right = as_signed(denominator);
        lemma_signed_division(left, right);
        let quotient = crate::r3000::isa::truncated_quotient(left, right);
        let remainder = crate::r3000::isa::truncated_remainder(left, right);
        assert(as_signed((remainder % 0x1_0000_0000) as u32) == remainder);
        if quotient != 0x8000_0000 {
            assert(as_signed((quotient % 0x1_0000_0000) as u32) == quotient);
        }
    }
}

proof fn lemma_signed_division(left: int, right: int)
    requires
        -0x8000_0000 <= left <= 0x7fff_ffff,
        -0x8000_0000 <= right <= 0x7fff_ffff,
        right != 0,
    ensures
        ({
            let quotient = crate::r3000::isa::truncated_quotient(left, right);
            let remainder = crate::r3000::isa::truncated_remainder(left, right);
            &&& quotient * right + remainder == left
            &&& left >= 0 ==> 0 <= remainder
            &&& left <= 0 ==> remainder <= 0
            &&& right > 0 ==> -right < remainder < right
            &&& right < 0 ==> right < remainder < -right
            &&& -0x8000_0000 <= quotient <= 0x8000_0000
            &&& quotient == 0x8000_0000 <==> left == -0x8000_0000 && right == -1
        }),
{
    let a = crate::r3000::isa::magnitude(left);
    let b = crate::r3000::isa::magnitude(right);
    let q = a / b;
    let r = a % b;
    vstd::arithmetic::div_mod::lemma_fundamental_div_mod(a, b);
    vstd::arithmetic::div_mod::lemma_mod_bound(a, b);
    vstd::arithmetic::div_mod::lemma_div_pos_is_pos(a, b);
    vstd::arithmetic::div_mod::lemma_div_is_ordered_by_denominator(a, 1, b);
    assert(b * q == q * b) by (nonlinear_arith);
    assert(q * (-b) == -(q * b)) by (nonlinear_arith);
    assert((-q) * b == -(q * b)) by (nonlinear_arith);
    assert((-q) * (-b) == q * b) by (nonlinear_arith);
    if b >= 2 {
        assert(2 * q <= q * b) by (nonlinear_arith)
            requires
                q >= 0,
                b >= 2,
        ;
    }
}

/// Opcode 9 adds the signed immediate modulo 2^32; 10 and 11 compare with it, signed and
/// unsigned; 12, 13 and 14 are the bitwise and, or and exclusive or with the unsigned
/// immediate; 15 puts it into the upper half.
pub proof fn law_immediate_arithmetic<B: Bus>(
    contents: spec_fn(B, u32) -> u8,
    mapped: Set<u32>,
    major: int,
    source: int,
    second: int,
    value: int,
    cpu: Cpu,
    before: B,
    step: (Result<StepOutcome, CpuError>, Cpu, B),
)
    requires
        9 <= major <= 15,
        0 <= source < 32,
        0 <= second < 32,
        0 <= value < 0x1_0000,
        runs(contents, mapped, immediate_form(major, source, second, value), cpu, before, step),
    ensures
        ({
            let left = cpu.registers@[source];
            let signed = as_offset(value);
            let unsigned = value as u32;
            let result = if major == 9 {
                (left + signed) % 0x1_0000_0000
            } else if major == 12 {
                (left & unsigned) as int
            } else if major == 13 {
                (left | unsigned) as int
            } else if major == 14 {
                (left ^ unsigned) as int
            } else if major == 15 {
                value * 0x1_0000
            } else if (major == 10 && as_signed(left) < signed) || (major == 11 && left < signed
                % 0x1_0000_0000) {
                1
            } else {
                0
            };
            has_written(contents, cpu, before, step, second, result)
        }),
{
    let word = immediate_form(major, source, second, value) as u32;
    lemma_immediate_fields(major, source, second, value, word);
    let left = cpu.registers@[source];
    let signed = as_offset(value);
    let unsigned = value as u32;
    let result = if major == 9 {
        ((left + signed) % 0x1_0000_0000) as u32
    } else if major == 12 {
        left & unsigned
    } else if major == 13 {
        left | unsigned
    } else if major == 14 {
        left ^ unsigned
    } else if major == 15 {
        (value * 0x1_0000) as u32
    } else if (major == 10 && as_signed(left) < signed) || (major == 11 && left < signed
        % 0x1_0000_0000) {
        1u32
    } else {
        0u32
    };
    lemma_written(contents, mapped, word, cpu, before, step, second as u32, result);
}

/// Opcode 8 adds the signed immediate where the signed sum is a word.
pub proof fn law_checked_immediate<B: Bus>(
    contents: spec_fn(B, u32) -> u8,
    mapped: Set<u32>,
    major: int,
    source: int,
    second: int,
    value: int,
    cpu: Cpu,
    before: B,
    step: (Result<StepOutcome, CpuError>, Cpu, B),
)
    requires
        major == 8,
        0 <= source < 32,
        0 <= second < 32,
        0 <= value < 0x1_0000,
        -0x8000_0000 <= as_signed(cpu.registers@[source]) + as_offset(value) <= 0x7fff_ffff,
        runs(contents, mapped, immediate_form(major, source, second, value), cpu, before, step),
    ensures
        has_written(
            contents,
            cpu,
            before,
            step,
            second,
            (as_signed(cpu.registers@[source]) + as_offset(value)) % 0x1_0000_0000,
        ),
{
    let word = immediate_form(major, source, second, value) as u32;
    lemma_immediate_fields(major, source, second, value, word);
    let left = cpu.registers@[source];
    let result = ((as_signed(left) + as_offset(value)) % 0x1_0000_0000) as u32;
    lemma_written(contents, mapped, word, cpu, before, step, second as u32, result);
}

} // verus!
