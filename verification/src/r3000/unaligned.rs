//! What pairs of unaligned loads and stores do to a register and to memory.

use vstd::prelude::*;

use crate::bits::wrap32;
use crate::bytes::bytes32;
use crate::r3000::bus::{AccessType, Bus, BusFault, CpuError};
use crate::r3000::cpu::{
    bus_read, executed, store_result, word_merged, Cpu, Execution, StepEvent, StepOutcome,
    CAUSE_IP2, INTERRUPTS,
};
use crate::r3000::isa::{
    function, opcode, operation, rd, rs, rt, signed_immediate, LoadKind, Operation, StoreKind,
};

verus! {

/// The little-endian word of four bytes.
pub open spec fn word_of_bytes(first: u8, second: u8, third: u8, fourth: u8) -> u32 {
    (first + second * 0x100 + third * 0x1_0000 + fourth * 0x100_0000) as u32
}

/// The word in four bytes of a machine from `address` on, the last address being
/// followed by the first.
pub open spec fn word_in<B>(contents: spec_fn(B, u32) -> u8, machine: B, address: u32) -> u32 {
    word_of_bytes(
        contents(machine, address),
        contents(machine, wrap32(address + 1)),
        contents(machine, wrap32(address + 2)),
        contents(machine, wrap32(address + 3)),
    )
}

/// Every byte is as before.
pub open spec fn unchanged<B>(contents: spec_fn(B, u32) -> u8, before: B, after: B) -> bool {
    forall|address: u32| #[trigger] contents(after, address) == contents(before, address)
}

/// The aligned address of the word that holds the byte at `address`.
pub open spec fn word_address(address: u32) -> u32 {
    (address - address % 4) as u32
}

/// The words at `mapped` are plain little-endian memory with the given contents: reads
/// and writes of them do not fail, a read changes nothing and a write only its word.
/// Nothing is said of accesses that are not aligned.
pub open spec fn is_plain_memory<B: Bus>(
    contents: spec_fn(B, u32) -> u8,
    mapped: Set<u32>,
) -> bool {
    &&& forall|before: B, address: u32, value: Result<u32, BusFault>, after: B|
        #![trigger B::word_read(before, address, value, after)]
        address % 4 == 0 && mapped.contains(address) && B::word_read(before, address, value, after)
            ==> value == Ok::<u32, BusFault>(word_in(contents, before, address)) && unchanged(
            contents,
            before,
            after,
        )
    &&& forall|before: B, address: u32, value: u32, done: Result<(), BusFault>, after: B|
        #![trigger B::word_written(before, address, value, done, after)]
        address % 4 == 0 && mapped.contains(address) && B::word_written(
            before,
            address,
            value,
            done,
            after,
        ) ==> done is Ok && word_replaced(contents, before, address, value, after)
}

/// The bytes of the word at `address` are those of `value` and every other byte is as
/// before.
pub open spec fn word_replaced<B>(
    contents: spec_fn(B, u32) -> u8,
    before: B,
    address: u32,
    value: u32,
    after: B,
) -> bool {
    forall|each: u32| #[trigger]
        contents(after, each) == if word_address(each) == address {
            bytes32(value)[each as int % 4]
        } else {
            contents(before, each)
        }
}

/// Whatever the machine's interrupt line reads as, the processor takes no interrupt.
pub open spec fn is_undisturbed<B: Bus>(cpu: Cpu, machine: B) -> bool {
    forall|pending: bool| #[trigger]
        machine.line_sampled(pending) ==> !cpu.sampled(pending).interrupt_due(INTERRUPTS)
}

/// No load of `register` is in flight.
pub open spec fn is_settled(cpu: Cpu, register: u32) -> bool {
    register != 0 ==> (cpu.pending_load matches Some(load) ==> load.0 != register)
}

/// The report of an instruction that retired.
pub open spec fn retires(
    result: Result<StepOutcome, CpuError>,
    pc: u32,
    instruction: u32,
    cycles: u32,
) -> bool {
    result == Ok::<StepOutcome, CpuError>(
        StepOutcome { pc, instruction: Some(instruction), cycles, event: StepEvent::Instruction },
    )
}

/// The address that a load or store is for.
pub open spec fn data_address(cpu: Cpu, instruction: u32) -> u32 {
    wrap32(cpu.registers@[rs(instruction) as int] + signed_immediate(instruction))
}

/// Two instructions that take a register to or from an unaligned word: `right` names its
/// first byte and `left` its last.
pub open spec fn is_pair(right: u32, left: u32) -> bool {
    &&& rs(left) == rs(right)
    &&& rt(left) == rt(right)
    &&& signed_immediate(left) == signed_immediate(right) + 3
}

/// Sampling the interrupt line again replaces what was sampled before.
proof fn lemma_sampled_again(cause: u32)
    by (bit_vector)
    ensures
        (cause | CAUSE_IP2) | CAUSE_IP2 == cause | CAUSE_IP2,
        (cause | CAUSE_IP2) & !CAUSE_IP2 == cause & !CAUSE_IP2,
        (cause & !CAUSE_IP2) | CAUSE_IP2 == cause | CAUSE_IP2,
        (cause & !CAUSE_IP2) & !CAUSE_IP2 == cause & !CAUSE_IP2,
{
}

/// A processor whose control registers differ from those of `cpu` by the sampled line
/// alone is undisturbed where `cpu` is.
pub proof fn lemma_undisturbed<B: Bus>(cpu: Cpu, later: Cpu, pending: bool, machine: B)
    requires
        is_undisturbed(cpu, machine),
        later.cop0 == cpu.sampled(pending).cop0,
    ensures
        is_undisturbed(later, machine),
{
    lemma_sampled_again(cpu.cop0.cause);
    assert forall|line: bool| #[trigger] machine.line_sampled(line) implies !later.sampled(
        line,
    ).interrupt_due(INTERRUPTS) by {
        assert(later.sampled(line).cop0 == cpu.sampled(line).cop0);
    }
}

/// A step of a processor on a machine with plain memory.
#[verifier::opaque]
spec fn steps<B: Bus>(
    contents: spec_fn(B, u32) -> u8,
    mapped: Set<u32>,
    cpu: Cpu,
    before: B,
    step: (Result<StepOutcome, CpuError>, Cpu, B),
) -> bool {
    is_plain_memory(contents, mapped) && cpu.stepped(before, step.0, step.1, step.2)
}

/// What one undisturbed step does: it fetches from plain memory and carries out.
pub proof fn lemma_step<B: Bus>(
    contents: spec_fn(B, u32) -> u8,
    mapped: Set<u32>,
    cpu: Cpu,
    before: B,
    result: Result<StepOutcome, CpuError>,
    cpu_after: Cpu,
    after: B,
) -> (parts: (bool, B, Result<Execution, CpuError>, Cpu))
    requires
        is_plain_memory(contents, mapped),
        is_undisturbed(cpu, before),
        cpu.pc % 4 == 0,
        mapped.contains(cpu.pc),
        cpu.stepped(before, result, cpu_after, after),
    ensures
        unchanged(contents, before, parts.1),
        executed(
            cpu.sampled(parts.0),
            parts.1,
            cpu.pc,
            word_in(contents, before, cpu.pc),
            parts.2,
            parts.3,
            after,
        ),
        parts.2 matches Ok(execution) ==> cpu_after == parts.3.completed(execution) && result
            == Ok::<StepOutcome, CpuError>(
            parts.3.outcome(word_in(contents, before, cpu.pc), execution),
        ),
{
    let pending = choose|pending: bool| #[trigger]
        before.line_sampled(pending) && cpu.sampled(pending).advanced(
            INTERRUPTS,
            before,
            result,
            cpu_after,
            after,
        );
    let start = cpu.sampled(pending);
    assert(before.line_sampled(pending));
    assert(!start.interrupt_due(INTERRUPTS));
    assert(start.fetched(before, result, cpu_after, after));
    let (instruction, between, done, carried_out) = choose|
        instruction: u32,
        between: B,
        done: Result<Execution, CpuError>,
        carried_out: Cpu,
    |
        #![trigger B::word_read(before, start.pc, Ok(instruction), between), executed(
            start,
            between,
            start.pc,
            instruction,
            done,
            carried_out,
            after,
        )]
        B::word_read(before, start.pc, Ok(instruction), between) && executed(
            start,
            between,
            start.pc,
            instruction,
            done,
            carried_out,
            after,
        ) && match done {
            Ok(execution) => cpu_after == carried_out.completed(execution) && result == Ok::<
                StepOutcome,
                CpuError,
            >(carried_out.outcome(instruction, execution)),
            Err(error) => cpu_after == start && result == Err::<StepOutcome, CpuError>(error),
        };
    assert(B::word_read(before, start.pc, Ok(instruction), between));
    (pending, between, done, carried_out)
}

/// One undisturbed unaligned load from plain memory.
#[verifier::rlimit(40)]
#[verifier::spinoff_prover]
proof fn lemma_load_step<B: Bus>(
    contents: spec_fn(B, u32) -> u8,
    mapped: Set<u32>,
    kind: LoadKind,
    cpu: Cpu,
    before: B,
    step: (Result<StepOutcome, CpuError>, Cpu, B),
) -> (pending: bool)
    requires
        is_undisturbed(cpu, before),
        cpu.pc % 4 == 0,
        mapped.contains(cpu.pc),
        kind == LoadKind::Left || kind == LoadKind::Right,
        opcode(word_in(contents, before, cpu.pc)) == if kind == LoadKind::Left {
            0x22u32
        } else {
            0x26
        },
        mapped.contains(word_address(data_address(cpu, word_in(contents, before, cpu.pc)))),
        steps(contents, mapped, cpu, before, step),
    ensures
        ({
            let instruction = word_in(contents, before, cpu.pc);
            let address = data_address(cpu, instruction);
            let value = kind.value(
                word_in(contents, before, word_address(address)),
                cpu.load_base(rt(instruction)),
                address,
            );
            &&& step.1 == cpu.sampled(pending).retired(
                Execution::loading(rt(instruction), value),
            )
            &&& unchanged(contents, before, step.2)
            &&& retires(step.0, cpu.pc, instruction, 2)
        }),
{
    reveal(steps);
    let (result, cpu_after, after) = step;
    let parts = lemma_step(contents, mapped, cpu, before, result, cpu_after, after);
    let start = cpu.sampled(parts.0);
    let between = parts.1;
    let done = parts.2;
    let instruction = word_in(contents, before, cpu.pc);
    let address = data_address(cpu, instruction);
    let register = rt(instruction);
    let aligned = word_address(address);
    assert(operation(start, cpu.pc, instruction) == Operation::Load { kind, register, address });
    assert(kind.bus_address(address) == aligned);
    let raw = choose|raw: Result<u32, BusFault>| #[trigger]
        bus_read(between, kind, aligned, raw, after) && done == match raw {
            Ok(value) => Ok::<Execution, CpuError>(
                Execution::loading(
                    register,
                    kind.value(value, start.load_base(register), address),
                ),
            ),
            Err(source) => Err(
                CpuError {
                    pc: cpu.pc,
                    address: aligned,
                    access: AccessType::Load,
                    source,
                },
            ),
        };
    assert(bus_read(between, kind, aligned, raw, after));
    assert(B::word_read(between, aligned, raw, after));
    assert(raw == Ok::<u32, BusFault>(word_in(contents, between, aligned)));
    assert(word_in(contents, between, aligned) == word_in(contents, before, aligned));
    assert(start.load_base(register) == cpu.load_base(register));
    parts.0
}

/// One undisturbed unaligned store to plain memory.
#[verifier::rlimit(40)]
#[verifier::spinoff_prover]
proof fn lemma_store_step<B: Bus>(
    contents: spec_fn(B, u32) -> u8,
    mapped: Set<u32>,
    kind: StoreKind,
    cpu: Cpu,
    before: B,
    step: (Result<StepOutcome, CpuError>, Cpu, B),
) -> (pending: bool)
    requires
        is_undisturbed(cpu, before),
        cpu.pc % 4 == 0,
        mapped.contains(cpu.pc),
        kind == StoreKind::Left || kind == StoreKind::Right,
        opcode(word_in(contents, before, cpu.pc)) == if kind == StoreKind::Left {
            0x2au32
        } else {
            0x2e
        },
        mapped.contains(word_address(data_address(cpu, word_in(contents, before, cpu.pc)))),
        steps(contents, mapped, cpu, before, step),
    ensures
        ({
            let instruction = word_in(contents, before, cpu.pc);
            let address = data_address(cpu, instruction);
            let aligned = word_address(address);
            let value = kind.merged(
                word_in(contents, before, aligned),
                cpu.registers@[rt(instruction) as int],
                address,
            );
            &&& step.1 == cpu.sampled(pending).retired(
                Execution { cycles: 2, ..Execution::plain() },
            )
            &&& word_replaced(contents, before, aligned, value, step.2)
            &&& retires(step.0, cpu.pc, instruction, 2)
        }),
{
    reveal(steps);
    let (result, cpu_after, after) = step;
    let parts = lemma_step(contents, mapped, cpu, before, result, cpu_after, after);
    let start = cpu.sampled(parts.0);
    let between = parts.1;
    let done = parts.2;
    let instruction = word_in(contents, before, cpu.pc);
    let address = data_address(cpu, instruction);
    let aligned = word_address(address);
    let value = cpu.registers@[rt(instruction) as int];
    assert(operation(start, cpu.pc, instruction) == Operation::Store {
        form: kind,
        address,
        value,
    });
    assert(word_merged(between, cpu.pc, kind, address, value, done, after));
    if exists|fault: BusFault| #[trigger] B::word_read(between, aligned, Err(fault), after) {
        let fault = choose|fault: BusFault| #[trigger]
            B::word_read(between, aligned, Err(fault), after);
        assert(B::word_read(between, aligned, Err(fault), after));
        assert(false);
    }
    let (word, read, stored) = choose|word: u32, read: B, stored: Result<(), BusFault>|
        #![trigger B::word_read(between, aligned, Ok(word), read), B::word_written(
            read,
            aligned,
            kind.merged(word, value, address),
            stored,
            after,
        )]
        B::word_read(between, aligned, Ok(word), read) && B::word_written(
            read,
            aligned,
            kind.merged(word, value, address),
            stored,
            after,
        ) && done == store_result(cpu.pc, aligned, stored);
    assert(B::word_read(between, aligned, Ok(word), read));
    assert(word == word_in(contents, between, aligned));
    assert(word == word_in(contents, before, aligned));
    assert(B::word_written(read, aligned, kind.merged(word, value, address), stored, after));
    assert(unchanged(contents, before, read));
    parts.0
}

/// One undisturbed step of an instruction word of zeros only lets a load land.
proof fn lemma_idle_step<B: Bus>(
    contents: spec_fn(B, u32) -> u8,
    mapped: Set<u32>,
    cpu: Cpu,
    before: B,
    step: (Result<StepOutcome, CpuError>, Cpu, B),
)
    requires
        cpu.wf(),
        is_undisturbed(cpu, before),
        cpu.pc % 4 == 0,
        mapped.contains(cpu.pc),
        word_in(contents, before, cpu.pc) == 0,
        steps(contents, mapped, cpu, before, step),
    ensures
        step.1.registers == cpu.landed(),
        unchanged(contents, before, step.2),
        retires(step.0, cpu.pc, 0, 1),
{
    reveal(steps);
    let (result, cpu_after, after) = step;
    let parts = lemma_step(contents, mapped, cpu, before, result, cpu_after, after);
    let start = cpu.sampled(parts.0);
    reveal(opcode);
    reveal(function);
    reveal(rd);
    reveal(crate::r3000::isa::register_operation);
    assert(opcode(0) == 0 && function(0) == 0 && rd(0) == 0);
    let idle = operation(start, cpu.pc, 0);
    assert(idle is Write && idle->Write_register == 0);
    assert(start.landed() == cpu.landed());
}

/// A quotient and a remainder come apart again.
proof fn lemma_join(quotient: int, remainder: int, weight: int)
    requires
        0 <= remainder < weight,
    ensures
        (quotient * weight + remainder) / weight == quotient,
        (quotient * weight + remainder) % weight == remainder,
{
    vstd::arithmetic::div_mod::lemma_fundamental_div_mod_converse(
        quotient * weight + remainder,
        weight,
        quotient,
        remainder,
    );
}

/// The lanes of a word of four bytes.
proof fn lemma_word_lanes(bytes: (u8, u8, u8, u8))
    ensures
        ({
            let word = word_of_bytes(bytes.0, bytes.1, bytes.2, bytes.3) as int;
            &&& word == bytes.0 + bytes.1 * 0x100 + bytes.2 * 0x1_0000 + bytes.3 * 0x100_0000
            &&& word % 0x100 == bytes.0
            &&& word / 0x100 == bytes.1 + bytes.2 * 0x100 + bytes.3 * 0x1_0000
            &&& word % 0x1_0000 == bytes.0 + bytes.1 * 0x100
            &&& word / 0x1_0000 == bytes.2 + bytes.3 * 0x100
            &&& word % 0x100_0000 == bytes.0 + bytes.1 * 0x100 + bytes.2 * 0x1_0000
            &&& word / 0x100_0000 == bytes.3
        }),
{
    lemma_join(bytes.1 + bytes.2 * 0x100 + bytes.3 * 0x1_0000, bytes.0 as int, 0x100);
    lemma_join(bytes.2 + bytes.3 * 0x100, bytes.0 + bytes.1 * 0x100, 0x1_0000);
    lemma_join(bytes.3 as int, bytes.0 + bytes.1 * 0x100 + bytes.2 * 0x1_0000, 0x100_0000);
}

/// The bytes of a word, one by one.
proof fn lemma_word_bytes(bytes: (u8, u8, u8, u8))
    ensures
        bytes32(word_of_bytes(bytes.0, bytes.1, bytes.2, bytes.3)) == seq![
            bytes.0,
            bytes.1,
            bytes.2,
            bytes.3,
        ],
{
    lemma_word_lanes(bytes);
    let word = word_of_bytes(bytes.0, bytes.1, bytes.2, bytes.3);
    lemma_join(bytes.1 as int, bytes.0 as int, 0x100);
    lemma_join(bytes.3 as int, bytes.2 as int, 0x100);
    assert(bytes32(word) =~= seq![bytes.0, bytes.1, bytes.2, bytes.3]);
}

/// Every word is a word of four bytes.
proof fn lemma_word_has_bytes(word: u32) -> (bytes: (u8, u8, u8, u8))
    ensures
        word == word_of_bytes(bytes.0, bytes.1, bytes.2, bytes.3),
        bytes32(word) == seq![bytes.0, bytes.1, bytes.2, bytes.3],
{
    let bytes = (
        (word % 0x100) as u8,
        (word / 0x100 % 0x100) as u8,
        (word / 0x1_0000 % 0x100) as u8,
        (word / 0x100_0000) as u8,
    );
    assert(word / 0x1_0000 == word / 0x100 / 0x100);
    assert(word / 0x100_0000 == word / 0x1_0000 / 0x100);
    lemma_word_bytes(bytes);
    bytes
}

/// The bytes that a pair of unaligned loads is for; `low` and `high` are those of the
/// aligned words that hold the first and the last of them.
spec fn straddled(low: (u8, u8, u8, u8), high: (u8, u8, u8, u8), lane: int) -> (u8, u8, u8, u8) {
    if lane == 0 {
        low
    } else if lane == 1 {
        (low.1, low.2, low.3, high.0)
    } else if lane == 2 {
        (low.2, low.3, high.0, high.1)
    } else {
        (low.3, high.0, high.1, high.2)
    }
}

/// Two unaligned loads that fill a register from both sides of a word boundary, in
/// either order, read the four bytes.
proof fn lemma_loaded_bytes(
    low: (u8, u8, u8, u8),
    high: (u8, u8, u8, u8),
    base: u32,
    address: u32,
    last: u32,
)
    requires
        last as int % 4 == (address as int + 3) % 4,
        address % 4 == 0 ==> low == high,
    ensures
        ({
            let first_word = word_of_bytes(low.0, low.1, low.2, low.3);
            let last_word = word_of_bytes(high.0, high.1, high.2, high.3);
            let bytes = straddled(low, high, address as int % 4);
            let loaded = word_of_bytes(bytes.0, bytes.1, bytes.2, bytes.3);
            &&& LoadKind::Left.value(
                last_word,
                LoadKind::Right.value(first_word, base, address),
                last,
            ) == loaded
            &&& LoadKind::Right.value(
                first_word,
                LoadKind::Left.value(last_word, base, last),
                address,
            ) == loaded
        }),
{
    reveal(LoadKind::value);
    let lane = address as int % 4;
    let first_word = word_of_bytes(low.0, low.1, low.2, low.3);
    let last_word = word_of_bytes(high.0, high.1, high.2, high.3);
    let bytes = straddled(low, high, lane);
    let over = lemma_word_has_bytes(base);
    lemma_word_lanes(low);
    lemma_word_lanes(high);
    lemma_word_lanes(over);
    lemma_word_lanes(bytes);
    if lane == 0 {
        assert(last as int % 4 == 3);
    } else if lane == 1 {
        assert(last as int % 4 == 0);
        let right = (low.1, low.2, low.3, over.3);
        let left = (over.0, over.1, over.2, high.0);
        lemma_word_lanes(right);
        lemma_word_lanes(left);
        assert(LoadKind::Right.value(first_word, base, address) == word_of_bytes(
            right.0,
            right.1,
            right.2,
            right.3,
        ));
        assert(LoadKind::Left.value(last_word, base, last) == word_of_bytes(
            left.0,
            left.1,
            left.2,
            left.3,
        ));
    } else if lane == 2 {
        assert(last as int % 4 == 1);
        let right = (low.2, low.3, over.2, over.3);
        let left = (over.0, over.1, high.0, high.1);
        lemma_word_lanes(right);
        lemma_word_lanes(left);
        assert(LoadKind::Right.value(first_word, base, address) == word_of_bytes(
            right.0,
            right.1,
            right.2,
            right.3,
        ));
        assert(LoadKind::Left.value(last_word, base, last) == word_of_bytes(
            left.0,
            left.1,
            left.2,
            left.3,
        ));
    } else {
        assert(last as int % 4 == 2);
        let right = (low.3, over.1, over.2, over.3);
        let left = (over.0, high.0, high.1, high.2);
        lemma_word_lanes(right);
        lemma_word_lanes(left);
        assert(LoadKind::Right.value(first_word, base, address) == word_of_bytes(
            right.0,
            right.1,
            right.2,
            right.3,
        ));
        assert(LoadKind::Left.value(last_word, base, last) == word_of_bytes(
            left.0,
            left.1,
            left.2,
            left.3,
        ));
    }
}

/// The bytes of a word after `value` was stored from the byte at `address` on.
proof fn lemma_stored_right(word: (u8, u8, u8, u8), value: (u8, u8, u8, u8), address: u32)
    ensures
        ({
            let lane = address as int % 4;
            let stored = bytes32(
                StoreKind::Right.merged(
                    word_of_bytes(word.0, word.1, word.2, word.3),
                    word_of_bytes(value.0, value.1, value.2, value.3),
                    address,
                ),
            );
            stored == if lane == 0 {
                seq![value.0, value.1, value.2, value.3]
            } else if lane == 1 {
                seq![word.0, value.0, value.1, value.2]
            } else if lane == 2 {
                seq![word.0, word.1, value.0, value.1]
            } else {
                seq![word.0, word.1, word.2, value.0]
            }
        }),
{
    reveal(StoreKind::merged);
    let lane = address as int % 4;
    lemma_word_lanes(word);
    lemma_word_lanes(value);
    let bytes = if lane == 0 {
        value
    } else if lane == 1 {
        (word.0, value.0, value.1, value.2)
    } else if lane == 2 {
        (word.0, word.1, value.0, value.1)
    } else {
        (word.0, word.1, word.2, value.0)
    };
    lemma_word_lanes(bytes);
    lemma_word_bytes(bytes);
    assert(StoreKind::Right.merged(
        word_of_bytes(word.0, word.1, word.2, word.3),
        word_of_bytes(value.0, value.1, value.2, value.3),
        address,
    ) == word_of_bytes(bytes.0, bytes.1, bytes.2, bytes.3));
}

/// The bytes of a word after `value` was stored up to the byte at `address`.
proof fn lemma_stored_left(word: (u8, u8, u8, u8), value: (u8, u8, u8, u8), address: u32)
    ensures
        ({
            let lane = address as int % 4;
            let stored = bytes32(
                StoreKind::Left.merged(
                    word_of_bytes(word.0, word.1, word.2, word.3),
                    word_of_bytes(value.0, value.1, value.2, value.3),
                    address,
                ),
            );
            stored == if lane == 0 {
                seq![value.3, word.1, word.2, word.3]
            } else if lane == 1 {
                seq![value.2, value.3, word.2, word.3]
            } else if lane == 2 {
                seq![value.1, value.2, value.3, word.3]
            } else {
                seq![value.0, value.1, value.2, value.3]
            }
        }),
{
    reveal(StoreKind::merged);
    let lane = address as int % 4;
    lemma_word_lanes(word);
    lemma_word_lanes(value);
    let bytes = if lane == 0 {
        (value.3, word.1, word.2, word.3)
    } else if lane == 1 {
        (value.2, value.3, word.2, word.3)
    } else if lane == 2 {
        (value.1, value.2, value.3, word.3)
    } else {
        value
    };
    lemma_word_lanes(bytes);
    lemma_word_bytes(bytes);
    assert(StoreKind::Left.merged(
        word_of_bytes(word.0, word.1, word.2, word.3),
        word_of_bytes(value.0, value.1, value.2, value.3),
        address,
    ) == word_of_bytes(bytes.0, bytes.1, bytes.2, bytes.3));
}

/// The bytes of a machine in the word at `address`.
spec fn bytes_in<B>(contents: spec_fn(B, u32) -> u8, machine: B, address: u32) -> (u8, u8, u8, u8) {
    (
        contents(machine, address),
        contents(machine, wrap32(address + 1)),
        contents(machine, wrap32(address + 2)),
        contents(machine, wrap32(address + 3)),
    )
}

/// Where the bytes of an unaligned word stand in the aligned words.
proof fn lemma_straddled<B>(contents: spec_fn(B, u32) -> u8, machine: B, address: u32)
    ensures
        bytes_in(contents, machine, address) == straddled(
            bytes_in(contents, machine, word_address(address)),
            bytes_in(contents, machine, word_address(wrap32(address + 3))),
            address as int % 4,
        ),
        wrap32(address + 3) as int % 4 == (address as int + 3) % 4,
        address % 4 == 0 ==> word_address(wrap32(address + 3)) == word_address(address),
{
    let lane = address as int % 4;
    let low = word_address(address);
    let high = word_address(wrap32(address + 3));
    if lane == 0 {
        assert(high == low);
    } else {
        assert(high == wrap32(low + 4));
        if lane == 1 {
            assert(address == wrap32(low + 1) && wrap32(address + 1) == wrap32(low + 2)
                && wrap32(address + 2) == wrap32(low + 3) && wrap32(address + 3) == high);
        } else if lane == 2 {
            assert(address == wrap32(low + 2) && wrap32(address + 1) == wrap32(low + 3)
                && wrap32(address + 2) == high && wrap32(address + 3) == wrap32(high + 1));
        } else {
            assert(address == wrap32(low + 3) && wrap32(address + 1) == high && wrap32(address + 2)
                == wrap32(high + 1) && wrap32(address + 3) == wrap32(high + 2));
        }
    }
}

/// An address three bytes on.
proof fn lemma_three_on(base: int)
    ensures
        wrap32(base + 3) == wrap32(wrap32(base) + 3),
{
}

/// The word after an aligned word is aligned.
proof fn lemma_next_is_aligned(address: u32)
    requires
        address % 4 == 0,
    ensures
        wrap32(address + 4) % 4 == 0,
{
}

/// Words are the same where every byte is.
proof fn lemma_unchanged_word<B>(
    contents: spec_fn(B, u32) -> u8,
    before: B,
    after: B,
    address: u32,
)
    requires
        unchanged(contents, before, after),
    ensures
        word_in(contents, after, address) == word_in(contents, before, address),
{
}

/// What a pair of unaligned loads leaves in a register.
proof fn lemma_pair_value<B>(
    contents: spec_fn(B, u32) -> u8,
    machine: B,
    address: u32,
    base: u32,
)
    ensures
        ({
            let last = wrap32(address + 3);
            let first_word = word_in(contents, machine, word_address(address));
            let last_word = word_in(contents, machine, word_address(last));
            let loaded = word_in(contents, machine, address);
            &&& LoadKind::Left.value(
                last_word,
                LoadKind::Right.value(first_word, base, address),
                last,
            ) == loaded
            &&& LoadKind::Right.value(
                first_word,
                LoadKind::Left.value(last_word, base, last),
                address,
            ) == loaded
        }),
{
    let last = wrap32(address + 3);
    lemma_straddled(contents, machine, address);
    lemma_loaded_bytes(
        bytes_in(contents, machine, word_address(address)),
        bytes_in(contents, machine, word_address(last)),
        base,
        address,
        last,
    );
}

/// The processor after a load retired, seen by the next instruction.
proof fn lemma_after_load(cpu: Cpu, pending: bool, register: u32, value: u32, other: u32)
    requires
        cpu.wf(),
        0 < register < 32,
        other < 32,
        other != register,
        is_settled(cpu, other),
    ensures
        ({
            let after = cpu.sampled(pending).retired(Execution::loading(register, value));
            &&& after.wf()
            &&& after.pc == cpu.next_pc
            &&& after.next_pc == wrap32(cpu.next_pc + 4)
            &&& after.cop0 == cpu.sampled(pending).cop0
            &&& after.registers@[other as int] == cpu.registers@[other as int]
            &&& after.load_base(register) == value
            &&& after.landed()@[register as int] == value
            &&& is_settled(after, other)
        }),
{
}

/// The processor after an instruction retired that writes no register.
proof fn lemma_after_store(cpu: Cpu, pending: bool, other: u32)
    requires
        cpu.wf(),
        other < 32,
        is_settled(cpu, other),
    ensures
        ({
            let after = cpu.sampled(pending).retired(
                Execution { cycles: 2, ..Execution::plain() },
            );
            &&& after.pc == cpu.next_pc
            &&& after.cop0 == cpu.sampled(pending).cop0
            &&& after.registers@[other as int] == cpu.registers@[other as int]
        }),
{
}

/// Two loads of one register, step by step: the second merges into the first.
#[verifier::rlimit(40)]
#[verifier::spinoff_prover]
proof fn lemma_two_loads<B: Bus>(
    contents: spec_fn(B, u32) -> u8,
    mapped: Set<u32>,
    leading_kind: LoadKind,
    following_kind: LoadKind,
    cpu: Cpu,
    machine: B,
    first: (Result<StepOutcome, CpuError>, Cpu, B),
    second: (Result<StepOutcome, CpuError>, Cpu, B),
) -> (value: u32)
    requires
        cpu.wf(),
        leading_kind == LoadKind::Left || leading_kind == LoadKind::Right,
        following_kind == LoadKind::Left || following_kind == LoadKind::Right,
        ({
            let leading = word_in(contents, machine, cpu.pc);
            let following = word_in(contents, machine, cpu.next_pc);
            &&& opcode(leading) == if leading_kind == LoadKind::Left {
                0x22u32
            } else {
                0x26
            }
            &&& opcode(following) == if following_kind == LoadKind::Left {
                0x22u32
            } else {
                0x26
            }
            &&& rs(leading) == rs(following) < 32
            &&& rt(leading) == rt(following)
            &&& 0 < rt(leading) < 32
            &&& rs(leading) != rt(leading)
            &&& is_settled(cpu, rs(leading))
            &&& mapped.contains(word_address(data_address(cpu, leading)))
            &&& mapped.contains(word_address(data_address(cpu, following)))
        }),
        cpu.pc % 4 == 0,
        cpu.next_pc % 4 == 0,
        mapped.contains(cpu.pc),
        mapped.contains(cpu.next_pc),
        is_undisturbed(cpu, machine),
        is_undisturbed(cpu, first.2),
        is_undisturbed(cpu, second.2),
        steps(contents, mapped, cpu, machine, first),
        steps(contents, mapped, first.1, first.2, second),
    ensures
        ({
            let leading = word_in(contents, machine, cpu.pc);
            let following = word_in(contents, machine, cpu.next_pc);
            let leading_address = data_address(cpu, leading);
            let following_address = data_address(cpu, following);
            &&& value == following_kind.value(
                word_in(contents, machine, word_address(following_address)),
                leading_kind.value(
                    word_in(contents, machine, word_address(leading_address)),
                    cpu.load_base(rt(leading)),
                    leading_address,
                ),
                following_address,
            )
            &&& second.1.landed()@[rt(leading) as int] == value
            &&& retires(first.0, cpu.pc, leading, 2)
            &&& retires(second.0, cpu.next_pc, following, 2)
        }),
        second.1.wf(),
        second.1.pc == wrap32(cpu.next_pc + 4),
        is_undisturbed(second.1, second.2),
        unchanged(contents, machine, second.2),
{
    let leading = word_in(contents, machine, cpu.pc);
    let following = word_in(contents, machine, cpu.next_pc);
    let register = rt(leading);
    let leading_address = data_address(cpu, leading);
    let following_address = data_address(cpu, following);
    let one = lemma_load_step(contents, mapped, leading_kind, cpu, machine, first);
    let between = leading_kind.value(
        word_in(contents, machine, word_address(leading_address)),
        cpu.load_base(register),
        leading_address,
    );
    lemma_after_load(cpu, one, register, between, rs(leading));
    lemma_undisturbed(cpu, first.1, one, first.2);
    lemma_undisturbed(cpu, first.1, one, second.2);
    lemma_unchanged_word(contents, machine, first.2, cpu.next_pc);
    lemma_unchanged_word(contents, machine, first.2, word_address(following_address));
    let two = lemma_load_step(contents, mapped, following_kind, first.1, first.2, second);
    let value = following_kind.value(
        word_in(contents, machine, word_address(following_address)),
        between,
        following_address,
    );
    lemma_after_load(first.1, two, register, value, rs(leading));
    lemma_undisturbed(first.1, second.1, two, second.2);
    value
}

/// The two loads, step by step.
#[verifier::rlimit(40)]
#[verifier::spinoff_prover]
proof fn lemma_load_pair<B: Bus>(
    contents: spec_fn(B, u32) -> u8,
    mapped: Set<u32>,
    right_first: bool,
    cpu: Cpu,
    machine: B,
    first: (Result<StepOutcome, CpuError>, Cpu, B),
    second: (Result<StepOutcome, CpuError>, Cpu, B),
    third: (Result<StepOutcome, CpuError>, Cpu, B),
)
    requires
        cpu.wf(),
        ({
            let leading = word_in(contents, machine, cpu.pc);
            let following = word_in(contents, machine, cpu.next_pc);
            let right = if right_first {
                leading
            } else {
                following
            };
            let left = if right_first {
                following
            } else {
                leading
            };
            let address = data_address(cpu, right);
            &&& opcode(right) == 0x26
            &&& opcode(left) == 0x22
            &&& is_pair(right, left)
            &&& rt(right) != 0
            &&& rs(right) != rt(right)
            &&& is_settled(cpu, rs(right))
            &&& mapped.contains(word_address(address))
            &&& mapped.contains(word_address(wrap32(address + 3)))
        }),
        word_in(contents, machine, wrap32(cpu.next_pc + 4)) == 0,
        cpu.pc % 4 == 0,
        cpu.next_pc % 4 == 0,
        mapped.contains(cpu.pc),
        mapped.contains(cpu.next_pc),
        mapped.contains(wrap32(cpu.next_pc + 4)),
        is_undisturbed(cpu, machine),
        is_undisturbed(cpu, first.2),
        is_undisturbed(cpu, second.2),
        steps(contents, mapped, cpu, machine, first),
        steps(contents, mapped, first.1, first.2, second),
        steps(contents, mapped, second.1, second.2, third),
    ensures
        ({
            let leading = word_in(contents, machine, cpu.pc);
            let following = word_in(contents, machine, cpu.next_pc);
            let right = if right_first {
                leading
            } else {
                following
            };
            &&& third.1.registers@[rt(right) as int] == word_in(
                contents,
                machine,
                data_address(cpu, right),
            )
            &&& retires(first.0, cpu.pc, leading, 2)
            &&& retires(second.0, cpu.next_pc, following, 2)
        }),
        retires(third.0, wrap32(cpu.next_pc + 4), 0, 1),
        unchanged(contents, machine, third.2),
{
    let leading = word_in(contents, machine, cpu.pc);
    let following = word_in(contents, machine, cpu.next_pc);
    let idle = wrap32(cpu.next_pc + 4);
    assert(rt(leading) < 32 && rs(leading) < 32) by {
        reveal(rs);
        reveal(rt);
    }
    let base = cpu.load_base(rt(leading));
    if right_first {
        let address = data_address(cpu, leading);
        lemma_three_on(cpu.registers@[rs(leading) as int] + signed_immediate(leading));
        assert(data_address(cpu, following) == wrap32(address + 3));
        let value = lemma_two_loads(
            contents,
            mapped,
            LoadKind::Right,
            LoadKind::Left,
            cpu,
            machine,
            first,
            second,
        );
        lemma_pair_value(contents, machine, address, base);
        assert(value == word_in(contents, machine, address));
    } else {
        let address = data_address(cpu, following);
        lemma_three_on(cpu.registers@[rs(leading) as int] + signed_immediate(following));
        assert(data_address(cpu, leading) == wrap32(address + 3));
        let value = lemma_two_loads(
            contents,
            mapped,
            LoadKind::Left,
            LoadKind::Right,
            cpu,
            machine,
            first,
            second,
        );
        lemma_pair_value(contents, machine, address, base);
        assert(value == word_in(contents, machine, address));
    }
    lemma_unchanged_word(contents, machine, second.2, idle);
    lemma_next_is_aligned(cpu.next_pc);
    lemma_idle_step(contents, mapped, second.1, second.2, third);
}

/// A load from an unaligned word: a right load of its first byte and a left load of its
/// last, in either order and under either load-delay policy, leave its four bytes in the
/// register, whatever the register held before. The second load merges into the first one
/// while that is still in flight. No memory changes and no exception is raised.
///
/// The first instruction stands at the current address, the second one after it, and an
/// idle instruction third; the steps lead from each pair of processor and machine to the
/// next.
#[verifier::rlimit(40)]
#[verifier::spinoff_prover]
pub proof fn law_unaligned_load_pair<B: Bus>(
    contents: spec_fn(B, u32) -> u8,
    mapped: Set<u32>,
    right_first: bool,
    cpu: Cpu,
    machine: B,
    first: (Result<StepOutcome, CpuError>, Cpu, B),
    second: (Result<StepOutcome, CpuError>, Cpu, B),
    third: (Result<StepOutcome, CpuError>, Cpu, B),
)
    requires
        cpu.wf(),
        is_plain_memory(contents, mapped),
        ({
            let leading = word_in(contents, machine, cpu.pc);
            let following = word_in(contents, machine, cpu.next_pc);
            let right = if right_first {
                leading
            } else {
                following
            };
            let left = if right_first {
                following
            } else {
                leading
            };
            let address = data_address(cpu, right);
            &&& opcode(right) == 0x26
            &&& opcode(left) == 0x22
            &&& is_pair(right, left)
            &&& rt(right) != 0
            &&& rs(right) != rt(right)
            &&& is_settled(cpu, rs(right))
            &&& mapped.contains(word_address(address))
            &&& mapped.contains(word_address(wrap32(address + 3)))
        }),
        word_in(contents, machine, wrap32(cpu.next_pc + 4)) == 0,
        cpu.pc % 4 == 0,
        cpu.next_pc % 4 == 0,
        mapped.contains(cpu.pc),
        mapped.contains(cpu.next_pc),
        mapped.contains(wrap32(cpu.next_pc + 4)),
        is_undisturbed(cpu, machine),
        is_undisturbed(cpu, first.2),
        is_undisturbed(cpu, second.2),
        cpu.stepped(machine, first.0, first.1, first.2),
        first.1.stepped(first.2, second.0, second.1, second.2),
        second.1.stepped(second.2, third.0, third.1, third.2),
    ensures
        ({
            let leading = word_in(contents, machine, cpu.pc);
            let following = word_in(contents, machine, cpu.next_pc);
            let right = if right_first {
                leading
            } else {
                following
            };
            &&& third.1.registers@[rt(right) as int] == word_in(
                contents,
                machine,
                data_address(cpu, right),
            )
            &&& retires(first.0, cpu.pc, leading, 2)
            &&& retires(second.0, cpu.next_pc, following, 2)
        }),
        retires(third.0, wrap32(cpu.next_pc + 4), 0, 1),
        unchanged(contents, machine, third.2),
{
    assert(steps(contents, mapped, cpu, machine, first) && steps(
        contents,
        mapped,
        first.1,
        first.2,
        second,
    ) && steps(contents, mapped, second.1, second.2, third)) by {
        reveal(steps);
    }
    lemma_load_pair(contents, mapped, right_first, cpu, machine, first, second, third);
}

/// The memory after a right store from `address` on and after a left store up to the last
/// byte of its word.
#[verifier::opaque]
spec fn pair_stored<B>(
    contents: spec_fn(B, u32) -> u8,
    before: B,
    between: B,
    after: B,
    address: u32,
    value: u32,
) -> bool {
    let last = wrap32(address + 3);
    &&& word_replaced(
        contents,
        before,
        word_address(address),
        StoreKind::Right.merged(word_in(contents, before, word_address(address)), value, address),
        between,
    )
    &&& word_replaced(
        contents,
        between,
        word_address(last),
        StoreKind::Left.merged(word_in(contents, between, word_address(last)), value, last),
        after,
    )
}

/// The aligned words that an unaligned word lies in.
proof fn lemma_straddled_words(address: u32)
    ensures
        ({
            let last = wrap32(address + 3);
            &&& word_address(address) % 4 == 0
            &&& word_address(last) % 4 == 0
            &&& last as int % 4 == (address as int % 4 + 3) % 4
            &&& address % 4 == 0 <==> word_address(address) == word_address(last)
        }),
{
}

/// Changing one aligned word alone leaves the bytes of another one as they are.
proof fn lemma_kept_bytes<B>(
    contents: spec_fn(B, u32) -> u8,
    before: B,
    word: u32,
    after: B,
    other: u32,
)
    requires
        other % 4 == 0,
        other != word,
        forall|each: u32|
            word_address(each) != word ==> #[trigger] contents(after, each) == contents(
                before,
                each,
            ),
    ensures
        bytes_in(contents, after, other) == bytes_in(contents, before, other),
{
    lemma_word_positions(other);
}

/// The bytes of the first word after the right store, and that no other byte changed.
proof fn lemma_first_stored<B>(
    contents: spec_fn(B, u32) -> u8,
    before: B,
    between: B,
    after: B,
    address: u32,
    stored: (u8, u8, u8, u8),
)
    requires
        pair_stored(
            contents,
            before,
            between,
            after,
            address,
            word_of_bytes(stored.0, stored.1, stored.2, stored.3),
        ),
    ensures
        ({
            let lane = address as int % 4;
            let old_bytes = bytes_in(contents, before, word_address(address));
            bytes_in(contents, between, word_address(address)) == if lane == 0 {
                stored
            } else if lane == 1 {
                (old_bytes.0, stored.0, stored.1, stored.2)
            } else if lane == 2 {
                (old_bytes.0, old_bytes.1, stored.0, stored.1)
            } else {
                (old_bytes.0, old_bytes.1, old_bytes.2, stored.0)
            }
        }),
        forall|each: u32|
            word_address(each) != word_address(address) ==> #[trigger] contents(between, each)
                == contents(before, each),
{
    reveal(pair_stored);
    let word = word_address(address);
    let value = word_of_bytes(stored.0, stored.1, stored.2, stored.3);
    lemma_straddled_words(address);
    lemma_stored_right(bytes_in(contents, before, word), stored, address);
    lemma_replaced_bytes(
        contents,
        before,
        word,
        StoreKind::Right.merged(word_in(contents, before, word), value, address),
        between,
    );
}

/// The bytes of the last word after the left store, and that no other byte changed.
proof fn lemma_last_stored<B>(
    contents: spec_fn(B, u32) -> u8,
    before: B,
    between: B,
    after: B,
    address: u32,
    stored: (u8, u8, u8, u8),
)
    requires
        pair_stored(
            contents,
            before,
            between,
            after,
            address,
            word_of_bytes(stored.0, stored.1, stored.2, stored.3),
        ),
    ensures
        ({
            let lane = address as int % 4;
            let word = word_address(wrap32(address + 3));
            let old_bytes = bytes_in(contents, between, word);
            bytes_in(contents, after, word) == if lane == 0 {
                stored
            } else if lane == 1 {
                (stored.3, old_bytes.1, old_bytes.2, old_bytes.3)
            } else if lane == 2 {
                (stored.2, stored.3, old_bytes.2, old_bytes.3)
            } else {
                (stored.1, stored.2, stored.3, old_bytes.3)
            }
        }),
        forall|each: u32|
            word_address(each) != word_address(wrap32(address + 3)) ==> #[trigger] contents(
                after,
                each,
            ) == contents(between, each),
{
    reveal(pair_stored);
    let last = wrap32(address + 3);
    let word = word_address(last);
    let value = word_of_bytes(stored.0, stored.1, stored.2, stored.3);
    lemma_straddled_words(address);
    lemma_stored_left(bytes_in(contents, between, word), stored, last);
    lemma_replaced_bytes(
        contents,
        between,
        word,
        StoreKind::Left.merged(word_in(contents, between, word), value, last),
        after,
    );
}

/// The stored bytes are those of the value.
#[verifier::rlimit(40)]
#[verifier::spinoff_prover]
proof fn lemma_stored_inside<B>(
    contents: spec_fn(B, u32) -> u8,
    before: B,
    between: B,
    after: B,
    address: u32,
    stored: (u8, u8, u8, u8),
)
    requires
        pair_stored(
            contents,
            before,
            between,
            after,
            address,
            word_of_bytes(stored.0, stored.1, stored.2, stored.3),
        ),
    ensures
        bytes_in(contents, after, address) == stored,
{
    lemma_straddled_words(address);
    lemma_straddled(contents, after, address);
    lemma_first_stored(contents, before, between, after, address, stored);
    lemma_last_stored(contents, before, between, after, address, stored);
    if address % 4 != 0 {
        lemma_kept_bytes(
            contents,
            between,
            word_address(wrap32(address + 3)),
            after,
            word_address(address),
        );
    }
}

/// Where a byte outside the four stored ones lies.
proof fn lemma_outside(address: u32, each: u32)
    requires
        each != address,
        each != wrap32(address + 1),
        each != wrap32(address + 2),
        each != wrap32(address + 3),
    ensures
        word_address(each) == word_address(address) ==> each % 4 < address % 4,
        word_address(each) == word_address(wrap32(address + 3)) && address % 4 != 0 ==> each % 4
            > wrap32(address + 3) % 4,
        address % 4 == 0 ==> word_address(each) != word_address(address),
{
}

/// A byte outside the four stored ones is as before.
#[verifier::rlimit(40)]
#[verifier::spinoff_prover]
proof fn lemma_stored_outside<B>(
    contents: spec_fn(B, u32) -> u8,
    before: B,
    between: B,
    after: B,
    address: u32,
    stored: (u8, u8, u8, u8),
    each: u32,
)
    requires
        pair_stored(
            contents,
            before,
            between,
            after,
            address,
            word_of_bytes(stored.0, stored.1, stored.2, stored.3),
        ),
        each != address,
        each != wrap32(address + 1),
        each != wrap32(address + 2),
        each != wrap32(address + 3),
    ensures
        contents(after, each) == contents(before, each),
{
    lemma_outside(address, each);
    lemma_straddled_words(address);
    lemma_first_stored(contents, before, between, after, address, stored);
    lemma_last_stored(contents, before, between, after, address, stored);
    lemma_byte_of_word(contents, before, each);
    lemma_byte_of_word(contents, between, each);
    lemma_byte_of_word(contents, after, each);
}

/// A byte is one of the four of its word.
proof fn lemma_byte_of_word<B>(contents: spec_fn(B, u32) -> u8, machine: B, address: u32)
    ensures
        ({
            let bytes = bytes_in(contents, machine, word_address(address));
            contents(machine, address) == if address % 4 == 0 {
                bytes.0
            } else if address % 4 == 1 {
                bytes.1
            } else if address % 4 == 2 {
                bytes.2
            } else {
                bytes.3
            }
        }),
{
    let word = word_address(address);
    lemma_word_positions(word);
    assert(address == word + address % 4);
}

/// What a right store from `address` on and a left store up to the last byte of its word
/// write together.
#[verifier::rlimit(40)]
#[verifier::spinoff_prover]
proof fn lemma_stored_pair<B>(
    contents: spec_fn(B, u32) -> u8,
    before: B,
    between: B,
    after: B,
    address: u32,
    value: u32,
)
    requires
        pair_stored(contents, before, between, after, address, value),
    ensures
        forall|i: int|
            0 <= i < 4 ==> contents(after, #[trigger] wrap32(address + i)) == bytes32(value)[i],
        forall|each: u32|
            (forall|i: int| 0 <= i < 4 ==> each != #[trigger] wrap32(address + i))
                ==> #[trigger] contents(after, each) == contents(before, each),
{
    let stored = lemma_word_has_bytes(value);
    lemma_stored_inside(contents, before, between, after, address, stored);
    assert(wrap32(address + 0) == address);
    assert forall|i: int| 0 <= i < 4 implies contents(after, #[trigger] wrap32(address + i))
        == bytes32(value)[i] by {
        assert(i == 0 || i == 1 || i == 2 || i == 3);
    }
    assert forall|each: u32|
        (forall|i: int| 0 <= i < 4 ==> each != #[trigger] wrap32(address + i)) implies #[trigger]
    contents(after, each) == contents(before, each) by {
        assert(each != wrap32(address + 1) && each != wrap32(address + 2) && each != wrap32(
            address + 3,
        ));
        lemma_stored_outside(contents, before, between, after, address, stored, each);
    }
}

/// The bytes of a word that was replaced.
proof fn lemma_replaced_bytes<B>(
    contents: spec_fn(B, u32) -> u8,
    before: B,
    word: u32,
    value: u32,
    after: B,
)
    requires
        word % 4 == 0,
        word_replaced(contents, before, word, value, after),
    ensures
        bytes_in(contents, after, word) == (
            bytes32(value)[0],
            bytes32(value)[1],
            bytes32(value)[2],
            bytes32(value)[3],
        ),
{
    lemma_word_positions(word);
}

/// The addresses of the bytes of an aligned word.
proof fn lemma_word_positions(word: u32)
    requires
        word % 4 == 0,
    ensures
        wrap32(word + 0) == word,
        wrap32(word + 1) == word + 1,
        wrap32(word + 2) == word + 2,
        wrap32(word + 3) == word + 3,
        word_address(word) == word,
        word_address(wrap32(word + 1)) == word,
        word_address(wrap32(word + 2)) == word,
        word_address(wrap32(word + 3)) == word,
{
}

/// Two stores of one register, step by step: the first leaves the second instruction, the
/// address and the value alone.
#[verifier::rlimit(40)]
#[verifier::spinoff_prover]
proof fn lemma_two_stores<B: Bus>(
    contents: spec_fn(B, u32) -> u8,
    mapped: Set<u32>,
    cpu: Cpu,
    machine: B,
    first: (Result<StepOutcome, CpuError>, Cpu, B),
    second: (Result<StepOutcome, CpuError>, Cpu, B),
)
    requires
        cpu.wf(),
        ({
            let right = word_in(contents, machine, cpu.pc);
            let left = word_in(contents, machine, cpu.next_pc);
            &&& opcode(right) == 0x2e
            &&& opcode(left) == 0x2a
            &&& rs(left) == rs(right) < 32
            &&& rt(left) == rt(right) < 32
            &&& is_settled(cpu, rs(right))
            &&& is_settled(cpu, rt(right))
            &&& mapped.contains(word_address(data_address(cpu, right)))
            &&& mapped.contains(word_address(data_address(cpu, left)))
            &&& word_address(data_address(cpu, right)) != cpu.next_pc
        }),
        cpu.pc % 4 == 0,
        cpu.next_pc % 4 == 0,
        mapped.contains(cpu.pc),
        mapped.contains(cpu.next_pc),
        is_undisturbed(cpu, machine),
        is_undisturbed(cpu, first.2),
        steps(contents, mapped, cpu, machine, first),
        steps(contents, mapped, first.1, first.2, second),
    ensures
        ({
            let right = word_in(contents, machine, cpu.pc);
            let left = word_in(contents, machine, cpu.next_pc);
            let address = data_address(cpu, right);
            let last = data_address(cpu, left);
            let value = cpu.registers@[rt(right) as int];
            &&& word_replaced(
                contents,
                machine,
                word_address(address),
                StoreKind::Right.merged(
                    word_in(contents, machine, word_address(address)),
                    value,
                    address,
                ),
                first.2,
            )
            &&& word_replaced(
                contents,
                first.2,
                word_address(last),
                StoreKind::Left.merged(
                    word_in(contents, first.2, word_address(last)),
                    value,
                    last,
                ),
                second.2,
            )
            &&& retires(first.0, cpu.pc, right, 2)
            &&& retires(second.0, cpu.next_pc, left, 2)
        }),
{
    let right = word_in(contents, machine, cpu.pc);
    let address = data_address(cpu, right);
    let one = lemma_store_step(contents, mapped, StoreKind::Right, cpu, machine, first);
    lemma_after_store(cpu, one, rs(right));
    lemma_after_store(cpu, one, rt(right));
    lemma_undisturbed(cpu, first.1, one, first.2);
    lemma_kept_bytes(contents, machine, word_address(address), first.2, cpu.next_pc);
    lemma_store_step(contents, mapped, StoreKind::Left, first.1, first.2, second);
}

/// The two stores, step by step.
#[verifier::rlimit(40)]
#[verifier::spinoff_prover]
proof fn lemma_store_pair<B: Bus>(
    contents: spec_fn(B, u32) -> u8,
    mapped: Set<u32>,
    cpu: Cpu,
    machine: B,
    first: (Result<StepOutcome, CpuError>, Cpu, B),
    second: (Result<StepOutcome, CpuError>, Cpu, B),
)
    requires
        cpu.wf(),
        ({
            let right = word_in(contents, machine, cpu.pc);
            let left = word_in(contents, machine, cpu.next_pc);
            let address = data_address(cpu, right);
            &&& opcode(right) == 0x2e
            &&& opcode(left) == 0x2a
            &&& is_pair(right, left)
            &&& is_settled(cpu, rs(right))
            &&& is_settled(cpu, rt(right))
            &&& mapped.contains(word_address(address))
            &&& mapped.contains(word_address(wrap32(address + 3)))
            &&& forall|i: int|
                0 <= i < 4 ==> word_address(#[trigger] wrap32(address + i)) != cpu.next_pc
        }),
        cpu.pc % 4 == 0,
        cpu.next_pc % 4 == 0,
        mapped.contains(cpu.pc),
        mapped.contains(cpu.next_pc),
        is_undisturbed(cpu, machine),
        is_undisturbed(cpu, first.2),
        steps(contents, mapped, cpu, machine, first),
        steps(contents, mapped, first.1, first.2, second),
    ensures
        ({
            let right = word_in(contents, machine, cpu.pc);
            let address = data_address(cpu, right);
            let value = cpu.registers@[rt(right) as int];
            &&& forall|i: int|
                0 <= i < 4 ==> contents(second.2, #[trigger] wrap32(address + i)) == bytes32(
                    value,
                )[i]
            &&& forall|each: u32|
                (forall|i: int| 0 <= i < 4 ==> each != #[trigger] wrap32(address + i))
                    ==> #[trigger] contents(second.2, each) == contents(machine, each)
            &&& retires(first.0, cpu.pc, right, 2)
        }),
        retires(second.0, cpu.next_pc, word_in(contents, machine, cpu.next_pc), 2),
{
    let right = word_in(contents, machine, cpu.pc);
    let address = data_address(cpu, right);
    let value = cpu.registers@[rt(right) as int];
    assert(rt(right) < 32 && rs(right) < 32) by {
        reveal(rs);
        reveal(rt);
    }
    lemma_three_on(cpu.registers@[rs(right) as int] + signed_immediate(right));
    assert(wrap32(address + 0) == address);
    lemma_two_stores(contents, mapped, cpu, machine, first, second);
    assert(pair_stored(contents, machine, first.2, second.2, address, value)) by {
        reveal(pair_stored);
    }
    lemma_stored_pair(contents, machine, first.2, second.2, address, value);
}

/// A store to an unaligned word: a right store of its first byte and then a left store of
/// its last leave the register's bytes there and every other byte as it was, for every
/// alignment. No exception is raised.
///
/// The right store stands at the current address and the left one after it, outside the
/// word that is stored to; the steps lead from each pair of processor and machine to the
/// next.
#[verifier::rlimit(40)]
#[verifier::spinoff_prover]
pub proof fn law_unaligned_store_pair<B: Bus>(
    contents: spec_fn(B, u32) -> u8,
    mapped: Set<u32>,
    cpu: Cpu,
    machine: B,
    first: (Result<StepOutcome, CpuError>, Cpu, B),
    second: (Result<StepOutcome, CpuError>, Cpu, B),
)
    requires
        cpu.wf(),
        is_plain_memory(contents, mapped),
        ({
            let right = word_in(contents, machine, cpu.pc);
            let left = word_in(contents, machine, cpu.next_pc);
            let address = data_address(cpu, right);
            &&& opcode(right) == 0x2e
            &&& opcode(left) == 0x2a
            &&& is_pair(right, left)
            &&& is_settled(cpu, rs(right))
            &&& is_settled(cpu, rt(right))
            &&& mapped.contains(word_address(address))
            &&& mapped.contains(word_address(wrap32(address + 3)))
            &&& forall|i: int|
                0 <= i < 4 ==> word_address(#[trigger] wrap32(address + i)) != cpu.next_pc
        }),
        cpu.pc % 4 == 0,
        cpu.next_pc % 4 == 0,
        mapped.contains(cpu.pc),
        mapped.contains(cpu.next_pc),
        is_undisturbed(cpu, machine),
        is_undisturbed(cpu, first.2),
        cpu.stepped(machine, first.0, first.1, first.2),
        first.1.stepped(first.2, second.0, second.1, second.2),
    ensures
        ({
            let right = word_in(contents, machine, cpu.pc);
            let address = data_address(cpu, right);
            let value = cpu.registers@[rt(right) as int];
            &&& forall|i: int|
                0 <= i < 4 ==> contents(second.2, #[trigger] wrap32(address + i)) == bytes32(
                    value,
                )[i]
            &&& forall|each: u32|
                (forall|i: int| 0 <= i < 4 ==> each != #[trigger] wrap32(address + i))
                    ==> #[trigger] contents(second.2, each) == contents(machine, each)
            &&& retires(first.0, cpu.pc, right, 2)
        }),
        retires(second.0, cpu.next_pc, word_in(contents, machine, cpu.next_pc), 2),
{
    assert(steps(contents, mapped, cpu, machine, first) && steps(
        contents,
        mapped,
        first.1,
        first.2,
        second,
    )) by {
        reveal(steps);
    }
    lemma_store_pair(contents, mapped, cpu, machine, first, second);
}

} // verus!
