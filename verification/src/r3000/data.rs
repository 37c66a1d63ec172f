//! What loads and stores do to registers and memory.

use vstd::prelude::*;

use crate::r3000::bus::{Bus, BusFault, CpuError};
use crate::r3000::cpu::{bus_read, executed, Cpu, Execution, LoadDelayMode, StepEvent, StepOutcome};
use crate::r3000::isa::{operation, LoadKind, Operation, StoreKind};
use crate::r3000::program::{
    as_offset, immediate_form, lemma_immediate_fields, lemma_registers, runs, settled,
};
use crate::r3000::unaligned::{lemma_step, unchanged, word_in};

verus! {

/// The bytes and half-words at `mapped` are plain little-endian memory with the given
/// contents: reads and writes of them do not fail, a read changes nothing and a write only
/// the bytes that it is for.
#[verifier::opaque]
pub open spec fn is_fine_memory<B: Bus>(
    contents: spec_fn(B, u32) -> u8,
    mapped: Set<u32>,
) -> bool {
    &&& forall|before: B, address: u32, value: Result<u8, BusFault>, after: B|
        #![trigger B::byte_read(before, address, value, after)]
        mapped.contains(address) && B::byte_read(before, address, value, after) ==> value == Ok::<
            u8,
            BusFault,
        >(contents(before, address)) && unchanged(contents, before, after)
    &&& forall|before: B, address: u32, value: Result<u16, BusFault>, after: B|
        #![trigger B::half_read(before, address, value, after)]
        address % 2 == 0 && mapped.contains(address) && B::half_read(before, address, value, after)
            ==> value is Ok && value->Ok_0 == contents(before, address) + 0x100 * contents(
            before,
            (address + 1) as u32,
        ) && unchanged(contents, before, after)
    &&& forall|before: B, address: u32, value: u8, done: Result<(), BusFault>, after: B|
        #![trigger B::byte_written(before, address, value, done, after)]
        mapped.contains(address) && B::byte_written(before, address, value, done, after)
            ==> done is Ok && forall|each: u32| #[trigger]
            contents(after, each) == if each == address {
                value
            } else {
                contents(before, each)
            }
    &&& forall|before: B, address: u32, value: u16, done: Result<(), BusFault>, after: B|
        #![trigger B::half_written(before, address, value, done, after)]
        address % 2 == 0 && mapped.contains(address) && B::half_written(
            before,
            address,
            value,
            done,
            after,
        ) ==> done is Ok && forall|each: u32| #[trigger]
            contents(after, each) == if each == address {
                value as int % 0x100
            } else if each == address + 1 {
                value as int / 0x100
            } else {
                contents(before, each) as int
            }
}

/// A load retired: memory is as before, and the register gets `value`, at once where loads
/// interlock and else when the next instruction has read its registers.
pub open spec fn has_loaded<B>(
    contents: spec_fn(B, u32) -> u8,
    cpu: Cpu,
    before: B,
    step: (Result<StepOutcome, CpuError>, Cpu, B),
    register: int,
    value: int,
) -> bool {
    &&& step.0 matches Ok(outcome)
    &&& outcome.pc == cpu.pc
    &&& outcome.instruction == Some(word_in(contents, before, cpu.pc))
    &&& outcome.cycles == 2
    &&& outcome.event == StepEvent::Instruction
    &&& unchanged(contents, before, step.2)
    &&& step.1.pc == cpu.next_pc
    &&& step.1.next_pc == (cpu.next_pc + 4) % 0x1_0000_0000
    &&& step.1.delay_branch_pc is None
    &&& step.1.hi == cpu.hi
    &&& step.1.lo == cpu.lo
    &&& step.1.registers@[0] == 0
    &&& if cpu.load_delay_mode == LoadDelayMode::Architectural {
        &&& step.1.pending_load == Some((register as usize, value as u32))
        &&& forall|i: int| 0 < i < 32 ==> #[trigger] step.1.registers@[i] == settled(cpu, i)
    } else {
        &&& step.1.pending_load is None
        &&& forall|i: int|
            0 < i < 32 ==> #[trigger] step.1.registers@[i] == if i == register {
                value
            } else {
                settled(cpu, i) as int
            }
    }
}

/// A store retired: no register is written.
pub open spec fn has_stored<B>(
    contents: spec_fn(B, u32) -> u8,
    cpu: Cpu,
    before: B,
    step: (Result<StepOutcome, CpuError>, Cpu, B),
) -> bool {
    &&& step.0 matches Ok(outcome)
    &&& outcome.pc == cpu.pc
    &&& outcome.instruction == Some(word_in(contents, before, cpu.pc))
    &&& outcome.cycles == 2
    &&& outcome.event == StepEvent::Instruction
    &&& step.1.pc == cpu.next_pc
    &&& step.1.next_pc == (cpu.next_pc + 4) % 0x1_0000_0000
    &&& step.1.delay_branch_pc is None
    &&& step.1.pending_load is None
    &&& step.1.hi == cpu.hi
    &&& step.1.lo == cpu.lo
    &&& forall|i: int| 0 <= i < 32 ==> #[trigger] step.1.registers@[i] == settled(cpu, i)
}

pub proof fn lemma_retired_load(cpu: Cpu, register: u32, value: u32)
    requires
        cpu.wf(),
        register < 32,
    ensures
        ({
            let after = cpu.retired(Execution::loading(register, value));
            &&& after.registers@[0] == 0
            &&& if cpu.load_delay_mode == LoadDelayMode::Architectural {
                &&& after.pending_load == Some((register as usize, value))
                &&& forall|i: int|
                    0 < i < 32 ==> #[trigger] after.registers@[i] == settled(cpu, i)
            } else {
                &&& after.pending_load is None
                &&& forall|i: int|
                    0 < i < 32 ==> #[trigger] after.registers@[i] == if i == register {
                        value
                    } else {
                        settled(cpu, i)
                    }
            }
        }),
{
    lemma_registers(cpu, None);
}

/// What the bus was asked for by a step that loads.
proof fn lemma_load_parts<B: Bus>(
    contents: spec_fn(B, u32) -> u8,
    mapped: Set<u32>,
    word: u32,
    cpu: Cpu,
    before: B,
    step: (Result<StepOutcome, CpuError>, Cpu, B),
    kind: LoadKind,
    register: u32,
    address: u32,
) -> (parts: (B, Result<u32, BusFault>))
    requires
        register < 32,
        runs(contents, mapped, word as int, cpu, before, step),
        !(kind is Left) && !(kind is Right),
        forall|pending: bool| #[trigger]
            operation(cpu.sampled(pending), cpu.pc, word) == (Operation::Load {
                kind,
                register,
                address,
            }),
    ensures
        unchanged(contents, before, parts.0),
        bus_read(parts.0, kind, address, parts.1, step.2),
        parts.1 matches Ok(raw) ==> (unchanged(contents, parts.0, step.2) ==> has_loaded(
            contents,
            cpu,
            before,
            step,
            register as int,
            kind.value(raw, 0, address) as int,
        )),
{
    reveal(runs);
    let parts = lemma_step(contents, mapped, cpu, before, step.0, step.1, step.2);
    let start = cpu.sampled(parts.0);
    assert(operation(start, cpu.pc, word) == (Operation::Load { kind, register, address }));
    let done = parts.2;
    let raw = choose|raw: Result<u32, BusFault>| #[trigger]
        bus_read(parts.1, kind, kind.bus_address(address), raw, step.2) && done == match raw {
            Ok(value) => Ok::<Execution, CpuError>(
                Execution::loading(register, kind.value(value, start.load_base(register), address)),
            ),
            Err(source) => Err(
                CpuError {
                    pc: cpu.pc,
                    address: kind.bus_address(address),
                    access: crate::r3000::bus::AccessType::Load,
                    source,
                },
            ),
        };
    if let Ok(value) = raw {
        reveal(LoadKind::value);
        lemma_retired_load(start, register, kind.value(value, 0, address));
        if unchanged(contents, parts.1, step.2) {
            assert(unchanged(contents, before, step.2));
        }
    }
    (parts.1, raw)
}

proof fn lemma_fine<B: Bus>(
    contents: spec_fn(B, u32) -> u8,
    mapped: Set<u32>,
    before: B,
    address: u32,
    after: B,
)
    requires
        is_fine_memory(contents, mapped),
        mapped.contains(address),
    ensures
        forall|value: Result<u8, BusFault>| #[trigger]
            B::byte_read(before, address, value, after) ==> value == Ok::<u8, BusFault>(
                contents(before, address),
            ) && unchanged(contents, before, after),
        address % 2 == 0 ==> forall|value: Result<u16, BusFault>| #[trigger]
            B::half_read(before, address, value, after) ==> value is Ok && value->Ok_0 == contents(
                before,
                address,
            ) + 0x100 * contents(before, (address + 1) as u32) && unchanged(
                contents,
                before,
                after,
            ),
{
    reveal(is_fine_memory);
}

proof fn lemma_fine_write<B: Bus>(
    contents: spec_fn(B, u32) -> u8,
    mapped: Set<u32>,
    before: B,
    address: u32,
    after: B,
    each: u32,
)
    requires
        is_fine_memory(contents, mapped),
        mapped.contains(address),
    ensures
        forall|value: u8, done: Result<(), BusFault>| #[trigger]
            B::byte_written(before, address, value, done, after) ==> done is Ok && contents(
                after,
                each,
            ) == if each == address {
                value
            } else {
                contents(before, each)
            },
        address % 2 == 0 ==> forall|value: u16, done: Result<(), BusFault>| #[trigger]
            B::half_written(before, address, value, done, after) ==> done is Ok && contents(
                after,
                each,
            ) == if each == address {
                value as int % 0x100
            } else if each == address + 1 {
                value as int / 0x100
            } else {
                contents(before, each) as int
            },
{
    reveal(is_fine_memory);
}

proof fn lemma_word_was_read<B: Bus>(
    contents: spec_fn(B, u32) -> u8,
    mapped: Set<u32>,
    word: int,
    cpu: Cpu,
    before: B,
    step: (Result<StepOutcome, CpuError>, Cpu, B),
    between: B,
    address: u32,
    raw: Result<u32, BusFault>,
)
    requires
        runs(contents, mapped, word, cpu, before, step),
        unchanged(contents, before, between),
        address % 4 == 0,
        mapped.contains(address),
        B::word_read(between, address, raw, step.2),
    ensures
        unchanged(contents, between, step.2),
        raw is Ok,
        raw->Ok_0 == contents(before, address) + 0x100 * contents(before, (address + 1) as u32)
            + 0x1_0000 * contents(before, (address + 2) as u32) + 0x100_0000 * contents(
            before,
            (address + 3) as u32,
        ),
{
    reveal(runs);
    assert(contents(between, address) == contents(before, address));
    assert(contents(between, (address + 1) as u32) == contents(before, (address + 1) as u32));
    assert(contents(between, (address + 2) as u32) == contents(before, (address + 2) as u32));
    assert(contents(between, (address + 3) as u32) == contents(before, (address + 3) as u32));
}

proof fn lemma_word_was_written<B: Bus>(
    contents: spec_fn(B, u32) -> u8,
    mapped: Set<u32>,
    word: int,
    cpu: Cpu,
    before: B,
    step: (Result<StepOutcome, CpuError>, Cpu, B),
    between: B,
    address: u32,
    value: u32,
    done: Result<(), BusFault>,
)
    requires
        runs(contents, mapped, word, cpu, before, step),
        address % 4 == 0,
        mapped.contains(address),
        B::word_written(between, address, value, done, step.2),
    ensures
        done is Ok,
        crate::r3000::unaligned::word_replaced(contents, between, address, value, step.2),
{
    reveal(runs);
}

/// Opcodes 32 and 36 load the byte at the sum of a register and the signed offset, with its
/// sign spread or with zeros above.
pub proof fn law_byte_loads<B: Bus>(
    contents: spec_fn(B, u32) -> u8,
    mapped: Set<u32>,
    major: int,
    source: int,
    second: int,
    offset: int,
    cpu: Cpu,
    before: B,
    step: (Result<StepOutcome, CpuError>, Cpu, B),
)
    requires
        major == 32 || major == 36,
        0 <= source < 32,
        0 <= second < 32,
        -0x8000 <= offset < 0x8000,
        is_fine_memory(contents, mapped),
        mapped.contains(((cpu.registers@[source] + offset) % 0x1_0000_0000) as u32),
        runs(
            contents,
            mapped,
            immediate_form(major, source, second, offset % 0x1_0000),
            cpu,
            before,
            step,
        ),
    ensures
        ({
            let byte = contents(
                before,
                ((cpu.registers@[source] + offset) % 0x1_0000_0000) as u32,
            ) as int;
            has_loaded(
                contents,
                cpu,
                before,
                step,
                second,
                if major == 32 && byte >= 0x80 {
                    byte + 0xffff_ff00
                } else {
                    byte
                },
            )
        }),
{
    let word = immediate_form(major, source, second, offset % 0x1_0000) as u32;
    lemma_immediate_fields(major, source, second, offset % 0x1_0000, word);
    assert(crate::r3000::isa::signed_immediate(word) == offset);
    let address = ((cpu.registers@[source] + offset) % 0x1_0000_0000) as u32;
    let kind = if major == 32 {
        LoadKind::SignedByte
    } else {
        LoadKind::Byte
    };
    let (between, raw) = lemma_load_parts(
        contents,
        mapped,
        word,
        cpu,
        before,
        step,
        kind,
        second as u32,
        address,
    );
    reveal(LoadKind::value);
    lemma_fine(contents, mapped, between, address, step.2);
    assert(contents(between, address) == contents(before, address));
}

/// Opcodes 33 and 37 load the half-word at an even address, with its sign spread or with
/// zeros above.
pub proof fn law_half_loads<B: Bus>(
    contents: spec_fn(B, u32) -> u8,
    mapped: Set<u32>,
    major: int,
    source: int,
    second: int,
    offset: int,
    cpu: Cpu,
    before: B,
    step: (Result<StepOutcome, CpuError>, Cpu, B),
)
    requires
        major == 33 || major == 37,
        0 <= source < 32,
        0 <= second < 32,
        -0x8000 <= offset < 0x8000,
        is_fine_memory(contents, mapped),
        (cpu.registers@[source] + offset) % 2 == 0,
        mapped.contains(((cpu.registers@[source] + offset) % 0x1_0000_0000) as u32),
        runs(
            contents,
            mapped,
            immediate_form(major, source, second, offset % 0x1_0000),
            cpu,
            before,
            step,
        ),
    ensures
        ({
            let address = (cpu.registers@[source] + offset) % 0x1_0000_0000;
            let half = contents(before, address as u32) + 0x100 * contents(
                before,
                (address + 1) as u32,
            );
            has_loaded(
                contents,
                cpu,
                before,
                step,
                second,
                if major == 33 && half >= 0x8000 {
                    half + 0xffff_0000
                } else {
                    half
                },
            )
        }),
{
    let word = immediate_form(major, source, second, offset % 0x1_0000) as u32;
    lemma_immediate_fields(major, source, second, offset % 0x1_0000, word);
    assert(crate::r3000::isa::signed_immediate(word) == offset);
    let address = ((cpu.registers@[source] + offset) % 0x1_0000_0000) as u32;
    assert(address % 2 == 0);
    let kind = if major == 33 {
        LoadKind::SignedHalf
    } else {
        LoadKind::Half
    };
    let (between, raw) = lemma_load_parts(
        contents,
        mapped,
        word,
        cpu,
        before,
        step,
        kind,
        second as u32,
        address,
    );
    reveal(LoadKind::value);
    lemma_fine(contents, mapped, between, address, step.2);
    assert(contents(between, address) == contents(before, address));
    assert(contents(between, (address + 1) as u32) == contents(before, (address + 1) as u32));
}

/// Opcode 35 loads the little-endian word at an address that is a multiple of four.
pub proof fn law_word_load<B: Bus>(
    contents: spec_fn(B, u32) -> u8,
    mapped: Set<u32>,
    source: int,
    second: int,
    offset: int,
    cpu: Cpu,
    before: B,
    step: (Result<StepOutcome, CpuError>, Cpu, B),
)
    requires
        0 <= source < 32,
        0 <= second < 32,
        -0x8000 <= offset < 0x8000,
        (cpu.registers@[source] + offset) % 4 == 0,
        mapped.contains(((cpu.registers@[source] + offset) % 0x1_0000_0000) as u32),
        runs(
            contents,
            mapped,
            immediate_form(35, source, second, offset % 0x1_0000),
            cpu,
            before,
            step,
        ),
    ensures
        ({
            let address = (cpu.registers@[source] + offset) % 0x1_0000_0000;
            let value = contents(before, address as u32) + 0x100 * contents(
                before,
                (address + 1) as u32,
            ) + 0x1_0000 * contents(before, (address + 2) as u32) + 0x100_0000 * contents(
                before,
                (address + 3) as u32,
            );
            has_loaded(contents, cpu, before, step, second, value)
        }),
{
    let word = immediate_form(35, source, second, offset % 0x1_0000) as u32;
    lemma_immediate_fields(35, source, second, offset % 0x1_0000, word);
    assert(crate::r3000::isa::signed_immediate(word) == offset);
    let address = ((cpu.registers@[source] + offset) % 0x1_0000_0000) as u32;
    assert(address % 4 == 0);
    let (between, raw) = lemma_load_parts(
        contents,
        mapped,
        word,
        cpu,
        before,
        step,
        LoadKind::Word,
        second as u32,
        address,
    );
    reveal(LoadKind::value);
    lemma_word_was_read(
        contents,
        mapped,
        word as int,
        cpu,
        before,
        step,
        between,
        address,
        raw,
    );
}

/// What the bus was asked for by a step that stores.
proof fn lemma_store_parts<B: Bus>(
    contents: spec_fn(B, u32) -> u8,
    mapped: Set<u32>,
    word: u32,
    cpu: Cpu,
    before: B,
    step: (Result<StepOutcome, CpuError>, Cpu, B),
    form: StoreKind,
    address: u32,
    value: u32,
) -> (parts: (B, Result<(), BusFault>))
    requires
        runs(contents, mapped, word as int, cpu, before, step),
        !form.merges(),
        forall|pending: bool| #[trigger]
            operation(cpu.sampled(pending), cpu.pc, word) == (Operation::Store {
                form,
                address,
                value,
            }),
    ensures
        unchanged(contents, before, parts.0),
        crate::r3000::cpu::bus_written(parts.0, form, address, value, parts.1, step.2),
        parts.1 is Ok ==> has_stored(contents, cpu, before, step),
{
    reveal(runs);
    let parts = lemma_step(contents, mapped, cpu, before, step.0, step.1, step.2);
    let start = cpu.sampled(parts.0);
    assert(operation(start, cpu.pc, word) == (Operation::Store { form, address, value }));
    let finished = parts.2;
    let done = choose|done: Result<(), BusFault>| #[trigger]
        crate::r3000::cpu::bus_written(parts.1, form, address, value, done, step.2) && finished
            == crate::r3000::cpu::store_result(cpu.pc, address, done);
    lemma_registers(start, None);
    (parts.1, done)
}

/// Opcode 40 stores the low byte of a register and changes no other byte.
pub proof fn law_byte_store<B: Bus>(
    contents: spec_fn(B, u32) -> u8,
    mapped: Set<u32>,
    source: int,
    second: int,
    offset: int,
    cpu: Cpu,
    before: B,
    step: (Result<StepOutcome, CpuError>, Cpu, B),
    each: u32,
)
    requires
        0 <= source < 32,
        0 <= second < 32,
        -0x8000 <= offset < 0x8000,
        is_fine_memory(contents, mapped),
        mapped.contains(((cpu.registers@[source] + offset) % 0x1_0000_0000) as u32),
        runs(
            contents,
            mapped,
            immediate_form(40, source, second, offset % 0x1_0000),
            cpu,
            before,
            step,
        ),
    ensures
        has_stored(contents, cpu, before, step),
        contents(step.2, each) == if each == (cpu.registers@[source] + offset) % 0x1_0000_0000 {
            cpu.registers@[second] as int % 0x100
        } else {
            contents(before, each) as int
        },
{
    let word = immediate_form(40, source, second, offset % 0x1_0000) as u32;
    lemma_immediate_fields(40, source, second, offset % 0x1_0000, word);
    assert(crate::r3000::isa::signed_immediate(word) == offset);
    let address = ((cpu.registers@[source] + offset) % 0x1_0000_0000) as u32;
    let value = cpu.registers@[second];
    let (between, done) = lemma_store_parts(
        contents,
        mapped,
        word,
        cpu,
        before,
        step,
        StoreKind::Byte,
        address,
        value,
    );
    assert(contents(between, each) == contents(before, each));
    lemma_fine_write(contents, mapped, between, address, step.2, each);
}

/// Opcode 41 stores the low half of a register, low byte first, at an even address and
/// changes no other byte.
pub proof fn law_half_store<B: Bus>(
    contents: spec_fn(B, u32) -> u8,
    mapped: Set<u32>,
    source: int,
    second: int,
    offset: int,
    cpu: Cpu,
    before: B,
    step: (Result<StepOutcome, CpuError>, Cpu, B),
    each: u32,
)
    requires
        0 <= source < 32,
        0 <= second < 32,
        -0x8000 <= offset < 0x8000,
        is_fine_memory(contents, mapped),
        (cpu.registers@[source] + offset) % 2 == 0,
        mapped.contains(((cpu.registers@[source] + offset) % 0x1_0000_0000) as u32),
        runs(
            contents,
            mapped,
            immediate_form(41, source, second, offset % 0x1_0000),
            cpu,
            before,
            step,
        ),
    ensures
        has_stored(contents, cpu, before, step),
        ({
            let address = (cpu.registers@[source] + offset) % 0x1_0000_0000;
            let value = cpu.registers@[second] as int;
            contents(step.2, each) == if each == address {
                value % 0x100
            } else if each == address + 1 {
                (value / 0x100) % 0x100
            } else {
                contents(before, each) as int
            }
        }),
{
    let word = immediate_form(41, source, second, offset % 0x1_0000) as u32;
    lemma_immediate_fields(41, source, second, offset % 0x1_0000, word);
    assert(crate::r3000::isa::signed_immediate(word) == offset);
    let address = ((cpu.registers@[source] + offset) % 0x1_0000_0000) as u32;
    assert(address % 2 == 0);
    let value = cpu.registers@[second];
    let (between, done) = lemma_store_parts(
        contents,
        mapped,
        word,
        cpu,
        before,
        step,
        StoreKind::Half,
        address,
        value,
    );
    assert(contents(between, each) == contents(before, each));
    lemma_fine_write(contents, mapped, between, address, step.2, each);
}

/// Opcode 43 stores a register, low byte first, at an address that is a multiple of four
/// and changes no other byte.
pub proof fn law_word_store<B: Bus>(
    contents: spec_fn(B, u32) -> u8,
    mapped: Set<u32>,
    source: int,
    second: int,
    offset: int,
    cpu: Cpu,
    before: B,
    step: (Result<StepOutcome, CpuError>, Cpu, B),
    each: u32,
)
    requires
        0 <= source < 32,
        0 <= second < 32,
        -0x8000 <= offset < 0x8000,
        (cpu.registers@[source] + offset) % 4 == 0,
        mapped.contains(((cpu.registers@[source] + offset) % 0x1_0000_0000) as u32),
        runs(
            contents,
            mapped,
            immediate_form(43, source, second, offset % 0x1_0000),
            cpu,
            before,
            step,
        ),
    ensures
        has_stored(contents, cpu, before, step),
        ({
            let address = (cpu.registers@[source] + offset) % 0x1_0000_0000;
            let value = cpu.registers@[second] as int;
            contents(step.2, each) == if each == address {
                value % 0x100
            } else if each == address + 1 {
                (value / 0x100) % 0x100
            } else if each == address + 2 {
                (value / 0x1_0000) % 0x100
            } else if each == address + 3 {
                value / 0x100_0000
            } else {
                contents(before, each) as int
            }
        }),
{
    let word = immediate_form(43, source, second, offset % 0x1_0000) as u32;
    lemma_immediate_fields(43, source, second, offset % 0x1_0000, word);
    assert(crate::r3000::isa::signed_immediate(word) == offset);
    let address = ((cpu.registers@[source] + offset) % 0x1_0000_0000) as u32;
    assert(address % 4 == 0);
    let value = cpu.registers@[second];
    let (between, done) = lemma_store_parts(
        contents,
        mapped,
        word,
        cpu,
        before,
        step,
        StoreKind::Word,
        address,
        value,
    );
    assert(contents(between, each) == contents(before, each));
    lemma_word_was_written(
        contents,
        mapped,
        word as int,
        cpu,
        before,
        step,
        between,
        address,
        value,
        done,
    );
    lemma_replaced_byte(contents, between, address, value, step.2, each);
}

proof fn lemma_replaced_byte<B>(
    contents: spec_fn(B, u32) -> u8,
    before: B,
    address: u32,
    value: u32,
    after: B,
    each: u32,
)
    requires
        address % 4 == 0,
        crate::r3000::unaligned::word_replaced(contents, before, address, value, after),
    ensures
        contents(after, each) == if each == address {
            value as int % 0x100
        } else if each == address + 1 {
            (value as int / 0x100) % 0x100
        } else if each == address + 2 {
            (value as int / 0x1_0000) % 0x100
        } else if each == address + 3 {
            value as int / 0x100_0000
        } else {
            contents(before, each) as int
        },
{
    let lane = each as int % 4;
    let word = each - lane;
    assert(contents(after, each) == if word == address {
        crate::bytes::bytes32(value)[lane]
    } else {
        contents(before, each)
    });
    assert(word == address <==> address <= each < address + 4);
}

} // verus!
