//! The R3000 interpreter.

use upse_hw::bits::to_i32;
use upse_hw::r3000::{
    AccessType, Bus, BusFault, Cpu, Exception, LoadDelayMode, ResetProfile, StepEvent, TraceRecord,
    TraceSink, CAUSE_BD, CAUSE_IP2,
};

struct TestBus {
    memory: Vec<u8>,
    irq: bool,
}

impl TestBus {
    fn new(words: &[u32]) -> Self {
        let mut memory = vec![0_u8; 4096];
        for (index, word) in words.iter().enumerate() {
            memory[index * 4..index * 4 + 4].copy_from_slice(&word.to_le_bytes());
        }
        Self { memory, irq: false }
    }

    fn range(&self, address: u32, bytes: usize) -> Result<std::ops::Range<usize>, BusFault> {
        let start = usize::try_from(address).map_err(|_| BusFault::new("address"))?;
        let end = start
            .checked_add(bytes)
            .filter(|end| *end <= self.memory.len())
            .ok_or_else(|| BusFault::new("out of range"))?;
        Ok(start..end)
    }
}

impl Bus for TestBus {
    fn read_u8(&mut self, address: u32) -> Result<u8, BusFault> {
        Ok(self.memory[self.range(address, 1)?.start])
    }

    fn read_u16(&mut self, address: u32) -> Result<u16, BusFault> {
        let range = self.range(address, 2)?;
        Ok(u16::from_le_bytes(
            self.memory[range].try_into().expect("length"),
        ))
    }

    fn read_u32(&mut self, address: u32) -> Result<u32, BusFault> {
        let range = self.range(address, 4)?;
        Ok(u32::from_le_bytes(
            self.memory[range].try_into().expect("length"),
        ))
    }

    fn write_u8(&mut self, address: u32, value: u8) -> Result<(), BusFault> {
        let index = self.range(address, 1)?.start;
        self.memory[index] = value;
        Ok(())
    }

    fn write_u16(&mut self, address: u32, value: u16) -> Result<(), BusFault> {
        let range = self.range(address, 2)?;
        self.memory[range].copy_from_slice(&value.to_le_bytes());
        Ok(())
    }

    fn write_u32(&mut self, address: u32, value: u32) -> Result<(), BusFault> {
        let range = self.range(address, 4)?;
        self.memory[range].copy_from_slice(&value.to_le_bytes());
        Ok(())
    }

    fn interrupt_pending(&self) -> bool {
        self.irq
    }
}

fn profile() -> ResetProfile {
    ResetProfile {
        pc: 0,
        exception_vector: 0x100,
        bootstrap_exception_vector: 0x180,
        status: 0,
        processor_id: 2,
    }
}

fn i(op: u32, rs: u32, rt: u32, imm: u16) -> u32 {
    (op << 26) | (rs << 21) | (rt << 16) | imm as u32
}

fn r(rs: u32, rt: u32, rd: u32, shift: u32, function: u32) -> u32 {
    (rs << 21) | (rt << 16) | (rd << 11) | (shift << 6) | function
}

#[test]
fn arithmetic_logic_shift_and_zero_register_table() {
    let words = [
        i(0x09, 0, 1, 7),
        i(0x09, 0, 2, 3),
        r(1, 2, 3, 0, 0x21),
        r(1, 2, 4, 0, 0x23),
        r(1, 2, 5, 0, 0x24),
        r(1, 2, 6, 0, 0x25),
        r(1, 2, 7, 0, 0x2a),
        r(0, 1, 8, 2, 0x00),
        i(0x0f, 0, 9, 0x8000),
        r(0, 9, 10, 1, 0x03),
        i(0x09, 0, 0, 99),
    ];
    let mut bus = TestBus::new(&words);
    let mut cpu = Cpu::new(profile());
    for _ in words {
        cpu.step(&mut bus).unwrap();
    }
    assert_eq!(cpu.register(0), Some(0));
    assert_eq!(cpu.register(3), Some(10));
    assert_eq!(cpu.register(4), Some(4));
    assert_eq!(cpu.register(5), Some(3));
    assert_eq!(cpu.register(6), Some(7));
    assert_eq!(cpu.register(7), Some(0));
    assert_eq!(cpu.register(8), Some(28));
    assert_eq!(cpu.register(10), Some(0xc000_0000));
}

#[test]
fn branch_delay_slot_and_link_address_are_architectural() {
    let words = [
        i(0x04, 0, 0, 2),
        i(0x09, 0, 1, 11),
        i(0x09, 0, 1, 99),
        0x0c00_0005,
        0,
        r(31, 0, 2, 0, 0x21),
    ];
    let mut bus = TestBus::new(&words);
    let mut cpu = Cpu::new(profile());
    let mut pcs = Vec::new();
    for _ in 0..5 {
        pcs.push(cpu.step(&mut bus).unwrap().pc);
    }
    assert_eq!(pcs, [0, 4, 12, 16, 20]);
    assert_eq!(cpu.register(1), Some(11));
    assert_eq!(cpu.register(2), Some(20));
    assert_eq!(cpu.register(31), Some(20));
}

#[test]
fn branch_in_delay_slot_preserves_both_pipeline_targets() {
    let mut words = vec![0; 9];
    words[0] = i(0x04, 0, 0, 3);
    words[1] = 0x0800_0008;
    words[4] = i(0x09, 0, 1, 11);
    words[8] = i(0x09, 0, 2, 22);
    let mut bus = TestBus::new(&words);
    let mut cpu = Cpu::new(profile());
    let pcs = std::array::from_fn::<_, 4, _>(|_| cpu.step(&mut bus).unwrap().pc);
    assert_eq!(pcs, [0, 4, 16, 32]);
    assert_eq!(cpu.register(1), Some(11));
    assert_eq!(cpu.register(2), Some(22));
}

#[test]
fn load_delay_exposes_old_value_for_exactly_one_instruction() {
    let words = [
        i(0x23, 0, 1, 0x100),
        r(1, 0, 2, 0, 0x21),
        r(1, 0, 3, 0, 0x21),
    ];
    let mut bus = TestBus::new(&words);
    bus.write_u32(0x100, 0x1234_5678).unwrap();
    let mut cpu = Cpu::new(profile());
    for _ in 0..3 {
        cpu.step(&mut bus).unwrap();
    }
    assert_eq!(cpu.register(1), Some(0x1234_5678));
    assert_eq!(cpu.register(2), Some(0));
    assert_eq!(cpu.register(3), Some(0x1234_5678));
}

#[test]
fn interlocked_loads_are_visible_to_the_following_instruction() {
    let words = [i(0x23, 0, 1, 0x100), r(1, 0, 2, 0, 0x21)];
    let mut bus = TestBus::new(&words);
    bus.write_u32(0x100, 0x1234_5678).unwrap();
    let mut cpu = Cpu::with_load_delay_mode(profile(), LoadDelayMode::Interlocked);
    cpu.step(&mut bus).unwrap();
    cpu.step(&mut bus).unwrap();
    assert_eq!(cpu.register(1), Some(0x1234_5678));
    assert_eq!(cpu.register(2), Some(0x1234_5678));
    cpu.reset();
    assert_eq!(cpu.register(1), Some(0));
}

#[test]
fn exceptions_in_delay_slots_set_bd_epc_and_bad_address() {
    let words = [i(0x04, 0, 0, 1), i(0x23, 0, 1, 1), 0];
    let mut bus = TestBus::new(&words);
    let mut cpu = Cpu::new(profile());
    cpu.step(&mut bus).unwrap();
    let outcome = cpu.step(&mut bus).unwrap();
    assert_eq!(outcome.event, StepEvent::Exception(Exception::AddressLoad));
    assert_eq!(cpu.cop0().epc, 0);
    assert_ne!(cpu.cop0().cause & CAUSE_BD, 0);
    assert_eq!(cpu.cop0().bad_vaddr, 1);
    assert_eq!(cpu.pc(), 0x100);
}

#[test]
fn interrupts_follow_status_mask_and_enter_before_fetch() {
    let mut bus = TestBus::new(&[0]);
    bus.irq = true;
    let mut cpu = Cpu::new(profile());
    cpu.cop0_mut().status = 1 | CAUSE_IP2;
    let outcome = cpu.step(&mut bus).unwrap();
    assert_eq!(outcome.instruction, None);
    assert_eq!(outcome.event, StepEvent::Exception(Exception::Interrupt));
    assert_eq!(cpu.cop0().epc, 0);
}

#[test]
fn multiply_divide_and_signed_overflow_are_explicit() {
    let words = [
        r(1, 2, 0, 0, 0x18),
        r(0, 0, 3, 0, 0x12),
        r(1, 0, 0, 0, 0x1a),
        r(0, 0, 4, 0, 0x12),
        r(5, 6, 7, 0, 0x20),
    ];
    let mut bus = TestBus::new(&words);
    let mut cpu = Cpu::new(profile());
    cpu.set_register(1, u32::MAX);
    cpu.set_register(2, 2);
    cpu.set_register(5, 0x7fff_ffff);
    cpu.set_register(6, 1);
    assert_eq!(cpu.step(&mut bus).unwrap().cycles, 6);
    cpu.step(&mut bus).unwrap();
    assert_eq!(cpu.register(3), Some(u32::MAX - 1));
    assert_eq!(cpu.step(&mut bus).unwrap().cycles, 10);
    cpu.step(&mut bus).unwrap();
    assert_eq!(cpu.register(4), Some(1));
    assert_eq!(
        cpu.step(&mut bus).unwrap().event,
        StepEvent::Exception(Exception::Overflow)
    );
}

#[test]
fn unsupported_instruction_traps_without_panicking() {
    let mut bus = TestBus::new(&[0xffff_ffff]);
    let mut cpu = Cpu::new(profile());
    let outcome = cpu.step(&mut bus).unwrap();
    assert_eq!(
        outcome.event,
        StepEvent::Exception(Exception::ReservedInstruction)
    );
    assert_eq!(cpu.cop0().epc, 0);
}

#[test]
fn immediate_cop0_and_system_instruction_groups() {
    let words = [
        i(0x0d, 0, 1, 0xf0f0),
        i(0x0f, 0, 2, 0x1234),
        i(0x0c, 2, 3, 0x00ff),
        i(0x0e, 1, 4, 0xffff),
        i(0x0a, 1, 5, 0xffff),
        i(0x0b, 1, 6, 0xffff),
        (0x10 << 26) | (0x04 << 21) | (1 << 16) | (12 << 11),
        (0x10 << 26) | (12 << 16) | (12 << 11),
        0,
        0x4200_0010,
        0x0000_000c,
    ];
    let mut bus = TestBus::new(&words);
    let mut cpu = Cpu::new(profile());
    for _ in 0..10 {
        cpu.step(&mut bus).unwrap();
    }
    assert_eq!(cpu.register(1), Some(0xf0f0));
    assert_eq!(cpu.register(2), Some(0x1234_0000));
    assert_eq!(cpu.register(3), Some(0));
    assert_eq!(cpu.register(4), Some(0x0000_0f0f));
    assert_eq!(cpu.register(5), Some(0));
    assert_eq!(cpu.register(6), Some(1));
    assert_eq!(cpu.register(12), Some(0xf0f0));
    assert_eq!(cpu.cop0().status & 0x0f, (0xf0f0 >> 2) & 0x0f);
    assert_eq!(
        cpu.step(&mut bus).unwrap().event,
        StepEvent::Exception(Exception::Syscall)
    );
}

#[test]
fn aligned_signed_unsigned_loads_and_stores_round_trip() {
    let words = [
        i(0x28, 1, 2, 0),
        i(0x29, 1, 3, 2),
        i(0x2b, 1, 4, 4),
        i(0x20, 1, 5, 0),
        0,
        i(0x24, 1, 6, 0),
        0,
        i(0x21, 1, 7, 2),
        0,
        i(0x25, 1, 8, 2),
        0,
        i(0x23, 1, 9, 4),
        0,
    ];
    let mut bus = TestBus::new(&words);
    let mut cpu = Cpu::new(profile());
    cpu.set_register(1, 0x100);
    cpu.set_register(2, 0x80);
    cpu.set_register(3, 0x8001);
    cpu.set_register(4, 0x89ab_cdef);
    for _ in words {
        cpu.step(&mut bus).unwrap();
    }
    assert_eq!(cpu.register(5), Some(0xffff_ff80));
    assert_eq!(cpu.register(6), Some(0x80));
    assert_eq!(cpu.register(7), Some(0xffff_8001));
    assert_eq!(cpu.register(8), Some(0x8001));
    assert_eq!(cpu.register(9), Some(0x89ab_cdef));
}

#[test]
fn unaligned_word_load_and_store_lanes_are_little_endian() {
    let load_expectations = [0x11bb_ccdd, 0x2211_ccdd, 0x3322_11dd, 0x4433_2211];
    let right_expectations = [0x4433_2211, 0xaa44_3322, 0xaabb_4433, 0xaabb_cc44];
    for offset in 0_u16..4 {
        let words = [i(0x22, 1, 2, offset), 0, i(0x26, 1, 3, offset), 0];
        let mut bus = TestBus::new(&words);
        bus.write_u32(0x100, 0x4433_2211).unwrap();
        let mut cpu = Cpu::new(profile());
        cpu.set_register(1, 0x100);
        cpu.set_register(2, 0xaabb_ccdd);
        cpu.set_register(3, 0xaabb_ccdd);
        for _ in words {
            cpu.step(&mut bus).unwrap();
        }
        assert_eq!(
            cpu.register(2),
            Some(load_expectations[usize::from(offset)])
        );
        assert_eq!(
            cpu.register(3),
            Some(right_expectations[usize::from(offset)])
        );
    }

    let stored_left = [0x4433_22aa, 0x4433_aabb, 0x44aa_bbcc, 0xaabb_ccdd];
    let stored_right = [0xaabb_ccdd, 0xbbcc_dd11, 0xccdd_2211, 0xdd33_2211];
    for offset in 0_u16..4 {
        let words = [i(0x2a, 1, 2, offset)];
        let mut bus = TestBus::new(&words);
        bus.write_u32(0x100, 0x4433_2211).unwrap();
        let mut cpu = Cpu::new(profile());
        cpu.set_register(1, 0x100);
        cpu.set_register(2, 0xaabb_ccdd);
        cpu.step(&mut bus).unwrap();
        assert_eq!(
            bus.read_u32(0x100).unwrap(),
            stored_left[usize::from(offset)]
        );

        let words = [i(0x2e, 1, 2, offset)];
        let mut bus = TestBus::new(&words);
        bus.write_u32(0x100, 0x4433_2211).unwrap();
        let mut cpu = Cpu::new(profile());
        cpu.set_register(1, 0x100);
        cpu.set_register(2, 0xaabb_ccdd);
        cpu.step(&mut bus).unwrap();
        assert_eq!(
            bus.read_u32(0x100).unwrap(),
            stored_right[usize::from(offset)]
        );
    }
}

#[test]
fn malformed_memory_operations_and_coprocessors_trap() {
    let cases = [
        (i(0x21, 0, 1, 1), Exception::AddressLoad),
        (i(0x23, 0, 1, 2), Exception::AddressLoad),
        (i(0x29, 0, 1, 1), Exception::AddressStore),
        (i(0x2b, 0, 1, 2), Exception::AddressStore),
        (0x4400_0000, Exception::CoprocessorUnusable),
        (0xc000_0000, Exception::CoprocessorUnusable),
        (0x0000_000d, Exception::Break),
    ];
    for (instruction, exception) in cases {
        let mut bus = TestBus::new(&[instruction]);
        let mut cpu = Cpu::new(profile());
        assert_eq!(
            cpu.step(&mut bus).unwrap().event,
            StepEvent::Exception(exception)
        );
    }
}

#[test]
fn generated_alu_program_matches_independent_reference_model() {
    let mut state = 0x9e37_79b9_u32;
    let mut words = Vec::new();
    let mut expected = [0_u32; 32];
    expected[1] = 0x8765_4321;
    expected[2] = 0x1234_5678;
    for index in 0..1000_u32 {
        state ^= state << 13;
        state ^= state >> 17;
        state ^= state << 5;
        let destination = 3 + (index % 29);
        let source = 1 + (state % 31);
        let other = 1 + ((state >> 8) % 31);
        let selector = (state >> 16) % 8;
        let (instruction, value) = match selector {
            0 => (
                r(source, other, destination, 0, 0x21),
                expected[source as usize].wrapping_add(expected[other as usize]),
            ),
            1 => (
                r(source, other, destination, 0, 0x23),
                expected[source as usize].wrapping_sub(expected[other as usize]),
            ),
            2 => (
                r(source, other, destination, 0, 0x24),
                expected[source as usize] & expected[other as usize],
            ),
            3 => (
                r(source, other, destination, 0, 0x25),
                expected[source as usize] | expected[other as usize],
            ),
            4 => (
                r(source, other, destination, 0, 0x26),
                expected[source as usize] ^ expected[other as usize],
            ),
            5 => (
                r(source, other, destination, 0, 0x27),
                !(expected[source as usize] | expected[other as usize]),
            ),
            6 => (
                r(source, other, destination, 0, 0x2a),
                u32::from(
                    to_i32(expected[source as usize])
                        < to_i32(expected[other as usize]),
                ),
            ),
            _ => (
                r(source, other, destination, 0, 0x2b),
                u32::from(expected[source as usize] < expected[other as usize]),
            ),
        };
        words.push(instruction);
        if destination != 0 {
            expected[destination as usize] = value;
        }
    }
    let mut bus = TestBus::new(&words);
    let mut cpu = Cpu::new(profile());
    cpu.set_register(1, expected_seed(1));
    cpu.set_register(2, expected_seed(2));

    // Recompute from the same seeds because `expected` now contains final state.
    let mut reference = [0_u32; 32];
    reference[1] = expected_seed(1);
    reference[2] = expected_seed(2);
    for instruction in &words {
        let source = ((instruction >> 21) & 31) as usize;
        let other = ((instruction >> 16) & 31) as usize;
        let destination = ((instruction >> 11) & 31) as usize;
        let value = match instruction & 63 {
            0x21 => reference[source].wrapping_add(reference[other]),
            0x23 => reference[source].wrapping_sub(reference[other]),
            0x24 => reference[source] & reference[other],
            0x25 => reference[source] | reference[other],
            0x26 => reference[source] ^ reference[other],
            0x27 => !(reference[source] | reference[other]),
            0x2a => {
                u32::from(to_i32(reference[source]) < to_i32(reference[other]))
            }
            0x2b => u32::from(reference[source] < reference[other]),
            _ => unreachable!(),
        };
        if destination != 0 {
            reference[destination] = value;
        }
        cpu.step(&mut bus).unwrap();
    }
    for (index, value) in reference.into_iter().enumerate() {
        assert_eq!(cpu.register(index), Some(value), "register {index}");
    }
}

fn expected_seed(register: usize) -> u32 {
    match register {
        1 => 0x8765_4321,
        2 => 0x1234_5678,
        _ => 0,
    }
}

#[derive(Default)]
struct Sink(Option<TraceRecord>);

impl TraceSink for Sink {
    fn trace(&mut self, record: TraceRecord) {
        self.0 = Some(record);
    }
}

#[test]
fn trace_hook_observes_post_state() {
    let mut bus = TestBus::new(&[i(0x09, 0, 1, 42)]);
    let mut cpu = Cpu::new(profile());
    let mut sink = Sink::default();
    cpu.step_traced(&mut bus, &mut sink).unwrap();
    assert_eq!(sink.0.unwrap().registers[1], 42);
}

#[test]
fn unaligned_pairs_round_trip_at_every_offset() {
    for offset in 0_u16..4 {
        let words = [
            i(0x2e, 1, 2, offset),
            i(0x2a, 1, 2, offset + 3),
            i(0x26, 1, 3, offset),
            i(0x22, 1, 3, offset + 3),
            0,
        ];
        let mut bus = TestBus::new(&words);
        let mut cpu = Cpu::new(profile());
        cpu.set_register(1, 0x100);
        cpu.set_register(2, 0x1234_5678);
        for _ in words {
            cpu.step(&mut bus).unwrap();
        }
        assert_eq!(cpu.register(3), Some(0x1234_5678));
        let start = 0x100 + usize::from(offset);
        assert_eq!(bus.memory[start..start + 4], [0x78, 0x56, 0x34, 0x12]);
    }
}

#[test]
fn a_write_in_the_load_delay_slot_wins() {
    let words = [i(0x23, 0, 1, 0x100), i(0x09, 0, 1, 5), 0];
    let mut bus = TestBus::new(&words);
    bus.write_u32(0x100, 9).unwrap();
    let mut cpu = Cpu::new(profile());
    for _ in words {
        cpu.step(&mut bus).unwrap();
    }
    assert_eq!(cpu.register(1), Some(5));
}

#[test]
fn bus_failures_leave_the_processor_where_it_was() {
    let words = [i(0x23, 1, 2, 0)];
    let mut bus = TestBus::new(&words);
    let mut cpu = Cpu::new(profile());
    cpu.set_register(1, 0x8000);
    let before = cpu.clone();
    let error = cpu.step(&mut bus).unwrap_err();
    assert_eq!(error.pc, 0);
    assert_eq!(error.address, 0x8000);
    assert_eq!(error.access, AccessType::Load);
    assert_eq!(error.source.message(), "out of range");
    assert_eq!(cpu, before);

    cpu.set_pc(0x9000);
    let error = cpu.step(&mut bus).unwrap_err();
    assert_eq!(error.access, AccessType::Instruction);
    assert_eq!(error.address, 0x9000);

    let mut bus = TestBus::new(&[i(0x2b, 1, 2, 0)]);
    let mut cpu = before;
    let error = cpu.step(&mut bus).unwrap_err();
    assert_eq!(error.access, AccessType::Store);
}

#[test]
fn returning_from_an_exception_restores_the_modes() {
    let mut memory = vec![0; 0x41];
    memory[0] = 0x0000_000c;
    memory[0x40] = 0x4200_0010;
    let mut bus = TestBus::new(&memory);
    let mut cpu = Cpu::new(profile());
    cpu.cop0_mut().status = 0x0b;
    cpu.step(&mut bus).unwrap();
    assert_eq!(cpu.pc(), 0x100);
    assert_eq!(cpu.cop0().status & 0x3f, 0x2c);
    cpu.step(&mut bus).unwrap();
    assert_eq!(cpu.cop0().status & 0x0f, 0x0b);
    assert_eq!(cpu.cop0().cause & CAUSE_BD, 0);
}

#[test]
fn bootstrap_vector_follows_the_status_register() {
    let mut bus = TestBus::new(&[0x0000_000d]);
    let mut cpu = Cpu::new(profile());
    cpu.cop0_mut().status = 1 << 22;
    cpu.step(&mut bus).unwrap();
    assert_eq!(cpu.pc(), 0x180);
}

#[test]
fn software_interrupts_are_taken_without_the_external_line() {
    let mut bus = TestBus::new(&[0]);
    bus.irq = true;
    let mut cpu = Cpu::new(profile());
    cpu.cop0_mut().status = 1 | CAUSE_IP2;
    let outcome = cpu.step_without_external_interrupts(&mut bus).unwrap();
    assert_eq!(outcome.event, StepEvent::Instruction);

    let mut cpu = Cpu::new(profile());
    cpu.cop0_mut().status = 1 | (1 << 8);
    cpu.cop0_mut().cause = 1 << 8;
    let outcome = cpu.step_without_external_interrupts(&mut bus).unwrap();
    assert_eq!(outcome.event, StepEvent::Exception(Exception::Interrupt));
}

#[test]
fn division_extremes_are_defined() {
    let words = [r(1, 2, 0, 0, 0x1a), r(1, 3, 0, 0, 0x1a), r(1, 3, 0, 0, 0x1b)];
    let mut bus = TestBus::new(&words);
    let mut cpu = Cpu::new(profile());
    cpu.set_register(1, 0x8000_0000);
    cpu.set_register(2, u32::MAX);
    cpu.step(&mut bus).unwrap();
    assert_eq!((cpu.hi(), cpu.lo()), (0, 0x8000_0000));
    cpu.step(&mut bus).unwrap();
    assert_eq!((cpu.hi(), cpu.lo()), (0x8000_0000, 1));
    cpu.step(&mut bus).unwrap();
    assert_eq!((cpu.hi(), cpu.lo()), (0x8000_0000, u32::MAX));
    cpu.set_hi_lo(3, 4);
    assert_eq!((cpu.hi(), cpu.lo()), (3, 4));
}

#[test]
fn registers_outside_the_file_do_not_exist() {
    let mut cpu = Cpu::new(profile());
    assert_eq!(cpu.register(32), None);
    assert!(!cpu.set_register(32, 1));
    assert!(cpu.set_register(31, 7));
    assert_eq!(cpu.register(31), Some(7));
    cpu.set_register(0, 7);
    assert_eq!(cpu.register(0), Some(0));
}

#[test]
fn control_registers_read_back_through_moves() {
    let words = [
        (0x10 << 26) | (0x04 << 21) | (1 << 16) | (14 << 11),
        (0x10 << 26) | (2 << 16) | (14 << 11),
        0,
        (0x10 << 26) | (0x04 << 21) | (1 << 16) | (13 << 11),
    ];
    let mut bus = TestBus::new(&words);
    let mut cpu = Cpu::new(profile());
    cpu.set_register(1, 0xffff_fff0);
    for _ in words {
        cpu.step(&mut bus).unwrap();
    }
    assert_eq!(cpu.register(2), Some(0xffff_fff0));
    assert_eq!(cpu.cop0().epc, 0xffff_fff0);
    assert_eq!(cpu.cop0().cause, 0x300);
    assert_eq!(cpu.cop0().processor_id, 2);
}

#[test]
fn unaligned_loads_merge_in_either_order_and_mode() {
    for mode in [LoadDelayMode::Architectural, LoadDelayMode::Interlocked] {
        for offset in 0_u16..4 {
            let right = i(0x26, 1, 2, offset);
            let left = i(0x22, 1, 2, offset + 3);
            for words in [[right, left, 0], [left, right, 0]] {
                let mut bus = TestBus::new(&words);
                bus.write_u32(0x100, 0x4433_2211).unwrap();
                bus.write_u32(0x104, 0x8877_6655).unwrap();
                let before = bus.memory.clone();
                let mut cpu = Cpu::with_load_delay_mode(profile(), mode);
                cpu.set_register(1, 0x100);
                cpu.set_register(2, 0xaabb_ccdd);
                let cycles: Vec<u32> = words
                    .iter()
                    .map(|_| cpu.step(&mut bus).unwrap().cycles)
                    .collect();
                assert_eq!(cycles, [2, 2, 1]);
                let word = 0x8877_6655_4433_2211_u64 >> (8 * offset);
                assert_eq!(cpu.register(2), Some(word as u32));
                assert_eq!(bus.memory, before);
            }
        }
    }
}

#[test]
fn unaligned_stores_change_only_their_four_bytes() {
    for offset in 0_u16..4 {
        let words = [i(0x2e, 1, 2, offset), i(0x2a, 1, 2, offset + 3)];
        let mut bus = TestBus::new(&words);
        bus.write_u32(0x100, 0x4433_2211).unwrap();
        bus.write_u32(0x104, 0x8877_6655).unwrap();
        let mut expected = bus.memory.clone();
        let start = 0x100 + usize::from(offset);
        expected[start..start + 4].copy_from_slice(&0xaabb_ccdd_u32.to_le_bytes());
        let mut cpu = Cpu::new(profile());
        cpu.set_register(1, 0x100);
        cpu.set_register(2, 0xaabb_ccdd);
        for _ in words {
            let outcome = cpu.step(&mut bus).unwrap();
            assert_eq!(outcome.event, StepEvent::Instruction);
            assert_eq!(outcome.cycles, 2);
        }
        assert_eq!(bus.memory, expected);
    }
}
