//! PS1 DMA controller.

use std::collections::VecDeque;

use upse_hw::clock::Deadline;
use upse_hw::ps1::dma::{
    DmaController, DmaError, EndpointError, InterruptSink, MdecDmaEndpoint, SoundDmaEndpoint,
    CHANNEL0_ENABLE, CHANNEL4_ENABLE, CHANNEL4_EVENT, CHCR_DECREMENT, CHCR_DIRECTION_FROM_RAM,
    CHCR_START, CHCR_TRIGGER, D0_BCR, D0_CHCR, D0_MADR, D4_BCR, D4_CHCR, D4_MADR, DICR,
    DICR_CHANNEL0_FLAG, DICR_CHANNEL4_FLAG, DICR_CHANNEL4_MASK, DICR_MASTER_ENABLE,
    DICR_MASTER_FLAG, DMA_CHANNEL_START, DPCR, DPCR_RESET,
};
use upse_hw::ps1::irq::{InterruptController, InterruptSource, I_STAT};
use upse_hw::ps1::memory::{OpenBusPolicy, Ps1Memory};
use upse_hw::r3000::{Bus, BusFault, Cpu, ResetProfile};
use upse_hw::scheduler::{DueEvent, EventId, Scheduler};

#[derive(Default)]
struct Endpoint {
    written: Vec<u32>,
    reads: VecDeque<u32>,
}

impl SoundDmaEndpoint for Endpoint {
    fn write_word(&mut self, value: u32) -> Result<(), EndpointError> {
        self.written.push(value);
        Ok(())
    }

    fn read_word(&mut self) -> Result<u32, EndpointError> {
        self.reads
            .pop_front()
            .ok_or_else(|| EndpointError::new("empty synthetic endpoint"))
    }
}

impl MdecDmaEndpoint for Endpoint {
    fn write_word(&mut self, value: u32) -> Result<(), EndpointError> {
        self.written.push(value);
        Ok(())
    }
}

#[derive(Default)]
struct Log(Vec<InterruptSource>);

impl InterruptSink for Log {
    fn request(&mut self, source: InterruptSource) {
        self.0.push(source);
    }
}

fn write(
    dma: &mut DmaController,
    address: u32,
    value: u32,
    scheduler: &mut Scheduler,
    sink: &mut impl InterruptSink,
) -> Result<(), DmaError> {
    dma.write(address, value, Deadline::new(0), scheduler, sink)
}

fn enable(dma: &mut DmaController, scheduler: &mut Scheduler, sink: &mut impl InterruptSink) {
    write(
        dma,
        DPCR,
        DPCR_RESET | CHANNEL4_ENABLE,
        scheduler,
        sink,
    )
    .unwrap();
}

#[test]
fn ram_to_sound_transfer_completes_at_four_cycles_per_word() {
    let mut dma = DmaController::new();
    let mut memory = Ps1Memory::new(OpenBusPolicy::Strict);
    memory.write_u32(0x100, 0x1122_3344).unwrap();
    memory.write_u32(0x104, 0xaabb_ccdd).unwrap();
    let mut endpoint = Endpoint::default();
    let mut scheduler = Scheduler::new();
    let mut irq = InterruptController::new();
    enable(&mut dma, &mut scheduler, &mut irq);
    write(
        &mut dma,
        DICR,
        DICR_MASTER_ENABLE | DICR_CHANNEL4_MASK,
        &mut scheduler,
        &mut irq,
    )
    .unwrap();
    write(&mut dma, D4_MADR, 0x100, &mut scheduler, &mut irq).unwrap();
    write(&mut dma, D4_BCR, 2, &mut scheduler, &mut irq).unwrap();
    write(
        &mut dma,
        D4_CHCR,
        CHCR_DIRECTION_FROM_RAM | CHCR_START | CHCR_TRIGGER,
        &mut scheduler,
        &mut irq,
    )
    .unwrap();
    assert_eq!(scheduler.next_deadline(), Some(Deadline::new(8)));
    assert_eq!(scheduler.pop_due(Deadline::new(7)), None);
    let event = scheduler.pop_due(Deadline::new(8)).unwrap();
    dma.complete(event, &mut memory, &mut endpoint, &mut irq)
        .unwrap();
    assert_eq!(endpoint.written, [0x1122_3344, 0xaabb_ccdd]);
    assert_eq!(dma.read(D4_MADR).unwrap(), 0x108);
    assert_eq!(dma.read(D4_CHCR).unwrap() & CHCR_START, 0);
    assert_ne!(dma.read(DICR).unwrap() & DICR_CHANNEL4_FLAG, 0);
    assert_ne!(dma.read(DICR).unwrap() & DICR_MASTER_FLAG, 0);
    assert_eq!(irq.status(), InterruptSource::Dma.bit());
}

#[test]
fn ram_to_mdec_transfer_services_exact_words_and_completes() {
    let mut dma = DmaController::new();
    let mut memory = Ps1Memory::new(OpenBusPolicy::Strict);
    for index in 0..32_u32 {
        memory.write_u32(0x100 + index * 4, index).unwrap();
    }
    let mut endpoint = Endpoint::default();
    let mut scheduler = Scheduler::new();
    let mut irq = InterruptController::new();
    write(
        &mut dma,
        DPCR,
        DPCR_RESET | CHANNEL0_ENABLE,
        &mut scheduler,
        &mut irq,
    )
    .unwrap();
    write(&mut dma, D0_MADR, 0x100, &mut scheduler, &mut irq).unwrap();
    write(&mut dma, D0_BCR, 0x0001_0020, &mut scheduler, &mut irq).unwrap();
    write(
        &mut dma,
        D0_CHCR,
        CHCR_DIRECTION_FROM_RAM | (1 << 9) | CHCR_START,
        &mut scheduler,
        &mut irq,
    )
    .unwrap();

    assert!(
        dma.service_mdec_in(&memory, &mut endpoint, &mut irq)
            .unwrap()
    );
    assert_eq!(endpoint.written, (0..32).collect::<Vec<_>>());
    assert_eq!(dma.read(D0_MADR).unwrap(), 0x180);
    assert_eq!(dma.read(D0_CHCR).unwrap() & CHCR_START, 0);
    assert_ne!(dma.read(DICR).unwrap() & DICR_CHANNEL0_FLAG, 0);
}

#[test]
fn non_audio_channel_registers_read_back_without_remaining_busy() {
    let mut dma = DmaController::new();
    let mut scheduler = Scheduler::new();
    let mut log = Log::default();
    let gpu_madr = DMA_CHANNEL_START + 2 * 0x10;
    let gpu_bcr = gpu_madr + 4;
    let gpu_chcr = gpu_madr + 8;

    write(&mut dma, gpu_madr, 0x8012_3457, &mut scheduler, &mut log).unwrap();
    write(&mut dma, gpu_bcr, 0x1234_5678, &mut scheduler, &mut log).unwrap();
    write(&mut dma, gpu_chcr, 0x1100_0401, &mut scheduler, &mut log).unwrap();

    assert_eq!(dma.read(gpu_madr).unwrap(), 0x0012_3454);
    assert_eq!(dma.read(gpu_bcr).unwrap(), 0x1234_5678);
    assert_eq!(dma.read(gpu_chcr).unwrap(), 0x0000_0401);
    assert!(scheduler.is_empty());
    assert!(log.0.is_empty());
}

#[test]
fn sound_to_ram_decrement_transfer_preserves_word_order() {
    let mut dma = DmaController::new();
    let mut memory = Ps1Memory::new(OpenBusPolicy::Strict);
    let mut endpoint = Endpoint {
        written: Vec::new(),
        reads: VecDeque::from([0x0102_0304, 0xa0b0_c0d0]),
    };
    let mut scheduler = Scheduler::new();
    let mut log = Log::default();
    enable(&mut dma, &mut scheduler, &mut log);
    write(&mut dma, D4_MADR, 0x104, &mut scheduler, &mut log).unwrap();
    write(&mut dma, D4_BCR, 2, &mut scheduler, &mut log).unwrap();
    write(
        &mut dma,
        D4_CHCR,
        CHCR_DECREMENT | CHCR_START | CHCR_TRIGGER,
        &mut scheduler,
        &mut log,
    )
    .unwrap();
    let event = scheduler.pop_due(Deadline::new(8)).unwrap();
    dma.complete(event, &mut memory, &mut endpoint, &mut log)
        .unwrap();
    assert_eq!(memory.read_u32(0x104).unwrap(), 0x0102_0304);
    assert_eq!(memory.read_u32(0x100).unwrap(), 0xa0b0_c0d0);
}

#[test]
fn disabled_manual_and_invalid_modes_do_not_run() {
    let mut dma = DmaController::new();
    let mut scheduler = Scheduler::new();
    let mut log = Log::default();
    write(&mut dma, D4_BCR, 1, &mut scheduler, &mut log).unwrap();
    write(
        &mut dma,
        D4_CHCR,
        CHCR_START | CHCR_TRIGGER,
        &mut scheduler,
        &mut log,
    )
    .unwrap();
    assert!(scheduler.is_empty());
    enable(&mut dma, &mut scheduler, &mut log);
    assert_eq!(scheduler.next_deadline(), Some(Deadline::new(4)));
    write(&mut dma, D4_CHCR, CHCR_START, &mut scheduler, &mut log).unwrap();
    assert!(scheduler.is_empty());
    assert_eq!(
        write(
            &mut dma,
            D4_CHCR,
            CHCR_START | (2 << 9),
            &mut scheduler,
            &mut log,
        ),
        Err(DmaError::UnsupportedSync { mode: 2 })
    );
}

#[test]
fn checked_counts_and_ranges_cannot_escape_ram() {
    let mut dma = DmaController::new();
    let mut scheduler = Scheduler::new();
    let mut log = Log::default();
    enable(&mut dma, &mut scheduler, &mut log);
    write(&mut dma, D4_BCR, 0x0009_0000, &mut scheduler, &mut log).unwrap();
    assert!(matches!(
        write(
            &mut dma,
            D4_CHCR,
            CHCR_START | (1 << 9),
            &mut scheduler,
            &mut log,
        ),
        Err(DmaError::TransferTooLarge { .. })
    ));

    write(&mut dma, D4_BCR, 2, &mut scheduler, &mut log).unwrap();
    write(&mut dma, D4_MADR, 0, &mut scheduler, &mut log).unwrap();
    write(
        &mut dma,
        D4_CHCR,
        CHCR_DECREMENT | CHCR_START | CHCR_TRIGGER,
        &mut scheduler,
        &mut log,
    )
    .unwrap();
    let event = scheduler.pop_due(Deadline::new(8)).unwrap();
    let mut memory = Ps1Memory::new(OpenBusPolicy::Strict);
    let mut endpoint = Endpoint::default();
    assert!(matches!(
        dma.complete(event, &mut memory, &mut endpoint, &mut log),
        Err(DmaError::RamRange { .. })
    ));
    assert!(endpoint.written.is_empty());
}

#[test]
fn interrupt_master_edge_and_write_one_ack_are_stable() {
    let mut dma = DmaController::new();
    let mut scheduler = Scheduler::new();
    let mut log = Log::default();
    write(&mut dma, DICR, DICR_CHANNEL4_MASK, &mut scheduler, &mut log).unwrap();
    dma.dicr_flags = DICR_CHANNEL4_FLAG;
    write(
        &mut dma,
        DICR,
        DICR_MASTER_ENABLE | DICR_CHANNEL4_MASK,
        &mut scheduler,
        &mut log,
    )
    .unwrap();
    assert_eq!(log.0, [InterruptSource::Dma]);
    assert_ne!(dma.read(DICR).unwrap() & DICR_MASTER_FLAG, 0);
    write(
        &mut dma,
        DICR,
        DICR_MASTER_ENABLE | DICR_CHANNEL4_MASK | DICR_CHANNEL4_FLAG,
        &mut scheduler,
        &mut log,
    )
    .unwrap();
    assert_eq!(dma.read(DICR).unwrap() & DICR_CHANNEL4_FLAG, 0);
    assert_eq!(dma.read(DICR).unwrap() & DICR_MASTER_FLAG, 0);
}

struct CpuDmaBus {
    words: Vec<u32>,
    dma: DmaController,
    memory: Ps1Memory,
    endpoint: Endpoint,
    scheduler: Scheduler,
    irq: InterruptController,
    now: u64,
}

impl CpuDmaBus {
    fn advance(&mut self, cycles: u32) {
        self.now += u64::from(cycles);
        while let Some(event) = self.scheduler.pop_due(Deadline::new(self.now)) {
            self.dma
                .complete(event, &mut self.memory, &mut self.endpoint, &mut self.irq)
                .unwrap();
        }
    }
}

impl Bus for CpuDmaBus {
    fn read_u8(&mut self, _address: u32) -> Result<u8, BusFault> {
        Err(BusFault::new("byte access is not used"))
    }

    fn read_u16(&mut self, _address: u32) -> Result<u16, BusFault> {
        Err(BusFault::new("halfword access is not used"))
    }

    fn read_u32(&mut self, address: u32) -> Result<u32, BusFault> {
        if address == I_STAT {
            return self
                .irq
                .read(address)
                .map_err(|error| BusFault::new(format!("{error:?}")));
        }
        let index =
            usize::try_from(address / 4).map_err(|error| BusFault::new(error.to_string()))?;
        self.words
            .get(index)
            .copied()
            .ok_or_else(|| BusFault::new("instruction fetch outside synthetic RAM"))
    }

    fn write_u8(&mut self, _address: u32, _value: u8) -> Result<(), BusFault> {
        Err(BusFault::new("byte access is not used"))
    }

    fn write_u16(&mut self, _address: u32, _value: u16) -> Result<(), BusFault> {
        Err(BusFault::new("halfword access is not used"))
    }

    fn write_u32(&mut self, address: u32, value: u32) -> Result<(), BusFault> {
        if address == I_STAT {
            return self
                .irq
                .write(address, value)
                .map_err(|error| BusFault::new(format!("{error:?}")));
        }
        self.dma
            .write(
                address,
                value,
                Deadline::new(self.now),
                &mut self.scheduler,
                &mut self.irq,
            )
            .map_err(|error| BusFault::new(format!("{error:?}")))
    }

    fn interrupt_pending(&self) -> bool {
        self.irq.pending()
    }
}

#[test]
fn tiny_cpu_program_transfers_sound_words_and_observes_completion() {
    let mut bus = CpuDmaBus {
        words: vec![
            0x3c08_1f80, // lui t0,0x1f80
            0x3c09_076d, // lui t1,0x076d
            0x3529_4321, // ori t1,t1,0x4321
            0xad09_10f0, // sw t1,DPCR(t0)
            0x3c09_0090, // lui t1,0x0090 (DMA master + channel 4 IRQ)
            0xad09_10f4, // sw t1,DICR(t0)
            0x2409_0100, // addiu t1,zero,0x100
            0xad09_10c0, // sw t1,D4_MADR(t0)
            0x2409_0002, // addiu t1,zero,2
            0xad09_10c4, // sw t1,D4_BCR(t0)
            0x3c09_1100, // lui t1,0x1100
            0x3529_0001, // ori t1,t1,1 (RAM to device)
            0xad09_10c8, // sw t1,D4_CHCR(t0)
            0x8d0a_1070, // lw t2,I_STAT(t0)
            0x0000_0000, // load-delay slot
            0x314a_0008, // andi t2,t2,DMA
            0x1140_fffc, // beq t2,zero,poll
            0x0000_0000, // branch-delay slot
            0xad00_1070, // sw zero,I_STAT(t0)
            0x2402_0001, // addiu v0,zero,1
        ],
        dma: DmaController::new(),
        memory: Ps1Memory::new(OpenBusPolicy::Strict),
        endpoint: Endpoint::default(),
        scheduler: Scheduler::new(),
        irq: InterruptController::new(),
        now: 0,
    };
    bus.memory.write_u32(0x100, 0x7654_3210).unwrap();
    bus.memory.write_u32(0x104, 0xfedc_ba98).unwrap();
    let mut cpu = Cpu::new(ResetProfile {
        pc: 0,
        exception_vector: 0x80,
        bootstrap_exception_vector: 0x80,
        status: 0,
        processor_id: 2,
    });
    let mut trace = Vec::new();
    for _ in 0..64 {
        let outcome = cpu.step(&mut bus).unwrap();
        trace.push(outcome.pc);
        bus.advance(outcome.cycles);
        if cpu.register(2) == Some(1) {
            break;
        }
    }
    assert_eq!(cpu.register(2), Some(1));
    assert_eq!(bus.endpoint.written, [0x7654_3210, 0xfedc_ba98]);
    assert_eq!(bus.irq.status(), 0);
    assert!(
        trace
            .windows(7)
            .any(|window| window == [52, 56, 60, 64, 68, 72, 76])
    );
}

#[test]
fn each_channel_flag_clears_by_writing_one() {
    let mut dma = DmaController::new();
    let mut scheduler = Scheduler::new();
    let mut log = Log::default();
    dma.dicr_flags = DICR_CHANNEL0_FLAG | DICR_CHANNEL4_FLAG;
    write(&mut dma, DICR, DICR_CHANNEL0_FLAG, &mut scheduler, &mut log).unwrap();
    assert_eq!(
        dma.read(DICR).unwrap() & (DICR_CHANNEL0_FLAG | DICR_CHANNEL4_FLAG),
        DICR_CHANNEL4_FLAG
    );
}

#[test]
fn obsolete_and_foreign_events_are_refused() {
    let mut dma = DmaController::default();
    let mut memory = Ps1Memory::new(OpenBusPolicy::Strict);
    let mut endpoint = Endpoint::default();
    let mut log = Log::default();
    let event = DueEvent {
        id: EventId::new(CHANNEL4_EVENT),
        deadline: Deadline::new(4),
    };
    assert_eq!(
        dma.complete(event, &mut memory, &mut endpoint, &mut log),
        Err(DmaError::StaleEvent)
    );
    assert_eq!(
        dma.read(DMA_CHANNEL_START - 4),
        Err(DmaError::InvalidRegister {
            address: DMA_CHANNEL_START - 4
        })
    );
}

#[test]
fn endpoint_failures_and_clock_overflow_are_reported() {
    let mut dma = DmaController::new();
    let mut scheduler = Scheduler::new();
    let mut log = Log::default();
    enable(&mut dma, &mut scheduler, &mut log);
    write(&mut dma, D4_BCR, 1, &mut scheduler, &mut log).unwrap();
    write(
        &mut dma,
        D4_CHCR,
        CHCR_START | CHCR_TRIGGER,
        &mut scheduler,
        &mut log,
    )
    .unwrap();
    assert_eq!(dma.completion_deadline(), Some(Deadline::new(4)));
    let event = scheduler.pop_due(Deadline::new(4)).unwrap();
    let mut memory = Ps1Memory::new(OpenBusPolicy::Strict);
    let mut endpoint = Endpoint::default();
    let error = dma
        .complete(event, &mut memory, &mut endpoint, &mut log)
        .unwrap_err();
    assert_eq!(
        error,
        DmaError::Endpoint(EndpointError::new("empty synthetic endpoint"))
    );

    let mut dma = DmaController::new();
    enable(&mut dma, &mut scheduler, &mut log);
    dma.write(D4_BCR, 1, Deadline::new(0), &mut scheduler, &mut log)
        .unwrap();
    assert_eq!(
        dma.write(
            D4_CHCR,
            CHCR_START | CHCR_TRIGGER,
            Deadline::new(u64::MAX),
            &mut scheduler,
            &mut log
        ),
        Err(DmaError::ClockOverflow)
    );
}

#[test]
fn decoder_input_refuses_other_directions_and_modes() {
    let mut scheduler = Scheduler::new();
    let mut log = Log::default();
    let memory = Ps1Memory::new(OpenBusPolicy::Strict);
    let mut endpoint = Endpoint::default();
    for (control, expected) in [
        (CHCR_START | (1 << 9), DmaError::MdecDirection),
        (
            CHCR_START | CHCR_DIRECTION_FROM_RAM | (2 << 9),
            DmaError::UnsupportedMdecSync { mode: 2 },
        ),
    ] {
        let mut dma = DmaController::new();
        write(
            &mut dma,
            DPCR,
            DPCR_RESET | CHANNEL0_ENABLE,
            &mut scheduler,
            &mut log,
        )
        .unwrap();
        write(&mut dma, D0_CHCR, control, &mut scheduler, &mut log).unwrap();
        assert_eq!(
            dma.service_mdec_in(&memory, &mut endpoint, &mut log),
            Err(expected)
        );
    }
    let mut idle = DmaController::new();
    assert_eq!(
        idle.service_mdec_in(&memory, &mut endpoint, &mut log),
        Ok(false)
    );
    assert!(endpoint.written.is_empty());
}

#[test]
fn a_full_queue_refuses_a_transfer() {
    let mut dma = DmaController::new();
    let mut scheduler = Scheduler::new();
    scheduler.insertions = u64::MAX;
    let mut log = Log::default();
    enable(&mut dma, &mut scheduler, &mut log);
    write(&mut dma, D4_BCR, 1, &mut scheduler, &mut log).unwrap();
    assert_eq!(
        write(
            &mut dma,
            D4_CHCR,
            CHCR_START | CHCR_TRIGGER,
            &mut scheduler,
            &mut log
        ),
        Err(DmaError::Scheduler)
    );
}

#[test]
fn receiving_changes_only_the_transferred_range() {
    let mut dma = DmaController::new();
    let mut memory = Ps1Memory::new(OpenBusPolicy::Strict);
    memory.write_u32(0xfc, 0x1111_1111).unwrap();
    memory.write_u32(0x108, 0x2222_2222).unwrap();
    let mut endpoint = Endpoint {
        written: Vec::new(),
        reads: VecDeque::from([7, 8]),
    };
    let mut scheduler = Scheduler::new();
    let mut log = Log::default();
    enable(&mut dma, &mut scheduler, &mut log);
    write(&mut dma, D4_MADR, 0x100, &mut scheduler, &mut log).unwrap();
    write(&mut dma, D4_BCR, 2, &mut scheduler, &mut log).unwrap();
    write(
        &mut dma,
        D4_CHCR,
        CHCR_START | CHCR_TRIGGER,
        &mut scheduler,
        &mut log,
    )
    .unwrap();
    let event = scheduler.pop_due(Deadline::new(8)).unwrap();
    dma.complete(event, &mut memory, &mut endpoint, &mut log)
        .unwrap();
    assert_eq!(memory.read_u32(0xfc).unwrap(), 0x1111_1111);
    assert_eq!(memory.read_u32(0x100).unwrap(), 7);
    assert_eq!(memory.read_u32(0x104).unwrap(), 8);
    assert_eq!(memory.read_u32(0x108).unwrap(), 0x2222_2222);
}
