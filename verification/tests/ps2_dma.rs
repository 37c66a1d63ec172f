//! PS2 I/O-processor DMA controller.

use upse_hw::clock::Deadline;
use upse_hw::ps2::dma::{
    DmaController, DmaDirection, DmaError, DmaEvent, MockSpu2Endpoint, NoopObserver,
    SoundDmaChannel, Spu2MmioEndpoint, CHANNEL4_EVENT, CHANNEL7_EVENT, D4_BCR, D4_CHCR, D4_MADR,
    D7_BCR, D7_CHCR, D7_MADR, DICR1, DICR2, DPCR1, DPCR2,
};
use upse_hw::ps2::irq::{InterruptController, InterruptSource};
use upse_hw::ps2::memory::{IopMemory, OpenBusPolicy};
use upse_hw::scheduler::{DueEvent, EventId, Scheduler};

#[allow(clippy::too_many_arguments)]
fn enable_and_start(
    dma: &mut DmaController,
    scheduler: &mut Scheduler,
    irq: &mut InterruptController,
    events: &mut Vec<DmaEvent>,
    channel: SoundDmaChannel,
    address: u32,
    words: u16,
    from_ram: bool,
) {
    let (madr, bcr, chcr, dpcr, enable) = match channel {
        SoundDmaChannel::Core0 => (D4_MADR, D4_BCR, D4_CHCR, DPCR1, 1 << 19),
        SoundDmaChannel::Core1 => (D7_MADR, D7_BCR, D7_CHCR, DPCR2, 1 << 3),
    };
    dma.write_u32(
        dpcr,
        dma.read_u32(dpcr).unwrap() | enable,
        Deadline::new(0),
        scheduler,
        irq,
        events,
    )
    .unwrap();
    dma.write_u32(madr, address, Deadline::new(0), scheduler, irq, events)
        .unwrap();
    dma.write_u16(bcr, 0x10, Deadline::new(0), scheduler, irq, events)
        .unwrap();
    dma.write_u16(bcr + 2, words / 16, Deadline::new(0), scheduler, irq, events)
        .unwrap();
    dma.write_u32(
        chcr,
        (1 << 24) | (1 << 9) | u32::from(from_ram),
        Deadline::new(0),
        scheduler,
        irq,
        events,
    )
    .unwrap();
}

#[test]
fn both_sound_channels_transfer_exact_patterns_and_complete_in_fifo_order() {
    let mut dma = DmaController::new();
    let mut scheduler = Scheduler::new();
    let mut irq = InterruptController::new();
    let mut events = Vec::new();
    let mut memory = IopMemory::new(OpenBusPolicy::Strict);
    let mut endpoint = MockSpu2Endpoint::new();
    for index in 0..16_u32 {
        memory.write_u32(index * 4, 0x1000_0000 | index).unwrap();
        endpoint.queue_read_words(SoundDmaChannel::Core1, &[0x2000_0000 | index]);
    }
    enable_and_start(
        &mut dma,
        &mut scheduler,
        &mut irq,
        &mut events,
        SoundDmaChannel::Core0,
        0,
        16,
        true,
    );
    enable_and_start(
        &mut dma,
        &mut scheduler,
        &mut irq,
        &mut events,
        SoundDmaChannel::Core1,
        0x100,
        16,
        false,
    );
    let deadline = dma.completion_deadline(SoundDmaChannel::Core0).unwrap();
    assert_eq!(deadline, Deadline::new(0));
    assert_eq!(
        deadline,
        dma.completion_deadline(SoundDmaChannel::Core1).unwrap()
    );
    while let Some(event) = scheduler.pop_due(deadline) {
        dma.complete(event, &mut memory, &mut endpoint, &mut irq, &mut events)
            .unwrap();
    }
    assert_eq!(
        endpoint.written_words(SoundDmaChannel::Core0)[0],
        0x1000_0000
    );
    assert_eq!(
        endpoint.written_words(SoundDmaChannel::Core0)[15],
        0x1000_000f
    );
    assert_eq!(memory.read_u32(0x100).unwrap(), 0x2000_0000);
    assert_eq!(memory.read_u32(0x13c).unwrap(), 0x2000_000f);
    assert!(matches!(
        events[0],
        DmaEvent::Started {
            channel: SoundDmaChannel::Core0,
            ..
        }
    ));
    assert!(matches!(
        events[1],
        DmaEvent::Started {
            channel: SoundDmaChannel::Core1,
            ..
        }
    ));
    assert!(matches!(
        events[2],
        DmaEvent::Completed {
            channel: SoundDmaChannel::Core0,
            ..
        }
    ));
    assert!(matches!(
        events[3],
        DmaEvent::Completed {
            channel: SoundDmaChannel::Core1,
            ..
        }
    ));
}

#[test]
fn completion_flags_and_halfword_acknowledgements_raise_aggregate_irq() {
    let mut dma = DmaController::new();
    let mut scheduler = Scheduler::new();
    let mut irq = InterruptController::new();
    let mut events = Vec::new();
    dma.write_u32(
        DICR1,
        (1 << 23) | (1 << 20),
        Deadline::new(0),
        &mut scheduler,
        &mut irq,
        &mut events,
    )
    .unwrap();
    dma.write_u16(
        DICR2 + 2,
        1,
        Deadline::new(0),
        &mut scheduler,
        &mut irq,
        &mut events,
    )
    .unwrap();
    let mut memory = IopMemory::new(OpenBusPolicy::Strict);
    let mut endpoint = MockSpu2Endpoint::new();
    for channel in [SoundDmaChannel::Core0, SoundDmaChannel::Core1] {
        enable_and_start(
            &mut dma,
            &mut scheduler,
            &mut irq,
            &mut events,
            channel,
            0,
            16,
            true,
        );
    }
    let deadline = dma.completion_deadline(SoundDmaChannel::Core0).unwrap();
    while let Some(event) = scheduler.pop_due(deadline) {
        dma.complete(event, &mut memory, &mut endpoint, &mut irq, &mut events)
            .unwrap();
    }
    assert_eq!(irq.status(), InterruptSource::Dma.bit());
    assert_ne!(dma.read_u32(DICR1).unwrap() & (1 << 28), 0);
    assert_ne!(dma.read_u32(DICR2).unwrap() & (1 << 24), 0);
    dma.write_u16(
        DICR1 + 2,
        1 << 12,
        deadline,
        &mut scheduler,
        &mut irq,
        &mut events,
    )
    .unwrap();
    assert_eq!(dma.read_u32(DICR1).unwrap() & (1 << 28), 0);
}

#[test]
fn invalid_ranges_fail_before_endpoint_or_ram_mutation() {
    let mut dma = DmaController::new();
    let mut scheduler = Scheduler::new();
    let mut irq = InterruptController::new();
    let mut events = Vec::new();
    enable_and_start(
        &mut dma,
        &mut scheduler,
        &mut irq,
        &mut events,
        SoundDmaChannel::Core0,
        0x001f_fff0,
        16,
        true,
    );
    let mut memory = IopMemory::new(OpenBusPolicy::Strict);
    let before = memory.ram().to_vec();
    let mut endpoint = MockSpu2Endpoint::new();
    let deadline = dma.completion_deadline(SoundDmaChannel::Core0).unwrap();
    let event = scheduler.pop_due(deadline).unwrap();
    assert!(matches!(
        dma.complete(event, &mut memory, &mut endpoint, &mut irq, &mut events),
        Err(DmaError::RamRange { channel: 4, .. })
    ));
    assert!(endpoint.written_words(SoundDmaChannel::Core0).is_empty());
    assert_eq!(memory.ram(), before);
}

#[test]
fn unsupported_modes_sizes_registers_and_stale_events_are_diagnostic() {
    let mut dma = DmaController::new();
    let mut scheduler = Scheduler::new();
    let mut irq = InterruptController::new();
    let mut events = Vec::new();
    dma.write_u32(
        DPCR1,
        dma.read_u32(DPCR1).unwrap() | (1 << 19),
        Deadline::new(0),
        &mut scheduler,
        &mut irq,
        &mut events,
    )
    .unwrap();
    assert!(matches!(
        dma.write_u32(
            D4_CHCR,
            (1 << 24) | (2 << 9),
            Deadline::new(0),
            &mut scheduler,
            &mut irq,
            &mut events
        ),
        Err(DmaError::UnsupportedSync {
            channel: 4,
            mode: 2
        })
    ));
    assert_eq!(
        dma.read_u32(0x1f80_14fc),
        Err(DmaError::InvalidRegister {
            address: 0x1f80_14fc
        })
    );
    let mut memory = IopMemory::new(OpenBusPolicy::Strict);
    let mut endpoint = MockSpu2Endpoint::new();
    assert_eq!(
        dma.complete(
            DueEvent {
                id: EventId::new(99),
                deadline: Deadline::new(0)
            },
            &mut memory,
            &mut endpoint,
            &mut irq,
            &mut events
        ),
        Err(DmaError::StaleEvent { event: 99 })
    );
    assert_eq!(EventId::new(CHANNEL4_EVENT).get(), 0x0204_0004);
    assert_eq!(EventId::new(CHANNEL7_EVENT).get(), 0x0207_0007);
    assert_eq!(DmaDirection::FromRam, DmaDirection::FromRam);
}

#[test]
fn mock_endpoint_routes_the_complete_spu2_register_window() {
    let mut endpoint = MockSpu2Endpoint::new();
    endpoint.write_register(0x1f90_0000, 0x1234).unwrap();
    endpoint.write_register(0x1f90_07fe, 0xabcd).unwrap();
    assert_eq!(endpoint.read_register(0x1f90_0000).unwrap(), 0x1234);
    assert_eq!(endpoint.read_register(0x1f90_07fe).unwrap(), 0xabcd);
    assert!(endpoint.read_register(0x1f90_0001).is_err());
    assert!(endpoint.read_register(0x1f90_0800).is_err());
}

#[test]
fn the_other_sound_channel_is_left_alone() {
    let mut dma = DmaController::default();
    let mut scheduler = Scheduler::new();
    let mut irq = InterruptController::new();
    let mut events = Vec::new();
    enable_and_start(
        &mut dma,
        &mut scheduler,
        &mut irq,
        &mut events,
        SoundDmaChannel::Core0,
        0x40,
        16,
        true,
    );
    assert_eq!(dma.completion_deadline(SoundDmaChannel::Core1), None);
    assert_eq!(dma.read_u32(D7_MADR).unwrap(), 0);
    assert_eq!(
        events,
        [DmaEvent::Started {
            channel: SoundDmaChannel::Core0,
            direction: DmaDirection::FromRam,
            words: 16,
            deadline: Deadline::new(0)
        }]
    );
}

#[test]
fn halfwords_and_words_share_the_registers() {
    let mut dma = DmaController::new();
    let mut scheduler = Scheduler::new();
    let mut irq = InterruptController::new();
    let mut observer = NoopObserver;
    let now = Deadline::new(0);
    dma.write_u32(D7_BCR, 0x1234_5678, now, &mut scheduler, &mut irq, &mut observer)
        .unwrap();
    assert_eq!(dma.read_u16(D7_BCR).unwrap(), 0x5678);
    assert_eq!(dma.read_u16(D7_BCR + 2).unwrap(), 0x1234);
    dma.write_u16(D7_BCR + 2, 0xabcd, now, &mut scheduler, &mut irq, &mut observer)
        .unwrap();
    assert_eq!(dma.read_u32(D7_BCR).unwrap(), 0xabcd_5678);
    assert!(scheduler.is_empty());
}

#[test]
fn descending_transfers_below_the_start_of_ram_are_refused() {
    let mut dma = DmaController::new();
    let mut scheduler = Scheduler::new();
    let mut irq = InterruptController::new();
    let mut events: Vec<DmaEvent> = Vec::new();
    let now = Deadline::new(0);
    for (address, value) in [
        (DPCR1, 1 << 19),
        (D4_MADR, 4),
        (D4_BCR, 0x0001_0003),
        (D4_CHCR, (1 << 24) | (1 << 9) | 2 | 1),
    ] {
        dma.write_u32(address, value, now, &mut scheduler, &mut irq, &mut events)
            .unwrap();
    }
    let event = scheduler.pop_due(now).unwrap();
    let mut memory = IopMemory::new(OpenBusPolicy::Strict);
    let mut endpoint = MockSpu2Endpoint::default();
    assert_eq!(
        dma.complete(event, &mut memory, &mut endpoint, &mut irq, &mut events),
        Err(DmaError::RamRange {
            channel: 4,
            base: 4,
            words: 3,
            decrement: true
        })
    );
    assert!(endpoint.written_words(SoundDmaChannel::Core0).is_empty());
}

#[test]
fn oversized_and_starved_transfers_are_refused() {
    let mut dma = DmaController::new();
    let mut scheduler = Scheduler::new();
    let mut irq = InterruptController::new();
    let mut events: Vec<DmaEvent> = Vec::new();
    let now = Deadline::new(0);
    dma.write_u32(DPCR2, 1 << 3, now, &mut scheduler, &mut irq, &mut events)
        .unwrap();
    dma.write_u32(
        D7_BCR,
        0xffff_ffff,
        now,
        &mut scheduler,
        &mut irq,
        &mut events,
    )
    .unwrap();
    let start = (1 << 24) | (1 << 9);
    assert_eq!(
        dma.write_u32(D7_CHCR, start, now, &mut scheduler, &mut irq, &mut events),
        Err(DmaError::TransferTooLarge {
            words: 0xffff * 0xffff
        })
    );
    dma.write_u32(D7_BCR, 0x0001_0001, now, &mut scheduler, &mut irq, &mut events)
        .unwrap();
    dma.write_u32(D7_CHCR, start, now, &mut scheduler, &mut irq, &mut events)
        .unwrap();
    let event = scheduler.pop_due(now).unwrap();
    let mut memory = IopMemory::new(OpenBusPolicy::Strict);
    let mut endpoint = MockSpu2Endpoint::new();
    assert!(matches!(
        dma.complete(event, &mut memory, &mut endpoint, &mut irq, &mut events),
        Err(DmaError::Endpoint(_))
    ));
}

#[test]
fn an_exhausted_queue_refuses_the_transfer() {
    let mut dma = DmaController::new();
    let mut scheduler = Scheduler::new();
    scheduler.insertions = u64::MAX;
    let mut irq = InterruptController::new();
    let mut events: Vec<DmaEvent> = Vec::new();
    let now = Deadline::new(0);
    for (address, value) in [(DPCR1, 1 << 19), (D4_BCR, 0x0001_0001)] {
        dma.write_u32(address, value, now, &mut scheduler, &mut irq, &mut events)
            .unwrap();
    }
    assert_eq!(
        dma.write_u32(
            D4_CHCR,
            (1 << 24) | (1 << 9),
            now,
            &mut scheduler,
            &mut irq,
            &mut events
        ),
        Err(DmaError::Scheduler)
    );
}

#[test]
fn channels_without_a_device_do_not_stay_busy() {
    let mut dma = DmaController::new();
    let mut scheduler = Scheduler::new();
    let mut irq = InterruptController::new();
    let mut events: Vec<DmaEvent> = Vec::new();
    let now = Deadline::new(0);
    let control = D4_CHCR - 0x10;
    dma.write_u32(
        control,
        (1 << 24) | (1 << 9),
        now,
        &mut scheduler,
        &mut irq,
        &mut events,
    )
    .unwrap();
    assert_eq!(dma.read_u32(control).unwrap(), 1 << 9);
    assert!(scheduler.is_empty());
    assert!(events.is_empty());
}
