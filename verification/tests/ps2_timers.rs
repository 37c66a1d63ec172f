//! PS2 I/O-processor timers and refresh clock.

use upse_hw::ps2::irq::{InterruptController, InterruptSource};
use upse_hw::ps2::timers::{
    CounterBoundary, IopTimers, NoopObserver, RefreshClock, TimerError, TimerId, TimingEvent,
    VideoStandard, CPU_HZ, TIMER0_BASE, TIMER2_BASE, TIMER3_BASE, TIMER5_BASE,
};

#[test]
fn all_counter_registers_are_independent_and_width_correct() {
    let mut timers = IopTimers::new();
    for (index, base) in [
        TIMER0_BASE,
        TIMER0_BASE + 0x10,
        TIMER2_BASE,
        TIMER3_BASE,
        TIMER3_BASE + 0x10,
        TIMER5_BASE,
    ]
    .into_iter()
    .enumerate()
    {
        timers.write_u32(base, 0x1234_0000 | index as u32).unwrap();
        timers
            .write_u32(base + 8, 0xabcd_0000 | index as u32)
            .unwrap();
    }
    assert_eq!(timers.count(TimerId::Timer0), 0);
    assert_eq!(timers.count(TimerId::Timer2), 2);
    assert_eq!(timers.count(TimerId::Timer3), 0x1234_0003);
    assert_eq!(timers.target(TimerId::Timer5), 0xabcd_0005);
    timers.write_u16(TIMER3_BASE + 2, 0x5678).unwrap();
    assert_eq!(timers.read_u32(TIMER3_BASE).unwrap(), 0x5678_0003);
}

#[test]
fn target_reset_prescale_and_irq_order_are_deterministic() {
    let mut timers = IopTimers::new();
    let mut irq = InterruptController::new();
    let mut events = Vec::new();
    timers.write_u32(TIMER2_BASE + 8, 3).unwrap();
    timers
        .write_u32(TIMER2_BASE + 4, (1 << 3) | (1 << 4) | (1 << 6) | (1 << 9))
        .unwrap();
    timers.advance_cpu(48, &mut irq, &mut events).unwrap();
    assert_eq!(timers.count(TimerId::Timer2), 0);
    assert_eq!(irq.status(), InterruptSource::Timer2.bit());
    assert_eq!(
        events,
        vec![
            TimingEvent::Counter {
                timer: TimerId::Timer2,
                boundary: CounterBoundary::Target
            },
            TimingEvent::Counter {
                timer: TimerId::Timer2,
                boundary: CounterBoundary::Target
            }
        ]
    );
    let mode = timers.read_u16(TIMER2_BASE + 4).unwrap();
    assert_ne!(mode & (1 << 11), 0);
    assert_eq!(timers.read_u16(TIMER2_BASE + 4).unwrap() & (1 << 11), 0);
}

#[test]
fn overflow_and_external_clock_paths_are_observable() {
    let mut timers = IopTimers::new();
    let mut irq = InterruptController::new();
    let mut events = Vec::new();
    timers.write_u32(TIMER0_BASE + 4, 1 << 5).unwrap();
    timers.write_u32(TIMER0_BASE, 0xffff).unwrap();
    timers.advance_cpu(1, &mut irq, &mut events).unwrap();
    assert_eq!(events.len(), 2, "target zero and overflow share the wrap");
    assert_eq!(irq.status(), InterruptSource::Timer0.bit());

    timers.write_u32(TIMER3_BASE + 8, 2).unwrap();
    timers
        .write_u32(TIMER3_BASE + 4, (1 << 4) | (1 << 8))
        .unwrap();
    timers.advance_cpu(10, &mut irq, &mut events).unwrap();
    assert_eq!(timers.count(TimerId::Timer3), 0);
    timers
        .advance_external(TimerId::Timer3, 2, &mut irq, &mut events)
        .unwrap();
    assert_eq!(timers.count(TimerId::Timer3), 2);
}

#[test]
fn refresh_emits_start_then_end_without_drift() {
    let mut refresh = RefreshClock::new(VideoStandard::Pal);
    let mut irq = InterruptController::new();
    let mut events = Vec::new();
    refresh.advance(CPU_HZ / 50, &mut irq, &mut events).unwrap();
    assert_eq!(events, [TimingEvent::VBlankStart, TimingEvent::VBlankEnd]);
    assert_eq!(
        irq.status(),
        InterruptSource::VBlank.bit() | InterruptSource::VBlankEnd.bit()
    );
    assert!(!refresh.in_vblank());
}

#[test]
fn invalid_register_and_event_storm_are_bounded() {
    let mut timers = IopTimers::new();
    assert_eq!(
        timers.read_u32(TIMER2_BASE + 0x0c),
        Err(TimerError::InvalidRegister {
            address: TIMER2_BASE + 0x0c
        })
    );
    timers.write_u32(TIMER2_BASE + 8, 1).unwrap();
    timers
        .write_u32(TIMER2_BASE + 4, (1 << 3) | (1 << 4) | (1 << 6))
        .unwrap();
    let mut irq = InterruptController::new();
    let mut events = Vec::new();
    assert!(matches!(
        timers.advance_cpu(1_000_001, &mut irq, &mut events),
        Err(TimerError::EventLimit {
            timer: TimerId::Timer2,
            ..
        })
    ));
}

#[test]
fn counting_in_pieces_is_counting_at_once() {
    let mut whole = IopTimers::default();
    for (base, mode) in [
        (TIMER0_BASE, (1 << 3) | (1 << 4) | (1 << 6)),
        (TIMER2_BASE, (1 << 4) | (1 << 5) | (1 << 6) | (1 << 9)),
        (TIMER5_BASE, (1 << 3) | (1 << 4) | (1 << 13)),
    ] {
        whole.write_u32(base + 8, 100).unwrap();
        whole.write_u32(base + 4, mode).unwrap();
    }
    let mut pieces = whole.clone();
    let mut irq = InterruptController::new();
    let mut expected = Vec::new();
    whole.advance_cpu(10_000, &mut irq, &mut expected).unwrap();
    let mut actual = Vec::new();
    for _ in 0..100 {
        pieces.advance_cpu(100, &mut irq, &mut actual).unwrap();
    }
    assert_eq!(pieces, whole);
    assert_eq!(actual.len(), expected.len());
    for timer in [TimerId::Timer0, TimerId::Timer2, TimerId::Timer5] {
        let of = |events: &[TimingEvent]| -> Vec<TimingEvent> {
            events
                .iter()
                .copied()
                .filter(|event| {
                    matches!(event, TimingEvent::Counter { timer: each, .. } if *each == timer)
                })
                .collect()
        };
        assert_eq!(of(&actual), of(&expected));
    }
}

#[test]
fn a_one_shot_counter_requests_once() {
    let mut timers = IopTimers::new();
    let mut irq = InterruptController::new();
    timers.write_u32(TIMER0_BASE + 8, 2).unwrap();
    timers.write_u32(TIMER0_BASE + 4, (1 << 3) | (1 << 4)).unwrap();
    timers.advance_cpu(4, &mut irq, &mut NoopObserver).unwrap();
    assert_eq!(irq.status(), InterruptSource::Timer0.bit());
    irq.acknowledge(0);
    timers.advance_cpu(400, &mut irq, &mut NoopObserver).unwrap();
    assert_eq!(irq.status(), 0);
}

#[test]
fn a_gated_counter_waits_for_its_signal() {
    let mut timers = IopTimers::new();
    let mut irq = InterruptController::new();
    timers.write_u16(TIMER0_BASE + 4, 1).unwrap();
    timers.set_gate(TimerId::Timer0, true);
    timers.advance_cpu(5, &mut irq, &mut NoopObserver).unwrap();
    assert_eq!(timers.count(TimerId::Timer0), 0);
    timers.set_gate(TimerId::Timer0, false);
    timers.advance_cpu(5, &mut irq, &mut NoopObserver).unwrap();
    assert_eq!(timers.count(TimerId::Timer0), 5);
    assert_eq!(timers.mode(TimerId::Timer0) & 1, 1);
}

#[test]
fn refreshes_do_not_drift_however_time_is_cut() {
    let mut whole = RefreshClock::new(VideoStandard::Ntsc);
    let mut pieces = whole.clone();
    let mut irq = InterruptController::new();
    let mut expected = Vec::new();
    whole
        .advance(CPU_HZ * 1_001, &mut irq, &mut expected)
        .unwrap();
    assert_eq!(expected.len(), 120_000);
    let mut actual = Vec::new();
    for _ in 0..1_001 {
        pieces.advance(CPU_HZ, &mut irq, &mut actual).unwrap();
    }
    assert_eq!(actual, expected);
    assert_eq!(pieces, whole);
    assert_eq!(whole.standard(), VideoStandard::Ntsc);
    assert!(!whole.in_vblank());
}
