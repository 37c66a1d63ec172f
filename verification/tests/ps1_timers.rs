//! PS1 root counters and vertical blank.

use upse_hw::clock::Ticks;
use upse_hw::ps1::irq::{InterruptController, InterruptSource, I_STAT};
use upse_hw::ps1::timers::{
    ClockInput, InterruptSink, RootCounters, TimerError, TimerId, TimerRegister, VBlankClock,
    VideoStandard, CPU_HZ, MODE_IRQ_OVERFLOW, MODE_IRQ_REPEAT, MODE_IRQ_REQUEST, MODE_IRQ_TARGET,
    MODE_IRQ_TOGGLE, MODE_REACHED_OVERFLOW, MODE_REACHED_TARGET, MODE_RESET_TARGET, TIMER_BASE,
};
use upse_hw::r3000::{Bus, BusFault, Cpu, ResetProfile};

#[derive(Default)]
struct Log(Vec<InterruptSource>);

impl InterruptSink for Log {
    fn request(&mut self, source: InterruptSource) {
        self.0.push(source);
    }
}

#[test]
fn target_overflow_flags_and_mode_read_side_effects_are_exact() {
    let mut timers = RootCounters::new();
    let mut log = Log::default();
    timers.write_register(TimerId::Timer0, TimerRegister::Target, 3);
    timers.write_register(
        TimerId::Timer0,
        TimerRegister::Mode,
        MODE_RESET_TARGET | MODE_IRQ_TARGET | MODE_IRQ_REPEAT,
    );
    timers
        .advance(ClockInput::System, Ticks::new(7), &mut log)
        .unwrap();
    assert_eq!(
        timers.read_register(TimerId::Timer0, TimerRegister::Counter),
        1
    );
    let mode = timers.read_register(TimerId::Timer0, TimerRegister::Mode);
    assert_ne!(mode & MODE_REACHED_TARGET, 0);
    assert_ne!(mode & MODE_IRQ_REQUEST, 0);
    assert_eq!(
        timers.read_register(TimerId::Timer0, TimerRegister::Mode) & MODE_REACHED_TARGET,
        0
    );
    assert_eq!(log.0, [InterruptSource::Timer0, InterruptSource::Timer0]);

    timers.write_register(TimerId::Timer2, TimerRegister::Counter, u16::MAX);
    timers.write_register(
        TimerId::Timer2,
        TimerRegister::Mode,
        MODE_IRQ_OVERFLOW | MODE_IRQ_REPEAT,
    );
    timers.write_register(TimerId::Timer2, TimerRegister::Counter, u16::MAX);
    timers
        .advance(ClockInput::System, Ticks::new(1), &mut log)
        .unwrap();
    let mode = timers.read_register(TimerId::Timer2, TimerRegister::Mode);
    assert_ne!(mode & MODE_REACHED_OVERFLOW, 0);
}

#[test]
fn one_shot_repeat_toggle_and_simultaneous_edges_match_register_policy() {
    let mut timers = RootCounters::new();
    let mut log = Log::default();
    timers.write_register(TimerId::Timer0, TimerRegister::Target, 1);
    timers.write_register(
        TimerId::Timer0,
        TimerRegister::Mode,
        MODE_RESET_TARGET | MODE_IRQ_TARGET,
    );
    timers
        .advance(ClockInput::System, Ticks::new(4), &mut log)
        .unwrap();
    assert_eq!(log.0, [InterruptSource::Timer0]);

    timers.write_register(TimerId::Timer1, TimerRegister::Target, 1);
    timers.write_register(
        TimerId::Timer1,
        TimerRegister::Mode,
        MODE_RESET_TARGET | MODE_IRQ_TARGET | MODE_IRQ_REPEAT | MODE_IRQ_TOGGLE,
    );
    timers
        .advance(ClockInput::System, Ticks::new(4), &mut log)
        .unwrap();
    assert_eq!(
        log.0,
        [
            InterruptSource::Timer0,
            InterruptSource::Timer1,
            InterruptSource::Timer1
        ]
    );

    timers.write_register(TimerId::Timer2, TimerRegister::Mode, 0);
    timers.write_register(TimerId::Timer2, TimerRegister::Counter, u16::MAX);
    timers.write_register(TimerId::Timer2, TimerRegister::Target, 0);
    timers.write_register(
        TimerId::Timer2,
        TimerRegister::Mode,
        MODE_IRQ_TARGET | MODE_IRQ_OVERFLOW | MODE_IRQ_REPEAT,
    );
    timers.write_register(TimerId::Timer2, TimerRegister::Counter, u16::MAX);
    timers
        .advance(ClockInput::System, Ticks::new(1), &mut log)
        .unwrap();
    let mode = timers.read_register(TimerId::Timer2, TimerRegister::Mode);
    assert_eq!(
        mode & (MODE_REACHED_TARGET | MODE_REACHED_OVERFLOW),
        MODE_REACHED_TARGET | MODE_REACHED_OVERFLOW
    );
    assert_eq!(log.0.last(), Some(&InterruptSource::Timer2));
}

#[test]
fn clock_sources_divider_and_blank_synchronization_are_typed() {
    let mut timers = RootCounters::new();
    let mut log = Log::default();
    timers.write_register(TimerId::Timer0, TimerRegister::Mode, 1 << 8);
    timers
        .advance(ClockInput::System, Ticks::new(10), &mut log)
        .unwrap();
    timers
        .advance(ClockInput::DotClock, Ticks::new(3), &mut log)
        .unwrap();
    assert_eq!(
        timers.read_register(TimerId::Timer0, TimerRegister::Counter),
        3
    );

    timers.write_register(TimerId::Timer1, TimerRegister::Mode, 1 << 8);
    timers
        .advance(ClockInput::HBlank, Ticks::new(4), &mut log)
        .unwrap();
    assert_eq!(
        timers.read_register(TimerId::Timer1, TimerRegister::Counter),
        4
    );

    timers.write_register(TimerId::Timer2, TimerRegister::Mode, 1 << 8);
    timers
        .advance(ClockInput::System, Ticks::new(15), &mut log)
        .unwrap();
    assert_eq!(
        timers.read_register(TimerId::Timer2, TimerRegister::Counter),
        15
    );

    timers.write_register(TimerId::Timer2, TimerRegister::Mode, 1 << 9);
    timers
        .advance(ClockInput::System, Ticks::new(15), &mut log)
        .unwrap();
    assert_eq!(
        timers.read_register(TimerId::Timer2, TimerRegister::Counter),
        1
    );
    timers
        .advance(ClockInput::System, Ticks::new(1), &mut log)
        .unwrap();
    assert_eq!(
        timers.read_register(TimerId::Timer2, TimerRegister::Counter),
        2
    );

    timers.write_register(TimerId::Timer0, TimerRegister::Mode, 1);
    timers.set_hblank(true);
    timers
        .advance(ClockInput::System, Ticks::new(5), &mut log)
        .unwrap();
    assert_eq!(
        timers.read_register(TimerId::Timer0, TimerRegister::Counter),
        0
    );
    timers.set_hblank(false);
    timers
        .advance(ClockInput::System, Ticks::new(2), &mut log)
        .unwrap();
    assert_eq!(
        timers.read_register(TimerId::Timer0, TimerRegister::Counter),
        2
    );
}

#[test]
fn register_decode_rejects_holes_and_preserves_low_halfword() {
    let mut timers = RootCounters::new();
    timers.write(TIMER_BASE + 8, 0xaaaa_1234).unwrap();
    assert_eq!(timers.read(TIMER_BASE + 8).unwrap(), 0x1234);
    assert_eq!(
        timers.read(TIMER_BASE + 2),
        Err(TimerError::InvalidRegister {
            address: TIMER_BASE + 2
        })
    );
}

#[test]
fn refresh_deadlines_have_no_long_run_drift() {
    for (standard, seconds, expected) in [
        (VideoStandard::Ntsc, 10_000_u64, 600_000_u64),
        (VideoStandard::Pal, 10_000_u64, 500_000_u64),
    ] {
        let mut refresh = VBlankClock::new(standard);
        let mut log = CountingSink::default();
        for _ in 0..seconds {
            assert_eq!(
                refresh
                    .advance(Ticks::new(CPU_HZ), &mut log)
                    .unwrap(),
                standard.refresh_hz()
            );
        }
        assert_eq!(log.events, expected);
        assert_eq!(
            refresh.next_deadline().get(),
            (expected + 1) * standard.cycles_per_vblank()
        );
    }
}

#[derive(Default)]
struct CountingSink {
    events: u64,
}

impl InterruptSink for CountingSink {
    fn request(&mut self, source: InterruptSource) {
        assert_eq!(source, InterruptSource::VBlank);
        self.events += 1;
    }
}

struct CpuBus {
    words: Vec<u32>,
    irq: InterruptController,
}

impl CpuBus {
    fn code_word(&self, address: u32) -> Result<u32, BusFault> {
        let index =
            usize::try_from(address / 4).map_err(|_| BusFault::new("bad code address"))?;
        self.words
            .get(index)
            .copied()
            .ok_or_else(|| BusFault::new("bad code address"))
    }
}

impl Bus for CpuBus {
    fn read_u8(&mut self, _address: u32) -> Result<u8, BusFault> {
        Err(BusFault::new("byte access is not used"))
    }

    fn read_u16(&mut self, _address: u32) -> Result<u16, BusFault> {
        Err(BusFault::new("halfword access is not used"))
    }

    fn read_u32(&mut self, address: u32) -> Result<u32, BusFault> {
        if address == I_STAT {
            return self
                .irq
                .read(address)
                .map_err(|error| BusFault::new(format!("{error:?}")));
        }
        self.code_word(address)
    }

    fn write_u8(&mut self, _address: u32, _value: u8) -> Result<(), BusFault> {
        Err(BusFault::new("byte access is not used"))
    }

    fn write_u16(&mut self, _address: u32, _value: u16) -> Result<(), BusFault> {
        Err(BusFault::new("halfword access is not used"))
    }

    fn write_u32(&mut self, address: u32, value: u32) -> Result<(), BusFault> {
        self.irq
            .write(address, value)
            .map_err(|error| BusFault::new(format!("{error:?}")))
    }

    fn interrupt_pending(&self) -> bool {
        self.irq.pending()
    }
}

#[test]
fn tiny_cpu_program_polls_and_acknowledges_timer_irq_in_trace_order() {
    let mut bus = CpuBus {
        words: vec![
            0x3c08_1f80, // lui t0,0x1f80
            0x8d09_1070, // lw t1,0x1070(t0)
            0x0000_0000, // load-delay slot
            0x3129_0010, // andi t1,t1,Timer0
            0x1120_fffc, // beq t1,zero,0x00000004
            0x0000_0000, // branch-delay slot
            0xad00_1070, // sw zero,0x1070(t0)
            0x2402_0001, // addiu v0,zero,1
        ],
        irq: InterruptController::new(),
    };
    let mut timers = RootCounters::new();
    timers.write_register(TimerId::Timer0, TimerRegister::Target, 8);
    timers.write_register(
        TimerId::Timer0,
        TimerRegister::Mode,
        MODE_RESET_TARGET | MODE_IRQ_TARGET,
    );
    let mut cpu = Cpu::new(ResetProfile {
        pc: 0,
        exception_vector: 0x80,
        bootstrap_exception_vector: 0x80,
        status: 0,
        processor_id: 2,
    });
    let mut trace = Vec::new();
    for _ in 0..32 {
        let outcome = cpu.step(&mut bus).unwrap();
        trace.push(outcome.pc);
        timers
            .advance(
                ClockInput::System,
                Ticks::new(u64::from(outcome.cycles)),
                &mut bus.irq,
            )
            .unwrap();
        if cpu.register(2) == Some(1) {
            break;
        }
    }
    assert_eq!(cpu.register(2), Some(1));
    assert_eq!(bus.irq.status(), 0);
    assert_eq!(&trace[..6], &[0, 4, 8, 12, 16, 20]);
    assert!(trace.ends_with(&[4, 8, 12, 16, 20, 24, 28]));
}

#[test]
fn advancing_in_pieces_is_advancing_at_once() {
    let mut whole = RootCounters::new();
    for (id, mode) in [
        (
            TimerId::Timer0,
            MODE_RESET_TARGET | MODE_IRQ_TARGET | MODE_IRQ_REPEAT,
        ),
        (
            TimerId::Timer1,
            MODE_IRQ_TARGET | MODE_IRQ_OVERFLOW | MODE_IRQ_REPEAT | MODE_IRQ_TOGGLE,
        ),
        (TimerId::Timer2, MODE_RESET_TARGET | MODE_IRQ_TARGET | (1 << 9)),
    ] {
        whole.write_register(id, TimerRegister::Target, 37);
        whole.write_register(id, TimerRegister::Mode, mode);
    }
    let mut pieces = whole.clone();
    let mut expected = Log::default();
    whole
        .advance(ClockInput::System, Ticks::new(1_000), &mut expected)
        .unwrap();
    let mut actual = Log::default();
    for _ in 0..40 {
        pieces
            .advance(ClockInput::System, Ticks::new(25), &mut actual)
            .unwrap();
    }
    assert_eq!(pieces, whole);
    let count = |log: &Log, source| log.0.iter().filter(|&&each| each == source).count();
    for source in [
        InterruptSource::Timer0,
        InterruptSource::Timer1,
        InterruptSource::Timer2,
    ] {
        assert_eq!(count(&actual, source), count(&expected, source));
    }
    assert_eq!(count(&expected, InterruptSource::Timer0), 27);
    assert_eq!(count(&expected, InterruptSource::Timer2), 1);
}

#[test]
fn time_that_cannot_be_counted_is_refused() {
    let mut timers = RootCounters::default();
    let mut log = Log::default();
    timers
        .advance(ClockInput::System, Ticks::new(5), &mut log)
        .unwrap();
    assert_eq!(timers.now().get(), 5);
    assert_eq!(
        timers.advance(ClockInput::System, Ticks::new(u64::MAX), &mut log),
        Err(TimerError::ClockOverflow)
    );
    assert_eq!(
        timers.write(TIMER_BASE + 0x0c, 0),
        Err(TimerError::InvalidRegister {
            address: TIMER_BASE + 0x0c
        })
    );
    let mut refresh = VBlankClock::new(VideoStandard::Pal);
    refresh.advance(Ticks::new(1), &mut log).unwrap();
    assert_eq!(
        refresh.advance(Ticks::new(u64::MAX), &mut log),
        Err(TimerError::ClockOverflow)
    );
}

#[test]
fn video_standards_have_exact_rates() {
    assert_eq!(VideoStandard::Ntsc.cycles_per_vblank(), 564_480);
    assert_eq!(VideoStandard::Pal.cycles_per_vblank(), 677_376);
    assert_eq!(VideoStandard::Ntsc.refresh_hz(), 60);
    assert_eq!(
        VideoStandard::Ntsc.hblank_hz(),
        VideoStandard::Ntsc.scanlines_per_frame() * 60
    );
    assert_eq!(
        VBlankClock::new(VideoStandard::Pal).standard(),
        VideoStandard::Pal
    );
}
