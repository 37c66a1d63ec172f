//! PS1 root counters and drift-free `VBlank` production.

use vstd::prelude::*;

use crate::arrays::with;
use crate::bytes::{halves, low_half};
use crate::clock::{ClockError, Deadline, Ticks};
use crate::ps1::irq::{InterruptController, InterruptSource};
use crate::trace::{chain, lemma_chain_concat, lemma_chain_push};

verus! {

/// Nominal PS1 CPU clock used by PSF1 timing.
pub const CPU_HZ: u64 = 33_868_800;

/// First root-counter register address.
pub const TIMER_BASE: u32 = 0x1f80_1100;

/// Bytes of registers of a counter.
pub const COUNTER_STRIDE: u32 = 0x10;

/// Synchronization enable bit in the mode register.
pub const MODE_SYNC_ENABLE: u16 = 0x0001;

/// Reset-on-target bit in the mode register.
pub const MODE_RESET_TARGET: u16 = 0x0008;

/// Interrupt-on-target bit in the mode register.
pub const MODE_IRQ_TARGET: u16 = 0x0010;

/// Interrupt-on-overflow bit in the mode register.
pub const MODE_IRQ_OVERFLOW: u16 = 0x0020;

/// Repeated-interrupt bit in the mode register.
pub const MODE_IRQ_REPEAT: u16 = 0x0040;

/// Toggling-interrupt bit in the mode register.
pub const MODE_IRQ_TOGGLE: u16 = 0x0080;

/// Alternative clock bit of counters 0 and 1 in the mode register.
pub const MODE_CLOCK_ALTERNATIVE: u16 = 0x0100;

/// Divided clock bit of counter 2 in the mode register.
pub const MODE_CLOCK_DIVIDED: u16 = 0x0200;

/// Interrupt request bit in the mode register; low means requested.
pub const MODE_IRQ_REQUEST: u16 = 0x0400;

/// Reached-target bit in the mode register.
pub const MODE_REACHED_TARGET: u16 = 0x0800;

/// Reached-overflow bit in the mode register.
pub const MODE_REACHED_OVERFLOW: u16 = 0x1000;

/// Both reached bits in the mode register.
pub const MODE_REACHED: u16 = 0x1800;

/// The writable bits of the mode register.
pub const MODE_WRITABLE: u16 = 0x03ff;

/// Typed interrupt output consumed by the timer component.
pub trait InterruptSink: Sized {
    /// Taking a request from `source` may leave `after`.
    open spec fn requested(before: Self, source: InterruptSource, after: Self) -> bool {
        true
    }

    /// Latches or records one timer/refresh interrupt request.
    fn request(&mut self, source: InterruptSource)
        ensures
            Self::requested(*old(self), source, *final(self)),
    ;
}

impl InterruptSink for InterruptController {
    open spec fn requested(before: Self, source: InterruptSource, after: Self) -> bool {
        after == InterruptController::requested(before, source)
    }

    fn request(&mut self, source: InterruptSource) {
        InterruptController::request(self, source);
    }
}

/// A sink takes one request.
pub open spec fn sink_takes<S: InterruptSink>() -> spec_fn(S, InterruptSource, S) -> bool {
    |before: S, source: InterruptSource, after: S| S::requested(before, source, after)
}

/// A number of requests from one source.
pub open spec fn repeated(source: InterruptSource, count: nat) -> Seq<InterruptSource> {
    Seq::new(count, |i: int| source)
}

/// Root-counter identifier.
#[derive(Clone, Copy, Debug, PartialEq, Eq, Structural)]
pub enum TimerId {
    /// Root counter 0.
    Timer0,
    /// Root counter 1.
    Timer1,
    /// Root counter 2.
    Timer2,
}

impl TimerId {
    /// The number of the counter.
    pub open spec fn number(self) -> int {
        match self {
            TimerId::Timer0 => 0,
            TimerId::Timer1 => 1,
            TimerId::Timer2 => 2,
        }
    }

    /// The interrupt source of the counter.
    pub open spec fn source(self) -> InterruptSource {
        match self {
            TimerId::Timer0 => InterruptSource::Timer0,
            TimerId::Timer1 => InterruptSource::Timer1,
            TimerId::Timer2 => InterruptSource::Timer2,
        }
    }

    fn index(self) -> (result: usize)
        ensures
            result == self.number(),
            result < 3,
    {
        match self {
            TimerId::Timer0 => 0,
            TimerId::Timer1 => 1,
            TimerId::Timer2 => 2,
        }
    }

    fn interrupt(self) -> (result: InterruptSource)
        ensures
            result == self.source(),
    {
        match self {
            TimerId::Timer0 => InterruptSource::Timer0,
            TimerId::Timer1 => InterruptSource::Timer1,
            TimerId::Timer2 => InterruptSource::Timer2,
        }
    }
}

/// Counter register within one timer block.
#[derive(Clone, Copy, Debug, PartialEq, Eq, Structural)]
pub enum TimerRegister {
    /// Current 16-bit counter.
    Counter,
    /// Mode/configuration and edge flags.
    Mode,
    /// Target compare value.
    Target,
}

/// Input clock domain supplied to the root counters.
#[derive(Clone, Copy, Debug, PartialEq, Eq, Structural)]
pub enum ClockInput {
    /// CPU/system clock ticks.
    System,
    /// GPU dot-clock ticks for counter 0.
    DotClock,
    /// Horizontal-blank rising edges for counter 1.
    HBlank,
}

/// PAL or NTSC refresh selection.
#[derive(Clone, Copy, Debug, PartialEq, Eq, Structural)]
pub enum VideoStandard {
    /// 60 Hz refresh.
    Ntsc,
    /// 50 Hz refresh.
    Pal,
}

impl VideoStandard {
    /// The integer refresh frequency.
    pub open spec fn rate(self) -> u64 {
        match self {
            VideoStandard::Ntsc => 60,
            VideoStandard::Pal => 50,
        }
    }

    /// The scanlines in one video frame.
    pub open spec fn lines(self) -> u64 {
        match self {
            VideoStandard::Ntsc => 263,
            VideoStandard::Pal => 314,
        }
    }

    /// The CPU clocks per `VBlank` event.
    pub open spec fn period(self) -> u64 {
        match self {
            VideoStandard::Ntsc => 564_480,
            VideoStandard::Pal => 677_376,
        }
    }

    /// Returns the integer refresh frequency.
    pub fn refresh_hz(self) -> (result: u64)
        ensures
            result == self.rate(),
    {
        match self {
            VideoStandard::Ntsc => 60,
            VideoStandard::Pal => 50,
        }
    }

    /// Returns the exact number of PS1 CPU clocks per `VBlank` event.
    pub fn cycles_per_vblank(self) -> (result: u64)
        ensures
            result == self.period(),
            result * self.rate() == CPU_HZ,
    {
        match self {
            VideoStandard::Ntsc => CPU_HZ / 60,
            VideoStandard::Pal => CPU_HZ / 50,
        }
    }

    /// Returns the number of scanlines in one video frame.
    pub fn scanlines_per_frame(self) -> (result: u64)
        ensures
            result == self.lines(),
    {
        match self {
            VideoStandard::Ntsc => 263,
            VideoStandard::Pal => 314,
        }
    }

    /// Returns the horizontal-blank edge rate used by root counter 1.
    pub fn hblank_hz(self) -> (result: u64)
        ensures
            result == self.rate() * self.lines(),
    {
        match self {
            VideoStandard::Ntsc => 60 * 263,
            VideoStandard::Pal => 50 * 314,
        }
    }
}

/// Invalid register, timer, or clock arithmetic.
#[derive(Clone, Copy, Debug, PartialEq, Eq, Structural)]
pub enum TimerError {
    /// Address does not select a modeled root-counter register.
    InvalidRegister {
        /// Physical address supplied by the machine.
        address: u32,
    },
    /// Emulated time exceeded the public timestamp range.
    ClockOverflow,
}

impl From<ClockError> for TimerError {
    fn from(error: ClockError) -> (result: Self) {
        match error {
            ClockError::Overflow => TimerError::ClockOverflow,
        }
    }
}

impl vstd::std_specs::convert::FromSpecImpl<ClockError> for TimerError {
    open spec fn obeys_from_spec() -> bool {
        true
    }

    open spec fn from_spec(error: ClockError) -> Self {
        TimerError::ClockOverflow
    }
}

/// One root counter.
#[derive(Clone, Copy, Debug, PartialEq, Eq, Structural)]
pub struct Counter {
    pub value: u16,
    pub target: u16,
    pub mode: u16,
    pub divider_remainder: u8,
    pub irq_fired: bool,
    pub irq_request_high: bool,
    pub pulse_pending: bool,
    pub blank: bool,
    pub sync_started: bool,
}

/// A counter after some clocks, and the interrupts that it requested.
pub ghost struct Run {
    pub counter: Counter,
    pub requests: nat,
}

impl Counter {
    /// Reset state.
    pub open spec fn at_reset() -> Counter {
        Counter {
            value: 0,
            target: 0,
            mode: 0,
            divider_remainder: 0,
            irq_fired: false,
            irq_request_high: true,
            pulse_pending: false,
            blank: false,
            sync_started: false,
        }
    }

    /// The mode register as it reads.
    pub open spec fn mode_value(self) -> u16 {
        if self.irq_request_high {
            self.mode | MODE_IRQ_REQUEST
        } else {
            self.mode
        }
    }

    /// The state after the mode register was read.
    pub open spec fn mode_cleared(self) -> Counter {
        Counter { mode: self.mode & !MODE_REACHED, ..self }
    }

    /// The state after the mode register was written: the count starts over.
    pub open spec fn mode_written(self, value: u16) -> Counter {
        Counter {
            value: 0,
            mode: value & MODE_WRITABLE,
            divider_remainder: 0,
            irq_fired: false,
            irq_request_high: true,
            pulse_pending: false,
            sync_started: false,
            ..self
        }
    }

    /// The two-bit synchronization mode.
    pub open spec fn sync(self) -> int {
        (self.mode as int / 2) % 4
    }

    /// Whether synchronization holds the counter.
    pub open spec fn is_paused(self, id: TimerId) -> bool {
        self.mode & MODE_SYNC_ENABLE != 0 && if id == TimerId::Timer2 {
            self.sync() == 0 || self.sync() == 3
        } else if self.sync() == 0 {
            self.blank
        } else if self.sync() == 1 {
            false
        } else if self.sync() == 2 {
            !self.blank
        } else {
            !self.sync_started
        }
    }

    /// The state after the blanking input changed: its rising edge resets or starts a
    /// synchronized counter.
    pub open spec fn with_blank(self, id: TimerId, asserted: bool) -> Counter {
        let now = Counter { blank: asserted, ..self };
        if id == TimerId::Timer2 || self.mode & MODE_SYNC_ENABLE == 0 || !asserted || self.blank {
            now
        } else if self.sync() == 1 || self.sync() == 2 {
            Counter { value: 0, ..now }
        } else if self.sync() == 3 {
            Counter { sync_started: true, ..now }
        } else {
            now
        }
    }

    /// The state after a pulsed request is over.
    pub open spec fn settled(self) -> Counter {
        if self.pulse_pending {
            Counter { irq_request_high: true, pulse_pending: false, ..self }
        } else {
            self
        }
    }

    /// The state after an interrupt condition, and whether it requests an interrupt.
    /// One-shot counters fire once; toggling ones request on every other condition.
    pub open spec fn fired(self) -> (Counter, bool) {
        if self.mode & MODE_IRQ_REPEAT == 0 && self.irq_fired {
            (self, false)
        } else if self.mode & MODE_IRQ_TOGGLE != 0 {
            (
                Counter { irq_fired: true, irq_request_high: !self.irq_request_high, ..self },
                self.irq_request_high,
            )
        } else {
            (
                Counter {
                    irq_fired: true,
                    irq_request_high: false,
                    pulse_pending: true,
                    ..self
                },
                true,
            )
        }
    }

    /// The state after the count reached `next`, and whether an interrupt is requested.
    pub open spec fn reached(self, next: u16) -> (Counter, bool) {
        let at_target = next == self.target;
        let at_overflow = next == 0;
        let targeted = if at_target {
            self.mode | MODE_REACHED_TARGET
        } else {
            self.mode
        };
        let mode = if at_overflow {
            targeted | MODE_REACHED_OVERFLOW
        } else {
            targeted
        };
        let counted = Counter {
            value: if at_target && targeted & MODE_RESET_TARGET != 0 {
                0
            } else {
                next
            },
            mode,
            ..self
        };
        if (at_target && mode & MODE_IRQ_TARGET != 0) || (at_overflow && mode & MODE_IRQ_OVERFLOW
            != 0) {
            counted.fired()
        } else {
            (counted, false)
        }
    }

    /// The state after one clock, and whether an interrupt is requested.
    pub open spec fn clocked(self, id: TimerId) -> (Counter, bool) {
        let settled = self.settled();
        if settled.is_paused(id) {
            (settled, false)
        } else {
            settled.reached(((settled.value + 1) % 0x1_0000) as u16)
        }
    }

    /// The counter after `clocks` clocks.
    pub open spec fn run(self, id: TimerId, clocks: nat) -> Run
        decreases clocks,
    {
        if clocks == 0 {
            Run { counter: self, requests: 0 }
        } else {
            let before = self.run(id, (clocks - 1) as nat);
            let after = before.counter.clocked(id);
            Run {
                counter: after.0,
                requests: if after.1 {
                    before.requests + 1
                } else {
                    before.requests
                },
            }
        }
    }

    /// Clocks until the count next reaches its target or wraps.
    pub open spec fn distance(self) -> int {
        if self.value < self.target {
            self.target - self.value
        } else {
            0x1_0000 - self.value
        }
    }

    fn new() -> (result: Self)
        ensures
            result == Counter::at_reset(),
    {
        Self {
            value: 0,
            target: 0,
            mode: 0,
            divider_remainder: 0,
            irq_fired: false,
            irq_request_high: true,
            pulse_pending: false,
            blank: false,
            sync_started: false,
        }
    }

    fn read_mode(&mut self) -> (result: u16)
        ensures
            result == old(self).mode_value(),
            *final(self) == old(self).mode_cleared(),
    {
        let value: u16 = if self.irq_request_high {
            self.mode | MODE_IRQ_REQUEST
        } else {
            self.mode
        };
        self.mode = self.mode & !MODE_REACHED;
        value
    }

    fn write_mode(&mut self, value: u16)
        ensures
            *final(self) == old(self).mode_written(value),
    {
        self.value = 0;
        self.mode = value & MODE_WRITABLE;
        self.divider_remainder = 0;
        self.irq_fired = false;
        self.irq_request_high = true;
        self.pulse_pending = false;
        self.sync_started = false;
    }

    fn sync_mode(self) -> (result: u16)
        ensures
            result == self.sync(),
            result < 4,
    {
        (self.mode / 2) % 4
    }

    fn paused(self, id: TimerId) -> (result: bool)
        ensures
            result == self.is_paused(id),
    {
        if self.mode & MODE_SYNC_ENABLE == 0 {
            return false;
        }
        let sync: u16 = self.sync_mode();
        if id == TimerId::Timer2 {
            return sync == 0 || sync == 3;
        }
        match sync {
            0 => self.blank,
            1 => false,
            2 => !self.blank,
            _ => !self.sync_started,
        }
    }

    fn set_blank(&mut self, id: TimerId, asserted: bool)
        ensures
            *final(self) == old(self).with_blank(id, asserted),
    {
        let rising = asserted && !self.blank;
        self.blank = asserted;
        if id == TimerId::Timer2 || self.mode & MODE_SYNC_ENABLE == 0 || !rising {
            return ;
        }
        match self.sync_mode() {
            1 | 2 => {
                self.value = 0;
            },
            3 => {
                self.sync_started = true;
            },
            _ => {},
        }
    }

    fn settle_pulse(&mut self)
        ensures
            *final(self) == old(self).settled(),
    {
        if self.pulse_pending {
            self.irq_request_high = true;
            self.pulse_pending = false;
        }
    }

    fn tick<S: InterruptSink>(&mut self, id: TimerId, clocks: u64, sink: &mut S)
        ensures
            *final(self) == old(self).run(id, clocks as nat).counter,
            chain(
                sink_takes::<S>(),
                *old(sink),
                repeated(id.source(), old(self).run(id, clocks as nat).requests),
                *final(sink),
            ),
    {
        let mut ticks: u64 = clocks;
        proof {
            assert(repeated(id.source(), 0) =~= Seq::empty());
        }
        while ticks != 0
            invariant_except_break
                ticks <= clocks,
                *self == old(self).run(id, (clocks - ticks) as nat).counter,
                chain(
                    sink_takes::<S>(),
                    *old(sink),
                    repeated(
                        id.source(),
                        old(self).run(id, (clocks - ticks) as nat).requests,
                    ),
                    *sink,
                ),
            ensures
                *self == old(self).run(id, clocks as nat).counter,
                chain(
                    sink_takes::<S>(),
                    *old(sink),
                    repeated(id.source(), old(self).run(id, clocks as nat).requests),
                    *sink,
                ),
            decreases ticks,
        {
            let ghost begun = *self;
            let ghost done = (clocks - ticks) as nat;
            self.settle_pulse();
            if self.paused(id) {
                proof {
                    lemma_paused(begun, id, ticks as nat);
                    law_run_is_chunk_independent(*old(self), id, done, ticks as nat);
                }
                break ;
            }
            let distance: u64 = if self.value < self.target {
                u64::from(self.target) - u64::from(self.value)
            } else {
                0x1_0000 - u64::from(self.value)
            };
            if ticks < distance {
                self.value = (u64::from(self.value) + ticks) as u16;
                proof {
                    lemma_quiet(begun, id, ticks as nat);
                    law_run_is_chunk_independent(*old(self), id, done, ticks as nat);
                }
                break ;
            }
            let next: u16 = ((u64::from(self.value) + distance) % 0x1_0000) as u16;
            proof {
                lemma_event(begun, id);
                law_run_is_chunk_independent(*old(self), id, done, distance as nat);
            }
            ticks -= distance;
            self.reach(id, next, sink, Ghost(*old(sink)), Ghost(old(self).run(id, done).requests));
        }
    }

    fn reach<S: InterruptSink>(
        &mut self,
        id: TimerId,
        next: u16,
        sink: &mut S,
        Ghost(first): Ghost<S>,
        Ghost(requests): Ghost<nat>,
    )
        requires
            chain(sink_takes::<S>(), first, repeated(id.source(), requests), *old(sink)),
        ensures
            *final(self) == old(self).reached(next).0,
            chain(
                sink_takes::<S>(),
                first,
                repeated(
                    id.source(),
                    if old(self).reached(next).1 {
                        requests + 1
                    } else {
                        requests
                    },
                ),
                *final(sink),
            ),
    {
        let hit_target = next == self.target;
        let hit_overflow = next == 0;
        self.value = next;
        if hit_target {
            self.mode = self.mode | MODE_REACHED_TARGET;
            if self.mode & MODE_RESET_TARGET != 0 {
                self.value = 0;
            }
        }
        if hit_overflow {
            self.mode = self.mode | MODE_REACHED_OVERFLOW;
        }
        if (hit_target && self.mode & MODE_IRQ_TARGET != 0) || (hit_overflow && self.mode
            & MODE_IRQ_OVERFLOW != 0) {
            let ghost before = *sink;
            let request = self.fire_irq();
            if request {
                sink.request(id.interrupt());
                proof {
                    lemma_chain_push(
                        sink_takes::<S>(),
                        first,
                        repeated(id.source(), requests),
                        before,
                        id.source(),
                        *sink,
                    );
                    assert(repeated(id.source(), requests).push(id.source()) =~= repeated(
                        id.source(),
                        requests + 1,
                    ));
                }
            }
        }
    }

    fn fire_irq(&mut self) -> (result: bool)
        ensures
            *final(self) == old(self).fired().0,
            result == old(self).fired().1,
    {
        if self.mode & MODE_IRQ_REPEAT == 0 && self.irq_fired {
            return false;
        }
        self.irq_fired = true;
        if self.mode & MODE_IRQ_TOGGLE != 0 {
            self.irq_request_high = !self.irq_request_high;
            !self.irq_request_high
        } else {
            self.irq_request_high = false;
            self.pulse_pending = true;
            true
        }
    }
}

/// Running a counter in two parts is running it once.
pub proof fn law_run_is_chunk_independent(counter: Counter, id: TimerId, first: nat, second: nat)
    ensures
        counter.run(id, first + second).counter == counter.run(id, first).counter.run(
            id,
            second,
        ).counter,
        counter.run(id, first + second).requests == counter.run(id, first).requests + counter.run(
            id,
            first,
        ).counter.run(id, second).requests,
    decreases second,
{
    if second > 0 {
        law_run_is_chunk_independent(counter, id, first, (second - 1) as nat);
    }
}

/// A paused counter only ends a pulse.
proof fn lemma_paused(counter: Counter, id: TimerId, clocks: nat)
    requires
        counter.settled().is_paused(id),
        clocks > 0,
    ensures
        counter.run(id, clocks) == (Run { counter: counter.settled(), requests: 0 }),
    decreases clocks,
{
    if clocks > 1 {
        lemma_paused(counter, id, (clocks - 1) as nat);
    }
    let before = counter.run(id, (clocks - 1) as nat);
    assert(counter.settled().settled() == counter.settled());
    assert(before.counter.clocked(id) == (counter.settled(), false));
}

/// Before the next event a running counter only counts.
proof fn lemma_quiet(counter: Counter, id: TimerId, clocks: nat)
    requires
        !counter.settled().is_paused(id),
        0 < clocks < counter.settled().distance(),
    ensures
        counter.run(id, clocks) == (Run {
            counter: Counter { value: (counter.value + clocks) as u16, ..counter.settled() },
            requests: 0,
        }),
    decreases clocks,
{
    if clocks > 1 {
        lemma_quiet(counter, id, (clocks - 1) as nat);
    }
    let before = counter.run(id, (clocks - 1) as nat);
    let settled = before.counter.settled();
    assert(settled == (Counter {
        value: (counter.value + clocks - 1) as u16,
        ..counter.settled()
    }));
    assert(!settled.is_paused(id));
}

/// At the end of its distance a running counter reaches its target or wraps.
proof fn lemma_event(counter: Counter, id: TimerId)
    requires
        !counter.settled().is_paused(id),
    ensures
        ({
            let settled = counter.settled();
            let next = ((settled.value + settled.distance()) % 0x1_0000) as u16;
            let reached = settled.reached(next);
            counter.run(id, settled.distance() as nat) == (Run {
                counter: reached.0,
                requests: if reached.1 {
                    1
                } else {
                    0
                },
            })
        }),
{
    let settled = counter.settled();
    let distance = settled.distance();
    let next = ((settled.value + distance) % 0x1_0000) as u16;
    if distance > 1 {
        lemma_quiet(counter, id, (distance - 1) as nat);
    }
    let before = counter.run(id, (distance - 1) as nat);
    let last = before.counter.settled();
    assert(last == (Counter { value: (settled.value + distance - 1) as u16, ..settled }));
    assert(!last.is_paused(id));
    assert((last.value + 1) % 0x1_0000 == next);
    assert(last.reached(next) == settled.reached(next));
}

/// Three independent PS1 root counters.
#[verifier::ext_equal]
#[derive(Clone, Copy, Debug, PartialEq, Eq)]
pub struct RootCounters {
    pub counters: [Counter; 3],
    pub now: Deadline,
}

/// What an advance leads to.
#[verifier::ext_equal]
pub ghost struct Advanced {
    pub state: RootCounters,
    /// Interrupts in the order in which they are requested.
    pub requests: Seq<InterruptSource>,
    pub result: Result<(), TimerError>,
}

/// The counter and the register at an address.
pub open spec fn register_at(address: u32) -> Option<(TimerId, TimerRegister)> {
    let relative = address - TIMER_BASE;
    let id = if relative / 16 == 0 {
        Some(TimerId::Timer0)
    } else if relative / 16 == 1 {
        Some(TimerId::Timer1)
    } else if relative / 16 == 2 {
        Some(TimerId::Timer2)
    } else {
        None
    };
    let register = if relative % 16 == 0 {
        Some(TimerRegister::Counter)
    } else if relative % 16 == 4 {
        Some(TimerRegister::Mode)
    } else if relative % 16 == 8 {
        Some(TimerRegister::Target)
    } else {
        None
    };
    match (id, register) {
        (Some(id), Some(register)) => Some((id, register)),
        _ => None,
    }
}

impl Counter {
    /// Whether the system clock drives the counter.
    pub open spec fn is_system_clocked(self, id: TimerId) -> bool {
        id == TimerId::Timer2 || self.mode & MODE_CLOCK_ALTERNATIVE == 0
    }

    /// Whether the counter divides the system clock by eight.
    pub open spec fn is_divided(self, id: TimerId) -> bool {
        id == TimerId::Timer2 && self.mode & MODE_CLOCK_DIVIDED != 0
    }

    /// The counter after `ticks` system clocks.
    pub open spec fn system_run(self, id: TimerId, ticks: nat) -> Run {
        if !self.is_system_clocked(id) {
            Run { counter: self, requests: 0 }
        } else if self.is_divided(id) {
            let total = self.divider_remainder + ticks;
            Counter { divider_remainder: (total % 8) as u8, ..self }.run(id, (total / 8) as nat)
        } else {
            self.run(id, ticks)
        }
    }

    /// The counter after `ticks` clocks of its alternative input.
    pub open spec fn alternative_run(self, id: TimerId, ticks: nat) -> Run {
        if self.mode & MODE_CLOCK_ALTERNATIVE != 0 {
            self.run(id, ticks)
        } else {
            Run { counter: self, requests: 0 }
        }
    }

    /// A register as it reads.
    pub open spec fn register_value(self, register: TimerRegister) -> u16 {
        match register {
            TimerRegister::Counter => self.value,
            TimerRegister::Mode => self.mode_value(),
            TimerRegister::Target => self.target,
        }
    }

    /// The state after a register was read.
    pub open spec fn register_taken(self, register: TimerRegister) -> Counter {
        match register {
            TimerRegister::Mode => self.mode_cleared(),
            _ => self,
        }
    }

    /// The state after a register was written.
    pub open spec fn register_written(self, register: TimerRegister, value: u16) -> Counter {
        match register {
            TimerRegister::Counter => Counter { value, ..self },
            TimerRegister::Mode => self.mode_written(value),
            TimerRegister::Target => Counter { target: value, ..self },
        }
    }
}

impl Default for RootCounters {
    fn default() -> (result: Self)
        ensures
            result.wf(),
            result.at_reset(),
    {
        Self::new()
    }
}

impl RootCounters {
    /// The divider holds clocks that were counted in system time.
    pub open spec fn wf(self) -> bool {
        &&& self.counters@[2].divider_remainder < 8
        &&& self.counters@[2].divider_remainder <= self.now.time
    }

    /// Reset state.
    pub open spec fn at_reset(self) -> bool {
        &&& self.counters@ =~= seq![
            Counter::at_reset(),
            Counter::at_reset(),
            Counter::at_reset(),
        ]
        &&& self.now.time == 0
    }

    /// The state with one counter replaced.
    pub open spec fn with_counter(self, id: TimerId, counter: Counter) -> RootCounters {
        RootCounters { counters: with(self.counters, id.number(), counter), ..self }
    }

    /// A counter.
    pub open spec fn counter(self, id: TimerId) -> Counter {
        self.counters@[id.number()]
    }

    /// The outcome of an advance of one clock domain.
    pub open spec fn advanced(self, input: ClockInput, ticks: Ticks) -> Advanced {
        match input {
            ClockInput::System => if self.now.time + ticks.count > u64::MAX {
                Advanced {
                    state: self,
                    requests: Seq::empty(),
                    result: Err(TimerError::ClockOverflow),
                }
            } else {
                self.system_advanced(ticks)
            },
            ClockInput::DotClock => {
                let run = self.counter(TimerId::Timer0).alternative_run(
                    TimerId::Timer0,
                    ticks.count as nat,
                );
                Advanced {
                    state: self.with_counter(TimerId::Timer0, run.counter),
                    requests: repeated(InterruptSource::Timer0, run.requests),
                    result: Ok(()),
                }
            },
            ClockInput::HBlank => {
                let run = self.counter(TimerId::Timer1).alternative_run(
                    TimerId::Timer1,
                    ticks.count as nat,
                );
                Advanced {
                    state: self.with_counter(TimerId::Timer1, run.counter),
                    requests: repeated(InterruptSource::Timer1, run.requests),
                    result: Ok(()),
                }
            },
        }
    }

    /// The outcome of an advance of system time that does not overflow.
    pub open spec fn system_advanced(self, ticks: Ticks) -> Advanced {
        let run0 = self.counter(TimerId::Timer0).system_run(TimerId::Timer0, ticks.count as nat);
        let run1 = self.counter(TimerId::Timer1).system_run(TimerId::Timer1, ticks.count as nat);
        let run2 = self.counter(TimerId::Timer2).system_run(TimerId::Timer2, ticks.count as nat);
        Advanced {
            state: RootCounters {
                now: Deadline { time: (self.now.time + ticks.count) as u64 },
                ..self.with_counter(TimerId::Timer0, run0.counter).with_counter(
                    TimerId::Timer1,
                    run1.counter,
                ).with_counter(TimerId::Timer2, run2.counter)
            },
            requests: repeated(InterruptSource::Timer0, run0.requests) + repeated(
                InterruptSource::Timer1,
                run1.requests,
            ) + repeated(InterruptSource::Timer2, run2.requests),
            result: Ok(()),
        }
    }

    /// Constructs reset root counters.
    pub fn new() -> (result: Self)
        ensures
            result.wf(),
            result.at_reset(),
    {
        Self {
            counters: [Counter::new(), Counter::new(), Counter::new()],
            now: Deadline::new(0),
        }
    }

    /// Returns elapsed system-clock time.
    pub fn now(&self) -> (result: Deadline)
        ensures
            result == self.now,
    {
        self.now
    }

    /// Reads a typed counter register. Reading mode clears its reached flags.
    pub fn read_register(&mut self, id: TimerId, register: TimerRegister) -> (result: u16)
        requires
            old(self).wf(),
        ensures
            final(self).wf(),
            result == old(self).counter(id).register_value(register),
            *final(self) == old(self).with_counter(
                id,
                old(self).counter(id).register_taken(register),
            ),
    {
        let mut counter: Counter = self.counters[id.index()];
        let value: u16 = match register {
            TimerRegister::Counter => counter.value,
            TimerRegister::Mode => counter.read_mode(),
            TimerRegister::Target => counter.target,
        };
        self.counters[id.index()] = counter;
        value
    }

    /// Writes a typed counter register.
    pub fn write_register(&mut self, id: TimerId, register: TimerRegister, value: u16)
        requires
            old(self).wf(),
        ensures
            final(self).wf(),
            *final(self) == old(self).with_counter(
                id,
                old(self).counter(id).register_written(register, value),
            ),
    {
        let mut counter: Counter = self.counters[id.index()];
        match register {
            TimerRegister::Counter => {
                counter.value = value;
            },
            TimerRegister::Mode => counter.write_mode(value),
            TimerRegister::Target => {
                counter.target = value;
            },
        }
        self.counters[id.index()] = counter;
    }

    /// Reads a physical counter register.
    pub fn read(&mut self, address: u32) -> (result: Result<u32, TimerError>)
        requires
            old(self).wf(),
        ensures
            final(self).wf(),
            match register_at(address) {
                Some((id, register)) => {
                    &&& result == Ok::<u32, TimerError>(
                        old(self).counter(id).register_value(register) as u32,
                    )
                    &&& *final(self) == old(self).with_counter(
                        id,
                        old(self).counter(id).register_taken(register),
                    )
                },
                None => {
                    &&& result == Err::<u32, TimerError>(TimerError::InvalidRegister { address })
                    &&& *final(self) == *old(self)
                },
            },
    {
        match decode_register(address) {
            Ok((id, register)) => Ok(u32::from(self.read_register(id, register))),
            Err(error) => Err(error),
        }
    }

    /// Writes a physical counter register.
    pub fn write(&mut self, address: u32, value: u32) -> (result: Result<(), TimerError>)
        requires
            old(self).wf(),
        ensures
            final(self).wf(),
            match register_at(address) {
                Some((id, register)) => {
                    &&& result == Ok::<(), TimerError>(())
                    &&& *final(self) == old(self).with_counter(
                        id,
                        old(self).counter(id).register_written(register, low_half(value)),
                    )
                },
                None => {
                    &&& result == Err::<(), TimerError>(TimerError::InvalidRegister { address })
                    &&& *final(self) == *old(self)
                },
            },
    {
        match decode_register(address) {
            Ok((id, register)) => {
                self.write_register(id, register, halves(value).0);
                Ok(())
            },
            Err(error) => Err(error),
        }
    }

    /// Advances one typed clock domain.
    ///
    /// Timer 0 accepts dot-clock input, timer 1 accepts `HBlank` edges, and all
    /// counters accept system clocks according to their mode selection. System time
    /// that leaves `u64` is an error and advances nothing.
    pub fn advance<S: InterruptSink>(&mut self, input: ClockInput, ticks: Ticks, sink: &mut S) -> (
    result: Result<(), TimerError>)
        requires
            old(self).wf(),
        ensures
            final(self).wf(),
            ({
                let advanced = old(self).advanced(input, ticks);
                &&& *final(self) == advanced.state
                &&& result == advanced.result
                &&& chain(sink_takes::<S>(), *old(sink), advanced.requests, *final(sink))
            }),
    {
        match input {
            ClockInput::System => self.advance_system(ticks, sink),
            ClockInput::DotClock => {
                self.advance_alternative(TimerId::Timer0, ticks, sink);
                Ok(())
            },
            ClockInput::HBlank => {
                self.advance_alternative(TimerId::Timer1, ticks, sink);
                Ok(())
            },
        }
    }

    /// Changes horizontal-blank state for timer 0 synchronization.
    pub fn set_hblank(&mut self, asserted: bool)
        requires
            old(self).wf(),
        ensures
            final(self).wf(),
            *final(self) == old(self).with_counter(
                TimerId::Timer0,
                old(self).counter(TimerId::Timer0).with_blank(TimerId::Timer0, asserted),
            ),
            final(self).counters@[0].blank == asserted,
            final(self).counters@[1] == old(self).counters@[1],
            final(self).counters@[2] == old(self).counters@[2],
    {
        let mut counter: Counter = self.counters[0];
        counter.set_blank(TimerId::Timer0, asserted);
        self.counters[0] = counter;
    }

    /// Changes vertical-blank state for timer 1 synchronization.
    pub fn set_vblank(&mut self, asserted: bool)
        requires
            old(self).wf(),
        ensures
            final(self).wf(),
            *final(self) == old(self).with_counter(
                TimerId::Timer1,
                old(self).counter(TimerId::Timer1).with_blank(TimerId::Timer1, asserted),
            ),
            final(self).counters@[1].blank == asserted,
            final(self).counters@[0] == old(self).counters@[0],
            final(self).counters@[2] == old(self).counters@[2],
    {
        let mut counter: Counter = self.counters[1];
        counter.set_blank(TimerId::Timer1, asserted);
        self.counters[1] = counter;
    }

    fn advance_alternative<S: InterruptSink>(&mut self, id: TimerId, ticks: Ticks, sink: &mut S)
        requires
            old(self).wf(),
            id != TimerId::Timer2,
        ensures
            final(self).wf(),
            ({
                let run = old(self).counter(id).alternative_run(id, ticks.count as nat);
                &&& *final(self) == old(self).with_counter(id, run.counter)
                &&& chain(
                    sink_takes::<S>(),
                    *old(sink),
                    repeated(id.source(), run.requests),
                    *final(sink),
                )
            }),
    {
        let mut counter: Counter = self.counters[id.index()];
        if counter.mode & MODE_CLOCK_ALTERNATIVE != 0 {
            counter.tick(id, ticks.get(), sink);
        } else {
            assert(repeated(id.source(), 0) =~= Seq::empty());
        }
        self.counters[id.index()] = counter;
    }

    fn advance_system<S: InterruptSink>(&mut self, ticks: Ticks, sink: &mut S) -> (result: Result<
        (),
        TimerError,
    >)
        requires
            old(self).wf(),
        ensures
            final(self).wf(),
            ({
                let advanced = old(self).advanced(ClockInput::System, ticks);
                &&& *final(self) == advanced.state
                &&& result == advanced.result
                &&& chain(sink_takes::<S>(), *old(sink), advanced.requests, *final(sink))
            }),
    {
        let end = match self.now.checked_advance(ticks) {
            Ok(end) => end,
            Err(error) => {
                return Err(TimerError::from(error));
            },
        };
        let ghost first = *sink;
        let ghost run0 = self.counter(TimerId::Timer0).system_run(
            TimerId::Timer0,
            ticks.count as nat,
        );
        let ghost run1 = self.counter(TimerId::Timer1).system_run(
            TimerId::Timer1,
            ticks.count as nat,
        );
        let ghost run2 = self.counter(TimerId::Timer2).system_run(
            TimerId::Timer2,
            ticks.count as nat,
        );
        self.advance_counter(TimerId::Timer0, ticks.get(), sink);
        let ghost second = *sink;
        self.advance_counter(TimerId::Timer1, ticks.get(), sink);
        let ghost third = *sink;
        self.advance_counter(TimerId::Timer2, ticks.get(), sink);
        self.now = end;
        proof {
            let requests0 = repeated(InterruptSource::Timer0, run0.requests);
            let requests1 = repeated(InterruptSource::Timer1, run1.requests);
            let requests2 = repeated(InterruptSource::Timer2, run2.requests);
            lemma_chain_concat(sink_takes::<S>(), first, requests0, second, requests1, third);
            lemma_chain_concat(
                sink_takes::<S>(),
                first,
                requests0 + requests1,
                third,
                requests2,
                *sink,
            );
            lemma_system_run_keeps_divider(
                old(self).counter(TimerId::Timer2),
                TimerId::Timer2,
                ticks.count as nat,
            );
        }
        Ok(())
    }

    fn advance_counter<S: InterruptSink>(&mut self, id: TimerId, ticks: u64, sink: &mut S)
        requires
            old(self).counter(TimerId::Timer2).divider_remainder + ticks <= u64::MAX,
        ensures
            ({
                let run = old(self).counter(id).system_run(id, ticks as nat);
                &&& *final(self) == old(self).with_counter(id, run.counter)
                &&& chain(
                    sink_takes::<S>(),
                    *old(sink),
                    repeated(id.source(), run.requests),
                    *final(sink),
                )
            }),
    {
        let mut counter: Counter = self.counters[id.index()];
        if id != TimerId::Timer2 && counter.mode & MODE_CLOCK_ALTERNATIVE != 0 {
            assert(repeated(id.source(), 0) =~= Seq::empty());
        } else if id == TimerId::Timer2 && counter.mode & MODE_CLOCK_DIVIDED != 0 {
            let total: u64 = u64::from(counter.divider_remainder) + ticks;
            counter.divider_remainder = (total % 8) as u8;
            counter.tick(id, total / 8, sink);
        } else {
            counter.tick(id, ticks, sink);
        }
        self.counters[id.index()] = counter;
    }
}

proof fn lemma_run_keeps_divider(counter: Counter, id: TimerId, clocks: nat)
    ensures
        counter.run(id, clocks).counter.divider_remainder == counter.divider_remainder,
    decreases clocks,
{
    if clocks > 0 {
        lemma_run_keeps_divider(counter, id, (clocks - 1) as nat);
    }
}

proof fn lemma_system_run_keeps_divider(counter: Counter, id: TimerId, ticks: nat)
    requires
        counter.divider_remainder < 8,
    ensures
        counter.system_run(id, ticks).counter.divider_remainder < 8,
        counter.system_run(id, ticks).counter.divider_remainder <= counter.divider_remainder
            + ticks,
{
    lemma_run_keeps_divider(counter, id, ticks);
    let total = counter.divider_remainder + ticks;
    lemma_run_keeps_divider(
        Counter { divider_remainder: (total % 8) as u8, ..counter },
        id,
        (total / 8) as nat,
    );
}

fn decode_register(address: u32) -> (result: Result<(TimerId, TimerRegister), TimerError>)
    ensures
        match result {
            Ok(decoded) => register_at(address) == Some(decoded),
            Err(error) => register_at(address) is None && error == (TimerError::InvalidRegister {
                address,
            }),
        },
{
    if address < TIMER_BASE {
        return Err(TimerError::InvalidRegister { address });
    }
    let relative: u32 = address - TIMER_BASE;
    let id = match relative / COUNTER_STRIDE {
        0 => TimerId::Timer0,
        1 => TimerId::Timer1,
        2 => TimerId::Timer2,
        _ => {
            return Err(TimerError::InvalidRegister { address });
        },
    };
    let register = match relative % COUNTER_STRIDE {
        0 => TimerRegister::Counter,
        4 => TimerRegister::Mode,
        8 => TimerRegister::Target,
        _ => {
            return Err(TimerError::InvalidRegister { address });
        },
    };
    Ok((id, register))
}

/// Drift-free periodic `VBlank` event producer.
#[derive(Clone, Copy, Debug, PartialEq, Eq, Structural)]
pub struct VBlankClock {
    pub standard: VideoStandard,
    pub now: Deadline,
    pub next: Deadline,
}

impl VBlankClock {
    /// How many events lie between now and `end`.
    pub open spec fn crossed(self, end: int) -> int {
        if end < self.next.time {
            0
        } else {
            (end - self.next.time) / self.standard.period() as int + 1
        }
    }

    /// The next event lies on the grid of whole frames, and is the first after now.
    pub open spec fn on_grid(self) -> bool {
        self.next.time == (self.now.time as int / self.standard.period() as int + 1)
            * self.standard.period()
    }

    /// Constructs refresh timing whose first event occurs after one full frame.
    pub fn new(standard: VideoStandard) -> (result: Self)
        ensures
            result == (VBlankClock {
                standard,
                now: Deadline { time: 0 },
                next: Deadline { time: standard.period() },
            }),
            result.on_grid(),
    {
        Self {
            standard,
            now: Deadline::new(0),
            next: Deadline::new(standard.cycles_per_vblank()),
        }
    }

    /// Returns the selected video standard.
    pub fn standard(self) -> (result: VideoStandard)
        ensures
            result == self.standard,
    {
        self.standard
    }

    /// Returns current system-clock time.
    pub fn now(self) -> (result: Deadline)
        ensures
            result == self.now,
    {
        self.now
    }

    /// Returns the next exact `VBlank` deadline.
    pub fn next_deadline(self) -> (result: Deadline)
        ensures
            result == self.next,
    {
        self.next
    }

    /// Advances system time, requests each crossed `VBlank`, and returns its count.
    ///
    /// Time that leaves `u64` is an error. Where only the deadline after the last
    /// crossed event leaves it, the crossed events have been requested.
    pub fn advance<S: InterruptSink>(&mut self, ticks: Ticks, sink: &mut S) -> (result: Result<
        u64,
        TimerError,
    >)
        ensures
            ({
                let end = old(self).now.time + ticks.count;
                let events = old(self).crossed(end);
                let period = old(self).standard.period();
                let next = old(self).next.time + events * period;
                if end > u64::MAX {
                    &&& result == Err::<u64, TimerError>(TimerError::ClockOverflow)
                    &&& *final(self) == *old(self)
                    &&& *final(sink) == *old(sink)
                } else {
                    &&& chain(
                        sink_takes::<S>(),
                        *old(sink),
                        repeated(InterruptSource::VBlank, events as nat),
                        *final(sink),
                    )
                    &&& if next > u64::MAX {
                        &&& result == Err::<u64, TimerError>(TimerError::ClockOverflow)
                        &&& *final(self) == (VBlankClock {
                            next: Deadline { time: (next - period) as u64 },
                            ..*old(self)
                        })
                    } else {
                        &&& result == Ok::<u64, TimerError>(events as u64)
                        &&& *final(self) == (VBlankClock {
                            now: Deadline { time: end as u64 },
                            next: Deadline { time: next as u64 },
                            ..*old(self)
                        })
                        &&& old(self).on_grid() ==> final(self).on_grid()
                    }
                }
            }),
    {
        let end = match self.now.checked_advance(ticks) {
            Ok(end) => end,
            Err(error) => {
                return Err(TimerError::from(error));
            },
        };
        let period: u64 = self.standard.cycles_per_vblank();
        let ghost source = InterruptSource::VBlank;
        let ghost start = self.next.time as int;
        let mut events: u64 = 0;
        proof {
            assert(repeated(source, 0) =~= Seq::empty());
        }
        while self.next.time <= end.time
            invariant
                source == InterruptSource::VBlank,
                period == old(self).standard.period(),
                end.time == old(self).now.time + ticks.count,
                start == old(self).next.time,
                self.standard == old(self).standard,
                self.now == old(self).now,
                self.next.time == start + events * period,
                0 <= events <= self.next.time,
                events > 0 ==> start + (events - 1) * period <= end.time,
                chain(sink_takes::<S>(), *old(sink), repeated(source, events as nat), *sink),
            decreases end.time + period - self.next.time,
        {
            let ghost before = *sink;
            sink.request(InterruptSource::VBlank);
            proof {
                lemma_chain_push(
                    sink_takes::<S>(),
                    *old(sink),
                    repeated(source, events as nat),
                    before,
                    source,
                    *sink,
                );
                assert(repeated(source, events as nat).push(source) =~= repeated(
                    source,
                    events as nat + 1,
                ));
                lemma_next_event(start, events as int, period as int);
            }
            match self.next.checked_advance(Ticks::new(period)) {
                Ok(next) => {
                    self.next = next;
                },
                Err(error) => {
                    proof {
                        lemma_crossings(start, end.time as int, events + 1, period as int);
                    }
                    return Err(TimerError::from(error));
                },
            }
            events += 1;
        }
        proof {
            if events > 0 {
                lemma_crossings(start, end.time as int, events as int, period as int);
            }
            if old(self).on_grid() {
                lemma_on_grid(*old(self), end.time as int, events as int);
            }
        }
        self.now = end;
        Ok(events)
    }
}

proof fn lemma_next_event(start: int, events: int, period: int)
    ensures
        start + (events + 1) * period == start + events * period + period,
{
    assert((events + 1) * period == events * period + period) by (nonlinear_arith);
}

/// The number of events is fixed by the last one before and the first one after `end`.
proof fn lemma_crossings(start: int, end: int, events: int, period: int)
    requires
        period > 0,
        events > 0,
        start + (events - 1) * period <= end < start + events * period,
    ensures
        events == (end - start) / period + 1,
        start <= end,
{
    let rest = end - start - (events - 1) * period;
    assert(events * period == (events - 1) * period + period) by (nonlinear_arith);
    assert(0 <= (events - 1) * period) by (nonlinear_arith)
        requires
            events > 0,
            period > 0,
    ;
    vstd::arithmetic::div_mod::lemma_fundamental_div_mod_converse(
        end - start,
        period,
        events - 1,
        rest,
    );
}

proof fn lemma_on_grid(clock: VBlankClock, end: int, events: int)
    requires
        clock.on_grid(),
        clock.now.time <= end,
        events == clock.crossed(end),
    ensures
        clock.next.time + events * clock.standard.period() == (end
            / clock.standard.period() as int + 1) * clock.standard.period(),
{
    let period = clock.standard.period() as int;
    let frame = clock.now.time as int / period;
    vstd::arithmetic::div_mod::lemma_fundamental_div_mod(clock.now.time as int, period);
    assert((frame + 1) * period == frame * period + period) by (nonlinear_arith);
    if end < clock.next.time {
        vstd::arithmetic::div_mod::lemma_fundamental_div_mod_converse(
            end,
            period,
            frame,
            end - frame * period,
        );
    } else {
        let more = (end - clock.next.time) / period;
        let rest = (end - clock.next.time) % period;
        vstd::arithmetic::div_mod::lemma_fundamental_div_mod(end - clock.next.time, period);
        assert((frame + 1 + more) * period == (frame + 1) * period + more * period)
            by (nonlinear_arith);
        assert((frame + 1 + more + 1) * period == (frame + 1 + more) * period + period)
            by (nonlinear_arith);
        assert((more + 1) * period == more * period + period) by (nonlinear_arith);
        assert(period * more == more * period) by (nonlinear_arith);
        vstd::arithmetic::div_mod::lemma_fundamental_div_mod_converse(
            end,
            period,
            frame + 1 + more,
            rest,
        );
    }
}

proof fn lemma_reached_bits(mode: u16)
    by (bit_vector)
    ensures
        (mode | MODE_REACHED_TARGET) & MODE_CLOCK_ALTERNATIVE == mode & MODE_CLOCK_ALTERNATIVE,
        (mode | MODE_REACHED_TARGET) & MODE_CLOCK_DIVIDED == mode & MODE_CLOCK_DIVIDED,
        (mode | MODE_REACHED_TARGET) & MODE_IRQ_REPEAT == mode & MODE_IRQ_REPEAT,
        (mode | MODE_REACHED_OVERFLOW) & MODE_CLOCK_ALTERNATIVE == mode & MODE_CLOCK_ALTERNATIVE,
        (mode | MODE_REACHED_OVERFLOW) & MODE_CLOCK_DIVIDED == mode & MODE_CLOCK_DIVIDED,
        (mode | MODE_REACHED_OVERFLOW) & MODE_IRQ_REPEAT == mode & MODE_IRQ_REPEAT,
{
}

/// Counting changes no setting of a counter.
pub open spec fn same_settings(left: Counter, right: Counter) -> bool {
    &&& left.mode & MODE_CLOCK_ALTERNATIVE == right.mode & MODE_CLOCK_ALTERNATIVE
    &&& left.mode & MODE_CLOCK_DIVIDED == right.mode & MODE_CLOCK_DIVIDED
    &&& left.mode & MODE_IRQ_REPEAT == right.mode & MODE_IRQ_REPEAT
    &&& left.divider_remainder == right.divider_remainder
}

proof fn lemma_run_keeps_settings(counter: Counter, id: TimerId, clocks: nat)
    ensures
        same_settings(counter.run(id, clocks).counter, counter),
    decreases clocks,
{
    if clocks > 0 {
        lemma_run_keeps_settings(counter, id, (clocks - 1) as nat);
        let before = counter.run(id, (clocks - 1) as nat).counter;
        lemma_reached_bits(before.mode);
        lemma_reached_bits(before.mode | MODE_REACHED_TARGET);
    }
}

proof fn lemma_run_ignores_divider(counter: Counter, id: TimerId, clocks: nat, remainder: u8)
    ensures
        ({
            let other = Counter { divider_remainder: remainder, ..counter };
            &&& other.run(id, clocks).counter == (Counter {
                divider_remainder: remainder,
                ..counter.run(id, clocks).counter
            })
            &&& other.run(id, clocks).requests == counter.run(id, clocks).requests
        }),
    decreases clocks,
{
    if clocks > 0 {
        lemma_run_ignores_divider(counter, id, (clocks - 1) as nat, remainder);
    }
}

/// Advancing a counter by system clocks in two parts is advancing it once, also
/// through the divider.
pub proof fn law_system_run_is_chunk_independent(
    counter: Counter,
    id: TimerId,
    first: nat,
    second: nat,
)
    requires
        counter.divider_remainder < 8,
    ensures
        ({
            let begun = counter.system_run(id, first);
            let rest = begun.counter.system_run(id, second);
            &&& counter.system_run(id, first + second).counter == rest.counter
            &&& counter.system_run(id, first + second).requests == begun.requests + rest.requests
        }),
{
    if counter.is_system_clocked(id) {
        if counter.is_divided(id) {
            let total = counter.divider_remainder + first;
            let divided = Counter { divider_remainder: (total % 8) as u8, ..counter };
            let clocks = (total / 8) as nat;
            lemma_run_keeps_settings(divided, id, clocks);
            let begun = divided.run(id, clocks).counter;
            let more = begun.divider_remainder + second;
            let whole = counter.divider_remainder + first + second;
            assert(whole % 8 == more % 8);
            assert(whole / 8 == clocks + more / 8);
            let remainder = (whole % 8) as u8;
            let final_divided = Counter { divider_remainder: remainder, ..counter };
            law_run_is_chunk_independent(final_divided, id, clocks, (more / 8) as nat);
            lemma_run_ignores_divider(divided, id, clocks, remainder);
            assert(final_divided.run(id, clocks).counter == (Counter {
                divider_remainder: remainder,
                ..begun
            }));
        } else {
            lemma_run_keeps_settings(counter, id, first);
            law_run_is_chunk_independent(counter, id, first, second);
        }
    }
}

/// Advancing all counters by system clocks in two parts leaves the state of advancing
/// them once.
pub proof fn law_advance_is_chunk_independent(counters: RootCounters, first: Ticks, second: Ticks)
    requires
        counters.wf(),
        counters.now.time + first.count + second.count <= u64::MAX,
    ensures
        counters.advanced(ClockInput::System, first).state.advanced(
            ClockInput::System,
            second,
        ).state == counters.advanced(
            ClockInput::System,
            Ticks { count: (first.count + second.count) as u64 },
        ).state,
{
    let total = Ticks { count: (first.count + second.count) as u64 };
    let once = counters.advanced(ClockInput::System, first).state;
    let twice = once.advanced(ClockInput::System, second).state;
    let whole = counters.advanced(ClockInput::System, total).state;
    lemma_parts(counters, TimerId::Timer0, first, second);
    lemma_parts(counters, TimerId::Timer1, first, second);
    lemma_parts(counters, TimerId::Timer2, first, second);
    assert(twice.counters@ =~= whole.counters@);
    assert(twice.counters =~= whole.counters);
}

proof fn lemma_parts(counters: RootCounters, id: TimerId, first: Ticks, second: Ticks)
    requires
        counters.wf(),
    ensures
        ({
            let total = first.count as nat + second.count as nat;
            let begun = counters.counter(id).system_run(id, first.count as nat).counter;
            begun.system_run(id, second.count as nat).counter == counters.counter(id).system_run(
                id,
                total,
            ).counter
        }),
{
    let counter = counters.counter(id);
    if id == TimerId::Timer2 {
        law_system_run_is_chunk_independent(counter, id, first.count as nat, second.count as nat);
    } else if counter.is_system_clocked(id) {
        lemma_run_keeps_settings(counter, id, first.count as nat);
        law_run_is_chunk_independent(counter, id, first.count as nat, second.count as nat);
    }
}

/// A one-shot counter requests at most one interrupt until its mode is written again.
pub proof fn law_one_shot_requests_once(counter: Counter, id: TimerId, clocks: nat)
    requires
        counter.mode & MODE_IRQ_REPEAT == 0,
    ensures
        counter.run(id, clocks).requests <= 1,
        counter.irq_fired ==> counter.run(id, clocks).requests == 0,
        counter.irq_fired || counter.run(id, clocks).requests == 1 ==> counter.run(
            id,
            clocks,
        ).counter.irq_fired,
    decreases clocks,
{
    if clocks > 0 {
        law_one_shot_requests_once(counter, id, (clocks - 1) as nat);
        let before = counter.run(id, (clocks - 1) as nat).counter;
        lemma_run_keeps_settings(counter, id, (clocks - 1) as nat);
        lemma_reached_bits(before.mode);
        lemma_reached_bits(before.mode | MODE_REACHED_TARGET);
    }
}

/// The bits of a mode register that reading and writing keep.
pub proof fn lemma_reached(mode: u16)
    by (bit_vector)
    ensures
        (mode & !MODE_REACHED) & MODE_REACHED == 0,
        (mode & !MODE_REACHED) & MODE_WRITABLE == mode & MODE_WRITABLE,
        mode & MODE_WRITABLE == mode % 0x400,
{
}

/// The writable bits of a mode register are its low ten.
pub proof fn lemma_writable(mode: u16)
    ensures
        mode & MODE_WRITABLE == mode as int % 0x400,
{
    lemma_reached(mode);
}

/// Reading the mode register clears its reached flags and nothing else.
pub proof fn law_mode_read_clears_reached_flags(counter: Counter)
    ensures
        counter.mode_cleared().mode & MODE_REACHED == 0,
        counter.mode_cleared() == (Counter { mode: counter.mode_cleared().mode, ..counter }),
        counter.mode_cleared().mode & MODE_WRITABLE == counter.mode & MODE_WRITABLE,
{
    lemma_reached(counter.mode);
}

/// Refresh has no drift: up to any time there have been exactly as many events as whole
/// frames, however time was advanced.
pub proof fn law_refresh_has_no_drift(clock: VBlankClock, end: int)
    requires
        clock.on_grid(),
        clock.now.time <= end,
    ensures
        clock.crossed(end) == end / clock.standard.period() as int - clock.now.time as int
            / clock.standard.period() as int,
{
    let period = clock.standard.period() as int;
    let events = clock.crossed(end);
    let frames = end / period - clock.now.time as int / period;
    lemma_on_grid(clock, end, events);
    assert((clock.now.time as int / period + 1) * period + events * period == (end / period + 1)
        * period);
    assert(events == frames) by (nonlinear_arith)
        requires
            period > 0,
            (clock.now.time as int / period + 1) * period + events * period == (end / period + 1)
                * period,
            frames == end / period - clock.now.time as int / period,
    ;
}

} // verus!
