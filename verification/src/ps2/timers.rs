//! Six PS2 IOP hardware counters and deterministic video refresh events.

use vstd::prelude::*;

use crate::arrays::with;
use crate::bytes::{halves, high_half, join_halves, low_half, word_of};
use crate::ps2::irq::{InterruptSink, InterruptSource};
use crate::trace::{chain, lemma_chain_concat, lemma_chain_push};

verus! {

/// Native PS2 IOP system clock.
pub const CPU_HZ: u64 = 36_864_000;

/// Counter 0 register base.
pub const TIMER0_BASE: u32 = 0x1f80_1100;

/// Counter 1 register base.
pub const TIMER1_BASE: u32 = 0x1f80_1110;

/// Counter 2 register base.
pub const TIMER2_BASE: u32 = 0x1f80_1120;

/// Counter 3 register base.
pub const TIMER3_BASE: u32 = 0x1f80_1480;

/// Counter 4 register base.
pub const TIMER4_BASE: u32 = 0x1f80_1490;

/// Counter 5 register base.
pub const TIMER5_BASE: u32 = 0x1f80_14a0;

/// Last halfword occupied by an IOP counter register.
pub const TIMER_REGISTER_END: u32 = 0x1f80_14aa;

/// Gate enable bit in the mode register.
pub const MODE_GATE_ENABLE: u16 = 0x0001;

/// Reset-on-target bit in the mode register.
pub const MODE_RESET_ON_TARGET: u16 = 0x0008;

/// Interrupt-on-target bit in the mode register.
pub const MODE_IRQ_ON_TARGET: u16 = 0x0010;

/// Interrupt-on-overflow bit in the mode register.
pub const MODE_IRQ_ON_OVERFLOW: u16 = 0x0020;

/// Repeated-interrupt bit in the mode register.
pub const MODE_IRQ_REPEAT: u16 = 0x0040;

/// Toggling-interrupt bit in the mode register.
pub const MODE_IRQ_TOGGLE: u16 = 0x0080;

/// External clock bit in the mode register.
pub const MODE_EXTERNAL_CLOCK: u16 = 0x0100;

/// Divide-by-eight bit of counters 0 to 2 in the mode register.
pub const MODE_LOW_PRESCALE_8: u16 = 0x0200;

/// Interrupt request bit in the mode register; low means requested.
pub const MODE_IRQ_REQUEST: u16 = 0x0400;

/// Reached-target bit in the mode register.
pub const MODE_REACHED_TARGET: u16 = 0x0800;

/// Reached-overflow bit in the mode register.
pub const MODE_REACHED_OVERFLOW: u16 = 0x1000;

/// Both reached bits in the mode register.
pub const MODE_REACHED: u16 = 0x1800;

/// The writable bits of the mode register.
pub const MODE_WRITABLE: u16 = 0x63ff;

/// Most boundaries that one advance of a counter may report.
pub const MAX_EVENTS_PER_ADVANCE: u64 = 1_000_000;

/// One of the six IOP counters.
#[derive(Clone, Copy, Debug, PartialEq, Eq, PartialOrd, Ord, Hash, Structural)]
pub enum TimerId {
    /// 16-bit counter 0.
    Timer0,
    /// 16-bit counter 1.
    Timer1,
    /// 16-bit counter 2.
    Timer2,
    /// 32-bit counter 3.
    Timer3,
    /// 32-bit counter 4.
    Timer4,
    /// 32-bit counter 5.
    Timer5,
}

impl TimerId {
    /// The number of the counter.
    pub open spec fn number(self) -> int {
        match self {
            TimerId::Timer0 => 0,
            TimerId::Timer1 => 1,
            TimerId::Timer2 => 2,
            TimerId::Timer3 => 3,
            TimerId::Timer4 => 4,
            TimerId::Timer5 => 5,
        }
    }

    /// The largest count.
    pub open spec fn limit(self) -> u32 {
        if self.number() < 3 {
            0xffff
        } else {
            0xffff_ffff
        }
    }

    /// A value cut to the width of the counter.
    pub open spec fn cut(self, value: u32) -> u32 {
        if self.number() < 3 {
            low_half(value) as u32
        } else {
            value
        }
    }

    /// The interrupt source of the counter.
    pub open spec fn source(self) -> InterruptSource {
        match self {
            TimerId::Timer0 => InterruptSource::Timer0,
            TimerId::Timer1 => InterruptSource::Timer1,
            TimerId::Timer2 => InterruptSource::Timer2,
            TimerId::Timer3 => InterruptSource::Timer3,
            TimerId::Timer4 => InterruptSource::Timer4,
            TimerId::Timer5 => InterruptSource::Timer5,
        }
    }

    /// The counter with a number.
    pub open spec fn numbered(number: int) -> TimerId {
        if number == 0 {
            TimerId::Timer0
        } else if number == 1 {
            TimerId::Timer1
        } else if number == 2 {
            TimerId::Timer2
        } else if number == 3 {
            TimerId::Timer3
        } else if number == 4 {
            TimerId::Timer4
        } else {
            TimerId::Timer5
        }
    }

    fn from_index(index: usize) -> (result: Self)
        requires
            index < 6,
        ensures
            result == TimerId::numbered(index as int),
            result.number() == index,
    {
        match index {
            0 => TimerId::Timer0,
            1 => TimerId::Timer1,
            2 => TimerId::Timer2,
            3 => TimerId::Timer3,
            4 => TimerId::Timer4,
            _ => TimerId::Timer5,
        }
    }

    fn index(self) -> (result: usize)
        ensures
            result == self.number(),
            result < 6,
    {
        match self {
            TimerId::Timer0 => 0,
            TimerId::Timer1 => 1,
            TimerId::Timer2 => 2,
            TimerId::Timer3 => 3,
            TimerId::Timer4 => 4,
            TimerId::Timer5 => 5,
        }
    }

    fn width_mask(self) -> (result: u32)
        ensures
            result == self.limit(),
    {
        match self {
            TimerId::Timer0 | TimerId::Timer1 | TimerId::Timer2 => 0xffff,
            TimerId::Timer3 | TimerId::Timer4 | TimerId::Timer5 => 0xffff_ffff,
        }
    }

    fn cut_to_width(self, value: u32) -> (result: u32)
        ensures
            result == self.cut(value),
            result <= self.limit(),
    {
        match self {
            TimerId::Timer0 | TimerId::Timer1 | TimerId::Timer2 => u32::from(halves(value).0),
            TimerId::Timer3 | TimerId::Timer4 | TimerId::Timer5 => value,
        }
    }

    fn interrupt(self) -> (result: InterruptSource)
        ensures
            result == self.source(),
    {
        match self {
            TimerId::Timer0 => InterruptSource::Timer0,
            TimerId::Timer1 => InterruptSource::Timer1,
            TimerId::Timer2 => InterruptSource::Timer2,
            TimerId::Timer3 => InterruptSource::Timer3,
            TimerId::Timer4 => InterruptSource::Timer4,
            TimerId::Timer5 => InterruptSource::Timer5,
        }
    }
}

/// A counter boundary observed by the machine or BIOS layer.
#[derive(Clone, Copy, Debug, PartialEq, Eq, Structural)]
pub enum CounterBoundary {
    /// Counter reached its target register.
    Target,
    /// Counter wrapped through its width.
    Overflow,
}

/// Hardware timing event exposed without a BIOS dependency.
#[derive(Clone, Copy, Debug, PartialEq, Eq, Structural)]
pub enum TimingEvent {
    /// Counter target or overflow boundary.
    Counter {
        /// Counter that reached the boundary.
        timer: TimerId,
        /// Boundary kind.
        boundary: CounterBoundary,
    },
    /// Display entered vertical blank.
    VBlankStart,
    /// Display left vertical blank.
    VBlankEnd,
}

/// Observer used by machine and BIOS composition layers.
pub trait TimingObserver: Sized {
    /// Seeing `event` may leave `after`.
    open spec fn observed(before: Self, event: TimingEvent, after: Self) -> bool {
        true
    }

    /// Observes one deterministic hardware timing event.
    fn observe(&mut self, event: TimingEvent)
        ensures
            Self::observed(*old(self), event, *final(self)),
    ;
}

impl TimingObserver for Vec<TimingEvent> {
    open spec fn observed(before: Self, event: TimingEvent, after: Self) -> bool {
        after@ == before@.push(event)
    }

    fn observe(&mut self, event: TimingEvent) {
        self.push(event);
    }
}

/// Observer which intentionally discards events.
#[derive(Clone, Copy, Debug, PartialEq, Eq, Default, Structural)]
pub struct NoopObserver;

impl TimingObserver for NoopObserver {
    open spec fn observed(before: Self, event: TimingEvent, after: Self) -> bool {
        after == before
    }

    fn observe(&mut self, _event: TimingEvent) {
    }
}

/// An observer sees one event.
pub open spec fn observer_sees<O: TimingObserver>() -> spec_fn(O, TimingEvent, O) -> bool {
    |before: O, event: TimingEvent, after: O| O::observed(before, event, after)
}

/// A sink takes one request.
pub open spec fn sink_takes<S: InterruptSink>() -> spec_fn(S, InterruptSource, S) -> bool {
    |before: S, source: InterruptSource, after: S| S::requested(before, source, after)
}

/// Video refresh standard used by the IOP event source.
#[derive(Clone, Copy, Debug, Default, PartialEq, Eq, Structural)]
pub enum VideoStandard {
    /// NTSC-family 60/1.001 Hz refresh.
    #[default]
    Ntsc,
    /// PAL 50 Hz refresh.
    Pal,
}

/// Counter or refresh failure.
#[derive(Clone, Copy, Debug, PartialEq, Eq, Structural)]
pub enum TimerError {
    /// Address is not a counter register.
    InvalidRegister {
        /// Physical address supplied by the machine.
        address: u32,
    },
    /// A single advance would generate an unreasonable number of guest events.
    EventLimit {
        /// Counter producing events.
        timer: TimerId,
        /// Fixed safety limit.
        limit: u64,
    },
    /// Refresh phase arithmetic exceeded its internal representation.
    RefreshOverflow,
}

/// One counter.
#[derive(Clone, Copy, Debug, PartialEq, Eq, Structural)]
pub struct Counter {
    pub count: u32,
    pub mode: u16,
    pub target: u32,
    pub prescale_remainder: u16,
    pub irq_fired: bool,
    pub gate_level: bool,
}

/// A counter after some clocks, what it reported, and whether it reported too much.
#[verifier::ext_equal]
pub ghost struct Run {
    pub counter: Counter,
    pub events: Seq<TimingEvent>,
    pub requests: Seq<InterruptSource>,
    /// The boundaries of one clock would exceed the limit.
    pub failed: bool,
}

impl Counter {
    /// Count and target fit the width of the counter.
    pub open spec fn wf(self, timer: TimerId) -> bool {
        self.count <= timer.limit() && self.target <= timer.limit()
    }

    /// Reset state.
    pub open spec fn at_reset() -> Counter {
        Counter {
            count: 0,
            mode: MODE_IRQ_REQUEST,
            target: 0,
            prescale_remainder: 0,
            irq_fired: false,
            gate_level: false,
        }
    }

    /// The two-bit gate mode.
    pub open spec fn gate_mode(self) -> int {
        (self.mode as int / 2) % 4
    }

    /// Whether gating lets the counter run.
    pub open spec fn is_running(self) -> bool {
        self.mode & MODE_GATE_ENABLE == 0 || if self.gate_mode() == 0 {
            !self.gate_level
        } else if self.gate_mode() == 1 {
            self.gate_level
        } else {
            true
        }
    }

    /// The state after a gating signal changed: an edge resets some gated counters.
    pub open spec fn gated(self, asserted: bool) -> Counter {
        let now = Counter { gate_level: asserted, ..self };
        if self.mode & MODE_GATE_ENABLE == 0 || self.gate_level == asserted {
            now
        } else if (asserted && (self.gate_mode() == 1 || self.gate_mode() == 2)) || (!asserted
            && self.gate_mode() == 3) {
            Counter { count: 0, ..now }
        } else {
            now
        }
    }

    /// The state after a boundary, and whether it requests an interrupt. One-shot
    /// counters fire once; toggling ones request on every other boundary.
    pub open spec fn bounded(self, boundary: CounterBoundary) -> (Counter, bool) {
        let mode = self.mode | match boundary {
            CounterBoundary::Target => MODE_REACHED_TARGET,
            CounterBoundary::Overflow => MODE_REACHED_OVERFLOW,
        };
        let enabled = match boundary {
            CounterBoundary::Target => MODE_IRQ_ON_TARGET,
            CounterBoundary::Overflow => MODE_IRQ_ON_OVERFLOW,
        };
        if mode & enabled == 0 || (self.irq_fired && mode & MODE_IRQ_REPEAT == 0) {
            (Counter { mode, ..self }, false)
        } else if mode & MODE_IRQ_TOGGLE != 0 {
            let toggled = mode ^ MODE_IRQ_REQUEST;
            if toggled & MODE_IRQ_REQUEST != 0 {
                (Counter { mode: toggled, ..self }, false)
            } else {
                (Counter { mode: toggled, irq_fired: true, ..self }, true)
            }
        } else {
            (Counter { mode: mode & !MODE_IRQ_REQUEST, irq_fired: true, ..self }, true)
        }
    }

    /// The divisor of the system clock.
    pub open spec fn divisor(self, timer: TimerId) -> int {
        if timer.number() < 3 {
            if self.mode & MODE_LOW_PRESCALE_8 != 0 {
                8
            } else {
                1
            }
        } else {
            let selected = (self.mode as int / 0x2000) % 4;
            if selected == 0 {
                1
            } else if selected == 1 {
                8
            } else if selected == 2 {
                16
            } else {
                256
            }
        }
    }

    /// Clocks until the count next reaches its target or wraps.
    pub open spec fn distance(self, timer: TimerId) -> int {
        if self.target > self.count {
            self.target - self.count
        } else {
            timer.limit() - self.count + 1
        }
    }

    /// A run that has not begun.
    pub open spec fn begun(self) -> Run {
        Run { counter: self, events: Seq::empty(), requests: Seq::empty(), failed: false }
    }

    /// The state after the mode register was written: the count starts over.
    pub open spec fn mode_written(self, value: u16) -> Counter {
        Counter {
            mode: (value & MODE_WRITABLE) | MODE_IRQ_REQUEST,
            count: 0,
            prescale_remainder: 0,
            irq_fired: false,
            ..self
        }
    }

    /// The state after the mode register was read.
    pub open spec fn mode_cleared(self) -> Counter {
        Counter { mode: self.mode & !MODE_REACHED, ..self }
    }

    fn new() -> (result: Self)
        ensures
            result == Counter::at_reset(),
    {
        Self {
            count: 0,
            mode: MODE_IRQ_REQUEST,
            target: 0,
            prescale_remainder: 0,
            irq_fired: false,
            gate_level: false,
        }
    }

    fn running(self) -> (result: bool)
        ensures
            result == self.is_running(),
    {
        if self.mode & MODE_GATE_ENABLE == 0 {
            return true;
        }
        match (self.mode / 2) % 4 {
            0 => !self.gate_level,
            1 => self.gate_level,
            _ => true,
        }
    }

    fn boundary(&mut self, boundary: CounterBoundary) -> (result: bool)
        ensures
            *final(self) == old(self).bounded(boundary).0,
            result == old(self).bounded(boundary).1,
    {
        let (status, enabled): (u16, u16) = match boundary {
            CounterBoundary::Target => (MODE_REACHED_TARGET, MODE_IRQ_ON_TARGET),
            CounterBoundary::Overflow => (MODE_REACHED_OVERFLOW, MODE_IRQ_ON_OVERFLOW),
        };
        self.mode = self.mode | status;
        if self.mode & enabled == 0 || (self.irq_fired && self.mode & MODE_IRQ_REPEAT == 0) {
            return false;
        }
        if self.mode & MODE_IRQ_TOGGLE != 0 {
            self.mode = self.mode ^ MODE_IRQ_REQUEST;
            if self.mode & MODE_IRQ_REQUEST != 0 {
                return false;
            }
        } else {
            self.mode = self.mode & !MODE_IRQ_REQUEST;
        }
        self.irq_fired = true;
        true
    }
}

impl Run {
    /// The run after one boundary more.
    pub open spec fn with_boundary(self, timer: TimerId, boundary: CounterBoundary) -> Run {
        let (counter, requested) = self.counter.bounded(boundary);
        Run {
            counter,
            events: self.events.push(TimingEvent::Counter { timer, boundary }),
            requests: if requested {
                self.requests.push(timer.source())
            } else {
                self.requests
            },
            failed: self.failed,
        }
    }

    /// The run after the count reached `next`, which may be a target, a wrap, or both.
    pub open spec fn reached(self, timer: TimerId, next: u32) -> Run {
        let at_target = next == self.counter.target;
        let at_overflow = next == 0;
        let counted = Run { counter: Counter { count: next, ..self.counter }, ..self };
        let boundaries = (if at_target {
            1int
        } else {
            0
        }) + (if at_overflow {
            1int
        } else {
            0
        });
        if self.events.len() + boundaries > MAX_EVENTS_PER_ADVANCE && boundaries > 0 {
            Run { failed: true, ..counted }
        } else {
            let targeted = if at_target {
                counted.with_boundary(timer, CounterBoundary::Target).with_reset()
            } else {
                counted
            };
            if at_overflow {
                targeted.with_boundary(timer, CounterBoundary::Overflow)
            } else {
                targeted
            }
        }
    }

    /// The run after the count started over, if the counter does so on its target.
    pub open spec fn with_reset(self) -> Run {
        if self.counter.mode & MODE_RESET_ON_TARGET != 0 {
            Run { counter: Counter { count: 0, ..self.counter }, ..self }
        } else {
            self
        }
    }

    /// The run after one clock more. A run that failed stays.
    pub open spec fn next(self, timer: TimerId) -> Run {
        if self.failed {
            self
        } else {
            self.reached(
                timer,
                if self.counter.count == timer.limit() {
                    0
                } else {
                    (self.counter.count + 1) as u32
                },
            )
        }
    }

    /// The run after `clocks` clocks more.
    pub open spec fn advanced(self, timer: TimerId, clocks: nat) -> Run
        decreases clocks,
    {
        if clocks == 0 {
            self
        } else {
            self.advanced(timer, (clocks - 1) as nat).next(timer)
        }
    }
}

/// Advancing a run in two parts is advancing it once.
pub proof fn law_run_is_chunk_independent(run: Run, timer: TimerId, first: nat, second: nat)
    ensures
        run.advanced(timer, first + second) == run.advanced(timer, first).advanced(timer, second),
    decreases second,
{
    if second > 0 {
        law_run_is_chunk_independent(run, timer, first, (second - 1) as nat);
    }
}

/// A run that failed stays.
proof fn lemma_failed_stays(run: Run, timer: TimerId, clocks: nat)
    requires
        run.failed,
    ensures
        run.advanced(timer, clocks) == run,
    decreases clocks,
{
    if clocks > 0 {
        lemma_failed_stays(run, timer, (clocks - 1) as nat);
    }
}

/// Before the next boundary a counter only counts.
proof fn lemma_quiet(run: Run, timer: TimerId, clocks: nat)
    requires
        !run.failed,
        run.counter.wf(timer),
        clocks < run.counter.distance(timer),
    ensures
        run.advanced(timer, clocks) == (Run {
            counter: Counter { count: (run.counter.count + clocks) as u32, ..run.counter },
            ..run
        }),
    decreases clocks,
{
    if clocks > 0 {
        lemma_quiet(run, timer, (clocks - 1) as nat);
    }
}

/// At the end of its distance a counter reaches its target or wraps.
proof fn lemma_event(run: Run, timer: TimerId)
    requires
        !run.failed,
        run.counter.wf(timer),
    ensures
        run.advanced(timer, run.counter.distance(timer) as nat) == run.reached(
            timer,
            if run.counter.count + run.counter.distance(timer) > timer.limit() {
                0
            } else {
                (run.counter.count + run.counter.distance(timer)) as u32
            },
        ),
{
    let distance = run.counter.distance(timer);
    lemma_quiet(run, timer, (distance - 1) as nat);
    let last = run.advanced(timer, (distance - 1) as nat);
    let next: u32 = if last.counter.count == timer.limit() {
        0
    } else {
        (last.counter.count + 1) as u32
    };
    assert(run.advanced(timer, distance as nat) == last.reached(timer, next));
}

/// What was reported so far reached the observer and the sink.
pub open spec fn reported<S: InterruptSink, O: TimingObserver>(
    run: Run,
    sink: S,
    observer: O,
    sink_after: S,
    observer_after: O,
) -> bool {
    &&& chain(sink_takes::<S>(), sink, run.requests, sink_after)
    &&& chain(observer_sees::<O>(), observer, run.events, observer_after)
}

impl Counter {
    /// Runs the counter and reports its boundaries.
    fn advance<S: InterruptSink, O: TimingObserver>(
        &mut self,
        timer: TimerId,
        clocks: u64,
        sink: &mut S,
        observer: &mut O,
    ) -> (result: Result<(), TimerError>)
        requires
            old(self).wf(timer),
        ensures
            final(self).wf(timer),
            ({
                let run = old(self).begun().advanced(timer, clocks as nat);
                &&& *final(self) == run.counter
                &&& result == if run.failed {
                    Err(TimerError::EventLimit { timer, limit: MAX_EVENTS_PER_ADVANCE })
                } else {
                    Ok(())
                }
                &&& reported(run, *old(sink), *old(observer), *final(sink), *final(observer))
            }),
    {
        let mask: u32 = timer.width_mask();
        let mut ticks: u64 = clocks;
        let mut events: u64 = 0;
        let ghost start = self.begun();
        let ghost mut run = start;
        while ticks != 0
            invariant_except_break
                ticks <= clocks,
                events <= MAX_EVENTS_PER_ADVANCE,
                mask == timer.limit(),
                self.wf(timer),
                start == old(self).begun(),
                run == start.advanced(timer, (clocks - ticks) as nat),
                !run.failed,
                run.counter == *self,
                run.events.len() == events,
                reported(run, *old(sink), *old(observer), *sink, *observer),
            ensures
                self.wf(timer),
                start == old(self).begun(),
                run == start.advanced(timer, clocks as nat),
                !run.failed,
                run.counter == *self,
                reported(run, *old(sink), *old(observer), *sink, *observer),
            decreases ticks,
        {
            let distance: u64 = if self.target > self.count {
                u64::from(self.target - self.count)
            } else {
                u64::from(mask - self.count) + 1
            };
            if ticks < distance {
                proof {
                    lemma_quiet(run, timer, ticks as nat);
                    law_run_is_chunk_independent(
                        start,
                        timer,
                        (clocks - ticks) as nat,
                        ticks as nat,
                    );
                    run = run.advanced(timer, ticks as nat);
                }
                self.count = (u64::from(self.count) + ticks) as u32;
                break ;
            }
            let reach: u64 = u64::from(self.count) + distance;
            let next: u32 = if reach > u64::from(mask) {
                0
            } else {
                reach as u32
            };
            let ghost before = run;
            proof {
                lemma_event(run, timer);
                law_run_is_chunk_independent(
                    start,
                    timer,
                    (clocks - ticks) as nat,
                    distance as nat,
                );
                run = run.advanced(timer, distance as nat);
                assert(run == before.reached(timer, next));
            }
            ticks -= distance;
            self.count = next;
            let hit_target = next == self.target;
            let hit_overflow = next == 0;
            if hit_target {
                events += 1;
            }
            if hit_overflow {
                events += 1;
            }
            if events > MAX_EVENTS_PER_ADVANCE {
                proof {
                    lemma_failed_stays(run, timer, ticks as nat);
                    law_run_is_chunk_independent(
                        start,
                        timer,
                        (clocks - ticks) as nat,
                        ticks as nat,
                    );
                }
                return Err(TimerError::EventLimit { timer, limit: MAX_EVENTS_PER_ADVANCE });
            }
            let ghost counted = Run {
                counter: Counter { count: next, ..before.counter },
                ..before
            };
            let ghost mut between = counted;
            if hit_target {
                self.report(
                    timer,
                    CounterBoundary::Target,
                    sink,
                    observer,
                    Ghost(counted),
                    Ghost(*old(sink)),
                    Ghost(*old(observer)),
                );
                if self.mode & MODE_RESET_ON_TARGET != 0 {
                    self.count = 0;
                }
                proof {
                    between = counted.with_boundary(timer, CounterBoundary::Target).with_reset();
                }
            }
            if hit_overflow {
                self.report(
                    timer,
                    CounterBoundary::Overflow,
                    sink,
                    observer,
                    Ghost(between),
                    Ghost(*old(sink)),
                    Ghost(*old(observer)),
                );
            }
        }
        Ok(())
    }

    /// Reports one boundary.
    fn report<S: InterruptSink, O: TimingObserver>(
        &mut self,
        timer: TimerId,
        boundary: CounterBoundary,
        sink: &mut S,
        observer: &mut O,
        Ghost(run): Ghost<Run>,
        Ghost(first_sink): Ghost<S>,
        Ghost(first_observer): Ghost<O>,
    )
        requires
            run.counter == *old(self),
            reported(run, first_sink, first_observer, *old(sink), *old(observer)),
        ensures
            *final(self) == run.with_boundary(timer, boundary).counter,
            final(self).count == old(self).count,
            final(self).target == old(self).target,
            reported(
                run.with_boundary(timer, boundary),
                first_sink,
                first_observer,
                *final(sink),
                *final(observer),
            ),
    {
        let ghost sink_before = *sink;
        let ghost observer_before = *observer;
        let requested = self.boundary(boundary);
        let event = TimingEvent::Counter { timer, boundary };
        observer.observe(event);
        proof {
            lemma_chain_push(
                observer_sees::<O>(),
                first_observer,
                run.events,
                observer_before,
                event,
                *observer,
            );
        }
        if requested {
            sink.request(timer.interrupt());
            proof {
                lemma_chain_push(
                    sink_takes::<S>(),
                    first_sink,
                    run.requests,
                    sink_before,
                    timer.source(),
                    *sink,
                );
            }
        }
    }
}

/// Instance-owned set of all six IOP counters.
#[verifier::ext_equal]
#[derive(Clone, Copy, Debug, PartialEq, Eq)]
pub struct IopTimers {
    pub counters: [Counter; 6],
}

/// The counter, the register, and whether the high half of a register is selected.
pub open spec fn register_at(address: u32) -> Option<(TimerId, int, bool)> {
    let low = address - TIMER0_BASE;
    let high = address - TIMER3_BASE;
    if address % 2 != 0 || address % 16 > 10 {
        None
    } else if 0 <= low < 0x30 {
        Some((TimerId::numbered(low / 16), (low % 16) / 4, (low / 2) % 2 == 1))
    } else if 0 <= high < 0x30 {
        Some((TimerId::numbered(3 + high / 16), (high % 16) / 4, (high / 2) % 2 == 1))
    } else {
        None
    }
}

impl Counter {
    /// A register as it reads.
    pub open spec fn register_value(self, register: int) -> u32 {
        if register == 0 {
            self.count
        } else if register == 1 {
            self.mode as u32
        } else {
            self.target
        }
    }

    /// The state after a register was read; reading the low half of the mode clears
    /// its reached flags.
    pub open spec fn register_taken(self, register: int, high: bool) -> Counter {
        if register == 1 && !high {
            self.mode_cleared()
        } else {
            self
        }
    }

    /// The state after a word was written to a register.
    pub open spec fn register_written(self, timer: TimerId, register: int, value: u32) -> Counter {
        if register == 0 {
            Counter { count: timer.cut(value), ..self }
        } else if register == 1 {
            self.mode_written(low_half(value))
        } else {
            Counter { target: timer.cut(value), ..self }
        }
    }

    /// The state after a halfword was written to a register. The high half of the mode
    /// and of 16-bit registers is not writable.
    pub open spec fn half_written(
        self,
        timer: TimerId,
        register: int,
        high: bool,
        value: u16,
    ) -> Counter {
        if register == 1 {
            if high {
                self
            } else {
                self.mode_written(value)
            }
        } else {
            let before = self.register_value(register);
            let after = if !high {
                word_of(value, high_half(before))
            } else if timer.number() < 3 {
                before
            } else {
                word_of(low_half(before), value)
            };
            self.register_written(timer, register, after)
        }
    }

    /// Whether the system clock drives the counter now.
    pub open spec fn is_system_clocked(self) -> bool {
        self.mode & MODE_EXTERNAL_CLOCK == 0 && self.is_running()
    }

    /// The counter after `cycles` system clocks.
    pub open spec fn system_run(self, timer: TimerId, cycles: nat) -> Run {
        if !self.is_system_clocked() {
            self.begun()
        } else {
            let total = self.prescale_remainder + cycles;
            Counter {
                prescale_remainder: (total % self.divisor(timer)) as u16,
                ..self
            }.begun().advanced(timer, (total / self.divisor(timer)) as nat)
        }
    }

    /// The counter after `ticks` clocks of its external input.
    pub open spec fn external_run(self, timer: TimerId, ticks: nat) -> Run {
        if self.mode & MODE_EXTERNAL_CLOCK != 0 && self.is_running() {
            self.begun().advanced(timer, ticks)
        } else {
            self.begun()
        }
    }
}

/// All counters after some of them were advanced, in order.
#[verifier::ext_equal]
pub ghost struct Advanced {
    pub state: IopTimers,
    pub events: Seq<TimingEvent>,
    pub requests: Seq<InterruptSource>,
    pub result: Result<(), TimerError>,
}

impl Advanced {
    /// The outcome after counter `timer` was replaced by its run. After a failure
    /// nothing more runs.
    pub open spec fn with_run(self, timer: TimerId, run: Run) -> Advanced {
        if self.result is Err {
            self
        } else {
            Advanced {
                state: self.state.with_counter(timer, run.counter),
                events: self.events + run.events,
                requests: self.requests + run.requests,
                result: if run.failed {
                    Err(TimerError::EventLimit { timer, limit: MAX_EVENTS_PER_ADVANCE })
                } else {
                    Ok(())
                },
            }
        }
    }
}

impl Default for IopTimers {
    fn default() -> (result: Self)
        ensures
            result.wf(),
            result.at_reset(),
    {
        Self::new()
    }
}

impl IopTimers {
    /// Every counter fits its width.
    pub open spec fn wf(self) -> bool {
        forall|i: int| 0 <= i < 6 ==> (#[trigger] self.counters@[i]).wf(TimerId::numbered(i))
    }

    /// Reset state.
    pub open spec fn at_reset(self) -> bool {
        forall|i: int| 0 <= i < 6 ==> #[trigger] self.counters@[i] == Counter::at_reset()
    }

    /// A counter.
    pub open spec fn counter(self, timer: TimerId) -> Counter {
        self.counters@[timer.number()]
    }

    /// The state with one counter replaced.
    pub open spec fn with_counter(self, timer: TimerId, counter: Counter) -> IopTimers {
        IopTimers { counters: with(self.counters, timer.number(), counter) }
    }

    /// No prescaler total leaves `u64`.
    pub open spec fn can_advance(self, cycles: u64) -> bool {
        forall|i: int|
            0 <= i < 6 && (#[trigger] self.counters@[i]).is_system_clocked()
                ==> self.counters@[i].prescale_remainder + cycles <= u64::MAX
    }

    /// The outcome after the first `count` counters were advanced by system clocks.
    pub open spec fn advanced(self, cycles: u64, count: nat) -> Advanced
        decreases count,
    {
        if count == 0 {
            Advanced {
                state: self,
                events: Seq::empty(),
                requests: Seq::empty(),
                result: Ok(()),
            }
        } else {
            let timer = TimerId::numbered(count - 1);
            self.advanced(cycles, (count - 1) as nat).with_run(
                timer,
                self.counter(timer).system_run(timer, cycles as nat),
            )
        }
    }

    /// Constructs reset counter state.
    pub fn new() -> (result: Self)
        ensures
            result.wf(),
            result.at_reset(),
    {
        let counter = Counter::new();
        Self { counters: [counter, counter, counter, counter, counter, counter] }
    }

    /// Returns one counter value.
    pub fn count(&self, timer: TimerId) -> (result: u32)
        ensures
            result == self.counter(timer).count,
    {
        self.counters[timer.index()].count
    }

    /// Returns one target value.
    pub fn target(&self, timer: TimerId) -> (result: u32)
        ensures
            result == self.counter(timer).target,
    {
        self.counters[timer.index()].target
    }

    /// Returns one mode value without clearing reached flags.
    pub fn mode(&self, timer: TimerId) -> (result: u16)
        ensures
            result == self.counter(timer).mode,
    {
        self.counters[timer.index()].mode
    }

    /// Changes a gating signal for counters using a blanking gate.
    pub fn set_gate(&mut self, timer: TimerId, asserted: bool)
        requires
            old(self).wf(),
        ensures
            final(self).wf(),
            *final(self) == old(self).with_counter(
                timer,
                old(self).counter(timer).gated(asserted),
            ),
    {
        let mut counter: Counter = self.counters[timer.index()];
        let was_asserted = counter.gate_level;
        counter.gate_level = asserted;
        if counter.mode & MODE_GATE_ENABLE != 0 && was_asserted != asserted {
            let gate_mode: u16 = (counter.mode / 2) % 4;
            if (asserted && (gate_mode == 1 || gate_mode == 2)) || (!asserted && gate_mode == 3) {
                counter.count = 0;
            }
        }
        self.put(timer, counter);
    }

    /// Reads a 32-bit counter register.
    ///
    /// Reading a mode register clears its reached-target and reached-overflow
    /// flags after returning their previous values.
    pub fn read_u32(&mut self, address: u32) -> (result: Result<u32, TimerError>)
        requires
            old(self).wf(),
        ensures
            final(self).wf(),
            match register_at(address) {
                Some((timer, register, false)) => {
                    &&& result == Ok::<u32, TimerError>(
                        old(self).counter(timer).register_value(register),
                    )
                    &&& *final(self) == old(self).with_counter(
                        timer,
                        old(self).counter(timer).register_taken(register, false),
                    )
                },
                _ => {
                    &&& result == Err::<u32, TimerError>(TimerError::InvalidRegister { address })
                    &&& *final(self) == *old(self)
                },
            },
    {
        let (timer, register, high) = match decode_register(address) {
            Some(decoded) => decoded,
            None => {
                return Err(TimerError::InvalidRegister { address });
            },
        };
        if high {
            return Err(TimerError::InvalidRegister { address });
        }
        Ok(self.take(timer, register, false))
    }

    /// Writes a 32-bit counter register.
    pub fn write_u32(&mut self, address: u32, value: u32) -> (result: Result<(), TimerError>)
        requires
            old(self).wf(),
        ensures
            final(self).wf(),
            match register_at(address) {
                Some((timer, register, false)) => {
                    &&& result == Ok::<(), TimerError>(())
                    &&& *final(self) == old(self).with_counter(
                        timer,
                        old(self).counter(timer).register_written(timer, register, value),
                    )
                },
                _ => {
                    &&& result == Err::<(), TimerError>(TimerError::InvalidRegister { address })
                    &&& *final(self) == *old(self)
                },
            },
    {
        let (timer, register, high) = match decode_register(address) {
            Some(decoded) => decoded,
            None => {
                return Err(TimerError::InvalidRegister { address });
            },
        };
        if high {
            return Err(TimerError::InvalidRegister { address });
        }
        let mut counter: Counter = self.counters[timer.index()];
        match register {
            0 => {
                counter.count = timer.cut_to_width(value);
            },
            1 => {
                counter.mode = (halves(value).0 & MODE_WRITABLE) | MODE_IRQ_REQUEST;
                counter.count = 0;
                counter.prescale_remainder = 0;
                counter.irq_fired = false;
            },
            _ => {
                counter.target = timer.cut_to_width(value);
            },
        }
        self.put(timer, counter);
        Ok(())
    }

    /// Reads a counter-register halfword, including halves of 32-bit counters.
    pub fn read_u16(&mut self, address: u32) -> (result: Result<u16, TimerError>)
        requires
            old(self).wf(),
        ensures
            final(self).wf(),
            match register_at(address) {
                Some((timer, register, high)) => {
                    let value = old(self).counter(timer).register_value(register);
                    &&& result == Ok::<u16, TimerError>(
                        if high {
                            high_half(value)
                        } else {
                            low_half(value)
                        },
                    )
                    &&& *final(self) == old(self).with_counter(
                        timer,
                        old(self).counter(timer).register_taken(register, high),
                    )
                },
                None => {
                    &&& result == Err::<u16, TimerError>(TimerError::InvalidRegister { address })
                    &&& *final(self) == *old(self)
                },
            },
    {
        match decode_register(address) {
            Some((timer, register, high)) => {
                let (low_value, high_value) = halves(self.take(timer, register, high));
                Ok(
                    if high {
                        high_value
                    } else {
                        low_value
                    },
                )
            },
            None => Err(TimerError::InvalidRegister { address }),
        }
    }

    /// Writes a counter-register halfword, including halves of 32-bit counters.
    pub fn write_u16(&mut self, address: u32, value: u16) -> (result: Result<(), TimerError>)
        requires
            old(self).wf(),
        ensures
            final(self).wf(),
            match register_at(address) {
                Some((timer, register, high)) => {
                    &&& result == Ok::<(), TimerError>(())
                    &&& *final(self) == old(self).with_counter(
                        timer,
                        old(self).counter(timer).half_written(timer, register, high, value),
                    )
                },
                None => {
                    &&& result == Err::<(), TimerError>(TimerError::InvalidRegister { address })
                    &&& *final(self) == *old(self)
                },
            },
    {
        let (timer, register, high) = match decode_register(address) {
            Some(decoded) => decoded,
            None => {
                return Err(TimerError::InvalidRegister { address });
            },
        };
        let mut counter: Counter = self.counters[timer.index()];
        if register == 1 {
            if !high {
                counter.mode = (value & MODE_WRITABLE) | MODE_IRQ_REQUEST;
                counter.count = 0;
                counter.prescale_remainder = 0;
                counter.irq_fired = false;
            }
            self.put(timer, counter);
            return Ok(());
        }
        let before: u32 = if register == 0 {
            counter.count
        } else {
            counter.target
        };
        let (low_before, high_before) = halves(before);
        let after: u32 = timer.cut_to_width(
            if !high {
                join_halves(value, high_before)
            } else if timer.index() < 3 {
                before
            } else {
                join_halves(low_before, value)
            },
        );
        if register == 0 {
            counter.count = after;
        } else {
            counter.target = after;
        }
        self.put(timer, counter);
        Ok(())
    }

    /// Advances all system-clocked counters by IOP CPU cycles.
    ///
    /// A counter whose registers would produce excessive callbacks in one host
    /// operation stops with [`TimerError::EventLimit`]; the counters after it do not
    /// advance.
    pub fn advance_cpu<S: InterruptSink, O: TimingObserver>(
        &mut self,
        cycles: u64,
        sink: &mut S,
        observer: &mut O,
    ) -> (result: Result<(), TimerError>)
        requires
            old(self).wf(),
            old(self).can_advance(cycles),
        ensures
            final(self).wf(),
            ({
                let advanced = old(self).advanced(cycles, 6);
                &&& *final(self) == advanced.state
                &&& result == advanced.result
                &&& chain(sink_takes::<S>(), *old(sink), advanced.requests, *final(sink))
                &&& chain(
                    observer_sees::<O>(),
                    *old(observer),
                    advanced.events,
                    *final(observer),
                )
            }),
    {
        let mut index: usize = 0;
        while index < 6
            invariant
                index <= 6,
                self.wf(),
                old(self).wf(),
                old(self).can_advance(cycles),
                ({
                    let advanced = old(self).advanced(cycles, index as nat);
                    &&& *self == advanced.state
                    &&& advanced.result is Ok
                    &&& chain(sink_takes::<S>(), *old(sink), advanced.requests, *sink)
                    &&& chain(observer_sees::<O>(), *old(observer), advanced.events, *observer)
                }),
                forall|i: int|
                    index <= i < 6 ==> #[trigger] self.counters@[i] == old(self).counters@[i],
            decreases 6 - index,
        {
            let timer = TimerId::from_index(index);
            let mut counter: Counter = self.counters[index];
            let ghost before = old(self).advanced(cycles, index as nat);
            let ghost run = counter.system_run(timer, cycles as nat);
            let ghost sink_before = *sink;
            let ghost observer_before = *observer;
            let result = counter.advance_system(timer, cycles, sink, observer);
            self.put(timer, counter);
            proof {
                assert(old(self).advanced(cycles, (index + 1) as nat) == before.with_run(
                    timer,
                    run,
                ));
                lemma_chain_concat(
                    sink_takes::<S>(),
                    *old(sink),
                    before.requests,
                    sink_before,
                    run.requests,
                    *sink,
                );
                lemma_chain_concat(
                    observer_sees::<O>(),
                    *old(observer),
                    before.events,
                    observer_before,
                    run.events,
                    *observer,
                );
            }
            if let Err(error) = result {
                proof {
                    lemma_failure_stays(*old(self), cycles, (index + 1) as nat, 6);
                }
                return Err(error);
            }
            index += 1;
        }
        Ok(())
    }

    /// Advances an explicitly clocked counter input.
    ///
    /// Excessive callbacks stop the counter with [`TimerError::EventLimit`].
    pub fn advance_external<S: InterruptSink, O: TimingObserver>(
        &mut self,
        timer: TimerId,
        ticks: u64,
        sink: &mut S,
        observer: &mut O,
    ) -> (result: Result<(), TimerError>)
        requires
            old(self).wf(),
        ensures
            final(self).wf(),
            ({
                let run = old(self).counter(timer).external_run(timer, ticks as nat);
                &&& *final(self) == old(self).with_counter(timer, run.counter)
                &&& result == if run.failed {
                    Err(TimerError::EventLimit { timer, limit: MAX_EVENTS_PER_ADVANCE })
                } else {
                    Ok(())
                }
                &&& reported(run, *old(sink), *old(observer), *final(sink), *final(observer))
            }),
    {
        let mut counter: Counter = self.counters[timer.index()];
        assert(counter.wf(timer)) by {
            assert(self.counters@[timer.number()].wf(TimerId::numbered(timer.number())));
        }
        let mut result: Result<(), TimerError> = Ok(());
        if counter.mode & MODE_EXTERNAL_CLOCK != 0 && counter.running() {
            result = counter.advance(timer, ticks, sink, observer);
        }
        self.put(timer, counter);
        result
    }

    fn put(&mut self, timer: TimerId, counter: Counter)
        requires
            old(self).wf(),
            counter.wf(timer),
        ensures
            final(self).wf(),
            *final(self) == old(self).with_counter(timer, counter),
    {
        self.counters[timer.index()] = counter;
    }

    fn take(&mut self, timer: TimerId, register: usize, high: bool) -> (result: u32)
        requires
            old(self).wf(),
        ensures
            final(self).wf(),
            result == old(self).counter(timer).register_value(register as int),
            *final(self) == old(self).with_counter(
                timer,
                old(self).counter(timer).register_taken(register as int, high),
            ),
    {
        let mut counter: Counter = self.counters[timer.index()];
        assert(counter.wf(timer)) by {
            assert(self.counters@[timer.number()].wf(TimerId::numbered(timer.number())));
        }
        let value: u32 = match register {
            0 => counter.count,
            1 => u32::from(counter.mode),
            _ => counter.target,
        };
        if register == 1 && !high {
            counter.mode = counter.mode & !MODE_REACHED;
        }
        self.put(timer, counter);
        value
    }
}

impl Counter {
    fn advance_system<S: InterruptSink, O: TimingObserver>(
        &mut self,
        timer: TimerId,
        cycles: u64,
        sink: &mut S,
        observer: &mut O,
    ) -> (result: Result<(), TimerError>)
        requires
            old(self).wf(timer),
            old(self).is_system_clocked() ==> old(self).prescale_remainder + cycles <= u64::MAX,
        ensures
            final(self).wf(timer),
            ({
                let run = old(self).system_run(timer, cycles as nat);
                &&& *final(self) == run.counter
                &&& result == if run.failed {
                    Err(TimerError::EventLimit { timer, limit: MAX_EVENTS_PER_ADVANCE })
                } else {
                    Ok(())
                }
                &&& reported(run, *old(sink), *old(observer), *final(sink), *final(observer))
            }),
    {
        if self.mode & MODE_EXTERNAL_CLOCK != 0 || !self.running() {
            return Ok(());
        }
        let divisor: u64 = prescale(timer, self.mode);
        let total: u64 = u64::from(self.prescale_remainder) + cycles;
        self.prescale_remainder = (total % divisor) as u16;
        self.advance(timer, total / divisor, sink, observer)
    }
}

proof fn lemma_failure_stays(timers: IopTimers, cycles: u64, early: nat, late: nat)
    requires
        early <= late,
        timers.advanced(cycles, early).result is Err,
    ensures
        timers.advanced(cycles, late) == timers.advanced(cycles, early),
    decreases late - early,
{
    if early < late {
        lemma_failure_stays(timers, cycles, early, (late - 1) as nat);
    }
}

fn prescale(timer: TimerId, mode: u16) -> (result: u64)
    ensures
        forall|counter: Counter|
            counter.mode == mode ==> #[trigger] counter.divisor(timer) == result,
        1 <= result <= 256,
{
    match timer {
        TimerId::Timer0 | TimerId::Timer1 | TimerId::Timer2 => if mode & MODE_LOW_PRESCALE_8 != 0 {
            8
        } else {
            1
        },
        TimerId::Timer3 | TimerId::Timer4 | TimerId::Timer5 => match (mode / 0x2000) % 4 {
            0 => 1,
            1 => 8,
            2 => 16,
            _ => 256,
        },
    }
}

fn decode_register(address: u32) -> (result: Option<(TimerId, usize, bool)>)
    ensures
        match result {
            Some((timer, register, high)) => register_at(address) == Some(
                (timer, register as int, high),
            ) && register < 3,
            None => register_at(address) is None,
        },
{
    if address % 2 != 0 || address % 16 > 10 {
        return None;
    }
    if address >= TIMER0_BASE && address - TIMER0_BASE < 0x30 {
        let offset: u32 = address - TIMER0_BASE;
        Some(
            (
                TimerId::from_index((offset / 16) as usize),
                ((offset % 16) / 4) as usize,
                (offset / 2) % 2 == 1,
            ),
        )
    } else if address >= TIMER3_BASE && address - TIMER3_BASE < 0x30 {
        let offset: u32 = address - TIMER3_BASE;
        Some(
            (
                TimerId::from_index(3 + (offset / 16) as usize),
                ((offset % 16) / 4) as usize,
                (offset / 2) % 2 == 1,
            ),
        )
    } else {
        None
    }
}

/// Deterministic start/end `VBlank` event source.
///
/// Time is counted in units of which a frame has a whole number, so no fraction of a
/// cycle is ever lost.
#[derive(Clone, Copy, Debug, PartialEq, Eq, Structural)]
pub struct RefreshClock {
    pub standard: VideoStandard,
    pub phase_units: u64,
    pub in_vblank: bool,
}

impl VideoStandard {
    /// Units in a CPU cycle.
    pub open spec fn cycle_units(self) -> int {
        match self {
            VideoStandard::Ntsc => 60_000,
            VideoStandard::Pal => 50,
        }
    }

    /// Units in a frame.
    pub open spec fn frame_units(self) -> int {
        match self {
            VideoStandard::Ntsc => 36_900_864_000,
            VideoStandard::Pal => 36_864_000,
        }
    }

    /// Units from the start of a frame to vertical blank, which is its last tenth.
    pub open spec fn blank_units(self) -> int {
        self.frame_units() - self.frame_units() / 10
    }

    /// Boundaries from the start of a frame up to `units` later: each frame has one
    /// start and one end of vertical blank.
    pub open spec fn boundaries(self, units: int) -> int {
        2 * (units / self.frame_units()) + if units % self.frame_units() >= self.blank_units() {
            1int
        } else {
            0
        }
    }
}

/// The boundary with a number: starts and ends of vertical blank alternate.
pub open spec fn boundary_event(number: int) -> TimingEvent {
    if number % 2 == 0 {
        TimingEvent::VBlankStart
    } else {
        TimingEvent::VBlankEnd
    }
}

/// The interrupt source of the boundary with a number.
pub open spec fn boundary_source(number: int) -> InterruptSource {
    if number % 2 == 0 {
        InterruptSource::VBlank
    } else {
        InterruptSource::VBlankEnd
    }
}

/// The events of the boundaries from `first` up to `last`.
pub open spec fn boundary_events(first: int, last: int) -> Seq<TimingEvent> {
    Seq::new((last - first) as nat, |i: int| boundary_event(first + i))
}

/// The interrupt sources of the boundaries from `first` up to `last`.
pub open spec fn boundary_sources(first: int, last: int) -> Seq<InterruptSource> {
    Seq::new((last - first) as nat, |i: int| boundary_source(first + i))
}

impl RefreshClock {
    /// The phase lies in a frame, and vertical blank follows from it.
    pub open spec fn wf(self) -> bool {
        &&& self.phase_units < self.standard.frame_units()
        &&& self.in_vblank == (self.phase_units >= self.standard.blank_units())
    }

    /// The clock at `units` after the start of a frame.
    pub open spec fn at(self, units: int) -> RefreshClock {
        let phase = units % self.standard.frame_units();
        RefreshClock {
            phase_units: phase as u64,
            in_vblank: phase >= self.standard.blank_units(),
            ..self
        }
    }

    /// Units from the start of the present frame to `cycles` from now.
    pub open spec fn position(self, cycles: int) -> int {
        self.phase_units + cycles * self.standard.cycle_units()
    }

    /// Constructs a refresh clock at the selected video standard.
    pub fn new(standard: VideoStandard) -> (result: Self)
        ensures
            result == (RefreshClock { standard, phase_units: 0, in_vblank: false }),
            result.wf(),
    {
        Self { standard, phase_units: 0, in_vblank: false }
    }

    /// Returns the selected standard.
    pub fn standard(&self) -> (result: VideoStandard)
        ensures
            result == self.standard,
    {
        self.standard
    }

    /// Reports whether the refresh source is currently in `VBlank`.
    pub fn in_vblank(&self) -> (result: bool)
        ensures
            result == self.in_vblank,
    {
        self.in_vblank
    }

    /// Advances refresh time and emits start before end for crossed boundaries.
    ///
    /// No number of cycles overflows the phase.
    pub fn advance<S: InterruptSink, O: TimingObserver>(
        &mut self,
        cycles: u64,
        sink: &mut S,
        observer: &mut O,
    ) -> (result: Result<(), TimerError>)
        requires
            old(self).wf(),
        ensures
            final(self).wf(),
            result == Ok::<(), TimerError>(()),
            ({
                let end = old(self).position(cycles as int);
                let first = old(self).standard.boundaries(old(self).phase_units as int);
                let last = old(self).standard.boundaries(end);
                &&& *final(self) == old(self).at(end)
                &&& chain(
                    sink_takes::<S>(),
                    *old(sink),
                    boundary_sources(first, last),
                    *final(sink),
                )
                &&& chain(
                    observer_sees::<O>(),
                    *old(observer),
                    boundary_events(first, last),
                    *final(observer),
                )
            }),
    {
        let (cycle_units, frame_units): (u64, u64) = match self.standard {
            VideoStandard::Ntsc => (60_000, CPU_HZ * 1_001),
            VideoStandard::Pal => (50, CPU_HZ),
        };
        let blank_start: u64 = frame_units - frame_units / 10;
        let ghost standard = self.standard;
        let ghost end = self.position(cycles as int);
        let ghost first = standard.boundaries(self.phase_units as int);
        let ghost mut frame: int = 0;
        let ghost mut last: int = first;
        proof {
            assert(0 <= cycles * cycle_units <= 0xffff_ffff_ffff_ffff * 60_000) by (nonlinear_arith)
                requires
                    0 <= cycles <= 0xffff_ffff_ffff_ffff,
                    0 <= cycle_units <= 60_000,
            ;
            assert(boundary_events(first, first) =~= Seq::empty());
            assert(boundary_sources(first, first) =~= Seq::empty());
        }
        let mut remaining: u128 = cycles as u128 * cycle_units as u128;
        while remaining != 0
            invariant_except_break
                self.wf(),
                self.standard == standard,
                standard == old(self).standard,
                frame_units == standard.frame_units(),
                blank_start == standard.blank_units(),
                end == old(self).position(cycles as int),
                first == standard.boundaries(old(self).phase_units as int),
                0 <= frame,
                end - remaining == frame * frame_units + self.phase_units,
                last == 2 * frame + if self.in_vblank {
                    1int
                } else {
                    0
                },
                first <= last,
                chain(sink_takes::<S>(), *old(sink), boundary_sources(first, last), *sink),
                chain(
                    observer_sees::<O>(),
                    *old(observer),
                    boundary_events(first, last),
                    *observer,
                ),
            ensures
                self.wf(),
                self.standard == standard,
                end == frame * frame_units + self.phase_units,
                last == 2 * frame + if self.in_vblank {
                    1int
                } else {
                    0
                },
                chain(sink_takes::<S>(), *old(sink), boundary_sources(first, last), *sink),
                chain(
                    observer_sees::<O>(),
                    *old(observer),
                    boundary_events(first, last),
                    *observer,
                ),
            decreases remaining,
        {
            let boundary: u64 = if self.in_vblank {
                frame_units
            } else {
                blank_start
            };
            let distance: u64 = boundary - self.phase_units;
            if remaining < distance as u128 {
                self.phase_units = self.phase_units + remaining as u64;
                break ;
            }
            remaining -= distance as u128;
            let ghost sink_before = *sink;
            let ghost observer_before = *observer;
            let ghost before = last;
            if self.in_vblank {
                self.phase_units = 0;
                self.in_vblank = false;
                observer.observe(TimingEvent::VBlankEnd);
                sink.request(InterruptSource::VBlankEnd);
                proof {
                    assert((frame + 1) * frame_units == frame * frame_units + frame_units)
                        by (nonlinear_arith);
                    frame = frame + 1;
                }
            } else {
                self.phase_units = blank_start;
                self.in_vblank = true;
                observer.observe(TimingEvent::VBlankStart);
                sink.request(InterruptSource::VBlank);
            }
            proof {
                last = last + 1;
                lemma_chain_push(
                    sink_takes::<S>(),
                    *old(sink),
                    boundary_sources(first, before),
                    sink_before,
                    boundary_source(before),
                    *sink,
                );
                lemma_chain_push(
                    observer_sees::<O>(),
                    *old(observer),
                    boundary_events(first, before),
                    observer_before,
                    boundary_event(before),
                    *observer,
                );
                assert(boundary_sources(first, before).push(boundary_source(before))
                    =~= boundary_sources(first, last));
                assert(boundary_events(first, before).push(boundary_event(before))
                    =~= boundary_events(first, last));
            }
        }
        proof {
            vstd::arithmetic::div_mod::lemma_fundamental_div_mod_converse(
                end,
                frame_units as int,
                frame,
                self.phase_units as int,
            );
        }
        Ok(())
    }
}

/// Advancing refresh time in two parts reports the boundaries of advancing it once, in
/// the same order, and leaves the same phase.
pub proof fn law_refresh_is_chunk_independent(clock: RefreshClock, first: nat, second: nat)
    requires
        clock.wf(),
    ensures
        ({
            let standard = clock.standard;
            let start = clock.phase_units as int;
            let begun = clock.at(clock.position(first as int));
            let middle = clock.position(first as int);
            let end = clock.position((first + second) as int);
            let frames = 2 * (middle / standard.frame_units());
            &&& begun.wf()
            &&& begun.at(begun.position(second as int)) == clock.at(end)
            &&& standard.boundaries(middle) - standard.boundaries(start) + (standard.boundaries(
                begun.position(second as int),
            ) - standard.boundaries(begun.phase_units as int)) == standard.boundaries(end)
                - standard.boundaries(start)
            &&& standard.boundaries(middle) == frames + standard.boundaries(
                begun.phase_units as int,
            )
        }),
{
    let standard = clock.standard;
    let units = standard.cycle_units();
    let frame = standard.frame_units();
    let middle = clock.position(first as int);
    let end = clock.position((first + second) as int);
    let begun = clock.at(middle);
    let later = begun.position(second as int);
    assert((first + second) * units == first * units + second * units) by (nonlinear_arith);
    assert(0 <= first * units && 0 <= second * units) by (nonlinear_arith)
        requires
            units > 0,
            first >= 0,
            second >= 0,
    ;
    let whole = middle / frame;
    vstd::arithmetic::div_mod::lemma_fundamental_div_mod(middle, frame);
    vstd::arithmetic::div_mod::lemma_fundamental_div_mod(later, frame);
    assert(end == frame * whole + later);
    assert(frame * whole + frame * (later / frame) == frame * (whole + later / frame))
        by (nonlinear_arith);
    assert(frame * (whole + later / frame) == (whole + later / frame) * frame) by (nonlinear_arith);
    vstd::arithmetic::div_mod::lemma_fundamental_div_mod_converse(
        end,
        frame,
        whole + later / frame,
        later % frame,
    );
}

/// Refresh has no drift: after a whole number of frames from the start there have been
/// exactly two boundaries for each, and the clock is at the start of a frame. NTSC has
/// exactly 60000 frames in 1001 seconds, and PAL has exactly 50 in one.
pub proof fn law_refresh_has_no_drift(standard: VideoStandard, frames: nat)
    ensures
        standard.boundaries((frames * standard.frame_units()) as int) == 2 * frames,
        (frames * standard.frame_units()) % standard.frame_units() == 0,
        match standard {
            VideoStandard::Ntsc => 60_000 * standard.frame_units() == 1_001 * CPU_HZ
                * standard.cycle_units(),
            VideoStandard::Pal => 50 * standard.frame_units() == CPU_HZ * standard.cycle_units(),
        },
{
    let frame = standard.frame_units();
    let total = frames * frame;
    vstd::arithmetic::div_mod::lemma_fundamental_div_mod_converse(
        total as int,
        frame,
        frames as int,
        0,
    );
}

proof fn lemma_reached_bits(mode: u16)
    by (bit_vector)
    ensures
        (mode | MODE_REACHED_TARGET) & MODE_IRQ_REPEAT == mode & MODE_IRQ_REPEAT,
        (mode | MODE_REACHED_OVERFLOW) & MODE_IRQ_REPEAT == mode & MODE_IRQ_REPEAT,
        (mode ^ MODE_IRQ_REQUEST) & MODE_IRQ_REPEAT == mode & MODE_IRQ_REPEAT,
        (mode & !MODE_IRQ_REQUEST) & MODE_IRQ_REPEAT == mode & MODE_IRQ_REPEAT,
        (mode & !MODE_REACHED) & MODE_REACHED == 0,
        (mode & !MODE_REACHED) & MODE_WRITABLE == mode & MODE_WRITABLE,
{
}

proof fn lemma_boundary_keeps_repeat(counter: Counter, boundary: CounterBoundary)
    ensures
        counter.bounded(boundary).0.mode & MODE_IRQ_REPEAT == counter.mode & MODE_IRQ_REPEAT,
{
    lemma_reached_bits(counter.mode);
    lemma_reached_bits(counter.mode | MODE_REACHED_TARGET);
    lemma_reached_bits(counter.mode | MODE_REACHED_OVERFLOW);
}

/// A one-shot counter requests at most one interrupt until its mode is written again.
pub proof fn law_one_shot_requests_once(counter: Counter, timer: TimerId, clocks: nat)
    requires
        counter.mode & MODE_IRQ_REPEAT == 0,
    ensures
        ({
            let run = counter.begun().advanced(timer, clocks);
            &&& run.requests.len() <= 1
            &&& run.requests.len() == 1 || counter.irq_fired ==> run.counter.irq_fired
            &&& counter.irq_fired ==> run.requests.len() == 0
            &&& run.counter.mode & MODE_IRQ_REPEAT == 0
        }),
    decreases clocks,
{
    if clocks > 0 {
        law_one_shot_requests_once(counter, timer, (clocks - 1) as nat);
        let before = counter.begun().advanced(timer, (clocks - 1) as nat);
        if !before.failed {
            let next: u32 = if before.counter.count == timer.limit() {
                0
            } else {
                (before.counter.count + 1) as u32
            };
            let counted = Run {
                counter: Counter { count: next, ..before.counter },
                ..before
            };
            lemma_boundary_keeps_repeat(counted.counter, CounterBoundary::Target);
            lemma_boundary_keeps_repeat(counted.counter, CounterBoundary::Overflow);
            let targeted = counted.with_boundary(timer, CounterBoundary::Target).with_reset();
            lemma_boundary_keeps_repeat(targeted.counter, CounterBoundary::Overflow);
            lemma_reached_bits(counted.counter.mode);
            lemma_reached_bits(targeted.counter.mode);
            assert(before.next(timer) == before.reached(timer, next));
        }
    }
}

/// A run never reports more boundaries than the limit.
pub proof fn law_events_are_bounded(counter: Counter, timer: TimerId, clocks: nat)
    ensures
        counter.begun().advanced(timer, clocks).events.len() <= MAX_EVENTS_PER_ADVANCE,
    decreases clocks,
{
    if clocks > 0 {
        law_events_are_bounded(counter, timer, (clocks - 1) as nat);
    }
}

/// Reading the mode register clears its reached flags and nothing else.
pub proof fn law_mode_read_clears_reached_flags(counter: Counter)
    ensures
        counter.mode_cleared().mode & MODE_REACHED == 0,
        counter.mode_cleared() == (Counter { mode: counter.mode_cleared().mode, ..counter }),
        counter.mode_cleared().mode & MODE_WRITABLE == counter.mode & MODE_WRITABLE,
{
    lemma_reached_bits(counter.mode);
}

/// The counters are independent: a register write reaches one counter only.
pub proof fn law_counters_are_independent(
    timers: IopTimers,
    timer: TimerId,
    other: TimerId,
    counter: Counter,
)
    requires
        timer != other,
    ensures
        timers.with_counter(timer, counter).counter(other) == timers.counter(other),
        timers.with_counter(timer, counter).counter(timer) == counter,
        timer.source() != other.source(),
{
}

} // verus!
