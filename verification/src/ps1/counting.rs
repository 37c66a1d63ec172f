//! How the PS1 root counters count, and how its interrupt controller latches.

use vstd::prelude::*;

use crate::bits::{bit, lemma_bits, lemma_cleared_half};
use crate::clock::Ticks;
use crate::ps1::irq::{InterruptController, InterruptSource};
use crate::ps1::timers::{
    register_at, ClockInput, Counter, RootCounters, Run, TimerId, TimerRegister, VideoStandard,
};

verus! {

/// Bit `index` of a mode register.
pub open spec fn mode_bit(counter: Counter, index: int) -> bool {
    bit(counter.mode as u32, index)
}

proof fn lemma_mode(mode: u16)
    ensures
        mode & 0x001 != 0 <==> bit(mode as u32, 0),
        mode & 0x008 != 0 <==> bit(mode as u32, 3),
        mode & 0x010 != 0 <==> bit(mode as u32, 4),
        mode & 0x020 != 0 <==> bit(mode as u32, 5),
        mode & 0x040 != 0 <==> bit(mode as u32, 6),
        mode & 0x080 != 0 <==> bit(mode as u32, 7),
        mode & 0x100 != 0 <==> bit(mode as u32, 8),
        mode & 0x200 != 0 <==> bit(mode as u32, 9),
{
    vstd::arithmetic::power2::lemma2_to64();
    lemma_bits(mode as u32, 0, 0, 0);
    lemma_bits(mode as u32, 0, 3, 3);
    lemma_bits(mode as u32, 0, 4, 4);
    lemma_bits(mode as u32, 0, 5, 5);
    lemma_bits(mode as u32, 0, 6, 6);
    lemma_bits(mode as u32, 0, 7, 7);
    lemma_bits(mode as u32, 0, 8, 8);
    lemma_bits(mode as u32, 0, 9, 9);
}

proof fn lemma_flags(mode: u16, index: int)
    requires
        0 <= index < 16,
    ensures
        bit((mode | 0x800) as u32, index) <==> bit(mode as u32, index) || index == 11,
        bit((mode | 0x1000) as u32, index) <==> bit(mode as u32, index) || index == 12,
        bit((mode | 0x400) as u32, index) <==> bit(mode as u32, index) || index == 10,
{
    vstd::arithmetic::power2::lemma2_to64();
    let wide = mode as u32;
    lemma_bits(wide, 0x800, index, 11);
    lemma_bits(0, 0, 11, 11);
    lemma_bits(wide, 0x1000, index, 12);
    lemma_bits(0, 0, 12, 12);
    lemma_bits(wide, 0x400, index, 10);
    lemma_bits(0, 0, 10, 10);
    assert((mode | 0x800) as u32 == wide | 0x800u32);
    assert((mode | 0x1000) as u32 == wide | 0x1000u32);
    assert((mode | 0x400) as u32 == wide | 0x400u32);
}

/// One clock of a counter that nothing holds: the count moves on by one, modulo 2^16, or to
/// zero from the target where mode bit 3 says so. Reaching the target sets mode bit 11 and
/// wrapping sets bit 12. Bits 4 and 5 turn these two into interrupts, the first one only
/// unless bit 6 is set; with bit 7 set only every other one is requested.
pub proof fn law_clock(counter: Counter, id: TimerId)
    requires
        !counter.settled().is_paused(id),
    ensures
        ({
            let (after, requested) = counter.clocked(id);
            let next = (counter.value + 1) % 0x1_0000;
            let at_target = next == counter.target;
            let wraps = next == 0;
            let due = (at_target && mode_bit(counter, 4)) || (wraps && mode_bit(counter, 5));
            let heard = due && (mode_bit(counter, 6) || !counter.irq_fired);
            let high = counter.irq_request_high || counter.pulse_pending;
            &&& after.value == if at_target && mode_bit(counter, 3) {
                0
            } else {
                next
            }
            &&& after.target == counter.target
            &&& mode_bit(after, 11) <==> mode_bit(counter, 11) || at_target
            &&& mode_bit(after, 12) <==> mode_bit(counter, 12) || wraps
            &&& forall|index: int|
                0 <= index < 10 ==> (#[trigger] mode_bit(after, index) <==> mode_bit(
                    counter,
                    index,
                ))
            &&& requested <==> heard && (!mode_bit(counter, 7) || high)
            &&& after.irq_fired <==> counter.irq_fired || heard
            &&& after.irq_request_high <==> if !heard {
                high
            } else {
                mode_bit(counter, 7) && !high
            }
            &&& after.pulse_pending <==> heard && !mode_bit(counter, 7)
            &&& after.blank == counter.blank
            &&& after.divider_remainder == counter.divider_remainder
            &&& after.sync_started == counter.sync_started
        }),
{
    let mode = counter.mode;
    lemma_mode(mode);
    lemma_mode(mode | 0x800);
    lemma_mode(mode | 0x1000);
    lemma_mode((mode | 0x800) | 0x1000);
    let (after, requested) = counter.clocked(id);
    assert forall|index: int| 0 <= index < 13 && index != 10 implies (#[trigger] mode_bit(
        after,
        index,
    ) <==> mode_bit(counter, index) || (index == 11 && (counter.value + 1) % 0x1_0000
        == counter.target) || (index == 12 && (counter.value + 1) % 0x1_0000 == 0)) by {
        lemma_flags(mode, index);
        lemma_flags(mode | 0x800, index);
        lemma_flags(mode, 3);
        lemma_flags(mode, 4);
        lemma_flags(mode, 5);
        lemma_flags(mode | 0x800, 4);
        lemma_flags(mode | 0x800, 5);
    }
    lemma_flags(mode, 3);
    lemma_flags(mode, 4);
    lemma_flags(mode, 5);
    lemma_flags(mode, 6);
    lemma_flags(mode, 7);
    lemma_flags(mode | 0x800, 4);
    lemma_flags(mode | 0x800, 5);
    lemma_flags(mode | 0x800, 6);
    lemma_flags(mode | 0x800, 7);
    assert(mode_bit(after, 11) <==> mode_bit(counter, 11) || (counter.value + 1) % 0x1_0000
        == counter.target);
    assert(mode_bit(after, 12) <==> mode_bit(counter, 12) || (counter.value + 1) % 0x1_0000 == 0);
}

/// Mode bit 0 turns on the synchronization that bits 1 and 2 select. The first two counters
/// pause during the blanking, never, outside it, or until it was first seen; the third one
/// stands still with the first and the last and runs with the others.
pub proof fn law_pauses(counter: Counter, id: TimerId)
    ensures
        ({
            let select = (counter.mode as int / 2) % 4;
            counter.is_paused(id) <==> mode_bit(counter, 0) && if id == TimerId::Timer2 {
                select == 0 || select == 3
            } else {
                ||| select == 0 && counter.blank
                ||| select == 2 && !counter.blank
                ||| select == 3 && !counter.sync_started
            }
        }),
        !mode_bit(counter, 0) ==> !counter.settled().is_paused(id),
        counter.is_paused(id) && !counter.pulse_pending ==> counter.clocked(id) == (counter, false),
{
    lemma_mode(counter.mode);
}

/// The start of the blanking resets a counter that synchronization resets at it, and starts
/// one that waits for it; the end of it changes nothing else.
pub proof fn law_blanking(counter: Counter, id: TimerId, asserted: bool)
    ensures
        ({
            let select = (counter.mode as int / 2) % 4;
            let after = counter.with_blank(id, asserted);
            let edge = asserted && !counter.blank && mode_bit(counter, 0) && id
                != TimerId::Timer2;
            after == (Counter {
                blank: asserted,
                value: if edge && (select == 1 || select == 2) {
                    0
                } else {
                    counter.value
                },
                sync_started: counter.sync_started || (edge && select == 3),
                ..counter
            })
        }),
{
    lemma_mode(counter.mode);
}

/// A counter without synchronization or reset counts all clocks, modulo 2^16.
pub proof fn law_counts_freely(counter: Counter, id: TimerId, clocks: nat)
    requires
        !mode_bit(counter, 0),
        !mode_bit(counter, 3),
    ensures
        counter.run(id, clocks).counter.value == (counter.value + clocks) % 0x1_0000,
        !mode_bit(counter.run(id, clocks).counter, 0),
        !mode_bit(counter.run(id, clocks).counter, 3),
    decreases clocks,
{
    if clocks > 0 {
        let before = (clocks - 1) as nat;
        law_counts_freely(counter, id, before);
        let so_far = counter.run(id, before).counter;
        law_pauses(so_far, id);
        law_clock(so_far, id);
        assert(((counter.value + before) % 0x1_0000 + 1) % 0x1_0000 == (counter.value + clocks)
            % 0x1_0000);
    }
}

/// A counter that is reset at its target has the target as its period, and with pulsed
/// repeated interrupts at the target requests one of them in each period.
pub proof fn law_target_is_the_period(counter: Counter, id: TimerId, periods: nat, rest: nat)
    requires
        !mode_bit(counter, 0),
        mode_bit(counter, 3),
        mode_bit(counter, 4),
        mode_bit(counter, 6),
        !mode_bit(counter, 7),
        counter.value == 0,
        rest < counter.target,
    ensures
        ({
            let run = counter.run(id, periods * counter.target as nat + rest);
            &&& run.counter.value == rest
            &&& run.counter.target == counter.target
            &&& run.requests == periods
            &&& !mode_bit(run.counter, 0)
            &&& mode_bit(run.counter, 3)
            &&& mode_bit(run.counter, 4)
            &&& mode_bit(run.counter, 6)
            &&& !mode_bit(run.counter, 7)
        }),
    decreases periods, rest,
{
    let clocks = periods * counter.target as nat + rest;
    if rest > 0 {
        law_target_is_the_period(counter, id, periods, (rest - 1) as nat);
        let before = counter.run(id, (clocks - 1) as nat).counter;
        law_pauses(before, id);
        law_clock(before, id);
    } else if periods > 0 {
        let earlier = (periods - 1) as nat;
        law_target_is_the_period(counter, id, earlier, (counter.target - 1) as nat);
        assert(clocks - 1 == earlier * counter.target as nat + (counter.target - 1))
            by (nonlinear_arith)
            requires
                clocks == periods * counter.target as nat,
                earlier == periods - 1,
        ;
        let before = counter.run(id, (clocks - 1) as nat).counter;
        law_pauses(before, id);
        law_clock(before, id);
    } else {
        assert(clocks == 0) by (nonlinear_arith)
            requires
                clocks == periods * counter.target as nat + rest,
                periods == 0,
                rest == 0,
        ;
    }
}

/// Mode bit 8 takes the first two counters from the system clock to their own input; bit 9
/// lets the third one count every eighth system clock, with what is left over kept.
pub proof fn law_clock_sources(counter: Counter, id: TimerId, ticks: nat, whole: nat, left: nat)
    requires
        counter.divider_remainder < 8,
        8 * whole + left == counter.divider_remainder + ticks,
        left < 8,
    ensures
        id != TimerId::Timer2 && mode_bit(counter, 8) ==> counter.system_run(id, ticks) == (Run {
            counter,
            requests: 0,
        }) && counter.alternative_run(id, ticks) == counter.run(id, ticks),
        id != TimerId::Timer2 && !mode_bit(counter, 8) ==> counter.system_run(id, ticks)
            == counter.run(id, ticks) && counter.alternative_run(id, ticks) == (Run {
            counter,
            requests: 0,
        }),
        id == TimerId::Timer2 && !mode_bit(counter, 9) ==> counter.system_run(id, ticks)
            == counter.run(id, ticks),
        id == TimerId::Timer2 && mode_bit(counter, 9) ==> counter.system_run(id, ticks) == (
        Counter { divider_remainder: left as u8, ..counter }).run(id, whole),
{
    lemma_mode(counter.mode);
    let total = counter.divider_remainder + ticks;
    assert(total / 8 == whole && total % 8 == left);
}

/// The registers of counter `index` are at `0x1f80_1100 + 16 * index`: the count, the mode
/// four bytes on and the target another four. Writing the mode starts the count over.
pub proof fn law_counter_registers(counter: Counter, index: int, value: u16)
    requires
        0 <= index < 3,
    ensures
        ({
            let id = if index == 0 {
                TimerId::Timer0
            } else if index == 1 {
                TimerId::Timer1
            } else {
                TimerId::Timer2
            };
            let base = 0x1f80_1100 + 16 * index;
            &&& register_at(base as u32) == Some((id, TimerRegister::Counter))
            &&& register_at((base + 4) as u32) == Some((id, TimerRegister::Mode))
            &&& register_at((base + 8) as u32) == Some((id, TimerRegister::Target))
            &&& register_at((base + 12) as u32) is None
        }),
        counter.register_written(TimerRegister::Counter, value) == (Counter { value, ..counter }),
        counter.register_written(TimerRegister::Target, value) == (Counter {
            target: value,
            ..counter
        }),
        ({
            let after = counter.register_written(TimerRegister::Mode, value);
            &&& after.value == 0
            &&& after.target == counter.target
            &&& !after.irq_fired
            &&& after.irq_request_high
            &&& !after.pulse_pending
            &&& !after.sync_started
            &&& after.divider_remainder == 0
            &&& after.mode == value as int % 0x400
        }),
{
    crate::ps1::timers::lemma_writable(value);
}

/// The mode register reads with bit 10 set while no interrupt is requested, and reading it
/// clears bits 11 and 12.
pub proof fn law_mode_reads(counter: Counter, index: int)
    requires
        0 <= index < 13,
        !mode_bit(counter, 10),
    ensures
        bit(counter.register_value(TimerRegister::Mode) as u32, index) <==> mode_bit(counter, index)
            || (index == 10 && counter.irq_request_high),
        mode_bit(counter.register_taken(TimerRegister::Mode), index) <==> mode_bit(counter, index)
            && index < 11,
        counter.register_value(TimerRegister::Counter) == counter.value,
        counter.register_value(TimerRegister::Target) == counter.target,
        counter.register_taken(TimerRegister::Counter) == counter,
        counter.register_taken(TimerRegister::Target) == counter,
{
    lemma_flags(counter.mode, index);
    vstd::arithmetic::power2::lemma2_to64();
    let wide = counter.mode as u32;
    lemma_valid_bits(index);
    lemma_bits(0x1800, 0, index, 11);
    lemma_bits(wide, !0x1800u32, index, 11);
    lemma_cleared_half(counter.mode, 0x1800);
}

/// A frame is the sixtieth or the fiftieth part of a second of 33 868 800 clocks.
pub proof fn law_frame_periods()
    ensures
        60 * VideoStandard::Ntsc.period() == 33_868_800,
        50 * VideoStandard::Pal.period() == 33_868_800,
        VideoStandard::Ntsc.lines() == 263,
        VideoStandard::Pal.lines() == 314,
        VideoStandard::Ntsc.rate() == 60,
        VideoStandard::Pal.rate() == 50,
{
}

/// The bit of an interrupt source, as the registers number them.
pub open spec fn source_bit(source: InterruptSource) -> int {
    match source {
        InterruptSource::VBlank => 0,
        InterruptSource::Gpu => 1,
        InterruptSource::CdRom => 2,
        InterruptSource::Dma => 3,
        InterruptSource::Timer0 => 4,
        InterruptSource::Timer1 => 5,
        InterruptSource::Timer2 => 6,
        InterruptSource::Controller => 7,
        InterruptSource::Sio => 8,
        InterruptSource::Spu => 9,
        InterruptSource::LightPen => 10,
    }
}

proof fn lemma_source(source: InterruptSource)
    ensures
        source.mask() as u32 == 1u32 << (source_bit(source) as u32),
{
    vstd::arithmetic::power2::lemma2_to64();
    lemma_bits(0, 0, source_bit(source), 0);
}

/// A request sets the bit of its source, an acknowledgement clears the bits that are written
/// as zero unless their level is up, and neither touches the mask, of which bits 0 to 10
/// can be written.
pub proof fn law_interrupt_bits(
    controller: InterruptController,
    source: InterruptSource,
    value: u16,
    index: int,
)
    requires
        0 <= index < 16,
    ensures
        bit(controller.requested(source).status as u32, index) <==> bit(
            controller.status as u32,
            index,
        ) || index == source_bit(source),
        controller.requested(source).mask == controller.mask,
        controller.requested(source).levels == controller.levels,
        bit(controller.acknowledged(value).status as u32, index) <==> bit(
            controller.levels as u32,
            index,
        ) || (index < 11 && bit(controller.status as u32, index) && bit(value as u32, index)),
        controller.acknowledged(value).mask == controller.mask,
        controller.acknowledged(value).levels == controller.levels,
        bit(controller.masked(value).mask as u32, index) <==> index < 11 && bit(
            value as u32,
            index,
        ),
        controller.masked(value).status == controller.status,
        bit(controller.leveled(source, true).status as u32, index) <==> bit(
            controller.status as u32,
            index,
        ) || index == source_bit(source),
        bit(controller.leveled(source, true).levels as u32, index) <==> bit(
            controller.levels as u32,
            index,
        ) || index == source_bit(source),
        controller.leveled(source, false).status == controller.status,
        bit(controller.leveled(source, false).levels as u32, index) <==> bit(
            controller.levels as u32,
            index,
        ) && index != source_bit(source),
{
    lemma_source(source);
    let status = controller.status as u32;
    let levels = controller.levels as u32;
    let wide = value as u32;
    let mask = source.mask() as u32;
    lemma_bits(status, mask, index, source_bit(source));
    lemma_bits(levels, mask, index, source_bit(source));
    lemma_bits(status, wide, index, index);
    lemma_bits(status & wide, 0x7ff, index, index);
    lemma_bits((status & wide) & 0x7ff, levels, index, index);
    lemma_bits(wide, 0x7ff, index, index);
    lemma_bits(mask, 0, index, index);
    lemma_bits(levels, !mask, index, index);
    lemma_valid_bits(index);
    assert((controller.status | source.mask()) as u32 == status | mask);
    assert((controller.levels | source.mask()) as u32 == levels | mask);
    assert((controller.status & value & 0x7ff) as u32 == (status & wide) & 0x7ff);
    assert(((controller.status & value & 0x7ff) | controller.levels) as u32 == ((status & wide)
        & 0x7ff) | levels);
    assert((value & 0x7ff) as u32 == wide & 0x7ff);
    lemma_cleared_half(controller.levels, source.mask());
}

proof fn lemma_valid_bits(index: int)
    requires
        0 <= index < 16,
    ensures
        bit(0x7ff, index) <==> index < 11,
        bit(0x1800, index) <==> index == 11 || index == 12,
{
    vstd::arithmetic::power2::lemma2_to64();
    if index == 0 {
        assert((0x7ffint / 0x1int) % 2 == 1);
        assert((0x1800int / 0x1int) % 2 == 0);
    } else if index == 1 {
        assert((0x7ffint / 0x2int) % 2 == 1);
        assert((0x1800int / 0x2int) % 2 == 0);
    } else if index == 2 {
        assert((0x7ffint / 0x4int) % 2 == 1);
        assert((0x1800int / 0x4int) % 2 == 0);
    } else if index == 3 {
        assert((0x7ffint / 0x8int) % 2 == 1);
        assert((0x1800int / 0x8int) % 2 == 0);
    } else if index == 4 {
        assert((0x7ffint / 0x10int) % 2 == 1);
        assert((0x1800int / 0x10int) % 2 == 0);
    } else if index == 5 {
        assert((0x7ffint / 0x20int) % 2 == 1);
        assert((0x1800int / 0x20int) % 2 == 0);
    } else if index == 6 {
        assert((0x7ffint / 0x40int) % 2 == 1);
        assert((0x1800int / 0x40int) % 2 == 0);
    } else if index == 7 {
        assert((0x7ffint / 0x80int) % 2 == 1);
        assert((0x1800int / 0x80int) % 2 == 0);
    } else if index == 8 {
        assert((0x7ffint / 0x100int) % 2 == 1);
        assert((0x1800int / 0x100int) % 2 == 0);
    } else if index == 9 {
        assert((0x7ffint / 0x200int) % 2 == 1);
        assert((0x1800int / 0x200int) % 2 == 0);
    } else if index == 10 {
        assert((0x7ffint / 0x400int) % 2 == 1);
        assert((0x1800int / 0x400int) % 2 == 0);
    } else if index == 11 {
        assert((0x7ffint / 0x800int) % 2 == 0);
        assert((0x1800int / 0x800int) % 2 == 1);
    } else if index == 12 {
        assert((0x7ffint / 0x1000int) % 2 == 0);
        assert((0x1800int / 0x1000int) % 2 == 1);
    } else if index == 13 {
        assert((0x7ffint / 0x2000int) % 2 == 0);
        assert((0x1800int / 0x2000int) % 2 == 0);
    } else if index == 14 {
        assert((0x7ffint / 0x4000int) % 2 == 0);
        assert((0x1800int / 0x4000int) % 2 == 0);
    } else if index == 15 {
        assert((0x7ffint / 0x8000int) % 2 == 0);
        assert((0x1800int / 0x8000int) % 2 == 0);
    }
}

/// System time runs all three counters and is kept; the dot clock runs the first counter and
/// the horizontal blanks the second. Requests come in the order of the counters.
pub proof fn law_inputs(counters: RootCounters, ticks: Ticks)
    requires
        counters.wf(),
        counters.now.time + ticks.count <= u64::MAX,
    ensures
        ({
            let count = ticks.count as nat;
            let run0 = counters.counters@[0].system_run(TimerId::Timer0, count);
            let run1 = counters.counters@[1].system_run(TimerId::Timer1, count);
            let run2 = counters.counters@[2].system_run(TimerId::Timer2, count);
            let system = counters.advanced(ClockInput::System, ticks);
            let dots = counters.advanced(ClockInput::DotClock, ticks);
            let blanks = counters.advanced(ClockInput::HBlank, ticks);
            &&& system.result is Ok
            &&& system.state.now.time == counters.now.time + ticks.count
            &&& system.state.counters@[0] == run0.counter
            &&& system.state.counters@[1] == run1.counter
            &&& system.state.counters@[2] == run2.counter
            &&& system.requests.len() == run0.requests + run1.requests + run2.requests
            &&& forall|i: int|
                0 <= i < system.requests.len() ==> #[trigger] system.requests[i] == if i
                    < run0.requests {
                    InterruptSource::Timer0
                } else if i < run0.requests + run1.requests {
                    InterruptSource::Timer1
                } else {
                    InterruptSource::Timer2
                }
            &&& dots.state.counters@[0] == counters.counters@[0].alternative_run(
                TimerId::Timer0,
                count,
            ).counter
            &&& dots.state.counters@[1] == counters.counters@[1]
            &&& dots.state.counters@[2] == counters.counters@[2]
            &&& dots.state.now == counters.now
            &&& blanks.state.counters@[1] == counters.counters@[1].alternative_run(
                TimerId::Timer1,
                count,
            ).counter
            &&& blanks.state.counters@[0] == counters.counters@[0]
            &&& blanks.state.counters@[2] == counters.counters@[2]
            &&& blanks.state.now == counters.now
        }),
{
}

} // verus!
