//! How the IOP counters count, and how its interrupt controller latches.

use vstd::prelude::*;

use crate::bits::{bit, lemma_bits, lemma_cleared_half};
use crate::ps2::irq::{InterruptController, InterruptSource};
use crate::ps2::timers::{
    boundary_event, boundary_source, register_at, Counter, CounterBoundary, RefreshClock, Run,
    TimerId, TimingEvent, VideoStandard,
};

verus! {

/// Bit `index` of a mode register.
pub open spec fn mode_bit(counter: Counter, index: int) -> bool {
    bit(counter.mode as u32, index)
}

/// The first three counters have 16 bits and the others 32.
pub open spec fn period(timer: TimerId) -> int {
    match timer {
        TimerId::Timer0 | TimerId::Timer1 | TimerId::Timer2 => 0x1_0000,
        _ => 0x1_0000_0000,
    }
}

proof fn lemma_mode(mode: u16)
    ensures
        mode & 0x001 != 0 <==> bit(mode as u32, 0),
        mode & 0x008 != 0 <==> bit(mode as u32, 3),
        mode & 0x010 != 0 <==> bit(mode as u32, 4),
        mode & 0x020 != 0 <==> bit(mode as u32, 5),
        mode & 0x040 != 0 <==> bit(mode as u32, 6),
        mode & 0x080 != 0 <==> bit(mode as u32, 7),
        mode & 0x100 != 0 <==> bit(mode as u32, 8),
        mode & 0x200 != 0 <==> bit(mode as u32, 9),
        mode & 0x400 != 0 <==> bit(mode as u32, 10),
{
    vstd::arithmetic::power2::lemma2_to64();
    lemma_bits(mode as u32, 0, 0, 0);
    lemma_bits(mode as u32, 0, 3, 3);
    lemma_bits(mode as u32, 0, 4, 4);
    lemma_bits(mode as u32, 0, 5, 5);
    lemma_bits(mode as u32, 0, 6, 6);
    lemma_bits(mode as u32, 0, 7, 7);
    lemma_bits(mode as u32, 0, 8, 8);
    lemma_bits(mode as u32, 0, 9, 9);
    lemma_bits(mode as u32, 0, 10, 10);
}

proof fn lemma_flags(mode: u16, index: int)
    requires
        0 <= index < 16,
    ensures
        bit((mode | 0x800) as u32, index) <==> bit(mode as u32, index) || index == 11,
        bit((mode | 0x1000) as u32, index) <==> bit(mode as u32, index) || index == 12,
        bit((mode | 0x400) as u32, index) <==> bit(mode as u32, index) || index == 10,
        bit((mode ^ 0x400) as u32, index) <==> (bit(mode as u32, index) != (index == 10)),
        bit((mode & !0x400u16) as u32, index) <==> bit(mode as u32, index) && index != 10,
{
    vstd::arithmetic::power2::lemma2_to64();
    let wide = mode as u32;
    lemma_bits(wide, 0x800, index, 11);
    lemma_bits(0, 0, 11, 11);
    lemma_bits(wide, 0x1000, index, 12);
    lemma_bits(0, 0, 12, 12);
    lemma_bits(wide, 0x400, index, 10);
    lemma_bits(0, 0, 10, 10);
    lemma_bits(0x400, 0, index, 10);
    lemma_bits(wide, !0x400u32, index, 10);
    lemma_cleared_half(mode, 0x400);
    assert((mode | 0x800) as u32 == wide | 0x800u32);
    assert((mode | 0x1000) as u32 == wide | 0x1000u32);
    assert((mode | 0x400) as u32 == wide | 0x400u32);
    assert((mode ^ 0x400) as u32 == wide ^ 0x400u32);
}

/// A boundary sets mode bit 11 for the target and bit 12 for the wrap. Where bit 4 or bit 5
/// turns it into an interrupt, the first one only unless bit 6 is set, bit 10 drops and the
/// interrupt is requested; with bit 7 set bit 10 toggles, and only its drop requests.
pub proof fn law_boundary(counter: Counter, wraps: bool, index: int)
    requires
        0 <= index < 16,
    ensures
        ({
            let boundary = if wraps {
                CounterBoundary::Overflow
            } else {
                CounterBoundary::Target
            };
            let (after, requested) = counter.bounded(boundary);
            let enabled = if wraps {
                mode_bit(counter, 5)
            } else {
                mode_bit(counter, 4)
            };
            let heard = enabled && (mode_bit(counter, 6) || !counter.irq_fired);
            let drops = heard && (!mode_bit(counter, 7) || mode_bit(counter, 10));
            &&& requested <==> drops
            &&& after.irq_fired <==> counter.irq_fired || drops
            &&& after.count == counter.count
            &&& after.target == counter.target
            &&& after.gate_level == counter.gate_level
            &&& after.prescale_remainder == counter.prescale_remainder
            &&& index != 10 ==> (mode_bit(after, index) <==> mode_bit(counter, index) || index
                == if wraps {
                12int
            } else {
                11
            })
            &&& mode_bit(after, 10) <==> if drops {
                false
            } else {
                mode_bit(counter, 10) || heard
            }
        }),
{
    let mode = counter.mode;
    let marked = if wraps {
        mode | 0x1000
    } else {
        mode | 0x800
    };
    lemma_mode(mode);
    lemma_mode(marked);
    lemma_mode(marked ^ 0x400);
    lemma_flags(mode, index);
    lemma_flags(mode, 4);
    lemma_flags(mode, 5);
    lemma_flags(mode, 6);
    lemma_flags(mode, 7);
    lemma_flags(mode, 10);
    lemma_flags(marked, index);
    lemma_flags(marked, 10);
}

/// One clock moves the count on by one, round its width; at the target it starts over where
/// mode bit 3 says so. A clock that reaches neither the target nor zero is not reported.
pub proof fn law_clock(run: Run, timer: TimerId)
    requires
        !run.failed,
        run.counter.wf(timer),
        run.events.len() < 900_000,
    ensures
        ({
            let after = run.next(timer);
            let next = (run.counter.count + 1) % period(timer);
            let at_target = next == run.counter.target;
            &&& !after.failed
            &&& after.counter.count == if at_target && mode_bit(run.counter, 3) {
                0
            } else {
                next
            }
            &&& after.counter.target == run.counter.target
            &&& mode_bit(after.counter, 3) == mode_bit(run.counter, 3)
            &&& !at_target && next != 0 ==> after == (Run {
                counter: Counter { count: next as u32, ..run.counter },
                ..run
            })
            &&& at_target && next != 0 ==> after.events == run.events.push(
                TimingEvent::Counter { timer, boundary: CounterBoundary::Target },
            )
            &&& !at_target && next == 0 ==> after.events == run.events.push(
                TimingEvent::Counter { timer, boundary: CounterBoundary::Overflow },
            )
            &&& at_target && next != 0 ==> after.requests == if run.counter.bounded(
                CounterBoundary::Target,
            ).1 {
                run.requests.push(timer.source())
            } else {
                run.requests
            }
            &&& !at_target && next == 0 ==> after.requests == if run.counter.bounded(
                CounterBoundary::Overflow,
            ).1 {
                run.requests.push(timer.source())
            } else {
                run.requests
            }
        }),
{
    let next = (run.counter.count + 1) % period(timer);
    assert(next == if run.counter.count == timer.limit() {
        0
    } else {
        run.counter.count + 1
    });
    let counted = Counter { count: next as u32, ..run.counter };
    law_boundary(counted, false, 3);
    law_boundary(counted, true, 3);
    let targeted = counted.bounded(CounterBoundary::Target).0;
    law_boundary(targeted, true, 3);
    law_boundary(Counter { count: 0, ..targeted }, true, 3);
    lemma_mode(run.counter.mode);
    lemma_mode(targeted.mode);
}

/// A counter that is at its target or beyond counts all clocks up to the wrap, without any
/// report.
pub proof fn law_counts_up(counter: Counter, timer: TimerId, clocks: nat)
    requires
        counter.wf(timer),
        counter.target <= counter.count,
        counter.count + clocks < period(timer),
    ensures
        counter.begun().advanced(timer, clocks) == (Counter {
            count: (counter.count + clocks) as u32,
            ..counter
        }).begun(),
    decreases clocks,
{
    if clocks > 0 {
        law_counts_up(counter, timer, (clocks - 1) as nat);
        let before = counter.begun().advanced(timer, (clocks - 1) as nat);
        law_clock(before, timer);
    }
}

/// Mode bit 0 turns on gating, which bits 1 and 2 select: with 0 the counter runs while the
/// signal is low, with 1 while it is high, and else always. The rise of the signal resets
/// counters with 1 and 2, and its fall those with 3.
pub proof fn law_gate(counter: Counter, asserted: bool)
    ensures
        ({
            let select = (counter.mode as int / 2) % 4;
            let edge = mode_bit(counter, 0) && asserted != counter.gate_level;
            &&& counter.is_running() <==> !mode_bit(counter, 0) || select >= 2 || (select == 1)
                == counter.gate_level
            &&& counter.gated(asserted) == (Counter {
                gate_level: asserted,
                count: if edge && ((asserted && (select == 1 || select == 2)) || (!asserted
                    && select == 3)) {
                    0
                } else {
                    counter.count
                },
                ..counter
            })
        }),
{
    lemma_mode(counter.mode);
}

/// Bit 8 takes a counter from the system clock to its own input. The first three divide the
/// system clock by eight with bit 9; the others by 1, 8, 16 or 256 after bits 13 and 14.
/// What is left over is kept.
pub proof fn law_clock_sources(counter: Counter, timer: TimerId, cycles: nat, whole: nat, left: nat)
    requires
        ({
            let divisor = if period(timer) == 0x1_0000 {
                if mode_bit(counter, 9) {
                    8int
                } else {
                    1
                }
            } else {
                let select = (counter.mode as int / 0x2000) % 4;
                if select == 0 {
                    1int
                } else if select == 1 {
                    8
                } else if select == 2 {
                    16
                } else {
                    256
                }
            };
            &&& divisor * whole + left == counter.prescale_remainder + cycles
            &&& left < divisor
        }),
    ensures
        mode_bit(counter, 8) || !counter.is_running() ==> counter.system_run(timer, cycles)
            == counter.begun(),
        !mode_bit(counter, 8) && counter.is_running() ==> counter.system_run(timer, cycles) == (
        Counter { prescale_remainder: left as u16, ..counter }).begun().advanced(timer, whole),
        !mode_bit(counter, 8) || !counter.is_running() ==> counter.external_run(timer, cycles)
            == counter.begun(),
        mode_bit(counter, 8) && counter.is_running() ==> counter.external_run(timer, cycles)
            == counter.begun().advanced(timer, cycles),
{
    lemma_mode(counter.mode);
    let divisor = counter.divisor(timer);
    let total = counter.prescale_remainder + cycles;
    vstd::arithmetic::div_mod::lemma_fundamental_div_mod_converse(
        total as int,
        divisor,
        whole as int,
        left as int,
    );
}

/// Counters 0 to 2 are at `0x1f80_1100`, sixteen bytes apart, and counters 3 to 5 at
/// `0x1f80_1480`: the count, the mode and the target, a word each.
pub proof fn law_counter_registers(counter: Counter, timer: TimerId, index: int, value: u32)
    requires
        0 <= index < 6,
    ensures
        ({
            let base = if index < 3 {
                0x1f80_1100 + 16 * index
            } else {
                0x1f80_1480 + 16 * (index - 3)
            };
            let id = if index == 0 {
                TimerId::Timer0
            } else if index == 1 {
                TimerId::Timer1
            } else if index == 2 {
                TimerId::Timer2
            } else if index == 3 {
                TimerId::Timer3
            } else if index == 4 {
                TimerId::Timer4
            } else {
                TimerId::Timer5
            };
            &&& register_at(base as u32) == Some((id, 0int, false))
            &&& register_at((base + 2) as u32) == Some((id, 0int, true))
            &&& register_at((base + 4) as u32) == Some((id, 1int, false))
            &&& register_at((base + 8) as u32) == Some((id, 2int, false))
            &&& register_at((base + 10) as u32) == Some((id, 2int, true))
            &&& register_at((base + 12) as u32) is None
        }),
        counter.register_written(timer, 0, value) == (Counter {
            count: (value as int % period(timer)) as u32,
            ..counter
        }),
        counter.register_written(timer, 2, value) == (Counter {
            target: (value as int % period(timer)) as u32,
            ..counter
        }),
        counter.register_value(0) == counter.count,
        counter.register_value(1) == counter.mode,
        counter.register_value(2) == counter.target,
        ({
            let after = counter.register_written(timer, 1, value);
            &&& after.count == 0
            &&& after.target == counter.target
            &&& !after.irq_fired
            &&& after.prescale_remainder == 0
            &&& mode_bit(after, 10)
        }),
{
    lemma_flags((value as int % 0x1_0000) as u16 & 0x63ff, 10);
}

/// A request sets the bit of its source, an acknowledgement clears the bits that are written
/// as zero unless their level is up, and neither touches the mask.
pub proof fn law_interrupt_bits(
    controller: InterruptController,
    source: InterruptSource,
    value: u32,
    index: int,
)
    requires
        0 <= index < 26,
    ensures
        bit(controller.pulsed(source).status, index) <==> bit(controller.status, index) || index
            == source.index(),
        controller.pulsed(source).mask == controller.mask,
        controller.pulsed(source).levels == controller.levels,
        bit(controller.acknowledged(value).status, index) <==> bit(controller.levels, index) || (
        bit(controller.status, index) && bit(value, index)),
        controller.acknowledged(value).mask == controller.mask,
        controller.acknowledged(value).levels == controller.levels,
        bit(controller.masked(value).mask, index) <==> bit(value, index),
        controller.masked(value).status == controller.status,
        bit(controller.with_level(source, true).status, index) <==> bit(controller.status, index)
            || index == source.index(),
        bit(controller.with_level(source, true).levels, index) <==> bit(controller.levels, index)
            || index == source.index(),
        controller.with_level(source, false).status == controller.status,
        bit(controller.with_level(source, false).levels, index) <==> bit(controller.levels, index)
            && index != source.index(),
{
    let mask = source.mask();
    let place = source.index() as int;
    lemma_bits(controller.status, mask, index, place);
    lemma_bits(controller.levels, mask, index, place);
    lemma_bits(value, 0x03ff_ffff, index, place);
    lemma_bits(controller.status, value & 0x03ff_ffff, index, place);
    lemma_bits(controller.status & (value & 0x03ff_ffff), controller.levels, index, place);
    lemma_bits(mask, 0, index, place);
    lemma_bits(controller.levels, !mask, index, place);
    lemma_implemented(index);
}

proof fn lemma_implemented(index: int)
    requires
        0 <= index < 26,
    ensures
        bit(0x03ff_ffff, index),
{
    let rest = (26 - index) as nat;
    vstd::arithmetic::power2::lemma2_to64();
    vstd::arithmetic::power2::lemma_pow2_adds(index as nat, rest);
    vstd::arithmetic::power2::lemma_pow2_pos(index as nat);
    vstd::arithmetic::power2::lemma_pow2_adds(1, (rest - 1) as nat);
    vstd::arithmetic::power2::lemma_pow2_pos((rest - 1) as nat);
    let scale = vstd::arithmetic::power2::pow2(index as nat) as int;
    let half = vstd::arithmetic::power2::pow2((rest - 1) as nat) as int;
    assert(0x03ff_ffff == (2 * half - 1) * scale + (scale - 1)) by (nonlinear_arith)
        requires
            0x400_0000 == scale * (2 * half),
    ;
    vstd::arithmetic::div_mod::lemma_fundamental_div_mod_converse(
        0x03ff_ffff,
        scale,
        2 * half - 1,
        scale - 1,
    );
}

/// The numbers of the interrupt sources.
pub proof fn law_source_numbers()
    ensures
        InterruptSource::VBlank.index() == 0,
        InterruptSource::SBus.index() == 1,
        InterruptSource::Cdvd.index() == 2,
        InterruptSource::Dma.index() == 3,
        InterruptSource::Timer0.index() == 4,
        InterruptSource::Timer1.index() == 5,
        InterruptSource::Timer2.index() == 6,
        InterruptSource::Spu2.index() == 9,
        InterruptSource::VBlankEnd.index() == 11,
        InterruptSource::Timer3.index() == 14,
        InterruptSource::Timer4.index() == 15,
        InterruptSource::Timer5.index() == 16,
        InterruptSource::Sio2.index() == 17,
        InterruptSource::FireWireDma.index() == 25,
        TimerId::Timer0.source() == InterruptSource::Timer0,
        TimerId::Timer1.source() == InterruptSource::Timer1,
        TimerId::Timer2.source() == InterruptSource::Timer2,
        TimerId::Timer3.source() == InterruptSource::Timer3,
        TimerId::Timer4.source() == InterruptSource::Timer4,
        TimerId::Timer5.source() == InterruptSource::Timer5,
{
}

/// Vertical blank is the last tenth of a frame, its starts and ends alternate, and a second
/// has 36 864 000 cycles. The clock keeps its place in the frame.
pub proof fn law_refresh_boundaries(
    clock: RefreshClock,
    standard: VideoStandard,
    number: int,
    cycles: nat,
    frames: int,
    rest: int,
)
    requires
        frames >= 0,
        0 <= rest < clock.standard.frame_units(),
        clock.position(cycles as int) == frames * clock.standard.frame_units() + rest,
    ensures
        10 * standard.blank_units() == 9 * standard.frame_units(),
        standard == VideoStandard::Ntsc ==> 60_000 * standard.frame_units() == 1_001 * 36_864_000
            * standard.cycle_units(),
        standard == VideoStandard::Pal ==> 50 * standard.frame_units() == 36_864_000
            * standard.cycle_units(),
        boundary_event(2 * number) == TimingEvent::VBlankStart,
        boundary_event(2 * number + 1) == TimingEvent::VBlankEnd,
        boundary_source(2 * number) == InterruptSource::VBlank,
        boundary_source(2 * number + 1) == InterruptSource::VBlankEnd,
        clock.at(clock.position(cycles as int)).phase_units == rest,
        clock.at(clock.position(cycles as int)).in_vblank <==> 10 * rest >= 9
            * clock.standard.frame_units(),
        clock.standard.boundaries(clock.position(cycles as int)) == 2 * frames + if 10 * rest >= 9
            * clock.standard.frame_units() {
            1int
        } else {
            0
        },
{
    vstd::arithmetic::div_mod::lemma_fundamental_div_mod_converse(
        clock.position(cycles as int),
        clock.standard.frame_units(),
        frames,
        rest,
    );
}

} // verus!
