//! The reverberation graph in numbers: taps, reflections, combs and all-pass filters.

use vstd::prelude::*;

use crate::spu_common::effects::{EffectArea, EffectTaps, EffectVolumes};
use crate::spu_common::fixed::clamp16;
use crate::spu_common::laws::{is_floor, is_saturated};

verus! {

/// A tap lies in the ring, as far from the cursor as its offset says, once round or more.
pub proof fn law_tap_address(area: EffectArea, offset: int)
    requires
        area.length > 0,
    ensures
        area.start <= area.address(offset) < area.start + area.length,
        (area.address(offset) - area.start - area.cursor - offset) % area.length as int == 0,
{
    let length = area.length as int;
    let position = area.cursor + offset;
    vstd::arithmetic::div_mod::lemma_fundamental_div_mod(position, length);
    vstd::arithmetic::div_mod::lemma_mod_bound(position, length);
    let turns = position / length;
    assert(area.address(offset) - area.start - area.cursor - offset == (-turns) * length)
        by (nonlinear_arith)
        requires
            area.address(offset) - area.start == position % length,
            position == length * turns + position % length,
            position == area.cursor + offset,
    ;
    vstd::arithmetic::div_mod::lemma_mod_multiples_basic(-turns, length);
}

/// A tap is a signed little-endian sample, and storing one changes its two bytes alone.
pub proof fn law_tap_samples(area: EffectArea, ram: Seq<u8>, offset: int, value: int, each: int)
    requires
        0 <= area.address(offset),
        area.address(offset) + 1 < ram.len(),
        -0x8000 <= value < 0x8000,
        0 <= each < ram.len(),
    ensures
        ({
            let at = area.address(offset);
            let raw = ram[at] + 0x100 * ram[at + 1];
            &&& area.sample(ram, offset) == if raw >= 0x8000 {
                raw - 0x1_0000
            } else {
                raw
            }
            &&& area.stored(ram, offset, value).len() == ram.len()
            &&& area.stored(ram, offset, value)[each] == if each == at {
                value % 0x100
            } else if each == at + 1 {
                (value / 0x100) % 0x100
            } else {
                ram[each] as int
            }
        }),
{
}

/// A reflection: the echo of the wall on top of the input, limited, and then the low-pass
/// filter, which moves the sample before by a part of the difference.
pub proof fn law_reflection(
    area: EffectArea,
    ram: Seq<u8>,
    input: int,
    source: int,
    destination: int,
    volumes: EffectVolumes,
    echo: int,
    incident: int,
    difference: int,
    part: int,
)
    requires
        is_floor(area.sample(ram, source) * volumes.wall, 0x8000, echo),
        is_saturated(input + echo, incident),
        is_saturated(incident - area.sample(ram, destination - 2), difference),
        is_floor(difference * volumes.filter, 0x8000, part),
    ensures
        is_saturated(
            area.sample(ram, destination - 2) + part,
            area.reflected(ram, input, source, destination, volumes),
        ),
{
}

/// The comb sum: each tap at its own gain.
pub proof fn law_comb(
    area: EffectArea,
    ram: Seq<u8>,
    taps: (i64, i64, i64, i64),
    volumes: EffectVolumes,
    first: int,
    second: int,
    third: int,
    fourth: int,
)
    requires
        is_floor(area.sample(ram, taps.0 as int) * volumes.comb.0, 0x8000, first),
        is_floor(area.sample(ram, taps.1 as int) * volumes.comb.1, 0x8000, second),
        is_floor(area.sample(ram, taps.2 as int) * volumes.comb.2, 0x8000, third),
        is_floor(area.sample(ram, taps.3 as int) * volumes.comb.3, 0x8000, fourth),
    ensures
        is_saturated(first + second + third + fourth, area.combed(ram, taps, volumes)),
{
}

/// An all-pass filter takes a part of the delayed sample from its input into its delay
/// line, and puts out the delayed sample with the same part of that on top.
pub proof fn law_all_pass(
    area: EffectArea,
    ram: Seq<u8>,
    input: int,
    feedback: int,
    volume: int,
    back: int,
    forth: int,
)
    requires
        is_floor(area.sample(ram, feedback) * volume, 0x8000, back),
        is_floor(area.delayed(ram, input, feedback, volume) * volume, 0x8000, forth),
    ensures
        is_saturated(input - back, area.delayed(ram, input, feedback, volume)),
        is_saturated(
            forth + area.sample(ram, feedback),
            area.passed(ram, input, feedback, volume),
        ),
{
}

/// With writes off the graph leaves sound RAM alone, and each side puts out its comb sum
/// through its first and then its second all-pass filter.
pub proof fn law_graph_without_writes(
    area: EffectArea,
    ram: Seq<u8>,
    taps: EffectTaps,
    volumes: EffectVolumes,
    input: (int, int),
)
    ensures
        ({
            let (after, output) = area.ticked(ram, taps, volumes, false, input);
            let first = volumes.first_all_pass as int;
            let second = volumes.second_all_pass as int;
            &&& after == ram
            &&& output.0 == area.passed(
                ram,
                area.passed(
                    ram,
                    area.combed(ram, taps.left_comb, volumes),
                    taps.first_feedback.0 as int,
                    first,
                ),
                taps.second_feedback.0 as int,
                second,
            )
            &&& output.1 == area.passed(
                ram,
                area.passed(
                    ram,
                    area.combed(ram, taps.right_comb, volumes),
                    taps.first_feedback.1 as int,
                    first,
                ),
                taps.second_feedback.1 as int,
                second,
            )
        }),
{
    reveal(EffectArea::ticked);
}

/// Two taps do not overlap.
pub open spec fn are_apart(area: EffectArea, first: int, second: int) -> bool {
    area.address(first) + 1 < area.address(second) || area.address(second) + 1 < area.address(first)
}

/// A tap keeps its sample when another one is stored, and takes the sample that is stored
/// to it.
proof fn lemma_stored(area: EffectArea, ram: Seq<u8>, offset: int, value: int, other: int)
    requires
        0 <= area.address(offset),
        area.address(offset) + 1 < ram.len(),
        0 <= area.address(other),
        area.address(other) + 1 < ram.len(),
        -0x8000 <= value < 0x8000,
    ensures
        area.sample(area.stored(ram, offset, value), offset) == value,
        area.stored(ram, offset, value).len() == ram.len(),
        are_apart(area, offset, other) ==> area.sample(area.stored(ram, offset, value), other)
            == area.sample(ram, other),
{
}

/// The reflections: each side's input at its own gain is reflected at the taps of that
/// side, every reflection seeing sound RAM from before the tick.
pub proof fn law_reflections(
    area: EffectArea,
    ram: Seq<u8>,
    taps: EffectTaps,
    volumes: EffectVolumes,
    input: (int, int),
    left: int,
    right: int,
    left_in: int,
    right_in: int,
)
    requires
        area.wf(ram.len() as int),
        is_floor(input.0 * volumes.input.0, 0x8000, left),
        is_floor(input.1 * volumes.input.1, 0x8000, right),
        is_saturated(left, left_in),
        is_saturated(right, right_in),
        taps.same.0 % 2 == 0 && taps.same.1 % 2 == 0,
        taps.different.0 % 2 == 0 && taps.different.1 % 2 == 0,
        are_apart(area, taps.same.0 as int, taps.same.1 as int),
        are_apart(area, taps.same.0 as int, taps.different.0 as int),
        are_apart(area, taps.same.0 as int, taps.different.1 as int),
        are_apart(area, taps.same.1 as int, taps.different.0 as int),
        are_apart(area, taps.same.1 as int, taps.different.1 as int),
        are_apart(area, taps.different.0 as int, taps.different.1 as int),
    ensures
        ({
            let after = area.after_reflections(ram, taps, volumes, true, input);
            &&& area.sample(after, taps.same.0 as int) == area.reflected(
                ram,
                left_in,
                taps.same_source.0 as int,
                taps.same.0 as int,
                volumes,
            )
            &&& area.sample(after, taps.same.1 as int) == area.reflected(
                ram,
                right_in,
                taps.same_source.1 as int,
                taps.same.1 as int,
                volumes,
            )
            &&& area.sample(after, taps.different.0 as int) == area.reflected(
                ram,
                left_in,
                taps.different_source.0 as int,
                taps.different.0 as int,
                volumes,
            )
            &&& area.sample(after, taps.different.1 as int) == area.reflected(
                ram,
                right_in,
                taps.different_source.1 as int,
                taps.different.1 as int,
                volumes,
            )
            &&& area.after_reflections(ram, taps, volumes, false, input) == ram
        }),
{
    lemma_inside(area, ram.len() as int, taps.same.0 as int);
    lemma_inside(area, ram.len() as int, taps.same.1 as int);
    lemma_inside(area, ram.len() as int, taps.different.0 as int);
    lemma_inside(area, ram.len() as int, taps.different.1 as int);
    let a = area.reflected(ram, left_in, taps.same_source.0 as int, taps.same.0 as int, volumes);
    let b = area.reflected(ram, right_in, taps.same_source.1 as int, taps.same.1 as int, volumes);
    let c = area.reflected(
        ram,
        left_in,
        taps.different_source.0 as int,
        taps.different.0 as int,
        volumes,
    );
    let d = area.reflected(
        ram,
        right_in,
        taps.different_source.1 as int,
        taps.different.1 as int,
        volumes,
    );
    let (s0, s1) = (taps.same.0 as int, taps.same.1 as int);
    let (d0, d1) = (taps.different.0 as int, taps.different.1 as int);
    let one = area.stored(ram, s0, a);
    let two = area.stored(one, s1, b);
    let three = area.stored(two, d0, c);
    let four = area.stored(three, d1, d);
    assert(area.after_reflections(ram, taps, volumes, true, input) == four);
    lemma_stored(area, ram, s0, a, s1);
    lemma_stored(area, one, s1, b, s0);
    lemma_stored(area, two, d0, c, s0);
    lemma_stored(area, two, d0, c, s1);
    lemma_stored(area, three, d1, d, s0);
    lemma_stored(area, three, d1, d, s1);
    lemma_stored(area, three, d1, d, d0);
}

proof fn lemma_inside(area: EffectArea, size: int, offset: int)
    requires
        area.wf(size),
        offset % 2 == 0,
    ensures
        0 <= area.address(offset),
        area.address(offset) + 1 < size,
{
    crate::spu_common::effects::lemma_tap_address(area, size, offset);
}

/// With writes on the graph runs over the reflections, each all-pass filter storing its
/// delay line before the next one runs, the left side first.
pub proof fn law_graph_with_writes(
    area: EffectArea,
    ram: Seq<u8>,
    taps: EffectTaps,
    volumes: EffectVolumes,
    input: (int, int),
)
    ensures
        ({
            let (after, output) = area.ticked(ram, taps, volumes, true, input);
            let gain1 = volumes.first_all_pass as int;
            let gain2 = volumes.second_all_pass as int;
            let reflected = area.after_reflections(ram, taps, volumes, true, input);
            let left0 = area.combed(reflected, taps.left_comb, volumes);
            let right0 = area.combed(reflected, taps.right_comb, volumes);
            let first_left = area.stored(
                reflected,
                taps.first_all_pass.0 as int,
                area.delayed(reflected, left0, taps.first_feedback.0 as int, gain1),
            );
            let left1 = area.passed(reflected, left0, taps.first_feedback.0 as int, gain1);
            let first_right = area.stored(
                first_left,
                taps.first_all_pass.1 as int,
                area.delayed(first_left, right0, taps.first_feedback.1 as int, gain1),
            );
            let right1 = area.passed(first_left, right0, taps.first_feedback.1 as int, gain1);
            let second_left = area.stored(
                first_right,
                taps.second_all_pass.0 as int,
                area.delayed(first_right, left1, taps.second_feedback.0 as int, gain2),
            );
            &&& after == area.stored(
                second_left,
                taps.second_all_pass.1 as int,
                area.delayed(second_left, right1, taps.second_feedback.1 as int, gain2),
            )
            &&& output.0 == area.passed(first_right, left1, taps.second_feedback.0 as int, gain2)
            &&& output.1 == area.passed(second_left, right1, taps.second_feedback.1 as int, gain2)
        }),
{
    reveal(EffectArea::ticked);
}

} // verus!
