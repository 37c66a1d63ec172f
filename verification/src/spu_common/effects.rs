//! The reverberation graph that both sound processors run over their work area.
//!
//! A work area is a ring of 16-bit samples in sound RAM with a cursor. The graph
//! feeds four reflections, sums four comb taps for each channel and runs each sum
//! through two all-pass filters.

use vstd::prelude::*;

use crate::bits::{from_i16, signed16, to_i16, unsigned16};
use crate::bytes::{half_at, read_half, with_half, write_half};
use crate::spu_common::fixed::{clamp16, clamp_i16, multiply_q15, q15};
use crate::spu_common::reverb::RingBufferAddress;

verus! {

/// A ring of samples in sound RAM and the cursor that taps are relative to.
#[derive(Clone, Copy, Debug, PartialEq, Eq, Structural)]
pub struct EffectArea {
    /// First byte of the ring.
    pub start: usize,
    /// Bytes in the ring.
    pub length: usize,
    /// Cursor, as a byte offset into the ring.
    pub cursor: usize,
}

/// Byte offsets of the graph's taps from the cursor.
#[derive(Clone, Copy, Debug, PartialEq, Eq)]
pub struct EffectTaps {
    /// Same-side reflections, left and right.
    pub same: (i64, i64),
    /// What the same-side reflections reflect.
    pub same_source: (i64, i64),
    /// Cross-side reflections, left and right.
    pub different: (i64, i64),
    /// What the cross-side reflections reflect.
    pub different_source: (i64, i64),
    /// Comb taps of the left channel.
    pub left_comb: (i64, i64, i64, i64),
    /// Comb taps of the right channel.
    pub right_comb: (i64, i64, i64, i64),
    /// First all-pass delay lines.
    pub first_all_pass: (i64, i64),
    /// Ends of the first all-pass delay lines.
    pub first_feedback: (i64, i64),
    /// Second all-pass delay lines.
    pub second_all_pass: (i64, i64),
    /// Ends of the second all-pass delay lines.
    pub second_feedback: (i64, i64),
}

/// Q15 gains of the graph.
#[derive(Clone, Copy, Debug, PartialEq, Eq)]
pub struct EffectVolumes {
    /// Input gains, left and right.
    pub input: (i16, i16),
    /// Reflection gain of the wall.
    pub wall: i16,
    /// Reflection filter gain.
    pub filter: i16,
    /// Comb gains.
    pub comb: (i16, i16, i16, i16),
    /// First all-pass gain.
    pub first_all_pass: i16,
    /// Second all-pass gain.
    pub second_all_pass: i16,
}

/// Limit on the magnitude of a tap offset.
pub const TAP_LIMIT: i64 = 0x4_0000_0008;

impl EffectArea {
    /// The ring holds whole aligned samples of a RAM of `size` bytes.
    pub open spec fn wf(self, size: int) -> bool {
        &&& self.start % 2 == 0
        &&& self.length % 2 == 0
        &&& self.cursor % 2 == 0
        &&& 0 < self.length
        &&& self.start + self.length <= size
        &&& self.cursor < size
        &&& size <= 0x100_0000
    }

    /// The byte address of the tap at `offset`.
    pub open spec fn address(self, offset: int) -> int {
        self.start + (self.cursor + offset) % (self.length as int)
    }

    /// The sample at a tap.
    pub open spec fn sample(self, ram: Seq<u8>, offset: int) -> int {
        signed16(half_at(ram, self.address(offset)))
    }

    /// The RAM with a sample stored at a tap.
    pub open spec fn stored(self, ram: Seq<u8>, offset: int, value: int) -> Seq<u8> {
        with_half(ram, self.address(offset), unsigned16(value))
    }

    /// A reflection: the wall's echo of `source` on top of `input`, low-pass
    /// filtered with the previous sample of `destination`.
    pub open spec fn reflected(
        self,
        ram: Seq<u8>,
        input: int,
        source: int,
        destination: int,
        volumes: EffectVolumes,
    ) -> int {
        let previous = self.sample(ram, destination - 2);
        let incident = clamp16(input + q15(self.sample(ram, source), volumes.wall as int));
        clamp16(q15(clamp16(incident - previous), volumes.filter as int) + previous)
    }

    /// The sum of four weighted comb taps.
    pub open spec fn combed(
        self,
        ram: Seq<u8>,
        taps: (i64, i64, i64, i64),
        volumes: EffectVolumes,
    ) -> int {
        clamp16(
            q15(self.sample(ram, taps.0 as int), volumes.comb.0 as int) + q15(
                self.sample(ram, taps.1 as int),
                volumes.comb.1 as int,
            ) + q15(self.sample(ram, taps.2 as int), volumes.comb.2 as int) + q15(
                self.sample(ram, taps.3 as int),
                volumes.comb.3 as int,
            ),
        )
    }

    /// What an all-pass filter puts into its delay line.
    pub open spec fn delayed(self, ram: Seq<u8>, input: int, feedback: int, volume: int) -> int {
        clamp16(input - q15(self.sample(ram, feedback), volume))
    }

    /// What an all-pass filter puts out.
    pub open spec fn passed(self, ram: Seq<u8>, input: int, feedback: int, volume: int) -> int {
        clamp16(
            q15(self.delayed(ram, input, feedback, volume), volume) + self.sample(ram, feedback),
        )
    }

    /// The RAM after an all-pass filter.
    pub open spec fn after_all_pass(
        self,
        ram: Seq<u8>,
        input: int,
        tap: int,
        feedback: int,
        volume: int,
        writes_enabled: bool,
    ) -> Seq<u8> {
        if writes_enabled {
            self.stored(ram, tap, self.delayed(ram, input, feedback, volume))
        } else {
            ram
        }
    }

    /// The RAM after the four reflections, which all see the RAM from before.
    pub open spec fn after_reflections(
        self,
        ram: Seq<u8>,
        taps: EffectTaps,
        volumes: EffectVolumes,
        writes_enabled: bool,
        input: (int, int),
    ) -> Seq<u8> {
        let left = clamp16(q15(input.0, volumes.input.0 as int));
        let right = clamp16(q15(input.1, volumes.input.1 as int));
        let same_left = self.reflected(
            ram,
            left,
            taps.same_source.0 as int,
            taps.same.0 as int,
            volumes,
        );
        let same_right = self.reflected(
            ram,
            right,
            taps.same_source.1 as int,
            taps.same.1 as int,
            volumes,
        );
        let different_left = self.reflected(
            ram,
            left,
            taps.different_source.0 as int,
            taps.different.0 as int,
            volumes,
        );
        let different_right = self.reflected(
            ram,
            right,
            taps.different_source.1 as int,
            taps.different.1 as int,
            volumes,
        );
        if writes_enabled {
            self.stored(
                self.stored(
                    self.stored(
                        self.stored(ram, taps.same.0 as int, same_left),
                        taps.same.1 as int,
                        same_right,
                    ),
                    taps.different.0 as int,
                    different_left,
                ),
                taps.different.1 as int,
                different_right,
            )
        } else {
            ram
        }
    }

    /// The RAM and the two output samples after `left` and `right` pass one pair of
    /// all-pass filters.
    pub open spec fn pair_passed(
        self,
        ram: Seq<u8>,
        taps: (i64, i64),
        feedbacks: (i64, i64),
        volume: int,
        writes_enabled: bool,
        input: (int, int),
    ) -> (Seq<u8>, (int, int)) {
        let middle = self.after_all_pass(
            ram,
            input.0,
            taps.0 as int,
            feedbacks.0 as int,
            volume,
            writes_enabled,
        );
        (
            self.after_all_pass(
                middle,
                input.1,
                taps.1 as int,
                feedbacks.1 as int,
                volume,
                writes_enabled,
            ),
            (
                self.passed(ram, input.0, feedbacks.0 as int, volume),
                self.passed(middle, input.1, feedbacks.1 as int, volume),
            ),
        )
    }

    /// The RAM and the two output samples after one tick of the graph.
    #[verifier::opaque]
    pub open spec fn ticked(
        self,
        ram: Seq<u8>,
        taps: EffectTaps,
        volumes: EffectVolumes,
        writes_enabled: bool,
        input: (int, int),
    ) -> (Seq<u8>, (int, int)) {
        let reflected = self.after_reflections(ram, taps, volumes, writes_enabled, input);
        let combs = (
            self.combed(reflected, taps.left_comb, volumes),
            self.combed(reflected, taps.right_comb, volumes),
        );
        let first = self.pair_passed(
            reflected,
            taps.first_all_pass,
            taps.first_feedback,
            volumes.first_all_pass as int,
            writes_enabled,
            combs,
        );
        self.pair_passed(
            first.0,
            taps.second_all_pass,
            taps.second_feedback,
            volumes.second_all_pass as int,
            writes_enabled,
            first.1,
        )
    }

    fn memory_address(self, size: usize, offset: i64) -> (result: usize)
        requires
            self.wf(size as int),
            offset % 2 == 0,
            -TAP_LIMIT <= offset <= TAP_LIMIT,
        ensures
            result == self.address(offset as int),
            result + 2 <= self.start + self.length,
            result >= self.start,
    {
        let mut ring = RingBufferAddress { base: self.start, length: self.length, position: 0 };
        let distance: i64 = self.cursor as i64 + offset;
        ring.advance(distance);
        proof {
            lemma_tap_address(self, size as int, offset as int);
        }
        ring.base + ring.position
    }

    fn read(self, ram: &Vec<u8>, offset: i64) -> (result: i16)
        requires
            self.wf(ram@.len() as int),
            offset % 2 == 0,
            -TAP_LIMIT <= offset <= TAP_LIMIT,
        ensures
            result == self.sample(ram@, offset as int),
    {
        let address: usize = self.memory_address(ram.len(), offset);
        to_i16(read_half(ram.as_slice(), address))
    }

    fn write(self, ram: &mut Vec<u8>, offset: i64, value: i16)
        requires
            self.wf(old(ram)@.len() as int),
            offset % 2 == 0,
            -TAP_LIMIT <= offset <= TAP_LIMIT,
        ensures
            final(ram)@ == self.stored(old(ram)@, offset as int, value as int),
            final(ram)@.len() == old(ram)@.len(),
    {
        let address: usize = self.memory_address(ram.len(), offset);
        write_half(ram, address, from_i16(value));
    }

    fn reflection(
        self,
        ram: &Vec<u8>,
        input: i16,
        source: i64,
        destination: i64,
        volumes: &EffectVolumes,
    ) -> (result: i16)
        requires
            self.wf(ram@.len() as int),
            tap_ok(source),
            tap_ok(destination),
        ensures
            result == self.reflected(
                ram@,
                input as int,
                source as int,
                destination as int,
                *volumes,
            ),
    {
        let wall: i32 = multiply_q15(self.read(ram, source), volumes.wall);
        let previous: i16 = self.read(ram, destination - 2);
        let incident: i16 = clamp_i16(i32::from(input) + wall);
        let delta: i16 = clamp_i16(i32::from(incident) - i32::from(previous));
        clamp_i16(multiply_q15(delta, volumes.filter) + i32::from(previous))
    }

    fn comb(self, ram: &Vec<u8>, taps: &(i64, i64, i64, i64), volumes: &EffectVolumes) -> (result:
        i16)
        requires
            self.wf(ram@.len() as int),
            comb_ok(*taps),
        ensures
            result == self.combed(ram@, *taps, *volumes),
    {
        let sum: i32 = multiply_q15(self.read(ram, taps.0), volumes.comb.0) + multiply_q15(
            self.read(ram, taps.1),
            volumes.comb.1,
        ) + multiply_q15(self.read(ram, taps.2), volumes.comb.2) + multiply_q15(
            self.read(ram, taps.3),
            volumes.comb.3,
        );
        clamp_i16(sum)
    }

    fn all_pass(
        self,
        ram: &mut Vec<u8>,
        input: i16,
        tap: i64,
        feedback: i64,
        volume: i16,
        writes_enabled: bool,
    ) -> (result: i16)
        requires
            self.wf(old(ram)@.len() as int),
            tap_ok(tap),
            tap_ok(feedback),
        ensures
            result == self.passed(old(ram)@, input as int, feedback as int, volume as int),
            final(ram)@ == self.after_all_pass(
                old(ram)@,
                input as int,
                tap as int,
                feedback as int,
                volume as int,
                writes_enabled,
            ),
            final(ram)@.len() == old(ram)@.len(),
    {
        let delayed: i16 = self.read(ram, feedback);
        let stored: i16 = clamp_i16(i32::from(input) - multiply_q15(delayed, volume));
        if writes_enabled {
            self.write(ram, tap, stored);
        }
        clamp_i16(multiply_q15(stored, volume) + i32::from(delayed))
    }

    fn reflect(
        self,
        ram: &mut Vec<u8>,
        taps: &EffectTaps,
        volumes: &EffectVolumes,
        writes_enabled: bool,
        input: (i16, i16),
    )
        requires
            self.wf(old(ram)@.len() as int),
            taps.wf(),
        ensures
            final(ram)@ == self.after_reflections(
                old(ram)@,
                *taps,
                *volumes,
                writes_enabled,
                (input.0 as int, input.1 as int),
            ),
            final(ram)@.len() == old(ram)@.len(),
    {
        if !writes_enabled {
            return ;
        }
        let left: i16 = clamp_i16(multiply_q15(input.0, volumes.input.0));
        let right: i16 = clamp_i16(multiply_q15(input.1, volumes.input.1));
        let same_left: i16 = self.reflection(
            ram,
            left,
            taps.same_source.0,
            taps.same.0,
            volumes,
        );
        let same_right: i16 = self.reflection(
            ram,
            right,
            taps.same_source.1,
            taps.same.1,
            volumes,
        );
        let different_left: i16 = self.reflection(
            ram,
            left,
            taps.different_source.0,
            taps.different.0,
            volumes,
        );
        let different_right: i16 = self.reflection(
            ram,
            right,
            taps.different_source.1,
            taps.different.1,
            volumes,
        );
        self.write(ram, taps.same.0, same_left);
        self.write(ram, taps.same.1, same_right);
        self.write(ram, taps.different.0, different_left);
        self.write(ram, taps.different.1, different_right);
    }

    /// Runs one tick of the graph and returns the wet samples.
    pub fn tick(
        self,
        ram: &mut Vec<u8>,
        taps: &EffectTaps,
        volumes: &EffectVolumes,
        writes_enabled: bool,
        input: (i16, i16),
    ) -> (result: (i16, i16))
        requires
            self.wf(old(ram)@.len() as int),
            taps.wf(),
        ensures
            ({
                let ticked = self.ticked(
                    old(ram)@,
                    *taps,
                    *volumes,
                    writes_enabled,
                    (input.0 as int, input.1 as int),
                );
                &&& final(ram)@ == ticked.0
                &&& result.0 == ticked.1.0
                &&& result.1 == ticked.1.1
            }),
            final(ram)@.len() == old(ram)@.len(),
    {
        proof {
            reveal(EffectArea::ticked);
        }
        self.reflect(ram, taps, volumes, writes_enabled, input);
        let left: i16 = self.comb(ram, &taps.left_comb, volumes);
        let right: i16 = self.comb(ram, &taps.right_comb, volumes);
        let left: i16 = self.all_pass(
            ram,
            left,
            taps.first_all_pass.0,
            taps.first_feedback.0,
            volumes.first_all_pass,
            writes_enabled,
        );
        let right: i16 = self.all_pass(
            ram,
            right,
            taps.first_all_pass.1,
            taps.first_feedback.1,
            volumes.first_all_pass,
            writes_enabled,
        );
        let left: i16 = self.all_pass(
            ram,
            left,
            taps.second_all_pass.0,
            taps.second_feedback.0,
            volumes.second_all_pass,
            writes_enabled,
        );
        let right: i16 = self.all_pass(
            ram,
            right,
            taps.second_all_pass.1,
            taps.second_feedback.1,
            volumes.second_all_pass,
            writes_enabled,
        );
        (left, right)
    }
}

/// A tap at a whole sample lies inside the ring with both its bytes.
pub proof fn lemma_tap_address(area: EffectArea, size: int, offset: int)
    requires
        area.wf(size),
        offset % 2 == 0,
    ensures
        area.start <= area.address(offset),
        area.address(offset) + 2 <= area.start + area.length,
{
    let length = area.length as int;
    let total = area.cursor + offset;
    let quotient = total / length;
    let half = length / 2;
    vstd::arithmetic::div_mod::lemma_fundamental_div_mod(total, length);
    vstd::arithmetic::div_mod::lemma_mod_bound(total, length);
    assert(total % length == total - 2 * (half * quotient)) by (nonlinear_arith)
        requires
            total == length * quotient + total % length,
            length == 2 * half,
    ;
}

/// `after` differs from `before` only inside the ring.
pub open spec fn changed_inside(area: EffectArea, before: Seq<u8>, after: Seq<u8>) -> bool {
    &&& after.len() == before.len()
    &&& forall|i: int|
        0 <= i < before.len() && !(area.start <= i < area.start + area.length)
            ==> #[trigger] after[i] == before[i]
}

proof fn lemma_stored_inside(
    area: EffectArea,
    origin: Seq<u8>,
    ram: Seq<u8>,
    offset: i64,
    value: int,
)
    requires
        area.wf(origin.len() as int),
        tap_ok(offset),
        changed_inside(area, origin, ram),
    ensures
        changed_inside(area, origin, area.stored(ram, offset as int, value)),
{
    lemma_tap_address(area, origin.len() as int, offset as int);
}

/// The graph writes nothing outside its work area, and nothing at all while its
/// writes are disabled.
pub proof fn law_graph_stays_in_area(
    area: EffectArea,
    ram: Seq<u8>,
    taps: EffectTaps,
    volumes: EffectVolumes,
    writes_enabled: bool,
    input: (int, int),
)
    requires
        area.wf(ram.len() as int),
        taps.wf(),
    ensures
        changed_inside(
            area,
            ram,
            area.ticked(ram, taps, volumes, writes_enabled, input).0,
        ),
        !writes_enabled ==> area.ticked(ram, taps, volumes, writes_enabled, input).0 == ram,
{
    reveal(EffectArea::ticked);
    if writes_enabled {
        let left = clamp16(q15(input.0, volumes.input.0 as int));
        let right = clamp16(q15(input.1, volumes.input.1 as int));
        let v0 = area.reflected(
            ram,
            left,
            taps.same_source.0 as int,
            taps.same.0 as int,
            volumes,
        );
        let v1 = area.reflected(
            ram,
            right,
            taps.same_source.1 as int,
            taps.same.1 as int,
            volumes,
        );
        let v2 = area.reflected(
            ram,
            left,
            taps.different_source.0 as int,
            taps.different.0 as int,
            volumes,
        );
        let v3 = area.reflected(
            ram,
            right,
            taps.different_source.1 as int,
            taps.different.1 as int,
            volumes,
        );
        let r0 = area.stored(ram, taps.same.0 as int, v0);
        lemma_stored_inside(area, ram, ram, taps.same.0, v0);
        let r1 = area.stored(r0, taps.same.1 as int, v1);
        lemma_stored_inside(area, ram, r0, taps.same.1, v1);
        let r2 = area.stored(r1, taps.different.0 as int, v2);
        lemma_stored_inside(area, ram, r1, taps.different.0, v2);
        let r3 = area.stored(r2, taps.different.1 as int, v3);
        lemma_stored_inside(area, ram, r2, taps.different.1, v3);
        let combs = (
            area.combed(r3, taps.left_comb, volumes),
            area.combed(r3, taps.right_comb, volumes),
        );
        lemma_pair_inside(
            area,
            ram,
            r3,
            taps.first_all_pass,
            taps.first_feedback,
            volumes.first_all_pass as int,
            combs,
        );
        let first = area.pair_passed(
            r3,
            taps.first_all_pass,
            taps.first_feedback,
            volumes.first_all_pass as int,
            true,
            combs,
        );
        lemma_pair_inside(
            area,
            ram,
            first.0,
            taps.second_all_pass,
            taps.second_feedback,
            volumes.second_all_pass as int,
            first.1,
        );
    }
}

proof fn lemma_pair_inside(
    area: EffectArea,
    origin: Seq<u8>,
    ram: Seq<u8>,
    taps: (i64, i64),
    feedbacks: (i64, i64),
    volume: int,
    input: (int, int),
)
    requires
        area.wf(origin.len() as int),
        tap_ok(taps.0),
        tap_ok(taps.1),
        changed_inside(area, origin, ram),
    ensures
        changed_inside(
            area,
            origin,
            area.pair_passed(ram, taps, feedbacks, volume, true, input).0,
        ),
{
    let first = area.delayed(ram, input.0, feedbacks.0 as int, volume);
    let middle = area.stored(ram, taps.0 as int, first);
    lemma_stored_inside(area, origin, ram, taps.0, first);
    let second = area.delayed(middle, input.1, feedbacks.1 as int, volume);
    lemma_stored_inside(area, origin, middle, taps.1, second);
}

/// A tap offset of whole samples.
pub open spec fn tap_ok(offset: i64) -> bool {
    offset % 2 == 0 && -TAP_LIMIT + 2 <= offset <= TAP_LIMIT
}

/// Four taps at whole samples.
pub open spec fn comb_ok(taps: (i64, i64, i64, i64)) -> bool {
    tap_ok(taps.0) && tap_ok(taps.1) && tap_ok(taps.2) && tap_ok(taps.3)
}

impl EffectTaps {
    /// Every tap is at a whole sample.
    pub open spec fn wf(self) -> bool {
        &&& tap_ok(self.same.0) && tap_ok(self.same.1)
        &&& tap_ok(self.same_source.0) && tap_ok(self.same_source.1)
        &&& tap_ok(self.different.0) && tap_ok(self.different.1)
        &&& tap_ok(self.different_source.0) && tap_ok(self.different_source.1)
        &&& comb_ok(self.left_comb)
        &&& comb_ok(self.right_comb)
        &&& tap_ok(self.first_all_pass.0) && tap_ok(self.first_all_pass.1)
        &&& tap_ok(self.first_feedback.0) && tap_ok(self.first_feedback.1)
        &&& tap_ok(self.second_all_pass.0) && tap_ok(self.second_all_pass.1)
        &&& tap_ok(self.second_feedback.0) && tap_ok(self.second_feedback.1)
    }
}

} // verus!
