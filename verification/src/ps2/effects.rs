//! SPU2 effect-unit arithmetic and sound-RAM addressing.

use vstd::prelude::*;

use crate::bits::{signed16, signed32, to_i16, to_i32, wrap32};
use crate::spu_common::effects::{
    changed_inside, law_graph_stays_in_area, EffectArea, EffectTaps, EffectVolumes,
};

verus! {

/// Shared SPU2 sound RAM size in bytes.
pub const SOUND_RAM_SIZE: usize = 0x20_0000;

/// Instance-owned cursor for one SPU2 core's effects work area.
#[derive(Clone, Copy, Debug, PartialEq, Eq, Structural)]
pub struct Effects {
    pub current: usize,
}

/// The even byte address in sound RAM that an address register selects.
pub open spec fn normalized(address: u32) -> int {
    ((address as int % SOUND_RAM_SIZE as int) / 2) * 2
}

/// The byte offset of a tap register, a signed count of eight-byte units.
pub open spec fn tap_offset(register: u32) -> i64 {
    (signed32(register) * 8) as i64
}

/// The byte offset of the end of an all-pass delay line.
pub open spec fn feedback_offset(tap: u32, delay: u32) -> i64 {
    tap_offset(wrap32(tap - delay))
}

/// The taps of the address registers.
pub open spec fn register_taps(addresses: [u32; 22]) -> EffectTaps {
    let tap = |index: int| tap_offset(addresses@[index]);
    EffectTaps {
        same: (tap(2), tap(3)),
        same_source: (tap(8), tap(9)),
        different: (tap(10), tap(11)),
        different_source: (tap(17), tap(16)),
        left_comb: (tap(4), tap(6), tap(12), tap(14)),
        right_comb: (tap(5), tap(7), tap(13), tap(15)),
        first_all_pass: (tap(18), tap(19)),
        first_feedback: (
            feedback_offset(addresses@[18], addresses@[0]),
            feedback_offset(addresses@[19], addresses@[0]),
        ),
        second_all_pass: (tap(20), tap(21)),
        second_feedback: (
            feedback_offset(addresses@[20], addresses@[1]),
            feedback_offset(addresses@[21], addresses@[1]),
        ),
    }
}

/// The gains of the coefficient registers.
pub open spec fn register_volumes(coefficients: [u16; 10]) -> EffectVolumes {
    let gain = |index: int| signed16(coefficients@[index]) as i16;
    EffectVolumes {
        input: (gain(8), gain(9)),
        wall: gain(5),
        filter: gain(0),
        comb: (gain(1), gain(2), gain(3), gain(4)),
        first_all_pass: gain(6),
        second_all_pass: gain(7),
    }
}

/// What the effect unit works on during one sample.
#[derive(Clone, Copy, Debug, PartialEq, Eq)]
pub struct EffectSettings {
    /// Start address register.
    pub start: u32,
    /// End address register.
    pub end: u32,
    /// Tap registers.
    pub addresses: [u32; 22],
    /// Coefficient registers.
    pub coefficients: [u16; 10],
}

impl EffectSettings {
    /// Whether the work area is empty.
    pub open spec fn is_empty(self) -> bool {
        normalized(self.end) < normalized(self.start)
    }
}

impl Effects {
    /// The cursor is the address of a sample.
    pub open spec fn wf(self) -> bool {
        self.current < SOUND_RAM_SIZE && self.current % 2 == 0
    }

    /// The cursor, brought back to the start of the work area if it lies outside.
    pub open spec fn entered(self, settings: EffectSettings) -> int {
        if self.current < normalized(settings.start) || self.current > normalized(settings.end)
            + 1 {
            normalized(settings.start)
        } else {
            self.current as int
        }
    }

    /// The work area of a sample.
    pub open spec fn area(self, settings: EffectSettings) -> EffectArea {
        EffectArea {
            start: normalized(settings.start) as usize,
            length: (normalized(settings.end) + 2 - normalized(settings.start)) as usize,
            cursor: (self.entered(settings) - normalized(settings.start)) as usize,
        }
    }

    /// The cursor after a sample.
    pub open spec fn moved(self, settings: EffectSettings) -> Effects {
        let next = self.entered(settings) + 2;
        Effects {
            current: if next > normalized(settings.end) + 1 {
                normalized(settings.start) as usize
            } else {
                next as usize
            },
        }
    }

    /// The state, the RAM and the wet samples after one stereo input sample. An empty
    /// work area gives silence.
    pub open spec fn processed(
        self,
        ram: Seq<u8>,
        settings: EffectSettings,
        writes_enabled: bool,
        input: (i16, i16),
    ) -> (Effects, Seq<u8>, (i16, i16)) {
        if settings.is_empty() {
            (self, ram, (0, 0))
        } else {
            let ticked = self.area(settings).ticked(
                ram,
                register_taps(settings.addresses),
                register_volumes(settings.coefficients),
                writes_enabled,
                (input.0 as int, input.1 as int),
            );
            (self.moved(settings), ticked.0, (ticked.1.0 as i16, ticked.1.1 as i16))
        }
    }

    pub fn new() -> (result: Self)
        ensures
            result == (Effects { current: 0 }),
            result.wf(),
    {
        Self { current: 0 }
    }

    /// Moves the cursor to the start of a work area.
    pub fn set_start(&mut self, start: u32)
        ensures
            *final(self) == (Effects { current: normalized(start) as usize }),
            final(self).wf(),
    {
        self.current = normalize_address(start);
    }

    /// Runs the PS2 effect graph at its native 48 kHz rate.
    pub fn process(
        &mut self,
        ram: &mut Vec<u8>,
        settings: &EffectSettings,
        writes_enabled: bool,
        input: (i16, i16),
    ) -> (result: (i16, i16))
        requires
            old(self).wf(),
            old(ram)@.len() == SOUND_RAM_SIZE,
        ensures
            final(self).wf(),
            final(ram)@.len() == SOUND_RAM_SIZE,
            ({
                let processed = old(self).processed(
                    old(ram)@,
                    *settings,
                    writes_enabled,
                    input,
                );
                &&& *final(self) == processed.0
                &&& final(ram)@ == processed.1
                &&& result == processed.2
            }),
    {
        let start: usize = normalize_address(settings.start);
        let end: usize = normalize_address(settings.end) + 1;
        if end < start {
            return (0, 0);
        }
        if self.current < start || self.current > end {
            self.current = start;
        }
        let area = EffectArea { start, length: end - start + 1, cursor: self.current - start };
        let wet = area.tick(
            ram,
            &taps(&settings.addresses),
            &volumes(&settings.coefficients),
            writes_enabled,
            input,
        );
        self.current = self.current + 2;
        if self.current > end {
            self.current = start;
        }
        wet
    }
}

/// Returns the even byte address in sound RAM that an address register selects.
pub fn normalize_address(address: u32) -> (result: usize)
    ensures
        result == normalized(address),
        result < SOUND_RAM_SIZE,
        result % 2 == 0,
{
    ((address as usize % SOUND_RAM_SIZE) / 2) * 2
}

fn tap(register: u32) -> (result: i64)
    ensures
        result == tap_offset(register),
        result % 2 == 0,
        -0x4_0000_0000 <= result <= 0x4_0000_0000,
{
    i64::from(to_i32(register)) * 8
}

fn feedback(tap_register: u32, delay: u32) -> (result: i64)
    ensures
        result == feedback_offset(tap_register, delay),
        result % 2 == 0,
        -0x4_0000_0000 <= result <= 0x4_0000_0000,
{
    tap(tap_register.wrapping_sub(delay))
}

fn taps(addresses: &[u32; 22]) -> (result: EffectTaps)
    ensures
        result == register_taps(*addresses),
        result.wf(),
{
    EffectTaps {
        same: (tap(addresses[2]), tap(addresses[3])),
        same_source: (tap(addresses[8]), tap(addresses[9])),
        different: (tap(addresses[10]), tap(addresses[11])),
        different_source: (tap(addresses[17]), tap(addresses[16])),
        left_comb: (tap(addresses[4]), tap(addresses[6]), tap(addresses[12]), tap(addresses[14])),
        right_comb: (
            tap(addresses[5]),
            tap(addresses[7]),
            tap(addresses[13]),
            tap(addresses[15]),
        ),
        first_all_pass: (tap(addresses[18]), tap(addresses[19])),
        first_feedback: (
            feedback(addresses[18], addresses[0]),
            feedback(addresses[19], addresses[0]),
        ),
        second_all_pass: (tap(addresses[20]), tap(addresses[21])),
        second_feedback: (
            feedback(addresses[20], addresses[1]),
            feedback(addresses[21], addresses[1]),
        ),
    }
}

fn volumes(coefficients: &[u16; 10]) -> (result: EffectVolumes)
    ensures
        result == register_volumes(*coefficients),
{
    EffectVolumes {
        input: (to_i16(coefficients[8]), to_i16(coefficients[9])),
        wall: to_i16(coefficients[5]),
        filter: to_i16(coefficients[0]),
        comb: (
            to_i16(coefficients[1]),
            to_i16(coefficients[2]),
            to_i16(coefficients[3]),
            to_i16(coefficients[4]),
        ),
        first_all_pass: to_i16(coefficients[6]),
        second_all_pass: to_i16(coefficients[7]),
    }
}

proof fn lemma_taps_at_samples(addresses: [u32; 22])
    ensures
        register_taps(addresses).wf(),
{
}

/// The effect unit changes sound RAM only inside its work area, and not at all while
/// its writes are disabled or the area is empty.
pub proof fn law_effects_stay_in_area(
    effects: Effects,
    ram: Seq<u8>,
    settings: EffectSettings,
    writes_enabled: bool,
    input: (i16, i16),
)
    requires
        effects.wf(),
        ram.len() == SOUND_RAM_SIZE,
    ensures
        ({
            let after = effects.processed(ram, settings, writes_enabled, input).1;
            &&& settings.is_empty() || !writes_enabled ==> after == ram
            &&& !settings.is_empty() ==> changed_inside(effects.area(settings), ram, after)
        }),
{
    if !settings.is_empty() {
        lemma_taps_at_samples(settings.addresses);
        law_graph_stays_in_area(
            effects.area(settings),
            ram,
            register_taps(settings.addresses),
            register_volumes(settings.coefficients),
            writes_enabled,
            (input.0 as int, input.1 as int),
        );
    }
}

} // verus!
