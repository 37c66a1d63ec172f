//! PS1 reverb datapath and its 44.1 kHz/22.05 kHz resamplers.

use vstd::prelude::*;

use crate::arrays::with;
use crate::bits::{lemma_shr_i64, signed16, to_i16, unsigned16};
use crate::spu_common::effects::{
    changed_inside, law_graph_stays_in_area, EffectArea, EffectTaps, EffectVolumes,
};
use crate::spu_common::fixed::{clamp16, clamp_i64_to_i16};

verus! {

/// Size of sound RAM in bytes.
pub const SOUND_RAM_SIZE: usize = 0x8_0000;

/// The nonzero taps of the 39-tap half-band filter, without its centre tap, which
/// belongs to the opposite polyphase arm.
pub const RESAMPLE_COEFFICIENTS: [i16; 20] = [
    -0x0001, 0x0002, -0x000a, 0x0023, -0x0067, 0x010a, -0x0268, 0x0534, -0x0b90, 0x2806, 0x2806,
    -0x0b90, 0x0534, -0x0268, 0x010a, -0x0067, 0x0023, -0x000a, 0x0002, -0x0001,
];

/// The filter sum over `taps` samples of a ring, `stride` apart from `start` on.
pub open spec fn fir(history: Seq<i16>, start: int, stride: int, taps: nat) -> int
    decreases taps,
{
    if taps == 0 {
        0
    } else {
        fir(history, start, stride, (taps - 1) as nat) + history[(start + stride * (taps - 1)) % (
        history.len() as int)] * RESAMPLE_COEFFICIENTS[taps - 1]
    }
}

/// The sample at half rate for the input history that ends at `position`.
pub open spec fn downsampled(history: Seq<i16>, position: int) -> i16 {
    let start = (position - 38) % 64;
    clamp16((fir(history, start, 2, 20) + history[(start + 19) % 64] * 0x4000) / 0x8000) as i16
}

/// The interpolated sample between two effect outputs at the full rate. The filter
/// runs over a signal with an implied zero between samples, so its gain is doubled.
pub open spec fn upsampled(history: Seq<i16>, position: int) -> i16 {
    clamp16(fir(history, (position / 2 - 19) % 32, 1, 20) / 0x4000) as i16
}

/// The byte offset of a work-area register, which counts eight bytes.
pub open spec fn tap_offset(value: u16) -> i64 {
    (value * 8) as i64
}

/// The byte offset of the end of an all-pass delay line.
pub open spec fn feedback_offset(tap: u16, delay: u16) -> i64 {
    tap_offset(unsigned16(tap - delay))
}

/// The taps that the reverb registers select.
pub open spec fn register_taps(registers: [u16; 32]) -> EffectTaps {
    EffectTaps {
        same: (tap_offset(registers@[10]), tap_offset(registers@[11])),
        same_source: (tap_offset(registers@[16]), tap_offset(registers@[17])),
        different: (tap_offset(registers@[18]), tap_offset(registers@[19])),
        different_source: (tap_offset(registers@[25]), tap_offset(registers@[24])),
        left_comb: (
            tap_offset(registers@[12]),
            tap_offset(registers@[14]),
            tap_offset(registers@[20]),
            tap_offset(registers@[22]),
        ),
        right_comb: (
            tap_offset(registers@[13]),
            tap_offset(registers@[15]),
            tap_offset(registers@[21]),
            tap_offset(registers@[23]),
        ),
        first_all_pass: (tap_offset(registers@[26]), tap_offset(registers@[27])),
        first_feedback: (
            feedback_offset(registers@[26], registers@[0]),
            feedback_offset(registers@[27], registers@[0]),
        ),
        second_all_pass: (tap_offset(registers@[28]), tap_offset(registers@[29])),
        second_feedback: (
            feedback_offset(registers@[28], registers@[1]),
            feedback_offset(registers@[29], registers@[1]),
        ),
    }
}

/// The gain in a reverb register.
pub open spec fn gain(value: u16) -> i16 {
    signed16(value) as i16
}

/// The gains that the reverb registers select.
pub open spec fn register_volumes(registers: [u16; 32]) -> EffectVolumes {
    EffectVolumes {
        input: (gain(registers@[30]), gain(registers@[31])),
        wall: gain(registers@[7]),
        filter: gain(registers@[2]),
        comb: (
            gain(registers@[3]),
            gain(registers@[4]),
            gain(registers@[5]),
            gain(registers@[6]),
        ),
        first_all_pass: gain(registers@[8]),
        second_all_pass: gain(registers@[9]),
    }
}

/// Instance-owned reverb cursor, input history, and output history.
#[verifier::ext_equal]
#[derive(Clone, Copy, Debug, PartialEq, Eq)]
pub struct Reverb {
    pub current_address: usize,
    pub resample_position: usize,
    pub input_left: [i16; 64],
    pub input_right: [i16; 64],
    pub output_left: [i16; 32],
    pub output_right: [i16; 32],
}

/// The work area that a base register selects, up to the end of sound RAM.
pub open spec fn work_area(current_address: usize, base_register: u16) -> EffectArea {
    let base = base_register * 8;
    EffectArea {
        start: base as usize,
        length: (SOUND_RAM_SIZE - base) as usize,
        cursor: if current_address > base {
            (current_address - base) as usize
        } else {
            0
        },
    }
}

impl Reverb {
    /// The cursor is at a sample of sound RAM and the rings are indexed in range.
    pub open spec fn wf(self) -> bool {
        &&& self.current_address < SOUND_RAM_SIZE
        &&& self.current_address % 2 == 0
        &&& self.resample_position < 64
    }

    /// The cursor after an effect tick: it wraps to the base at the end of RAM.
    pub open spec fn next_address(self, base_register: u16) -> usize {
        if self.current_address + 2 >= SOUND_RAM_SIZE {
            (base_register * 8) as usize
        } else {
            (self.current_address + 2) as usize
        }
    }

    /// The state with one input sample taken into the history.
    pub open spec fn accepted(self, input: (i16, i16)) -> Reverb {
        Reverb {
            input_left: with(self.input_left, self.resample_position as int, input.0),
            input_right: with(self.input_right, self.resample_position as int, input.1),
            ..self
        }
    }

    /// The RAM and the wet samples after the effect graph runs at half rate.
    pub open spec fn effect(
        self,
        ram: Seq<u8>,
        base_register: u16,
        registers: [u16; 32],
        writes_enabled: bool,
    ) -> (Seq<u8>, (int, int)) {
        work_area(self.current_address, base_register).ticked(
            ram,
            register_taps(registers),
            register_volumes(registers),
            writes_enabled,
            (
                downsampled(self.input_left@, self.resample_position as int) as int,
                downsampled(self.input_right@, self.resample_position as int) as int,
            ),
        )
    }

    /// The state after the effect graph put out `wet` and its cursor moved.
    pub open spec fn effected(self, base_register: u16, wet: (int, int)) -> Reverb {
        Reverb {
            current_address: self.next_address(base_register),
            output_left: with(
                self.output_left,
                self.resample_position as int / 2,
                wet.0 as i16,
            ),
            output_right: with(
                self.output_right,
                self.resample_position as int / 2,
                wet.1 as i16,
            ),
            ..self
        }
    }

    /// The state with the resampler moved on by one sample.
    pub open spec fn moved(self) -> Reverb {
        Reverb { resample_position: ((self.resample_position + 1) % 64) as usize, ..self }
    }

    /// The state, the RAM and the wet samples after one stereo input sample. On
    /// even positions a delayed effect output passes through; on odd ones the
    /// effect runs and the output is interpolated.
    pub open spec fn processed(
        self,
        ram: Seq<u8>,
        base_register: u16,
        registers: [u16; 32],
        writes_enabled: bool,
        input: (i16, i16),
    ) -> (Reverb, Seq<u8>, (i16, i16)) {
        let taken = self.accepted(input);
        let position = self.resample_position as int;
        if position % 2 == 0 {
            let delayed = (position / 2 - 10) % 32;
            (taken.moved(), ram, (taken.output_left@[delayed], taken.output_right@[delayed]))
        } else {
            let effect = taken.effect(ram, base_register, registers, writes_enabled);
            let state = taken.effected(base_register, effect.1);
            (
                state.moved(),
                effect.0,
                (
                    upsampled(state.output_left@, position),
                    upsampled(state.output_right@, position),
                ),
            )
        }
    }

    /// The reset state.
    pub open spec fn at_reset(self) -> bool {
        &&& self.current_address == 0
        &&& self.resample_position == 0
        &&& forall|i: int| 0 <= i < 64 ==> #[trigger] self.input_left@[i] == 0
        &&& forall|i: int| 0 <= i < 64 ==> #[trigger] self.input_right@[i] == 0
        &&& forall|i: int| 0 <= i < 32 ==> #[trigger] self.output_left@[i] == 0
        &&& forall|i: int| 0 <= i < 32 ==> #[trigger] self.output_right@[i] == 0
    }

    /// Constructs reset state.
    pub fn new() -> (result: Self)
        ensures
            result.at_reset(),
            result.wf(),
    {
        Self {
            current_address: 0,
            resample_position: 0,
            input_left: [0i16;64],
            input_right: [0i16;64],
            output_left: [0i16;32],
            output_right: [0i16;32],
        }
    }

    /// Moves the cursor to the base of a work area.
    pub fn set_base(&mut self, base_register: u16)
        ensures
            *final(self) == (Reverb {
                current_address: (base_register * 8) as usize,
                ..*old(self)
            }),
            old(self).wf() ==> final(self).wf(),
    {
        self.current_address = base_register as usize * 8;
    }

    /// Accepts one 44.1 kHz stereo wet-send sample and returns one wet sample.
    pub fn process(
        &mut self,
        ram: &mut Vec<u8>,
        base_register: u16,
        registers: &[u16; 32],
        writes_enabled: bool,
        input: (i16, i16),
    ) -> (result: (i16, i16))
        requires
            old(self).wf(),
            old(ram)@.len() == SOUND_RAM_SIZE,
        ensures
            final(self).wf(),
            final(ram)@.len() == SOUND_RAM_SIZE,
            ({
                let processed = old(self).processed(
                    old(ram)@,
                    base_register,
                    *registers,
                    writes_enabled,
                    input,
                );
                &&& *final(self) == processed.0
                &&& final(ram)@ == processed.1
                &&& result == processed.2
            }),
    {
        let position: usize = self.resample_position;
        self.input_left[position] = input.0;
        self.input_right[position] = input.1;
        let output: (i16, i16) = if position % 2 == 0 {
            let delayed: usize = (position / 2 + 22) % 32;
            (self.output_left[delayed], self.output_right[delayed])
        } else {
            let wet = self.effect_tick(ram, base_register, registers, writes_enabled);
            self.output_left[position / 2] = wet.0;
            self.output_right[position / 2] = wet.1;
            (
                fir_upsample(&self.output_left, position),
                fir_upsample(&self.output_right, position),
            )
        };
        self.resample_position = (position + 1) % 64;
        output
    }

    #[verifier::rlimit(60)]
    #[verifier::spinoff_prover]
    fn effect_tick(
        &mut self,
        ram: &mut Vec<u8>,
        base_register: u16,
        registers: &[u16; 32],
        writes_enabled: bool,
    ) -> (result: (i16, i16))
        requires
            old(self).wf(),
            old(ram)@.len() == SOUND_RAM_SIZE,
        ensures
            final(ram)@.len() == SOUND_RAM_SIZE,
            ({
                let effect = old(self).effect(
                    old(ram)@,
                    base_register,
                    *registers,
                    writes_enabled,
                );
                &&& final(ram)@ == effect.0
                &&& result.0 == effect.1.0
                &&& result.1 == effect.1.1
            }),
            *final(self) == (Reverb {
                current_address: old(self).next_address(base_register),
                ..*old(self)
            }),
            final(self).wf(),
    {
        let base: usize = base_register as usize * 8;
        let area = EffectArea {
            start: base,
            length: SOUND_RAM_SIZE - base,
            cursor: if self.current_address > base {
                self.current_address - base
            } else {
                0
            },
        };
        let input = (
            downsample(&self.input_left, self.resample_position),
            downsample(&self.input_right, self.resample_position),
        );
        let wet = area.tick(ram, &taps(registers), &volumes(registers), writes_enabled, input);
        self.current_address = self.current_address + 2;
        if self.current_address >= SOUND_RAM_SIZE {
            self.current_address = base;
        }
        wet
    }
}

fn tap(value: u16) -> (result: i64)
    ensures
        result == tap_offset(value),
{
    value as i64 * 8
}

fn feedback(tap_value: u16, delay: u16) -> (result: i64)
    ensures
        result == feedback_offset(tap_value, delay),
{
    tap(tap_value.wrapping_sub(delay))
}

fn taps(registers: &[u16; 32]) -> (result: EffectTaps)
    ensures
        result == register_taps(*registers),
        result.wf(),
{
    EffectTaps {
        same: (tap(registers[10]), tap(registers[11])),
        same_source: (tap(registers[16]), tap(registers[17])),
        different: (tap(registers[18]), tap(registers[19])),
        different_source: (tap(registers[25]), tap(registers[24])),
        left_comb: (tap(registers[12]), tap(registers[14]), tap(registers[20]), tap(registers[22])),
        right_comb: (
            tap(registers[13]),
            tap(registers[15]),
            tap(registers[21]),
            tap(registers[23]),
        ),
        first_all_pass: (tap(registers[26]), tap(registers[27])),
        first_feedback: (
            feedback(registers[26], registers[0]),
            feedback(registers[27], registers[0]),
        ),
        second_all_pass: (tap(registers[28]), tap(registers[29])),
        second_feedback: (
            feedback(registers[28], registers[1]),
            feedback(registers[29], registers[1]),
        ),
    }
}

fn volumes(registers: &[u16; 32]) -> (result: EffectVolumes)
    ensures
        result == register_volumes(*registers),
{
    EffectVolumes {
        input: (to_i16(registers[30]), to_i16(registers[31])),
        wall: to_i16(registers[7]),
        filter: to_i16(registers[2]),
        comb: (
            to_i16(registers[3]),
            to_i16(registers[4]),
            to_i16(registers[5]),
            to_i16(registers[6]),
        ),
        first_all_pass: to_i16(registers[8]),
        second_all_pass: to_i16(registers[9]),
    }
}

proof fn lemma_tap_product(sample: i16, coefficient: i16)
    ensures
        -0x4000_0000 <= sample * coefficient <= 0x4000_0000,
{
    assert(-0x4000_0000 <= sample * coefficient <= 0x4000_0000) by (nonlinear_arith)
        requires
            -0x8000 <= sample <= 0x7fff,
            -0x8000 <= coefficient <= 0x7fff,
    ;
}

fn downsample(history: &[i16; 64], position: usize) -> (result: i16)
    requires
        position < 64,
    ensures
        result == downsampled(history@, position as int),
{
    let start: usize = (position + 26) % 64;
    let mut accumulator: i64 = 0;
    let mut index: usize = 0;
    while index < 20
        invariant
            index <= 20,
            start < 64,
            accumulator == fir(history@, start as int, 2, index as nat),
            -0x4000_0000 * index <= accumulator <= 0x4000_0000 * index,
        decreases 20 - index,
    {
        let sample: i16 = history[(start + index * 2) % 64];
        let coefficient: i16 = RESAMPLE_COEFFICIENTS[index];
        proof {
            lemma_tap_product(sample, coefficient);
        }
        accumulator += i64::from(sample) * i64::from(coefficient);
        index += 1;
    }
    accumulator += i64::from(history[(start + 19) % 64]) * 0x4000;
    proof {
        lemma_shr_i64(accumulator);
    }
    clamp_i64_to_i16(accumulator >> 15)
}

fn fir_upsample(history: &[i16; 32], position: usize) -> (result: i16)
    requires
        position < 64,
    ensures
        result == upsampled(history@, position as int),
{
    let start: usize = (position / 2 + 13) % 32;
    let mut accumulator: i64 = 0;
    let mut index: usize = 0;
    while index < 20
        invariant
            index <= 20,
            start < 32,
            accumulator == fir(history@, start as int, 1, index as nat),
            -0x4000_0000 * index <= accumulator <= 0x4000_0000 * index,
        decreases 20 - index,
    {
        let sample: i16 = history[(start + index) % 32];
        let coefficient: i16 = RESAMPLE_COEFFICIENTS[index];
        proof {
            lemma_tap_product(sample, coefficient);
        }
        accumulator += i64::from(sample) * i64::from(coefficient);
        index += 1;
    }
    proof {
        lemma_shr_i64(accumulator);
    }
    clamp_i64_to_i16(accumulator >> 14)
}

/// Reverb changes sound RAM only inside its work area, and not at all while its
/// writes are disabled.
pub proof fn law_reverb_stays_in_area(
    reverb: Reverb,
    ram: Seq<u8>,
    base_register: u16,
    registers: [u16; 32],
    writes_enabled: bool,
    input: (i16, i16),
)
    requires
        reverb.wf(),
        ram.len() == SOUND_RAM_SIZE,
    ensures
        changed_inside(
            work_area(reverb.current_address, base_register),
            ram,
            reverb.processed(ram, base_register, registers, writes_enabled, input).1,
        ),
        !writes_enabled ==> reverb.processed(
            ram,
            base_register,
            registers,
            writes_enabled,
            input,
        ).1 == ram,
{
    let taken = reverb.accepted(input);
    law_graph_stays_in_area(
        work_area(reverb.current_address, base_register),
        ram,
        register_taps(registers),
        register_volumes(registers),
        writes_enabled,
        (
            downsampled(taken.input_left@, taken.resample_position as int) as int,
            downsampled(taken.input_right@, taken.resample_position as int) as int,
        ),
    );
}

} // verus!
