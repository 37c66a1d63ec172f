//! What the PS1 reverb does around the graph: its registers, its resamplers and its cursor.

use vstd::prelude::*;

use crate::ps1::reverb::{
    downsampled, fir, register_taps, register_volumes, upsampled, work_area, Reverb,
    RESAMPLE_COEFFICIENTS,
};
use crate::spu_common::laws::{is_floor, is_saturated};

verus! {

/// `offset` is a register that counts in eight bytes.
pub open spec fn is_offset(register: u16, offset: i64) -> bool {
    offset == 8 * register
}

/// `offset` is the difference of two registers, modulo 2^16, in eight bytes.
pub open spec fn is_behind(tap: u16, delay: u16, offset: i64) -> bool {
    offset == 8 * ((tap - delay) % 0x1_0000)
}

/// The registers that place the taps, by number.
pub proof fn law_tap_registers(registers: [u16; 32])
    ensures
        ({
            let taps = register_taps(registers);
            let r = registers@;
            &&& is_offset(r[10], taps.same.0) && is_offset(r[11], taps.same.1)
            &&& is_offset(r[16], taps.same_source.0) && is_offset(r[17], taps.same_source.1)
            &&& is_offset(r[18], taps.different.0) && is_offset(r[19], taps.different.1)
            &&& is_offset(r[25], taps.different_source.0)
            &&& is_offset(r[24], taps.different_source.1)
            &&& is_offset(r[12], taps.left_comb.0) && is_offset(r[13], taps.right_comb.0)
            &&& is_offset(r[14], taps.left_comb.1) && is_offset(r[15], taps.right_comb.1)
            &&& is_offset(r[20], taps.left_comb.2) && is_offset(r[21], taps.right_comb.2)
            &&& is_offset(r[22], taps.left_comb.3) && is_offset(r[23], taps.right_comb.3)
            &&& is_offset(r[26], taps.first_all_pass.0) && is_offset(r[27], taps.first_all_pass.1)
            &&& is_offset(r[28], taps.second_all_pass.0)
            &&& is_offset(r[29], taps.second_all_pass.1)
            &&& is_behind(r[26], r[0], taps.first_feedback.0)
            &&& is_behind(r[27], r[0], taps.first_feedback.1)
            &&& is_behind(r[28], r[1], taps.second_feedback.0)
            &&& is_behind(r[29], r[1], taps.second_feedback.1)
        }),
{
}

/// `gain` is a register in two's complement.
pub open spec fn is_gain(register: u16, gain: i16) -> bool {
    gain == if register >= 0x8000 {
        register - 0x1_0000
    } else {
        register as int
    }
}

/// The registers that hold the gains, by number.
pub proof fn law_gain_registers(registers: [u16; 32])
    ensures
        ({
            let gains = register_volumes(registers);
            let r = registers@;
            &&& is_gain(r[30], gains.input.0) && is_gain(r[31], gains.input.1)
            &&& is_gain(r[2], gains.filter) && is_gain(r[7], gains.wall)
            &&& is_gain(r[3], gains.comb.0) && is_gain(r[4], gains.comb.1)
            &&& is_gain(r[5], gains.comb.2) && is_gain(r[6], gains.comb.3)
            &&& is_gain(r[8], gains.first_all_pass) && is_gain(r[9], gains.second_all_pass)
        }),
{
}

/// The work area runs from the base, which counts in eight bytes, to the end of sound RAM,
/// and the cursor is an offset into it.
pub proof fn law_work_area(current_address: usize, base_register: u16)
    ensures
        ({
            let area = work_area(current_address, base_register);
            &&& area.start == 8 * base_register
            &&& area.start + area.length == 0x8_0000
            &&& current_address >= area.start ==> area.start + area.cursor == current_address
            &&& current_address < area.start ==> area.cursor == 0
        }),
{
}

/// The half-band filter is symmetric, and its twenty outer taps sum up to half of 32768
/// within rounding, as its centre tap is.
pub proof fn law_filter_taps(k: int)
    requires
        0 <= k < 20,
    ensures
        RESAMPLE_COEFFICIENTS[k] == RESAMPLE_COEFFICIENTS[19 - k],
        RESAMPLE_COEFFICIENTS[0] == -1,
        RESAMPLE_COEFFICIENTS[1] == 2,
        RESAMPLE_COEFFICIENTS[2] == -10,
        RESAMPLE_COEFFICIENTS[3] == 35,
        RESAMPLE_COEFFICIENTS[4] == -103,
        RESAMPLE_COEFFICIENTS[5] == 266,
        RESAMPLE_COEFFICIENTS[6] == -616,
        RESAMPLE_COEFFICIENTS[7] == 1332,
        RESAMPLE_COEFFICIENTS[8] == -2960,
        RESAMPLE_COEFFICIENTS[9] == 10246,
{
}

proof fn lemma_impulse(
    history: Seq<i16>,
    start: int,
    stride: int,
    taps: nat,
    place: int,
    hit: int,
)
    requires
        taps <= 20,
        history.len() > 0,
        0 <= place < history.len(),
        forall|i: int| 0 <= i < history.len() && i != place ==> #[trigger] history[i] == 0,
        forall|k: int|
            0 <= k < taps ==> (#[trigger] ((start + stride * k) % history.len() as int) == place
                <==> k == hit),
    ensures
        fir(history, start, stride, taps) == if 0 <= hit < taps {
            history[place] * RESAMPLE_COEFFICIENTS[hit]
        } else {
            0
        },
    decreases taps,
{
    if taps > 0 {
        lemma_impulse(history, start, stride, (taps - 1) as nat, place, hit);
        let last = (start + stride * (taps - 1)) % history.len() as int;
        vstd::arithmetic::div_mod::lemma_mod_bound(
            start + stride * (taps - 1),
            history.len() as int,
        );
        if last != place {
            assert(history[last] == 0);
            assert(0 * RESAMPLE_COEFFICIENTS[taps - 1] == 0);
        }
    }
}

/// The downsampler's response to one sample: 38 samples back to now, it meets the outer
/// taps at even distances and the centre tap at nineteen.
pub proof fn law_downsampler_response(
    history: Seq<i16>,
    position: int,
    back: int,
    scaled: int,
)
    requires
        history.len() == 64,
        0 <= position < 64,
        0 <= back < 64,
        forall|i: int|
            0 <= i < 64 && i != (position - back) % 64 ==> #[trigger] history[i] == 0,
        is_floor(
            history[(position - back) % 64] * if back <= 38 && back % 2 == 0 {
                RESAMPLE_COEFFICIENTS[19 - back / 2] as int
            } else if back == 19 {
                0x4000
            } else {
                0
            },
            0x8000,
            scaled,
        ),
    ensures
        is_saturated(scaled, downsampled(history, position) as int),
{
    let start = (position - 38) % 64;
    let place = (position - back) % 64;
    let hit = if back % 2 == 0 {
        19 - back / 2
    } else {
        -1
    };
    assert forall|k: int| 0 <= k < 20 implies (#[trigger] ((start + 2 * k) % 64) == place <==> k
        == hit) by {
        lemma_ring(position, 2 * k, back);
    }
    lemma_impulse(history, start, 2, 20, place, hit);
    lemma_ring(position, 19, back);
    let centre = (start + 19) % 64;
    if back == 19 {
        assert(centre == place);
    } else {
        assert(centre != place);
        assert(history[centre] == 0);
    }
    if hit < 0 {
        assert(fir(history, start, 2, 20) == 0);
    }
    let value = history[place] as int;
    assert(value * 0 == 0);
}

proof fn lemma_ring(position: int, ahead: int, back: int)
    requires
        0 <= position < 64,
        0 <= ahead <= 38,
        0 <= back < 64,
    ensures
        ((position - 38) % 64 + ahead) % 64 == (position - back) % 64 <==> ahead == 38 - back,
{
}

/// On every other sample an effect output passes through as it was ten outputs ago, and
/// neither sound RAM nor the cursor changes. On the others the effect runs, its outputs are
/// kept, and the cursor moves on by one sample, from the end of sound RAM to the base.
pub proof fn law_reverb_runs_at_half_rate(
    reverb: Reverb,
    ram: Seq<u8>,
    base_register: u16,
    registers: [u16; 32],
    writes_enabled: bool,
    input: (i16, i16),
)
    requires
        reverb.wf(),
    ensures
        ({
            let (after, ram_after, wet) = reverb.processed(
                ram,
                base_register,
                registers,
                writes_enabled,
                input,
            );
            let position = reverb.resample_position as int;
            &&& after.resample_position == (position + 1) % 64
            &&& after.input_left@ == reverb.input_left@.update(position, input.0)
            &&& after.input_right@ == reverb.input_right@.update(position, input.1)
            &&& if position % 2 == 0 {
                &&& ram_after == ram
                &&& after.current_address == reverb.current_address
                &&& after.output_left == reverb.output_left
                &&& after.output_right == reverb.output_right
                &&& wet.0 == reverb.output_left@[(position / 2 + 22) % 32]
                &&& wet.1 == reverb.output_right@[(position / 2 + 22) % 32]
            } else {
                let (effected, output) = work_area(reverb.current_address, base_register).ticked(
                    ram,
                    register_taps(registers),
                    register_volumes(registers),
                    writes_enabled,
                    (
                        downsampled(after.input_left@, position) as int,
                        downsampled(after.input_right@, position) as int,
                    ),
                );
                &&& ram_after == effected
                &&& after.current_address == if reverb.current_address == 0x7_fffe {
                    8 * base_register
                } else {
                    reverb.current_address + 2
                }
                &&& after.output_left@ == reverb.output_left@.update(
                    position / 2,
                    output.0 as i16,
                )
                &&& after.output_right@ == reverb.output_right@.update(
                    position / 2,
                    output.1 as i16,
                )
                &&& wet.0 == upsampled(after.output_left@, position)
                &&& wet.1 == upsampled(after.output_right@, position)
            }
        }),
{
    let taken = reverb.accepted(input);
    let position = reverb.resample_position as int;
    assert(taken.input_left@ =~= reverb.input_left@.update(position, input.0));
    assert(taken.input_right@ =~= reverb.input_right@.update(position, input.1));
    assert((position / 2 - 10) % 32 == (position / 2 + 22) % 32);
    if position % 2 != 0 {
        let effect = taken.effect(ram, base_register, registers, writes_enabled);
        let state = taken.effected(base_register, effect.1);
        assert(state.output_left@ =~= reverb.output_left@.update(
            position / 2,
            (effect.1).0 as i16,
        ));
        assert(state.output_right@ =~= reverb.output_right@.update(
            position / 2,
            (effect.1).1 as i16,
        ));
    }
}

} // verus!
