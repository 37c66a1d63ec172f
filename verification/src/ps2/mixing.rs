//! What the registers of the SPU2 do, and what a frame of a core is made of.

use vstd::prelude::*;

use crate::bits::{bit, lemma_bits};
use crate::ps2::effects::{
    register_taps, register_volumes, EffectSettings, Effects,
};
use crate::ps2::sound_core::{Core, CoreInput, CoreMix, StereoFrame, VoiceFault};
use crate::ps2::dma::{EndpointError, SoundDmaChannel, Spu2DmaEndpoint};
use crate::ps2::spu2::{Spu2, Spu2Error, Spu2State};
use crate::ps2::voice::Voice;
use crate::spu_common::fixed::clamp16;
use crate::spu_common::laws::{
    is_floor, is_saturated, law_direct_volume, law_pitch_modulation, law_signed_volume,
};
use crate::spu_common::mixer::selected;
use crate::spu_common::noise::noise_next;

verus! {

/// `offset` is a register in two's complement that counts in eight bytes.
pub open spec fn is_offset(register: u32, offset: i64) -> bool {
    offset == 8 * if register >= 0x8000_0000 {
        register - 0x1_0000_0000
    } else {
        register as int
    }
}

/// `offset` is the difference of two registers, modulo 2^32, in eight bytes.
pub open spec fn is_behind(tap: u32, delay: u32, offset: i64) -> bool {
    is_offset(((tap - delay) % 0x1_0000_0000) as u32, offset)
}

/// The registers that place the taps, by number.
pub proof fn law_tap_registers(addresses: [u32; 22])
    ensures
        ({
            let taps = register_taps(addresses);
            let r = addresses@;
            &&& is_offset(r[2], taps.same.0) && is_offset(r[3], taps.same.1)
            &&& is_offset(r[4], taps.left_comb.0) && is_offset(r[5], taps.right_comb.0)
            &&& is_offset(r[6], taps.left_comb.1) && is_offset(r[7], taps.right_comb.1)
            &&& is_offset(r[8], taps.same_source.0) && is_offset(r[9], taps.same_source.1)
            &&& is_offset(r[10], taps.different.0) && is_offset(r[11], taps.different.1)
            &&& is_offset(r[12], taps.left_comb.2) && is_offset(r[13], taps.right_comb.2)
            &&& is_offset(r[14], taps.left_comb.3) && is_offset(r[15], taps.right_comb.3)
            &&& is_offset(r[16], taps.different_source.1)
            &&& is_offset(r[17], taps.different_source.0)
            &&& is_offset(r[18], taps.first_all_pass.0) && is_offset(r[19], taps.first_all_pass.1)
            &&& is_offset(r[20], taps.second_all_pass.0)
            &&& is_offset(r[21], taps.second_all_pass.1)
            &&& is_behind(r[18], r[0], taps.first_feedback.0)
            &&& is_behind(r[19], r[0], taps.first_feedback.1)
            &&& is_behind(r[20], r[1], taps.second_feedback.0)
            &&& is_behind(r[21], r[1], taps.second_feedback.1)
        }),
{
}

/// `gain` is a register in two's complement.
pub open spec fn is_gain(register: u16, gain: i16) -> bool {
    gain == if register >= 0x8000 {
        register - 0x1_0000
    } else {
        register as int
    }
}

/// The registers that hold the gains, by number.
pub proof fn law_gain_registers(coefficients: [u16; 10])
    ensures
        ({
            let gains = register_volumes(coefficients);
            let r = coefficients@;
            &&& is_gain(r[0], gains.filter)
            &&& is_gain(r[1], gains.comb.0) && is_gain(r[2], gains.comb.1)
            &&& is_gain(r[3], gains.comb.2) && is_gain(r[4], gains.comb.3)
            &&& is_gain(r[5], gains.wall)
            &&& is_gain(r[6], gains.first_all_pass) && is_gain(r[7], gains.second_all_pass)
            &&& is_gain(r[8], gains.input.0) && is_gain(r[9], gains.input.1)
        }),
{
}

/// The effects run over the even addresses from the start register to the end register at
/// every sample. The cursor moves on by one sample, from the last one to the first, and a
/// cursor outside starts over. An end before the start silences them.
pub proof fn law_effect_area(
    effects: Effects,
    ram: Seq<u8>,
    settings: EffectSettings,
    start: int,
    end: int,
    writes_enabled: bool,
    input: (i16, i16),
)
    requires
        effects.wf(),
        start % 2 == 0 && start <= settings.start as int % 0x20_0000 <= start + 1,
        end % 2 == 0 && end <= settings.end as int % 0x20_0000 <= end + 1,
    ensures
        ({
            let (after, ram_after, wet) = effects.processed(ram, settings, writes_enabled, input);
            let cursor = if start <= effects.current <= end {
                effects.current as int
            } else {
                start
            };
            if end < start {
                after == effects && ram_after == ram && wet == (0i16, 0i16)
            } else {
                let (effected, output) = effects.area(settings).ticked(
                    ram,
                    register_taps(settings.addresses),
                    register_volumes(settings.coefficients),
                    writes_enabled,
                    (input.0 as int, input.1 as int),
                );
                &&& effects.area(settings).start == start
                &&& effects.area(settings).length == end + 2 - start
                &&& effects.area(settings).start + effects.area(settings).cursor == cursor
                &&& after.current == if cursor == end {
                    start
                } else {
                    cursor + 2
                }
                &&& ram_after == effected
                &&& wet.0 == output.0 as i16
                &&& wet.1 == output.1 as i16
            }
        }),
{
}

/// The registers of voice `voice` of core `core` are the sixteen bytes from
/// `0x1f90_0000 + 0x400 * core + 16 * voice` on: the two volumes, the pitch, of which
/// `0x3fff` is the highest, and the two envelope registers. The rest cannot be written.
pub proof fn law_voice_registers(
    state: Spu2State,
    core: int,
    voice: int,
    register: int,
    value: u16,
)
    requires
        core == 0 || core == 1,
        0 <= voice < 24,
        0 <= register < 8,
    ensures
        ({
            let address = (0x1f90_0000 + 0x400 * core + 16 * voice + 2 * register) as u32;
            let old = state.cores@[core].voices@[voice];
            let after = state.written(address, value);
            &&& after.cores@[core].voices@[voice] == Voice {
                volume_left: if register == 0 {
                    value
                } else {
                    old.volume_left
                },
                volume_right: if register == 1 {
                    value
                } else {
                    old.volume_right
                },
                pitch: if register != 2 {
                    old.pitch
                } else if value > 0x3fff {
                    0x3fff
                } else {
                    value
                },
                adsr_low: if register == 3 {
                    value
                } else {
                    old.adsr_low
                },
                adsr_high: if register == 4 {
                    value
                } else {
                    old.adsr_high
                },
                ..old
            }
            &&& after.cores@[1 - core] == state.cores@[1 - core]
            &&& forall|other: int|
                0 <= other < 24 && other != voice ==> #[trigger] after.cores@[core].voices@[other]
                    == state.cores@[core].voices@[other]
            &&& register < 6 ==> state.value_at(address) == Ok::<u16, Spu2Error>(
                if register == 0 {
                    old.volume_left
                } else if register == 1 {
                    old.volume_right
                } else if register == 2 {
                    old.pitch
                } else if register == 3 {
                    old.adsr_low
                } else if register == 4 {
                    old.adsr_high
                } else {
                    old.envelope.level
                },
            )
        }),
{
    let local = 16 * voice + 2 * register;
    assert(local / 16 == voice);
    assert(local % 16 == 2 * register);
}

/// The current volumes read as the direct volume, fifteen bits in two's complement, spread
/// over sixteen.
pub proof fn law_current_volumes(state: Spu2State, core: int, voice: int, volume: int)
    requires
        core == 0 || core == 1,
        0 <= voice < 24,
        -0x4000 <= volume < 0x4000,
    ensures
        ({
            let base = 0x1f90_0000 + 0x400 * core + 16 * voice;
            let old = state.cores@[core].voices@[voice];
            &&& (volume - old.volume_left) % 0x8000 == 0 ==> state.value_at((base + 12) as u32)
                == Ok::<u16, Spu2Error>((volume % 0x1_0000) as u16)
            &&& (volume - old.volume_right) % 0x8000 == 0 ==> state.value_at((base + 14) as u32)
                == Ok::<u16, Spu2Error>((volume % 0x1_0000) as u16)
        }),
{
    let local = 16 * voice + 12;
    assert(local / 16 == voice && local % 16 == 12);
    assert((local + 2) / 16 == voice && (local + 2) % 16 == 14);
    let old = state.cores@[core].voices@[voice];
    if (volume - old.volume_left) % 0x8000 == 0 {
        assert(crate::spu_common::mixer::direct_volume(old.volume_left) == volume);
    }
    if (volume - old.volume_right) % 0x8000 == 0 {
        assert(crate::spu_common::mixer::direct_volume(old.volume_right) == volume);
    }
}

/// A voice's start address is the pair of registers at `0x1c0 + 12 * voice`, the upper part
/// first: four bits of it in 128 KiB, and the lower part in units of sixteen bytes from bit
/// three on.
pub proof fn law_start_address(state: Spu2State, core: int, voice: int, high: u16, low: u16)
    requires
        core == 0 || core == 1,
        0 <= voice < 24,
    ensures
        ({
            let base = 0x1f90_0000 + 0x400 * core + 0x1c0 + 12 * voice;
            let after = state.written(base as u32, high).written((base + 2) as u32, low);
            let reversed = state.written((base + 2) as u32, low).written(base as u32, high);
            let address = (high as int % 16) * 0x2_0000 + (low as int / 8) * 16;
            &&& after.cores@[core].voices@[voice].start_address == address
            &&& reversed.cores@[core].voices@[voice].start_address == address
            &&& after.cores@[core].voices@[voice].repeat_address
                == state.cores@[core].voices@[voice].repeat_address
        }),
{
    let local = 0x1c0 + 12 * voice;
    assert((local - 0x1c0) / 12 == voice && (local - 0x1c0) % 12 == 0);
    assert((local + 2 - 0x1c0) / 12 == voice && (local + 2 - 0x1c0) % 12 == 2);
    let offset = 0x400 * core + local;
    assert(offset % 4 == 0);
    assert((offset / 4) * 2 == offset / 2);
    assert((offset + 2) / 2 == offset / 2 + 1);
}

/// The address registers of voices read back as they are held.
pub proof fn law_address_halves(state: Spu2State, core: int, voice: int)
    requires
        core == 0 || core == 1,
        0 <= voice < 24,
        state.cores@[core].voices@[voice].start_address < 0x20_0000,
        state.cores@[core].voices@[voice].repeat_address < 0x20_0000,
        state.cores@[core].voices@[voice].current_address < 0x20_0000,
    ensures
        ({
            let base = 0x1f90_0000 + 0x400 * core + 0x1c0 + 12 * voice;
            let held = state.cores@[core].voices@[voice];
            &&& state.value_at(base as u32) == Ok::<u16, Spu2Error>(
                (held.start_address / 0x2_0000) as u16,
            )
            &&& state.value_at((base + 2) as u32) == Ok::<u16, Spu2Error>(
                (((held.start_address / 16) % 0x2000) * 8) as u16,
            )
            &&& state.value_at((base + 4) as u32) == Ok::<u16, Spu2Error>(
                (held.repeat_address / 0x2_0000) as u16,
            )
            &&& state.value_at((base + 6) as u32) == Ok::<u16, Spu2Error>(
                (((held.repeat_address / 16) % 0x2000) * 8) as u16,
            )
            &&& state.value_at((base + 8) as u32) == Ok::<u16, Spu2Error>(
                (held.current_address as u32 / 0x2_0000) as u16,
            )
            &&& state.value_at((base + 10) as u32) == Ok::<u16, Spu2Error>(
                (((held.current_address as u32 / 16) % 0x2000) * 8) as u16,
            )
        }),
{
    let local = 12 * voice;
    assert(local / 12 == voice && local % 12 == 0);
    assert((local + 2) / 12 == voice && (local + 2) % 12 == 2);
    assert((local + 4) / 12 == voice && (local + 4) % 12 == 4);
    assert((local + 6) / 12 == voice && (local + 6) % 12 == 6);
    assert((local + 8) / 12 == voice && (local + 8) % 12 == 8);
    assert((local + 10) / 12 == voice && (local + 10) % 12 == 10);
}

proof fn lemma_switches(mask: u32, value: u16)
    requires
        mask < 0x100_0000,
    ensures
        crate::ps2::spu2::with_high_switches(mask, value) == mask - mask % 0x1_0000 + value,
        crate::ps2::spu2::with_low_switches(mask, value) == mask % 0x1_0000 + 0x1_0000 * (
        value as int % 0x100),
{
    let upper = mask as int / 0x1_0000;
    assert(0 <= upper < 0x100);
    assert(upper % 0x100 == upper);
    assert(mask == 0x1_0000 * upper + mask as int % 0x1_0000);
}

proof fn lemma_core_register(state: Spu2State, core: int, local: int, value: u16) -> (pair: (
    u16,
    u16,
))
    requires
        core == 0 || core == 1,
        0x180 <= local < 0x1c0,
        local % 2 == 0,
    ensures
        state.written((0x1f90_0000 + 0x400 * core + local) as u32, value).cores@[core]
            == crate::ps2::spu2::core_written(state.cores@[core], local as u32, value, pair),
{
    let offset = 0x400 * core + local;
    let kept = Spu2State {
        registers: crate::arrays::with(state.registers, offset / 2, value),
        ..state
    };
    kept.pair_at(offset)
}

/// The mask of the modulated voices holds the first sixteen voices at `0x180` and the last eight
/// at `0x182`.
pub proof fn law_modulation_mask(state: Spu2State, core: int, value: u16)
    requires
        core == 0 || core == 1,
        state.cores@[core].pitch_mod_mask < 0x100_0000,
    ensures
        ({
            let mask = state.cores@[core].pitch_mod_mask as int;
            let first = state.written((0x1f90_0180 + 0x400 * core) as u32, value).cores@[core];
            let last = state.written((0x1f90_0182 + 0x400 * core) as u32, value).cores@[core];
            &&& first.pitch_mod_mask == mask - mask % 0x1_0000 + value
            &&& last.pitch_mod_mask == mask % 0x1_0000 + 0x1_0000 * (value as int % 0x100)
        }),
{
    lemma_switches(state.cores@[core].pitch_mod_mask, value);
    let first = lemma_core_register(state, core, 0x180, value);
    let last = lemma_core_register(state, core, 0x182, value);
}

/// The mask of the noise voices holds the first sixteen voices at `0x184` and the last eight
/// at `0x186`.
pub proof fn law_noise_mask(state: Spu2State, core: int, value: u16)
    requires
        core == 0 || core == 1,
        state.cores@[core].noise_mask < 0x100_0000,
    ensures
        ({
            let mask = state.cores@[core].noise_mask as int;
            let first = state.written((0x1f90_0184 + 0x400 * core) as u32, value).cores@[core];
            let last = state.written((0x1f90_0186 + 0x400 * core) as u32, value).cores@[core];
            &&& first.noise_mask == mask - mask % 0x1_0000 + value
            &&& last.noise_mask == mask % 0x1_0000 + 0x1_0000 * (value as int % 0x100)
        }),
{
    lemma_switches(state.cores@[core].noise_mask, value);
    let first = lemma_core_register(state, core, 0x184, value);
    let last = lemma_core_register(state, core, 0x186, value);
}

/// The mask of the left dry bus holds the first sixteen voices at `0x188` and the last eight
/// at `0x18a`.
pub proof fn law_left_dry_mask(state: Spu2State, core: int, value: u16)
    requires
        core == 0 || core == 1,
        state.cores@[core].voice_dry_left < 0x100_0000,
    ensures
        ({
            let mask = state.cores@[core].voice_dry_left as int;
            let first = state.written((0x1f90_0188 + 0x400 * core) as u32, value).cores@[core];
            let last = state.written((0x1f90_018a + 0x400 * core) as u32, value).cores@[core];
            &&& first.voice_dry_left == mask - mask % 0x1_0000 + value
            &&& last.voice_dry_left == mask % 0x1_0000 + 0x1_0000 * (value as int % 0x100)
        }),
{
    lemma_switches(state.cores@[core].voice_dry_left, value);
    let first = lemma_core_register(state, core, 0x188, value);
    let last = lemma_core_register(state, core, 0x18a, value);
}

/// The mask of the left effect bus holds the first sixteen voices at `0x18c` and the last eight
/// at `0x18e`.
pub proof fn law_left_effect_mask(state: Spu2State, core: int, value: u16)
    requires
        core == 0 || core == 1,
        state.cores@[core].voice_effect_left < 0x100_0000,
    ensures
        ({
            let mask = state.cores@[core].voice_effect_left as int;
            let first = state.written((0x1f90_018c + 0x400 * core) as u32, value).cores@[core];
            let last = state.written((0x1f90_018e + 0x400 * core) as u32, value).cores@[core];
            &&& first.voice_effect_left == mask - mask % 0x1_0000 + value
            &&& last.voice_effect_left == mask % 0x1_0000 + 0x1_0000 * (value as int % 0x100)
        }),
{
    lemma_switches(state.cores@[core].voice_effect_left, value);
    let first = lemma_core_register(state, core, 0x18c, value);
    let last = lemma_core_register(state, core, 0x18e, value);
}

/// The mask of the right dry bus holds the first sixteen voices at `0x190` and the last eight
/// at `0x192`.
pub proof fn law_right_dry_mask(state: Spu2State, core: int, value: u16)
    requires
        core == 0 || core == 1,
        state.cores@[core].voice_dry_right < 0x100_0000,
    ensures
        ({
            let mask = state.cores@[core].voice_dry_right as int;
            let first = state.written((0x1f90_0190 + 0x400 * core) as u32, value).cores@[core];
            let last = state.written((0x1f90_0192 + 0x400 * core) as u32, value).cores@[core];
            &&& first.voice_dry_right == mask - mask % 0x1_0000 + value
            &&& last.voice_dry_right == mask % 0x1_0000 + 0x1_0000 * (value as int % 0x100)
        }),
{
    lemma_switches(state.cores@[core].voice_dry_right, value);
    let first = lemma_core_register(state, core, 0x190, value);
    let last = lemma_core_register(state, core, 0x192, value);
}

/// The mask of the right effect bus holds the first sixteen voices at `0x194` and the last eight
/// at `0x196`.
pub proof fn law_right_effect_mask(state: Spu2State, core: int, value: u16)
    requires
        core == 0 || core == 1,
        state.cores@[core].voice_effect_right < 0x100_0000,
    ensures
        ({
            let mask = state.cores@[core].voice_effect_right as int;
            let first = state.written((0x1f90_0194 + 0x400 * core) as u32, value).cores@[core];
            let last = state.written((0x1f90_0196 + 0x400 * core) as u32, value).cores@[core];
            &&& first.voice_effect_right == mask - mask % 0x1_0000 + value
            &&& last.voice_effect_right == mask % 0x1_0000 + 0x1_0000 * (value as int % 0x100)
        }),
{
    lemma_switches(state.cores@[core].voice_effect_right, value);
    let first = lemma_core_register(state, core, 0x194, value);
    let last = lemma_core_register(state, core, 0x196, value);
}

/// The volumes of a core: master, effects, input A and input B, left before right, from
/// `0x760` on for the first core and from `0x788` on for the second.
pub proof fn law_volumes(state: Spu2State, core: int, value: u16)
    requires
        core == 0 || core == 1,
    ensures
        ({
            let base = 0x1f90_0760 + 0x28 * core;
            let old = state.cores@[core];
            &&& state.written(base as u32, value).cores@[core].master_volume == (
                value,
                old.master_volume.1,
            )
            &&& state.written((base + 2) as u32, value).cores@[core].master_volume == (
                old.master_volume.0,
                value,
            )
            &&& state.written((base + 4) as u32, value).cores@[core].effect_volume == (
                value,
                old.effect_volume.1,
            )
            &&& state.written((base + 6) as u32, value).cores@[core].effect_volume == (
                old.effect_volume.0,
                value,
            )
            &&& state.written((base + 8) as u32, value).cores@[core].input_a_volume == (
                value,
                old.input_a_volume.1,
            )
            &&& state.written((base + 10) as u32, value).cores@[core].input_a_volume == (
                old.input_a_volume.0,
                value,
            )
            &&& state.written((base + 12) as u32, value).cores@[core].input_b_volume == (
                value,
                old.input_b_volume.1,
            )
            &&& state.written((base + 14) as u32, value).cores@[core].input_b_volume == (
                old.input_b_volume.0,
                value,
            )
        }),
{
}

/// The ten effect coefficients of a core follow from `0x774` on, or from `0x79c` on.
pub proof fn law_coefficients(state: Spu2State, core: int, index: int, value: u16)
    requires
        core == 0 || core == 1,
        0 <= index < 10,
    ensures
        state.written(
            (0x1f90_0774 + 0x28 * core + 2 * index) as u32,
            value,
        ).cores@[core].effect_coefficients@ == state.cores@[core].effect_coefficients@.update(
            index,
            value,
        ),
{
    let after = state.written((0x1f90_0774 + 0x28 * core + 2 * index) as u32, value);
    assert(after.cores@[core].effect_coefficients@
        =~= state.cores@[core].effect_coefficients@.update(index, value));
}

proof fn lemma_keys(core: Core, mask: u32, index: int)
    requires
        0 <= index < 24,
    ensures
        core.keyed_on(mask).voices@[index] == if bit(mask, index) {
            core.voices@[index].keyed_on()
        } else {
            core.voices@[index]
        },
        core.keyed_off(mask).voices@[index] == if bit(mask, index) {
            core.voices@[index].keyed_off()
        } else {
            core.voices@[index]
        },
        bit(core.keyed_on(mask).endx, index) <==> bit(core.endx, index) && !bit(mask, index),
        core.keyed_off(mask).endx == core.endx,
{
    reveal(Core::keyed_on);
    reveal(Core::keyed_off);
    let on = Seq::new(
        24,
        |i: int|
            if selected(mask, i) {
                core.voices@[i].keyed_on()
            } else {
                core.voices@[i]
            },
    );
    let off = Seq::new(
        24,
        |i: int|
            if selected(mask, i) {
                core.voices@[i].keyed_off()
            } else {
                core.voices@[i]
            },
    );
    crate::arrays::lemma_array_of::<Voice, 24>(on);
    crate::arrays::lemma_array_of::<Voice, 24>(off);
    lemma_bits(mask, 0x00ff_ffff, index, index);
    lemma_bits(mask & 0x00ff_ffff, 0, index, index);
    lemma_bits(core.endx, !(mask & 0x00ff_ffff), index, index);
    crate::ps1::sound::lemma_low_ones(index);
}

/// Key-on and key-off take exactly the voices whose bits are written: those of the first
/// sixteen at `0x1a0` and `0x1a4`, and those of the last eight at `0x1a2` and `0x1a6`.
/// Key-on clears the end markers of its voices.
pub proof fn law_keys(state: Spu2State, core: int, value: u16, index: int)
    requires
        core == 0 || core == 1,
        0 <= index < 24,
    ensures
        ({
            let base = 0x1f90_0000 + 0x400 * core;
            let old = state.cores@[core];
            let first = index < 16 && bit(value as u32, index);
            let last = index >= 16 && bit(value as u32, index - 16);
            let on_first = state.written((base + 0x1a0) as u32, value).cores@[core];
            let on_last = state.written((base + 0x1a2) as u32, value).cores@[core];
            let off_first = state.written((base + 0x1a4) as u32, value).cores@[core];
            let off_last = state.written((base + 0x1a6) as u32, value).cores@[core];
            &&& on_first.voices@[index] == if first {
                old.voices@[index].keyed_on()
            } else {
                old.voices@[index]
            }
            &&& on_last.voices@[index] == if last {
                old.voices@[index].keyed_on()
            } else {
                old.voices@[index]
            }
            &&& off_first.voices@[index] == if first {
                old.voices@[index].keyed_off()
            } else {
                old.voices@[index]
            }
            &&& off_last.voices@[index] == if last {
                old.voices@[index].keyed_off()
            } else {
                old.voices@[index]
            }
            &&& bit(on_first.endx, index) <==> bit(old.endx, index) && !first
            &&& bit(on_last.endx, index) <==> bit(old.endx, index) && !last
            &&& off_first.endx == old.endx
            &&& off_last.endx == old.endx
        }),
{
    let old = state.cores@[core];
    lemma_keys(old, value as u32, index);
    let low = ((value as int % 0x100) * 0x1_0000) as u32;
    lemma_keys(old, low, index);
    crate::ps1::sound::lemma_high_bit((value as int % 0x100) as u16, index);
    crate::ps1::sound::lemma_high_bit(value, index);
    if index >= 16 {
        lemma_low_byte_bit(value, index - 16);
    }
}

proof fn lemma_low_byte_bit(value: u16, index: int)
    requires
        0 <= index < 8,
    ensures
        bit((value as int % 0x100) as u32, index) == bit(value as u32, index),
{
    let scale = vstd::arithmetic::power2::pow2(index as nat) as int;
    let rest = vstd::arithmetic::power2::pow2((8 - index) as nat) as int;
    let half = vstd::arithmetic::power2::pow2((7 - index) as nat) as int;
    vstd::arithmetic::power2::lemma2_to64();
    vstd::arithmetic::power2::lemma_pow2_adds(index as nat, (8 - index) as nat);
    vstd::arithmetic::power2::lemma_pow2_adds(1, (7 - index) as nat);
    vstd::arithmetic::power2::lemma_pow2_pos(index as nat);
    let low = value as int % 0x100;
    let high = value as int / 0x100;
    assert(value == low + (high * rest) * scale) by (nonlinear_arith)
        requires
            value == low + high * 0x100,
            0x100 == scale * rest,
    ;
    vstd::arithmetic::div_mod::lemma_div_multiples_vanish_fancy(high * rest, low % scale, scale);
    vstd::arithmetic::div_mod::lemma_hoist_over_denominator(low, high * rest, scale as nat);
    assert(high * rest == 2 * (high * half)) by (nonlinear_arith)
        requires
            rest == 2 * half,
    ;
}

proof fn lemma_attribute_bits(value: u16)
    ensures
        value & 0x8000 != 0 <==> value >= 0x8000,
        value & 0x4000 != 0 <==> (value / 0x4000) % 2 == 1,
        value & 0x80 != 0 <==> (value / 0x80) % 2 == 1,
        value & 0x40 != 0 <==> (value / 0x40) % 2 == 1,
        value & 1 != 0 <==> value % 2 == 1,
{
    vstd::arithmetic::power2::lemma2_to64();
    lemma_bits(value as u32, 0, 15, 15);
    lemma_bits(value as u32, 0, 14, 14);
    lemma_bits(value as u32, 0, 7, 7);
    lemma_bits(value as u32, 0, 6, 6);
    lemma_bits(value as u32, 0, 0, 0);
}

/// The interrupt of a core is raised exactly by a touch of the sixteen bytes that its
/// address lies in while bit 6 of its attributes is set; writing the attributes with that
/// bit clear takes it back.
pub proof fn law_interrupt(state: Spu2State, core: int, address: int, value: u16)
    requires
        core == 0 || core == 1,
        0 <= address < 0x20_0000,
    ensures
        ({
            let old = state.cores@[core];
            let unit = (old.irq_address as int % 0x20_0000) / 16;
            let hit = (old.attributes / 0x40) % 2 == 1 && 16 * unit <= address < 16 * unit + 16;
            &&& old.touched(address).irq_request <==> old.irq_request || hit
            &&& !hit ==> old.touched(address) == old
            &&& old.touched(address) == (Core {
                irq_request: old.touched(address).irq_request,
                ..old
            })
        }),
        ({
            let old = state.cores@[core];
            let after = state.written((0x1f90_019a + 0x400 * core) as u32, value);
            &&& after.cores@[core].attributes == value
            &&& after.cores@[core].irq_request <==> old.irq_request && (value / 0x40) % 2 == 1
        }),
{
    lemma_attribute_bits(state.cores@[core].attributes);
    lemma_attribute_bits(value);
}

/// The transfer address and the interrupt address are pairs like the start address; every
/// halfword through the data port goes to the transfer address, which moves on by two.
pub proof fn law_transfers(
    state: Spu2State,
    ram: Seq<u8>,
    core: int,
    value: u16,
    address: int,
    each: int,
)
    requires
        core == 0 || core == 1,
        ram.len() == 0x20_0000,
        address % 2 == 0,
        address <= state.cores@[core].transfer_address as int % 0x20_0000 <= address + 1,
        0 <= each < 0x20_0000,
    ensures
        ({
            let port = (0x1f90_01ac + 0x400 * core) as u32;
            let after = state.written(port, value).cores@[core];
            let stored = state.written_ram(ram, port, value);
            &&& after.transfer_address == (address + 2) % 0x20_0000
            &&& after.irq_request == state.cores@[core].touched(address).irq_request
            &&& after.voices == state.cores@[core].voices
            &&& stored.len() == ram.len()
            &&& stored[each] == if each == address {
                value as int % 0x100
            } else if each == address + 1 {
                value as int / 0x100
            } else {
                ram[each] as int
            }
        }),
{
}

/// The bit of a route in the mixer register.
pub open spec fn is_routed(mix: u16, route: int) -> bool {
    bit(mix as u32, route)
}

proof fn lemma_routes(mix: u16, value: int)
    ensures
        forall|route: int|
            0 <= route < 12 ==> (is_routed(mix, route) <==> #[trigger] bit(mix as u32, route)),
        crate::ps2::sound_core::routed(value, mix, 0x001) == if is_routed(mix, 0) {
            value
        } else {
            0
        },
        crate::ps2::sound_core::routed(value, mix, 0x002) == if is_routed(mix, 1) {
            value
        } else {
            0
        },
        crate::ps2::sound_core::routed(value, mix, 0x004) == if is_routed(mix, 2) {
            value
        } else {
            0
        },
        crate::ps2::sound_core::routed(value, mix, 0x008) == if is_routed(mix, 3) {
            value
        } else {
            0
        },
        crate::ps2::sound_core::routed(value, mix, 0x010) == if is_routed(mix, 4) {
            value
        } else {
            0
        },
        crate::ps2::sound_core::routed(value, mix, 0x020) == if is_routed(mix, 5) {
            value
        } else {
            0
        },
        crate::ps2::sound_core::routed(value, mix, 0x040) == if is_routed(mix, 6) {
            value
        } else {
            0
        },
        crate::ps2::sound_core::routed(value, mix, 0x080) == if is_routed(mix, 7) {
            value
        } else {
            0
        },
        crate::ps2::sound_core::routed(value, mix, 0x100) == if is_routed(mix, 8) {
            value
        } else {
            0
        },
        crate::ps2::sound_core::routed(value, mix, 0x200) == if is_routed(mix, 9) {
            value
        } else {
            0
        },
        crate::ps2::sound_core::routed(value, mix, 0x400) == if is_routed(mix, 10) {
            value
        } else {
            0
        },
        crate::ps2::sound_core::routed(value, mix, 0x800) == if is_routed(mix, 11) {
            value
        } else {
            0
        },
{
    vstd::arithmetic::power2::lemma2_to64();
    lemma_bits(mix as u32, 0, 0, 0);
    lemma_bits(mix as u32, 0, 1, 1);
    lemma_bits(mix as u32, 0, 2, 2);
    lemma_bits(mix as u32, 0, 3, 3);
    lemma_bits(mix as u32, 0, 4, 4);
    lemma_bits(mix as u32, 0, 5, 5);
    lemma_bits(mix as u32, 0, 6, 6);
    lemma_bits(mix as u32, 0, 7, 7);
    lemma_bits(mix as u32, 0, 8, 8);
    lemma_bits(mix as u32, 0, 9, 9);
    lemma_bits(mix as u32, 0, 10, 10);
    lemma_bits(mix as u32, 0, 11, 11);
}

/// What a voice adds to the four buses: its output at the volume of the side, where its bit
/// in the mask of the bus and the bus's bit in the mixer register are both set. Its output
/// modulates the pitch of the next voice where that one's bit is set, a block that it
/// fetched is touched, and a loop end sets its end marker.
pub proof fn law_voice_in_mix(
    mix: CoreMix,
    ram: Seq<u8>,
    index: int,
    pitch: u16,
    left: int,
    right: int,
    volume_left: int,
    volume_right: int,
    left_out: int,
    right_out: int,
)
    requires
        0 <= index < 24,
        mix.failure is None,
        !bit(mix.state.noise_mask, index),
        ({
            let base = mix.state.voices@[index].pitch;
            if index > 0 && bit(mix.state.pitch_mod_mask, index) {
                let product = base * (mix.previous + 0x8000);
                pitch == if product >= 0x4000 * 0x8000 {
                    0x3fff
                } else {
                    product / 0x8000
                }
            } else {
                pitch == base
            }
        }),
        mix.state.voices@[index].rendered(ram, pitch, None).1 is Ok,
        ({
            let played = mix.state.voices@[index].rendered(ram, pitch, None);
            let dry = played.1->Ok_0.dry;
            &&& -0x4000 <= volume_left < 0x4000
            &&& (volume_left - played.0.volume_left) % 0x8000 == 0
            &&& is_floor(dry * volume_left, 0x4000, left)
            &&& -0x4000 <= volume_right < 0x4000
            &&& (volume_right - played.0.volume_right) % 0x8000 == 0
            &&& is_floor(dry * volume_right, 0x4000, right)
        }),
        is_saturated(left, left_out),
        is_saturated(right, right_out),
    ensures
        ({
            let (played, output) = mix.state.voices@[index].rendered(ram, pitch, None);
            let after = mix.with_voice(ram, index);
            let routes = mix.state.mix;
            &&& after.failure is None
            &&& after.previous == output->Ok_0.dry
            &&& after.dry_left - mix.dry_left == if bit(mix.state.voice_dry_left, index)
                && is_routed(routes, 4) {
                left_out
            } else {
                0
            }
            &&& after.dry_right - mix.dry_right == if bit(mix.state.voice_dry_right, index)
                && is_routed(routes, 5) {
                right_out
            } else {
                0
            }
            &&& after.wet_left - mix.wet_left == if bit(mix.state.voice_effect_left, index)
                && is_routed(routes, 10) {
                left_out
            } else {
                0
            }
            &&& after.wet_right - mix.wet_right == if bit(mix.state.voice_effect_right, index)
                && is_routed(routes, 11) {
                right_out
            } else {
                0
            }
            &&& after.state.voices@ == mix.state.voices@.update(index, played)
            &&& after.state.noise == mix.state.noise
            &&& after.state.irq_request == match output->Ok_0.fetched {
                Some(address) => mix.state.touched(address as int).touched(
                    (address + 8) % 0x20_0000,
                ).irq_request,
                None => mix.state.irq_request,
            }
            &&& forall|bits: int|
                0 <= bits < 24 ==> (#[trigger] bit(after.state.endx, bits) <==> bit(
                    mix.state.endx,
                    bits,
                ) || (bits == index && output->Ok_0.loop_end))
        }),
{
    reveal(CoreMix::with_voice);
    let state = mix.state;
    lemma_bits(state.noise_mask, 0, index, index);
    lemma_bits(state.pitch_mod_mask, 0, index, index);
    lemma_bits(state.voice_dry_left, 0, index, index);
    lemma_bits(state.voice_dry_right, 0, index, index);
    lemma_bits(state.voice_effect_left, 0, index, index);
    lemma_bits(state.voice_effect_right, 0, index, index);
    lemma_routes(state.mix, left_out);
    lemma_routes(state.mix, right_out);
    let base = state.voices@[index].pitch;
    law_pitch_modulation(base, mix.previous, (base * (mix.previous + 0x8000)) / 0x8000);
    let (played, output) = state.voices@[index].rendered(ram, pitch, None);
    law_direct_volume(output->Ok_0.dry, played.volume_left, volume_left, left);
    law_direct_volume(output->Ok_0.dry, played.volume_right, volume_right, right);
    let after = mix.with_voice(ram, index);
    assert(after.state.voices@ =~= state.voices@.update(index, played));
    assert forall|bits: int| 0 <= bits < 24 implies (#[trigger] bit(after.state.endx, bits) <==> bit(
        mix.state.endx,
        bits,
    ) || (bits == index && output->Ok_0.loop_end)) by {
        lemma_bits(state.endx, 1u32 << (index as u32), bits, index);
    }
}

/// A voice whose noise bit is set plays the next state of the core's noise generator, as a
/// signed sample.
pub proof fn law_noise_in_mix(mix: CoreMix, ram: Seq<u8>, index: int, sample: i16)
    requires
        0 <= index < 24,
        mix.failure is None,
        bit(mix.state.noise_mask, index),
        !bit(mix.state.pitch_mod_mask, index),
        (sample - noise_next(mix.state.noise.state)) % 0x1_0000 == 0,
    ensures
        ({
            let voice = mix.state.voices@[index];
            let after = mix.with_voice(ram, index);
            let played = voice.rendered(ram, voice.pitch, Some(sample));
            &&& after.state.noise.state == noise_next(mix.state.noise.state)
            &&& after.state.voices@[index] == played.0
            &&& played.1 matches Ok(output) ==> after.previous == output.dry
        }),
{
    reveal(CoreMix::with_voice);
    lemma_bits(mix.state.noise_mask, 0, index, index);
    lemma_bits(mix.state.pitch_mod_mask, 0, index, index);
}

/// The two input streams at their signed volumes, input A only with the external path on.
/// Bits 0 to 3 of the mixer register send A left, A right, B left and B right to the dry
/// buses, and bits 6 to 9 to the effect buses.
pub proof fn law_inputs_in_mix(
    mix: CoreMix,
    input: CoreInput,
    volumes: (int, int, int, int),
    products: (int, int, int, int),
    inputs: (int, int, int, int),
)
    requires
        -0x8000 <= volumes.0 < 0x8000 && (volumes.0 - mix.state.input_a_volume.0) % 0x1_0000 == 0,
        -0x8000 <= volumes.1 < 0x8000 && (volumes.1 - mix.state.input_a_volume.1) % 0x1_0000 == 0,
        -0x8000 <= volumes.2 < 0x8000 && (volumes.2 - mix.state.input_b_volume.0) % 0x1_0000 == 0,
        -0x8000 <= volumes.3 < 0x8000 && (volumes.3 - mix.state.input_b_volume.1) % 0x1_0000 == 0,
        is_floor(input.input_a.left * volumes.0, 0x8000, products.0),
        is_floor(input.input_a.right * volumes.1, 0x8000, products.1),
        is_floor(input.input_b.left * volumes.2, 0x8000, products.2),
        is_floor(input.input_b.right * volumes.3, 0x8000, products.3),
        mix.state.attributes % 2 == 1 ==> is_saturated(products.0, inputs.0) && is_saturated(
            products.1,
            inputs.1,
        ),
        mix.state.attributes % 2 == 0 ==> inputs.0 == 0 && inputs.1 == 0,
        is_saturated(products.2, inputs.2),
        is_saturated(products.3, inputs.3),
    ensures
        ({
            let after = mix.with_inputs(input);
            let routes = mix.state.mix;
            let on = |route: int, value: int|
                if is_routed(routes, route) {
                    value
                } else {
                    0
                };
            &&& after.dry_left == mix.dry_left + on(0, inputs.0) + on(2, inputs.2)
            &&& after.dry_right == mix.dry_right + on(1, inputs.1) + on(3, inputs.3)
            &&& after.wet_left == mix.wet_left + on(6, inputs.0) + on(8, inputs.2)
            &&& after.wet_right == mix.wet_right + on(7, inputs.1) + on(9, inputs.3)
            &&& after.state == mix.state
        }),
{
    lemma_attribute_bits(mix.state.attributes);
    let state = mix.state;
    lemma_routes(state.mix, inputs.0);
    lemma_routes(state.mix, inputs.1);
    lemma_routes(state.mix, inputs.2);
    lemma_routes(state.mix, inputs.3);
    law_signed_volume(input.input_a.left, state.input_a_volume.0, volumes.0, products.0);
    law_signed_volume(input.input_a.right, state.input_a_volume.1, volumes.1, products.1);
    law_signed_volume(input.input_b.left, state.input_b_volume.0, volumes.2, products.2);
    law_signed_volume(input.input_b.right, state.input_b_volume.1, volumes.3, products.3);
}

/// A core without bit 15 of its attributes is silent and stands still. With it, the effects
/// run only with bit 7, and the output is silent without bit 14.
pub proof fn law_core_frame(core: Core, ram: Seq<u8>, input: CoreInput)
    requires
        core.mixed(ram, 24).failure is None,
    ensures
        core.attributes < 0x8000 ==> core.framed(ram, input) == (
            core,
            ram,
            Ok::<StereoFrame, VoiceFault>(StereoFrame { left: 0, right: 0 }),
        ),
        core.attributes >= 0x8000 ==> ({
            let mix = core.mixed(ram, 24).with_inputs(input);
            let state = mix.state;
            let send = (clamp16(mix.wet_left) as i16, clamp16(mix.wet_right) as i16);
            let (after, ram_after, output) = core.framed(ram, input);
            let (effects, effected, wet) = state.effects.processed(
                ram,
                state.settings(),
                true,
                send,
            );
            &&& (state.attributes / 0x80) % 2 == 0 ==> ram_after == ram && after == state
            &&& (state.attributes / 0x80) % 2 == 1 ==> ram_after == effected && after == (Core {
                effects,
                ..state
            })
            &&& output is Ok
            &&& (state.attributes / 0x4000) % 2 == 0 ==> output->Ok_0 == (StereoFrame {
                left: 0,
                right: 0,
            })
            &&& (state.attributes / 0x4000) % 2 == 1 ==> output->Ok_0 == after.output(
                mix,
                if (state.attributes / 0x80) % 2 == 1 {
                    wet
                } else {
                    (0i16, 0i16)
                },
            )
        }),
{
    reveal(Core::framed);
    lemma_attribute_bits(core.attributes);
    let mix = core.mixed(ram, 24).with_inputs(input);
    lemma_attribute_bits(mix.state.attributes);
}

/// The output of an audible core, on each side: the dry bus and the effects at their signed
/// volume, limited, at the signed master volume.
pub proof fn law_core_output(
    core: Core,
    mix: CoreMix,
    wet: (i16, i16),
    right: bool,
    wet_volume: int,
    wet_out: int,
    volume: int,
    limited: int,
    main: int,
)
    requires
        (core.attributes / 0x4000) % 2 == 1,
        ({
            let dry = crate::ps1::sound::side((mix.dry_left, mix.dry_right), right);
            let sample = crate::ps1::sound::side(wet, right);
            &&& -0x8000 <= wet_volume < 0x8000
            &&& (wet_volume - crate::ps1::sound::side(core.effect_volume, right)) % 0x1_0000 == 0
            &&& is_floor(sample * wet_volume, 0x8000, wet_out)
            &&& -0x8000 <= volume < 0x8000
            &&& (volume - crate::ps1::sound::side(core.master_volume, right)) % 0x1_0000 == 0
            &&& wet_out < 0x8000 ==> is_saturated(dry + wet_out, limited)
            &&& wet_out >= 0x8000 ==> is_saturated(dry + 0x7fff, limited)
            &&& is_floor(limited * volume, 0x8000, main)
        }),
    ensures
        is_saturated(
            main,
            if right {
                core.output(mix, wet).right as int
            } else {
                core.output(mix, wet).left as int
            },
        ),
{
    lemma_attribute_bits(core.attributes);
    let sample = crate::ps1::sound::side(wet, right);
    law_signed_volume(
        sample,
        crate::ps1::sound::side(core.effect_volume, right),
        wet_volume,
        wet_out,
    );
    assert(-0x8000 * 0x8000 <= sample * wet_volume <= 0x8000 * 0x8000) by (nonlinear_arith)
        requires
            -0x8000 <= sample <= 0x7fff,
            -0x8000 <= wet_volume <= 0x7fff,
    ;
    law_signed_volume(
        limited as i16,
        crate::ps1::sound::side(core.master_volume, right),
        volume,
        main,
    );
}

/// The cores are chained: what the first core puts out is added, limited, to input A of the
/// second, whose output is that of the unit. Both run over the same sound RAM, the first
/// one before the second.
pub proof fn law_cores_are_chained(
    state: Spu2State,
    ram: Seq<u8>,
    inputs: [CoreInput; 2],
    chained: CoreInput,
)
    requires
        state.cores@[0].framed(ram, inputs@[0]).2 is Ok,
        ({
            let first = state.cores@[0].framed(ram, inputs@[0]).2->Ok_0;
            &&& is_saturated(
                inputs@[1].input_a.left + first.left,
                chained.input_a.left as int,
            )
            &&& is_saturated(
                inputs@[1].input_a.right + first.right,
                chained.input_a.right as int,
            )
            &&& chained.input_b == inputs@[1].input_b
        }),
        ({
            let (_, ram0, _) = state.cores@[0].framed(ram, inputs@[0]);
            state.cores@[1].framed(ram0, chained).2 is Ok
        }),
    ensures
        ({
            let (core0, ram0, output0) = state.cores@[0].framed(ram, inputs@[0]);
            let (core1, ram1, output1) = state.cores@[1].framed(ram0, chained);
            let (after, ram_after, frames) = state.framed(ram, inputs);
            &&& ram_after == ram1
            &&& after.cores@[0] == core0
            &&& after.cores@[1] == core1
            &&& frames == Ok::<(StereoFrame, StereoFrame), Spu2Error>(
                (output0->Ok_0, output1->Ok_0),
            )
            &&& bit(after.irq_info as u32, 2) <==> bit(state.irq_info as u32, 2)
                || core0.irq_request
            &&& bit(after.irq_info as u32, 3) <==> bit(state.irq_info as u32, 3)
                || core1.irq_request
        }),
{
    reveal(Spu2State::framed);
    let (core0, ram0, output0) = state.cores@[0].framed(ram, inputs@[0]);
    assert(crate::ps2::spu2::chained_input(inputs@[1], output0->Ok_0) == chained);
    vstd::arithmetic::power2::lemma2_to64();
    let info = state.irq_info as u32;
    lemma_bits(info, 4, 2, 2);
    lemma_bits(info, 4, 3, 2);
    lemma_bits(info | 4, 8, 2, 3);
    lemma_bits(info | 4, 8, 3, 3);
    lemma_bits(info, 8, 2, 3);
    lemma_bits(info, 8, 3, 3);
    assert((state.irq_info | 4u16) as u32 == info | 4u32);
    assert((state.irq_info | 8u16) as u32 == info | 8u32);
    assert(((state.irq_info | 4u16) | 8u16) as u32 == (info | 4u32) | 8u32);
}

/// A word through the DMA port of a core goes to its transfer address, low byte first, and
/// moves it on by four, round the end of sound RAM; reading one takes the same bytes.
pub proof fn law_words_through_the_port(
    before: Spu2,
    second: bool,
    value: u32,
    result: Result<u32, EndpointError>,
    stored: Spu2,
    taken: Spu2,
    at: int,
    each: int,
)
    requires
        before.wf(),
        ({
            let channel = if second {
                SoundDmaChannel::Core1
            } else {
                SoundDmaChannel::Core0
            };
            &&& Spu2::accepted(before, channel, value, Ok(()), stored)
            &&& Spu2::supplied(before, channel, result, taken)
        }),
        at % 2 == 0,
        at <= before.state.cores@[if second {
            1
        } else {
            0
        }].transfer_address as int % 0x20_0000 <= at + 1,
        0 <= each < 0x20_0000,
    ensures
        ({
            let core = if second {
                1int
            } else {
                0
            };
            let next = (at + 2) % 0x20_0000;
            &&& stored.state.cores@[core].transfer_address == (at + 4) % 0x20_0000
            &&& taken.state.cores@[core].transfer_address == (at + 4) % 0x20_0000
            &&& stored.state.cores@[1 - core].transfer_address == before.state.cores@[1
                - core].transfer_address
            &&& taken.ram@ == before.ram@
            &&& stored.ram@.len() == 0x20_0000
            &&& stored.ram@[each] == if each == at {
                value as int % 0x100
            } else if each == at + 1 {
                (value as int / 0x100) % 0x100
            } else if each == next {
                (value as int / 0x1_0000) % 0x100
            } else if each == next + 1 {
                value as int / 0x100_0000
            } else {
                before.ram@[each] as int
            }
            &&& result is Ok
            &&& result->Ok_0 == before.ram@[at] + 0x100 * before.ram@[at + 1] + 0x1_0000
                * before.ram@[next] + 0x100_0000 * before.ram@[next + 1]
        }),
{
    let next = (at + 2) % 0x20_0000;
    assert(next == if at == 0x1f_fffe {
        0
    } else {
        at + 2
    });
    let core = before.state.cores@[if second {
        1
    } else {
        0
    }];
    lemma_even(core, at);
    crate::bytes::law_word_in_two_places(before.ram@, at, next, value, each);
}

proof fn lemma_even(core: Core, at: int)
    requires
        at % 2 == 0,
        at <= core.transfer_address as int % 0x20_0000 <= at + 1,
    ensures
        ({
            let next = if at == 0x1f_fffe {
                0
            } else {
                at + 2
            };
            &&& crate::ps2::effects::normalized(core.transfer_address) == at
            &&& core.transferred().transfer_address == next
            &&& crate::ps2::effects::normalized(core.transferred().transfer_address) == next
            &&& core.transferred().transferred().transfer_address == (at + 4) % 0x20_0000
        }),
{
}

/// Every frame adds the left and then the right sample of the second core, and a frame that
/// fails ends the rendering with what was there.
pub proof fn law_samples_interleave(
    state: Spu2State,
    ram: Seq<u8>,
    inputs: Seq<[CoreInput; 2]>,
    input: [CoreInput; 2],
)
    requires
        state.rendering(ram, inputs).failure is None,
    ensures
        state.rendering(ram, inputs).samples.len() == 2 * inputs.len(),
        ({
            let before = state.rendering(ram, inputs);
            let after = state.rendering(ram, inputs.push(input));
            let (next, ram_next, frame) = before.state.framed(before.ram, input);
            &&& after.state == next
            &&& after.ram == ram_next
            &&& frame matches Ok(pair) ==> after.failure is None && after.samples
                == before.samples.push(pair.1.left).push(pair.1.right)
            &&& frame matches Err(error) ==> after.failure == Some(error) && after.samples
                == before.samples
        }),
    decreases inputs.len(),
{
    assert(inputs.push(input).drop_last() =~= inputs);
    if inputs.len() > 0 {
        let shorter = inputs.drop_last();
        assert(shorter.push(inputs.last()) =~= inputs);
        law_samples_interleave(state, ram, shorter, inputs.last());
    }
}

/// A voice that meets an undefined block names itself and the block, and ends the frame.
pub proof fn law_failing_voice(mix: CoreMix, ram: Seq<u8>, index: int, other: int)
    requires
        0 <= index < 24,
        0 <= other < 24,
        mix.failure is None,
        !bit(mix.state.noise_mask, index),
        !bit(mix.state.pitch_mod_mask, index),
        ({
            let voice = mix.state.voices@[index];
            voice.rendered(ram, voice.pitch, None).1 is Err
        }),
    ensures
        ({
            let voice = mix.state.voices@[index];
            let fault = voice.rendered(ram, voice.pitch, None).1->Err_0;
            let after = mix.with_voice(ram, index);
            &&& after.failure == Some(
                VoiceFault { voice: index as usize, address: fault.0, source: fault.1 },
            )
            &&& after.dry_left == mix.dry_left
            &&& after.dry_right == mix.dry_right
            &&& after.with_voice(ram, other) == after
        }),
{
    reveal(CoreMix::with_voice);
    lemma_bits(mix.state.noise_mask, 0, index, index);
    lemma_bits(mix.state.pitch_mod_mask, 0, index, index);
}

} // verus!
