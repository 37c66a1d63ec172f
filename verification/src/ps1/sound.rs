//! What the registers of the PS1 SPU do, and what a frame is made of.

use vstd::prelude::*;

use crate::bits::{bit, lemma_bits};
use crate::ps1::dma::{EndpointError, SoundDmaEndpoint};
use crate::ps1::spu::{Mix, Spu, SpuError, SpuState};
use crate::ps1::voice::Voice;
use crate::spu_common::fixed::clamp16;
use crate::spu_common::laws::{
    is_floor, is_saturated, law_direct_volume, law_pitch_modulation, law_signed_volume,
};
use crate::spu_common::mixer::{at_volume, selected};
use crate::spu_common::noise::noise_next;

verus! {

/// The registers of voice `index` are the sixteen bytes from `0x1f80_1c00 + 16 * index` on:
/// the two volumes, the pitch, of which `0x3fff` is the highest, the start address, the two
/// envelope registers, the envelope level, which cannot be written, and the repeat address.
pub proof fn law_voice_registers(state: SpuState, index: int, register: int, value: u16)
    requires
        0 <= index < 24,
        0 <= register < 8,
    ensures
        ({
            let address = (0x1f80_1c00 + 16 * index + 2 * register) as u32;
            let old = state.voices@[index];
            let new = state.written(address, value).voices@[index];
            &&& new == Voice {
                volume_left: if register == 0 {
                    value
                } else {
                    old.volume_left
                },
                volume_right: if register == 1 {
                    value
                } else {
                    old.volume_right
                },
                pitch: if register != 2 {
                    old.pitch
                } else if value > 0x3fff {
                    0x3fff
                } else {
                    value
                },
                start_address: if register == 3 {
                    value
                } else {
                    old.start_address
                },
                adsr_low: if register == 4 {
                    value
                } else {
                    old.adsr_low
                },
                adsr_high: if register == 5 {
                    value
                } else {
                    old.adsr_high
                },
                repeat_address: if register == 7 {
                    value
                } else {
                    old.repeat_address
                },
                ..old
            }
            &&& forall|other: int|
                0 <= other < 24 && other != index ==> #[trigger] state.written(
                    address,
                    value,
                ).voices@[other] == state.voices@[other]
            &&& state.value_at(address) == Ok::<u16, SpuError>(
                if register == 0 {
                    old.volume_left
                } else if register == 1 {
                    old.volume_right
                } else if register == 2 {
                    old.pitch
                } else if register == 3 {
                    old.start_address
                } else if register == 4 {
                    old.adsr_low
                } else if register == 5 {
                    old.adsr_high
                } else if register == 6 {
                    old.envelope.level
                } else {
                    old.repeat_address
                },
            )
        }),
{
    let address = (0x1f80_1c00 + 16 * index + 2 * register) as u32;
    assert((address - 0x1f80_1c00) / 16 == index);
    assert((address - 0x1f80_1c00) % 16 == 2 * register);
}

/// The registers that hold one value each, by their addresses.
pub proof fn law_plain_registers(state: SpuState, value: u16)
    ensures
        state.written(0x1f80_1d80, value) == (SpuState { main_volume_left: value, ..state }),
        state.written(0x1f80_1d82, value) == (SpuState { main_volume_right: value, ..state }),
        state.written(0x1f80_1d84, value) == (SpuState { reverb_volume_left: value, ..state }),
        state.written(0x1f80_1d86, value) == (SpuState { reverb_volume_right: value, ..state }),
        state.written(0x1f80_1da4, value) == (SpuState { irq_address: value, ..state }),
        state.written(0x1f80_1dac, value) == (SpuState { transfer_control: value, ..state }),
        state.written(0x1f80_1db0, value) == (SpuState { cd_volume_left: value, ..state }),
        state.written(0x1f80_1db2, value) == (SpuState { cd_volume_right: value, ..state }),
        state.written(0x1f80_1db4, value) == (SpuState { external_volume_left: value, ..state }),
        state.written(0x1f80_1db6, value) == (SpuState { external_volume_right: value, ..state }),
        state.written(0x1f80_1dae, value) == state,
        state.written(0x1f80_1db8, value) == state,
        state.written(0x1f80_1dba, value) == state,
        state.value_at(0x1f80_1d80) == Ok::<u16, SpuError>(state.main_volume_left),
        state.value_at(0x1f80_1d82) == Ok::<u16, SpuError>(state.main_volume_right),
        state.value_at(0x1f80_1d84) == Ok::<u16, SpuError>(state.reverb_volume_left),
        state.value_at(0x1f80_1d86) == Ok::<u16, SpuError>(state.reverb_volume_right),
        state.value_at(0x1f80_1da2) == Ok::<u16, SpuError>(state.reverb_base),
        state.value_at(0x1f80_1da4) == Ok::<u16, SpuError>(state.irq_address),
        state.value_at(0x1f80_1daa) == Ok::<u16, SpuError>(state.control),
        state.value_at(0x1f80_1dac) == Ok::<u16, SpuError>(state.transfer_control),
        state.value_at(0x1f80_1dae) == Ok::<u16, SpuError>(state.status),
        state.value_at(0x1f80_1db0) == Ok::<u16, SpuError>(state.cd_volume_left),
        state.value_at(0x1f80_1db2) == Ok::<u16, SpuError>(state.cd_volume_right),
        state.value_at(0x1f80_1db4) == Ok::<u16, SpuError>(state.external_volume_left),
        state.value_at(0x1f80_1db6) == Ok::<u16, SpuError>(state.external_volume_right),
        state.value_at(0x1f80_1db8) == Ok::<u16, SpuError>(state.main_volume_left),
        state.value_at(0x1f80_1dba) == Ok::<u16, SpuError>(state.main_volume_right),
{
}

/// The base of the reverb area counts in eight bytes, and writing it moves the reverb there;
/// so does the transfer address.
pub proof fn law_base_registers(state: SpuState, value: u16)
    ensures
        state.written(0x1f80_1da2, value).reverb_base == value,
        state.written(0x1f80_1da2, value).reverb.current_address == 8 * value,
        state.written(0x1f80_1da6, value).transfer_address == 8 * value,
        state.written(0x1f80_1da6, value) == (SpuState {
            transfer_address: (8 * value) as usize,
            ..state
        }),
        state.written(0x1f80_1da6, value).value_at(0x1f80_1da6) == Ok::<u16, SpuError>(value),
{
}

/// The 32 reverb registers follow each other from `0x1f80_1dc0` on.
pub proof fn law_reverb_registers(state: SpuState, index: int, value: u16)
    requires
        0 <= index < 32,
    ensures
        ({
            let address = (0x1f80_1dc0 + 2 * index) as u32;
            let after = state.written(address, value);
            &&& after.reverb_registers@ == state.reverb_registers@.update(index, value)
            &&& state.value_at(address) == Ok::<u16, SpuError>(state.reverb_registers@[index])
        }),
{
    let address = (0x1f80_1dc0 + 2 * index) as u32;
    assert((address - 0x1f80_1dc0) / 2 == index);
    assert(state.written(address, value).reverb_registers@ =~= state.reverb_registers@.update(
        index,
        value,
    ));
}

/// Odd addresses and those outside `0x1f80_1c00` to `0x1f80_1dff` are no registers, and the
/// key registers and the data port cannot be read.
pub proof fn law_missing_registers(state: SpuState, address: u32, value: u16)
    ensures
        address % 2 == 1 || address < 0x1f80_1c00 || address > 0x1f80_1dff ==> state.value_at(
            address,
        ) == Err::<u16, SpuError>(SpuError::InvalidRegister { address }) && state.written(
            address,
            value,
        ) == state,
{
}

/// The bit of voice `index` in two half registers of a mask.
pub open spec fn voice_bit(low: u16, high: u16, index: int) -> bool {
    if index < 16 {
        bit(low as u32, index)
    } else {
        bit(high as u32, index - 16)
    }
}

pub proof fn lemma_high_bit(high: u16, index: int)
    requires
        0 <= index < 32,
    ensures
        bit((high * 0x1_0000) as u32, index) <==> index >= 16 && bit(high as u32, index - 16),
        index >= 16 ==> !bit(high as u32, index),
{
    vstd::arithmetic::power2::lemma2_to64();
    if index >= 16 {
        let low = (index - 16) as nat;
        vstd::arithmetic::power2::lemma_pow2_adds(low, 16);
        vstd::arithmetic::power2::lemma_pow2_pos(low);
        let scale = vstd::arithmetic::power2::pow2(low) as int;
        assert(vstd::arithmetic::power2::pow2(index as nat) == scale * 0x1_0000);
        vstd::arithmetic::div_mod::lemma_div_denominator(
            high * 0x1_0000,
            0x1_0000,
            scale,
        );
        vstd::arithmetic::mul::lemma_mul_is_commutative(scale, 0x1_0000);
        assert(high * 0x1_0000 / 0x1_0000 == high);
        vstd::arithmetic::power2::lemma_pow2_pos(index as nat);
        if index > 16 {
            vstd::arithmetic::power2::lemma_pow2_strictly_increases(16, index as nat);
        }
        vstd::arithmetic::div_mod::lemma_basic_div(
            high as int,
            vstd::arithmetic::power2::pow2(index as nat) as int,
        );
    } else {
        let rest = (16 - index) as nat;
        vstd::arithmetic::power2::lemma_pow2_adds(index as nat, rest);
        vstd::arithmetic::power2::lemma_pow2_pos(index as nat);
        vstd::arithmetic::power2::lemma_pow2_pos((rest - 1) as nat);
        vstd::arithmetic::power2::lemma_pow2_adds(1, (rest - 1) as nat);
        let scale = vstd::arithmetic::power2::pow2(index as nat) as int;
        let half = vstd::arithmetic::power2::pow2((rest - 1) as nat) as int;
        let quotient = high * (2 * half);
        assert(high * 0x1_0000 == quotient * scale) by (nonlinear_arith)
            requires
                0x1_0000 == scale * (2 * half),
                quotient == high * (2 * half),
        ;
        vstd::arithmetic::div_mod::lemma_div_by_multiple(quotient, scale);
        assert(quotient == 2 * (high * half)) by (nonlinear_arith)
            requires
                quotient == high * (2 * half),
        ;
    }
}

/// Key-on takes exactly the voices whose bits are written: those of the first sixteen at
/// `0x1f80_1d88` and of the rest at `0x1f80_1d8a`. Their end markers are cleared.
pub proof fn law_key_on(state: SpuState, value: u16, index: int)
    requires
        0 <= index < 24,
    ensures
        ({
            let low = state.written(0x1f80_1d88, value);
            let high = state.written(0x1f80_1d8a, value);
            &&& low.voices@[index] == if voice_bit(value, 0, index) {
                state.voices@[index].keyed_on()
            } else {
                state.voices@[index]
            }
            &&& high.voices@[index] == if voice_bit(0, value, index) {
                state.voices@[index].keyed_on()
            } else {
                state.voices@[index]
            }
            &&& bit(low.endx, index) <==> bit(state.endx, index) && !voice_bit(value, 0, index)
            &&& bit(high.endx, index) <==> bit(state.endx, index) && !voice_bit(0, value, index)
        }),
{
    lemma_keys(state, value as u32, index);
    lemma_keys(state, (value * 0x1_0000) as u32, index);
    lemma_high_bit(value, index);
    lemma_zero_bit(index);
}

proof fn lemma_zero_bit(index: int)
    requires
        0 <= index < 32,
    ensures
        !bit(0, index),
        index >= 16 ==> !bit(0, index - 16),
{
    vstd::arithmetic::power2::lemma_pow2_pos(index as nat);
    vstd::arithmetic::div_mod::lemma_div_of0(vstd::arithmetic::power2::pow2(index as nat) as int);
    if index >= 16 {
        vstd::arithmetic::power2::lemma_pow2_pos((index - 16) as nat);
        vstd::arithmetic::div_mod::lemma_div_of0(
            vstd::arithmetic::power2::pow2((index - 16) as nat) as int,
        );
    }
}

proof fn lemma_keys(state: SpuState, mask: u32, index: int)
    requires
        0 <= index < 24,
    ensures
        state.keyed_on(mask).voices@[index] == if bit(mask, index) {
            state.voices@[index].keyed_on()
        } else {
            state.voices@[index]
        },
        state.keyed_off(mask).voices@[index] == if bit(mask, index) {
            state.voices@[index].keyed_off()
        } else {
            state.voices@[index]
        },
        bit(state.keyed_on(mask).endx, index) <==> bit(state.endx, index) && !bit(mask, index),
        state.keyed_off(mask).endx == state.endx,
{
    reveal(SpuState::keyed_on);
    reveal(SpuState::keyed_off);
    let on = Seq::new(
        24,
        |i: int|
            if selected(mask, i) {
                state.voices@[i].keyed_on()
            } else {
                state.voices@[i]
            },
    );
    let off = Seq::new(
        24,
        |i: int|
            if selected(mask, i) {
                state.voices@[i].keyed_off()
            } else {
                state.voices@[i]
            },
    );
    crate::arrays::lemma_array_of::<Voice, 24>(on);
    crate::arrays::lemma_array_of::<Voice, 24>(off);
    lemma_bits(mask, 0x00ff_ffff, index, index);
    lemma_bits(mask & 0x00ff_ffff, 0, index, index);
    lemma_bits(state.endx, !(mask & 0x00ff_ffff), index, index);
    lemma_low_ones(index);
}

pub proof fn lemma_low_ones(index: int)
    requires
        0 <= index < 24,
    ensures
        bit(0x00ff_ffff, index),
{
    let rest = (24 - index) as nat;
    vstd::arithmetic::power2::lemma2_to64();
    vstd::arithmetic::power2::lemma_pow2_adds(index as nat, rest);
    vstd::arithmetic::power2::lemma_pow2_pos(index as nat);
    vstd::arithmetic::power2::lemma_pow2_adds(1, (rest - 1) as nat);
    vstd::arithmetic::power2::lemma_pow2_pos((rest - 1) as nat);
    let scale = vstd::arithmetic::power2::pow2(index as nat) as int;
    let half = vstd::arithmetic::power2::pow2((rest - 1) as nat) as int;
    assert(0x00ff_ffff == (2 * half - 1) * scale + (scale - 1)) by (nonlinear_arith)
        requires
            0x100_0000 == scale * (2 * half),
    ;
    vstd::arithmetic::div_mod::lemma_fundamental_div_mod_converse(
        0x00ff_ffff,
        scale,
        2 * half - 1,
        scale - 1,
    );
}

/// Key-off takes exactly the voices whose bits are written: those of the first sixteen at
/// `0x1f80_1d8c` and of the rest at `0x1f80_1d8e`.
pub proof fn law_key_off(state: SpuState, value: u16, index: int)
    requires
        0 <= index < 24,
    ensures
        ({
            let low = state.written(0x1f80_1d8c, value);
            let high = state.written(0x1f80_1d8e, value);
            &&& low.voices@[index] == if voice_bit(value, 0, index) {
                state.voices@[index].keyed_off()
            } else {
                state.voices@[index]
            }
            &&& high.voices@[index] == if voice_bit(0, value, index) {
                state.voices@[index].keyed_off()
            } else {
                state.voices@[index]
            }
            &&& low.endx == state.endx
            &&& high.endx == state.endx
        }),
{
    lemma_keys(state, value as u32, index);
    lemma_keys(state, (value * 0x1_0000) as u32, index);
    lemma_high_bit(value, index);
    lemma_zero_bit(index);
}

/// The masks of modulated, noise and reverb voices and the end markers hold the first
/// sixteen voices at the lower address of a pair and the rest at the higher one. Writing an
/// end marker clears it.
pub proof fn law_masks(state: SpuState, value: u16)
    ensures
        state.written(0x1f80_1d90, value).pitch_mod_mask == state.pitch_mod_mask
            - state.pitch_mod_mask % 0x1_0000 + value,
        state.written(0x1f80_1d92, value).pitch_mod_mask == 0x1_0000 * value
            + state.pitch_mod_mask % 0x1_0000,
        state.written(0x1f80_1d94, value).noise_mask == state.noise_mask - state.noise_mask
            % 0x1_0000 + value,
        state.written(0x1f80_1d96, value).noise_mask == 0x1_0000 * value + state.noise_mask
            % 0x1_0000,
        state.written(0x1f80_1d98, value).reverb_mask == state.reverb_mask - state.reverb_mask
            % 0x1_0000 + value,
        state.written(0x1f80_1d9a, value).reverb_mask == 0x1_0000 * value + state.reverb_mask
            % 0x1_0000,
        state.value_at(0x1f80_1d90) == Ok::<u16, SpuError>(
            (state.pitch_mod_mask % 0x1_0000) as u16,
        ),
        state.value_at(0x1f80_1d92) == Ok::<u16, SpuError>(
            (state.pitch_mod_mask / 0x1_0000) as u16,
        ),
        state.value_at(0x1f80_1d94) == Ok::<u16, SpuError>((state.noise_mask % 0x1_0000) as u16),
        state.value_at(0x1f80_1d96) == Ok::<u16, SpuError>((state.noise_mask / 0x1_0000) as u16),
        state.value_at(0x1f80_1d98) == Ok::<u16, SpuError>((state.reverb_mask % 0x1_0000) as u16),
        state.value_at(0x1f80_1d9a) == Ok::<u16, SpuError>((state.reverb_mask / 0x1_0000) as u16),
        state.value_at(0x1f80_1d9c) == Ok::<u16, SpuError>((state.endx % 0x1_0000) as u16),
        state.value_at(0x1f80_1d9e) == Ok::<u16, SpuError>((state.endx / 0x1_0000) as u16),
{
}

/// Writing ones to the end markers clears those.
pub proof fn law_end_markers(state: SpuState, value: u16, index: int)
    requires
        0 <= index < 24,
    ensures
        bit(state.written(0x1f80_1d9c, value).endx, index) <==> bit(state.endx, index)
            && !voice_bit(value, 0, index),
        bit(state.written(0x1f80_1d9e, value).endx, index) <==> bit(state.endx, index)
            && !voice_bit(0, value, index),
{
    let low = value as u32;
    let high = (value * 0x1_0000) as u32;
    lemma_bits(low, 0, index, index);
    lemma_bits(high, 0, index, index);
    lemma_bits(state.endx, !low, index, index);
    lemma_bits(state.endx, !high, index, index);
    lemma_high_bit(value, index);
    lemma_zero_bit(index);
}

proof fn lemma_control_bits(control: u16)
    ensures
        control & 0x8000 != 0 <==> control >= 0x8000,
        control & 0x40 != 0 <==> (control / 0x40) % 2 == 1,
        control & 0x80 != 0 <==> (control / 0x80) % 2 == 1,
{
    vstd::arithmetic::power2::lemma2_to64();
    lemma_bits(control as u32, 0, 15, 15);
    lemma_bits(control as u32, 0, 6, 6);
    lemma_bits(control as u32, 0, 7, 7);
}

/// The interrupt is raised exactly by a touch of the eight bytes at its address while bit 6
/// of the control register is set; writing the control register with that bit clear takes
/// it back.
pub proof fn law_interrupt(state: SpuState, address: int, value: u16)
    ensures
        ({
            let touched = state.touched(address);
            let hit = (state.control / 0x40) % 2 == 1 && 8 * state.irq_address <= address < 8
                * state.irq_address + 8;
            &&& touched.irq_request <==> state.irq_request || hit
            &&& hit ==> (touched.status / 0x40) % 2 == 1
            &&& !hit ==> touched == state
        }),
        ({
            let after = state.written(0x1f80_1daa, value);
            &&& after.control == value
            &&& (value / 0x40) % 2 == 0 ==> !after.irq_request && (after.status / 0x40) % 2 == 0
            &&& (value / 0x40) % 2 == 1 ==> after == (SpuState { control: value, ..state })
        }),
{
    lemma_control_bits(state.control);
    lemma_control_bits(value);
    let status = state.status as u32;
    vstd::arithmetic::power2::lemma2_to64();
    lemma_bits(status, 0x40, 6, 6);
    lemma_bits(0x40, 0x40, 6, 6);
    lemma_bits(status, !0x40u32, 6, 6);
    assert((state.status | 0x40u16) as u32 == status | 0x40u32);
    lemma_status_cleared(state.status);
}

proof fn lemma_status_cleared(status: u16)
    by (bit_vector)
    ensures
        ((status & !0x40u16) / 0x40) % 2 == 0,
        ((status | 0x40u16) / 0x40) % 2 == 1,
{
}

/// Every halfword through the data port touches its address and moves the transfer address
/// on by two, round the end of sound RAM.
pub proof fn law_data_port(state: SpuState, value: u16)
    requires
        state.wf(),
    ensures
        ({
            let after = state.written(0x1f80_1da8, value);
            &&& after.transfer_address == (state.transfer_address + 2) % 0x8_0000
            &&& after.irq_request == state.touched(state.transfer_address as int).irq_request
            &&& after.status == state.touched(state.transfer_address as int).status
            &&& after.voices == state.voices
        }),
{
}

/// What a voice adds to the mix: its output at its two volumes, and the same to the reverb
/// where its bit is set. Its output modulates the pitch of the next voice where that one's
/// bit is set. A block that it fetched is touched at both halves, and a loop end sets its
/// end marker.
pub proof fn law_voice_in_mix(
    mix: Mix,
    ram: Seq<u8>,
    index: int,
    pitch: u16,
    left: int,
    right: int,
    volume_left: int,
    volume_right: int,
)
    requires
        0 <= index < 24,
        mix.failure is None,
        !bit(mix.state.noise_mask, index),
        ({
            let base = mix.state.voices@[index].pitch;
            if index > 0 && bit(mix.state.pitch_mod_mask, index) {
                let product = base * (mix.previous + 0x8000);
                pitch == if product >= 0x4000 * 0x8000 {
                    0x3fff
                } else {
                    product / 0x8000
                }
            } else {
                pitch == base
            }
        }),
        mix.state.voices@[index].rendered(ram, pitch, None).1 is Ok,
        ({
            let played = mix.state.voices@[index].rendered(ram, pitch, None);
            let dry = played.1->Ok_0.dry;
            &&& -0x4000 <= volume_left < 0x4000
            &&& (volume_left - played.0.volume_left) % 0x8000 == 0
            &&& is_floor(dry * volume_left, 0x4000, left)
            &&& -0x4000 <= volume_right < 0x4000
            &&& (volume_right - played.0.volume_right) % 0x8000 == 0
            &&& is_floor(dry * volume_right, 0x4000, right)
        }),
    ensures
        ({
            let (played, output) = mix.state.voices@[index].rendered(ram, pitch, None);
            let after = mix.with_voice(ram, index);
            &&& after.failure is None
            &&& after.previous == output->Ok_0.dry
            &&& is_saturated(left, after.left - mix.left)
            &&& is_saturated(right, after.right - mix.right)
            &&& after.reverb_left - mix.reverb_left == if bit(mix.state.reverb_mask, index) {
                after.left - mix.left
            } else {
                0
            }
            &&& after.reverb_right - mix.reverb_right == if bit(mix.state.reverb_mask, index) {
                after.right - mix.right
            } else {
                0
            }
            &&& after.state.voices@ == mix.state.voices@.update(index, played)
            &&& after.state.noise == mix.state.noise
            &&& after.state.irq_request == match output->Ok_0.fetched {
                Some(address) => mix.state.touched(address as int).touched(
                    (address + 8) % 0x8_0000,
                ).irq_request,
                None => mix.state.irq_request,
            }
            &&& forall|bits: int|
                0 <= bits < 24 ==> (#[trigger] bit(after.state.endx, bits) <==> bit(
                    mix.state.endx,
                    bits,
                ) || (bits == index && output->Ok_0.loop_end))
        }),
{
    reveal(Mix::with_voice);
    let state = mix.state;
    lemma_bits(state.noise_mask, 0, index, index);
    lemma_bits(state.pitch_mod_mask, 0, index, index);
    lemma_bits(state.reverb_mask, 0, index, index);
    let base = state.voices@[index].pitch;
    law_pitch_modulation(base, mix.previous, (base * (mix.previous + 0x8000)) / 0x8000);
    let (played, output) = state.voices@[index].rendered(ram, pitch, None);
    law_direct_volume(output->Ok_0.dry, played.volume_left, volume_left, left);
    law_direct_volume(output->Ok_0.dry, played.volume_right, volume_right, right);
    let after = mix.with_voice(ram, index);
    assert(after.state.voices@ =~= state.voices@.update(index, played));
    assert forall|bits: int| 0 <= bits < 24 implies (#[trigger] bit(after.state.endx, bits) <==> bit(
        mix.state.endx,
        bits,
    ) || (bits == index && output->Ok_0.loop_end)) by {
        lemma_bits(state.endx, 1u32 << (index as u32), bits, index);
    }
}

/// A voice whose noise bit is set plays the next state of the shared noise generator, as a
/// signed sample.
pub proof fn law_noise_in_mix(mix: Mix, ram: Seq<u8>, index: int, sample: i16)
    requires
        0 <= index < 24,
        mix.failure is None,
        bit(mix.state.noise_mask, index),
        !bit(mix.state.pitch_mod_mask, index),
        (sample - noise_next(mix.state.noise.state)) % 0x1_0000 == 0,
    ensures
        ({
            let voice = mix.state.voices@[index];
            let after = mix.with_voice(ram, index);
            let played = voice.rendered(ram, voice.pitch, Some(sample));
            &&& after.state.noise.state == noise_next(mix.state.noise.state)
            &&& after.state.voices@[index] == played.0
            &&& played.1 matches Ok(output) ==> after.previous == output.dry && after.left
                == mix.left + at_volume(output.dry as int, voice.volume_left)
        }),
{
    reveal(Mix::with_voice);
    lemma_bits(mix.state.noise_mask, 0, index, index);
    lemma_bits(mix.state.pitch_mod_mask, 0, index, index);
}

/// One side of a stereo pair.
pub open spec fn side<T>(pair: (T, T), right: bool) -> T {
    if right {
        pair.1
    } else {
        pair.0
    }
}

/// A disabled SPU is silent and stands still. An enabled one puts out, on each side, the mix
/// of all voices and the reverb at its volume, limited, at the main volume.
pub proof fn law_frame(
    state: SpuState,
    ram: Seq<u8>,
    right: bool,
    wet: int,
    wet_volume: int,
    main: int,
    volume: int,
    limited: int,
)
    requires
        state.mixed(ram, 24).failure is None,
        ({
            let mix = state.mixed(ram, 24);
            let (after, _, output) = mix.state.reverberated(
                ram,
                (clamp16(mix.reverb_left) as i16, clamp16(mix.reverb_right) as i16),
            );
            let dry = side((mix.left, mix.right), right);
            &&& -0x8000 <= wet_volume < 0x8000
            &&& (wet_volume - side((after.reverb_volume_left, after.reverb_volume_right), right))
                % 0x1_0000 == 0
            &&& is_floor(side(output, right) * wet_volume, 0x8000, wet)
            &&& -0x4000 <= volume < 0x4000
            &&& (volume - side((after.main_volume_left, after.main_volume_right), right)) % 0x8000
                == 0
            &&& wet < 0x8000 ==> is_saturated(dry + wet, limited)
            &&& wet >= 0x8000 ==> is_saturated(dry + 0x7fff, limited)
            &&& is_floor(limited * volume, 0x4000, main)
        }),
    ensures
        state.control < 0x8000 ==> state.framed(ram) == (
            state,
            ram,
            Ok::<(i16, i16), SpuError>((0i16, 0i16)),
        ),
        state.control >= 0x8000 ==> state.framed(ram).2 is Ok && is_saturated(
            main,
            side(state.framed(ram).2->Ok_0, right) as int,
        ),
{
    reveal(SpuState::framed);
    lemma_control_bits(state.control);
    let mix = state.mixed(ram, 24);
    let (after, _, output) = mix.state.reverberated(
        ram,
        (clamp16(mix.reverb_left) as i16, clamp16(mix.reverb_right) as i16),
    );
    let sample = side(output, right);
    law_signed_volume(
        sample,
        side((after.reverb_volume_left, after.reverb_volume_right), right),
        wet_volume,
        wet,
    );
    assert(-0x8000 * 0x8000 <= sample * wet_volume <= 0x8000 * 0x8000) by (nonlinear_arith)
        requires
            -0x8000 <= sample <= 0x7fff,
            -0x8000 <= wet_volume <= 0x7fff,
    ;
    law_direct_volume(
        limited as i16,
        side((after.main_volume_left, after.main_volume_right), right),
        volume,
        main,
    );
}

/// A word through the DMA port goes to the transfer address, low byte first, and moves it on
/// by four, round the end of sound RAM; reading one takes the same bytes.
pub proof fn law_words_through_the_port(
    before: Spu,
    value: u32,
    result: Result<u32, EndpointError>,
    stored: Spu,
    taken: Spu,
    each: int,
)
    requires
        before.wf(),
        Spu::accepted(before, value, Ok(()), stored),
        Spu::supplied(before, result, taken),
        0 <= each < 0x8_0000,
    ensures
        ({
            let at = before.state.transfer_address as int;
            let next = (at + 2) % 0x8_0000;
            &&& stored.state.transfer_address == (at + 4) % 0x8_0000
            &&& taken.state.transfer_address == (at + 4) % 0x8_0000
            &&& taken.ram@ == before.ram@
            &&& stored.ram@.len() == 0x8_0000
            &&& stored.ram@[each] == if each == at {
                value as int % 0x100
            } else if each == at + 1 {
                (value as int / 0x100) % 0x100
            } else if each == next {
                (value as int / 0x1_0000) % 0x100
            } else if each == next + 1 {
                value as int / 0x100_0000
            } else {
                before.ram@[each] as int
            }
            &&& result is Ok
            &&& result->Ok_0 == before.ram@[at] + 0x100 * before.ram@[at + 1] + 0x1_0000
                * before.ram@[next] + 0x100_0000 * before.ram@[next + 1]
        }),
{
    let at = before.state.transfer_address as int;
    let next = (at + 2) % 0x8_0000;
    assert(next == if at == 0x7_fffe {
        0
    } else {
        at + 2
    });
    crate::bytes::law_word_in_two_places(before.ram@, at, next, value, each);
}

/// Every frame adds its left and then its right sample, and a frame that fails ends the
/// rendering with what was there.
pub proof fn law_samples_interleave(state: SpuState, ram: Seq<u8>, count: nat)
    requires
        state.rendering(ram, count).failure is None,
    ensures
        state.rendering(ram, count).samples.len() == 2 * count,
        ({
            let before = state.rendering(ram, count);
            let after = state.rendering(ram, count + 1);
            let (next, ram_next, frame) = before.state.framed(before.ram);
            &&& after.state == next
            &&& after.ram == ram_next
            &&& frame matches Ok(pair) ==> after.failure is None && after.samples
                == before.samples.push(pair.0).push(pair.1)
            &&& frame matches Err(error) ==> after.failure == Some(error) && after.samples
                == before.samples
        }),
    decreases count,
{
    if count > 0 {
        law_samples_interleave(state, ram, (count - 1) as nat);
    }
}

/// A voice that meets an undefined block names itself and the block, and ends the frame.
pub proof fn law_failing_voice(mix: Mix, ram: Seq<u8>, index: int, other: int)
    requires
        0 <= index < 24,
        0 <= other < 24,
        mix.failure is None,
        !bit(mix.state.noise_mask, index),
        !bit(mix.state.pitch_mod_mask, index),
        ({
            let voice = mix.state.voices@[index];
            voice.rendered(ram, voice.pitch, None).1 is Err
        }),
    ensures
        ({
            let voice = mix.state.voices@[index];
            let fault = voice.rendered(ram, voice.pitch, None).1->Err_0;
            let after = mix.with_voice(ram, index);
            &&& after.failure == Some(
                SpuError::Adpcm { voice: index as usize, address: fault.0, source: fault.1 },
            )
            &&& after.left == mix.left
            &&& after.right == mix.right
            &&& after.with_voice(ram, other) == after
        }),
{
    reveal(Mix::with_voice);
    lemma_bits(mix.state.noise_mask, 0, index, index);
    lemma_bits(mix.state.pitch_mod_mask, 0, index, index);
}

} // verus!
