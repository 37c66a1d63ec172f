//! What the sound primitives do, in the numbers of the hardware.

use vstd::arithmetic::power2::pow2;
use vstd::prelude::*;

use crate::spu_common::adpcm::{block_decoded, block_history, AdpcmError, AdpcmHistory, DecodedBlock};
use crate::spu_common::adsr::{config_of, Envelope, EnvelopeConfig, EnvelopePhase, EnvelopeRate};
use crate::spu_common::fixed::{clamp16, dot, saturating_dot};
use crate::spu_common::interpolation::{gaussian_sum, gaussian_tap, GAUSSIAN_WEIGHTS};
use crate::spu_common::mixer::{at_level, at_signed_volume, at_volume, modulated};
use crate::spu_common::noise::noise_next;
use crate::spu_common::pitch::{pitch_total, PitchCounter};
use crate::spu_common::reverb::RingBufferAddress;

verus! {

/// `result` is `value`, or the nearest 16-bit sample where `value` is none.
pub open spec fn is_saturated(value: int, result: int) -> bool {
    &&& -32768 <= result <= 32767
    &&& -32768 <= value <= 32767 ==> result == value
    &&& value < -32768 ==> result == -32768
    &&& value > 32767 ==> result == 32767
}

/// `quotient` is `value / divisor` rounded down.
pub open spec fn is_floor(value: int, divisor: int, quotient: int) -> bool {
    quotient * divisor <= value < quotient * divisor + divisor
}

/// A block decodes exactly when its shift is at most 12 and its filter at most 4; the
/// shift is named first. The flags are the three low bits of the second byte, and a block
/// that does not decode leaves the predictor alone.
pub proof fn law_block_header(block: Seq<u8>, history: AdpcmHistory)
    requires
        block.len() == 16,
    ensures
        block[0] % 16 >= 13 ==> block_decoded(block, history) == Err::<DecodedBlock, AdpcmError>(
            AdpcmError::InvalidShift { shift: (block[0] % 16) as u8 },
        ),
        block[0] % 16 <= 12 && block[0] >= 0x50 ==> block_decoded(block, history) == Err::<
            DecodedBlock,
            AdpcmError,
        >(AdpcmError::InvalidFilter { filter: (block[0] / 16) as u8 }),
        block[0] % 16 <= 12 && block[0] < 0x50 <==> block_decoded(block, history) is Ok,
        block_decoded(block, history) is Err ==> block_history(block, history) == history,
        block_decoded(block, history) matches Ok(decoded) ==> {
            &&& decoded.flags.end <==> block[1] % 2 == 1
            &&& decoded.flags.repeat <==> (block[1] / 2) % 2 == 1
            &&& decoded.flags.loop_start <==> (block[1] / 4) % 2 == 1
            &&& block_history(block, history).previous == decoded.samples@[27]
            &&& block_history(block, history).previous2 == decoded.samples@[26]
        },
{
    lemma_flag_bits(block[1]);
    lemma_decoded_samples(block, history);
}

proof fn lemma_flag_bits(flags: u8)
    by (bit_vector)
    ensures
        flags & 1 != 0 <==> flags % 2 == 1,
        flags & 2 != 0 <==> (flags / 2) % 2 == 1,
        flags & 4 != 0 <==> (flags / 4) % 2 == 1,
{
}

proof fn lemma_decoded_samples(block: Seq<u8>, history: AdpcmHistory)
    ensures
        block_decoded(block, history) matches Ok(decoded) ==> forall|i: int|
            0 <= i < 28 ==> #[trigger] decoded.samples@[i]
                == crate::spu_common::adpcm::block_sample(block, history, i) as i16,
{
    crate::arrays::lemma_array_of::<i16, 28>(
        crate::spu_common::adpcm::block_samples(block, history),
    );
}

/// The predictor gain of a filter on the sample before, and on the one before that, in
/// 1/64, as the format gives them.
pub open spec fn is_filter(filter: int, first: int, second: int) -> bool {
    ||| filter == 0 && first == 0 && second == 0
    ||| filter == 1 && first == 60 && second == 0
    ||| filter == 2 && first == 115 && second == -52
    ||| filter == 3 && first == 98 && second == -55
    ||| filter == 4 && first == 122 && second == -60
}

/// Every decoded sample is the residual of its nibble, low nibble first, scaled by the
/// shift, on top of the filter's prediction from the two samples before it, which are
/// those of the history at the start of the block.
pub proof fn law_decoded_samples(
    block: Seq<u8>,
    history: AdpcmHistory,
    index: int,
    first: int,
    second: int,
    prediction: int,
)
    requires
        block.len() == 16,
        block[0] % 16 <= 12,
        block[0] < 0x50,
        0 <= index < 28,
        is_filter(block[0] as int / 16, first, second),
    ensures
        ({
            let samples = block_decoded(block, history)->Ok_0.samples@;
            let before = if index == 0 {
                history.previous
            } else {
                samples[index - 1]
            };
            let earlier = if index == 0 {
                history.previous2
            } else if index == 1 {
                history.previous
            } else {
                samples[index - 2]
            };
            let byte = block[2 + index / 2] as int;
            let nibble = if index % 2 == 0 {
                byte % 16
            } else {
                byte / 16
            };
            let residual = if nibble >= 8 {
                nibble - 16
            } else {
                nibble
            };
            is_floor(first * before + second * earlier + 32, 64, prediction) ==> is_saturated(
                residual * pow2((12 - block[0] % 16) as nat) + prediction,
                samples[index] as int,
            )
        }),
{
    lemma_decoded_samples(block, history);
    let before = crate::spu_common::adpcm::block_sample(block, history, index - 1);
    let earlier = crate::spu_common::adpcm::block_sample(block, history, index - 2);
    crate::spu_common::adpcm::law_samples_saturate(block, history, index - 1);
    crate::spu_common::adpcm::law_samples_saturate(block, history, index - 2);
    assert(before * first + earlier * second == first * before + second * earlier)
        by (nonlinear_arith);
    let sum = first * before + second * earlier + 32;
    if is_floor(sum, 64, prediction) {
        assert(sum / 64 == prediction);
    }
}

/// With no residuals a block is the filter's own response: the recurrence of the format.
pub proof fn law_zero_residuals_follow_the_filter(
    block: Seq<u8>,
    history: AdpcmHistory,
    index: int,
)
    requires
        block.len() == 16,
        block[0] % 16 <= 12,
        block[0] < 0x50,
        forall|i: int| 2 <= i < 16 ==> block[i] == 0,
        0 <= index < 28,
    ensures
        ({
            let samples = block_decoded(block, history)->Ok_0.samples@;
            let before = if index == 0 {
                history.previous as int
            } else {
                samples[index - 1] as int
            };
            let earlier = if index == 0 {
                history.previous2 as int
            } else if index == 1 {
                history.previous as int
            } else {
                samples[index - 2] as int
            };
            let filter = block[0] / 16;
            &&& filter == 0 ==> samples[index] == 0
            &&& filter == 1 ==> is_saturated((60 * before + 32) / 64, samples[index] as int)
            &&& filter == 2 ==> is_saturated(
                (115 * before - 52 * earlier + 32) / 64,
                samples[index] as int,
            )
            &&& filter == 3 ==> is_saturated(
                (98 * before - 55 * earlier + 32) / 64,
                samples[index] as int,
            )
            &&& filter == 4 ==> is_saturated(
                (122 * before - 60 * earlier + 32) / 64,
                samples[index] as int,
            )
        }),
{
    let filter = block[0] / 16;
    if filter == 0 {
        lemma_response(block, history, index, 0, 0);
    } else if filter == 1 {
        lemma_response(block, history, index, 60, 0);
    } else if filter == 2 {
        lemma_response(block, history, index, 115, -52);
    } else if filter == 3 {
        lemma_response(block, history, index, 98, -55);
    } else {
        lemma_response(block, history, index, 122, -60);
    }
}

proof fn lemma_response(
    block: Seq<u8>,
    history: AdpcmHistory,
    index: int,
    first: int,
    second: int,
)
    requires
        block.len() == 16,
        block[0] % 16 <= 12,
        block[0] < 0x50,
        forall|i: int| 2 <= i < 16 ==> block[i] == 0,
        0 <= index < 28,
        is_filter(block[0] as int / 16, first, second),
    ensures
        ({
            let samples = block_decoded(block, history)->Ok_0.samples@;
            let before = if index == 0 {
                history.previous as int
            } else {
                samples[index - 1] as int
            };
            let earlier = if index == 0 {
                history.previous2 as int
            } else if index == 1 {
                history.previous as int
            } else {
                samples[index - 2] as int
            };
            is_saturated((first * before + second * earlier + 32) / 64, samples[index] as int)
        }),
{
    let samples = block_decoded(block, history)->Ok_0.samples@;
    let before = if index == 0 {
        history.previous as int
    } else {
        samples[index - 1] as int
    };
    let earlier = if index == 0 {
        history.previous2 as int
    } else if index == 1 {
        history.previous as int
    } else {
        samples[index - 2] as int
    };
    let prediction = (first * before + second * earlier + 32) / 64;
    assert(block[2 + index / 2] == 0);
    law_decoded_samples(block, history, index, first, second, prediction);
    let scale = pow2((12 - block[0] % 16) as nat);
    assert(0 * scale == 0);
}

/// Every field of the first envelope register comes out of it again: the attack curve,
/// its shift and its step counted down from seven, the decay shift, and the sustain level
/// in sixteenths of full scale.
pub proof fn law_attack_and_decay_fields(
    exponential: bool,
    attack_shift: u8,
    attack_step: int,
    decay_shift: u8,
    sixteenths: int,
    low: u16,
    high: u16,
)
    requires
        attack_shift < 32,
        4 <= attack_step <= 7,
        decay_shift < 16,
        1 <= sixteenths <= 16,
        low == (if exponential {
            0x8000int
        } else {
            0
        }) + 0x400 * attack_shift + 0x100 * (7 - attack_step) + 0x10 * decay_shift + (sixteenths
            - 1),
    ensures
        ({
            let config = config_of(low, high);
            &&& config.attack_exponential == exponential
            &&& config.attack.shift == attack_shift
            &&& config.attack.step == attack_step
            &&& config.decay.shift == decay_shift
            &&& config.decay.step == -8
            &&& sixteenths < 16 ==> config.sustain_level == 0x800 * sixteenths
            &&& sixteenths == 16 ==> config.sustain_level == 0x7fff
        }),
{
    assert(low / 0x400 == (if exponential {
        32int
    } else {
        0
    }) + attack_shift);
    assert(low / 0x100 == 4 * (low / 0x400) + (7 - attack_step));
    assert(low / 0x10 == 16 * (low / 0x100) + decay_shift);
}

/// Every field of the second envelope register comes out of it again: the sustain curve,
/// direction, shift and step, counted down from seven or up from minus eight, and the
/// release curve and shift.
pub proof fn law_sustain_and_release_fields(
    sustain_exponential: bool,
    falls: bool,
    sustain_shift: u8,
    sustain_index: int,
    release_exponential: bool,
    release_shift: u8,
    unused: bool,
    low: u16,
    high: u16,
)
    requires
        sustain_shift < 32,
        0 <= sustain_index < 4,
        release_shift < 32,
        high == (if sustain_exponential {
            0x8000int
        } else {
            0
        }) + (if falls {
            0x4000int
        } else {
            0
        }) + (if unused {
            0x2000int
        } else {
            0
        }) + 0x100 * sustain_shift + 0x40 * sustain_index + (if release_exponential {
            0x20int
        } else {
            0
        }) + release_shift,
    ensures
        ({
            let config = config_of(low, high);
            &&& config.sustain_exponential == sustain_exponential
            &&& config.sustain_decrease == falls
            &&& config.sustain.shift == sustain_shift
            &&& falls ==> config.sustain.step == sustain_index - 8
            &&& !falls ==> config.sustain.step == 7 - sustain_index
            &&& config.release_exponential == release_exponential
            &&& config.release.shift == release_shift
            &&& config.release.step == -8
        }),
{
    let top = (if sustain_exponential {
        2int
    } else {
        0
    }) + (if falls {
        1int
    } else {
        0
    });
    assert(high / 0x4000 == top);
    assert(high / 0x100 == 64 * top + (if unused {
        32int
    } else {
        0
    }) + sustain_shift);
    assert(high / 0x40 == 4 * (high / 0x100) + sustain_index);
    assert(high / 0x20 == 2 * (high / 0x40) + (if release_exponential {
        1int
    } else {
        0
    }));
}

/// The direction bit decides the sustain phase: with it set the decoded step is negative,
/// no sustain step raises the level and one above zero falls; with it clear the step is
/// positive and no sustain step lowers the level.
pub proof fn law_sustain_direction(low: u16, high: u16, envelope: Envelope)
    requires
        envelope.wf(),
        envelope.phase == EnvelopePhase::Sustain,
    ensures
        ({
            let config = config_of(low, high);
            let next = envelope.stepped(config).level;
            if (high / 0x4000) % 2 == 1 {
                &&& config.sustain.step < 0
                &&& next <= envelope.level
                &&& envelope.level > 0 ==> next < envelope.level
            } else {
                &&& config.sustain.step > 0
                &&& next >= envelope.level
                &&& envelope.level < 0x7fff ==> next > envelope.level
            }
        }),
{
    let config = config_of(low, high);
    let rate = config.sustain;
    lemma_rate_sign(rate);
    let linear = rate.linear_delta();
    let level = envelope.level as int;
    if rate.step < 0 {
        assert(linear * level <= 0) by (nonlinear_arith)
            requires
                linear < 0,
                level >= 0,
        ;
    }
}

proof fn lemma_rate_sign(rate: EnvelopeRate)
    ensures
        rate.step < 0 ==> rate.linear_delta() < 0,
        rate.step > 0 ==> rate.linear_delta() > 0,
        rate.step == 0 ==> rate.linear_delta() == 0,
{
    if rate.shift < 11 {
        let scale = pow2((11 - rate.shift) as nat) as int;
        vstd::arithmetic::power2::lemma_pow2_pos((11 - rate.shift) as nat);
        let step = rate.step as int;
        assert(step < 0 ==> step * scale < 0) by (nonlinear_arith)
            requires
                scale > 0,
        ;
        assert(step > 0 ==> step * scale > 0) by (nonlinear_arith)
            requires
                scale > 0,
        ;
    }
}

/// `next` is `level + change`, kept between zero and full scale.
pub open spec fn is_level_after(level: int, change: int, next: int) -> bool {
    &&& 0 <= next <= 0x7fff
    &&& 0 <= level + change <= 0x7fff ==> next == level + change
    &&& level + change < 0 ==> next == 0
    &&& level + change > 0x7fff ==> next == 0x7fff
}

/// What a rate moves a level by: its step, doubled once for every shift below eleven.
pub open spec fn is_rate_change(shift: int, step: int, change: int) -> bool {
    &&& shift >= 11 ==> change == step
    &&& shift < 11 ==> change == step * pow2((11 - shift) as nat)
}

/// Attack rises by its rate and turns into decay at full scale.
pub proof fn law_attack_step(envelope: Envelope, config: EnvelopeConfig, change: int)
    requires
        envelope.wf(),
        envelope.phase == EnvelopePhase::Attack,
        is_rate_change(config.attack.shift as int, config.attack.step as int, change),
    ensures
        is_level_after(envelope.level as int, change, envelope.stepped(config).level as int),
        envelope.stepped(config).phase == if envelope.stepped(config).level == 0x7fff {
            EnvelopePhase::Decay
        } else {
            EnvelopePhase::Attack
        },
{
}

/// Decay falls in proportion to the level, at least by one, and turns into sustain at the
/// sustain level.
pub proof fn law_decay_step(envelope: Envelope, config: EnvelopeConfig, change: int, fall: int)
    requires
        envelope.wf(),
        envelope.phase == EnvelopePhase::Decay,
        config.decay.step < 0,
        is_rate_change(config.decay.shift as int, config.decay.step as int, change),
        is_floor(change * envelope.level, 0x8000, fall),
    ensures
        is_level_after(
            envelope.level as int,
            if fall == 0 && envelope.level != 0 {
                -1
            } else {
                fall
            },
            envelope.stepped(config).level as int,
        ),
        envelope.level > 0 ==> envelope.stepped(config).level < envelope.level,
        envelope.stepped(config).phase == if envelope.stepped(config).level
            <= config.sustain_level {
            EnvelopePhase::Sustain
        } else {
            EnvelopePhase::Decay
        },
{
    lemma_rate_sign(config.decay);
    let level = envelope.level as int;
    assert(change * level <= 0) by (nonlinear_arith)
        requires
            change < 0,
            level >= 0,
    ;
}

/// Sustain and release move linearly by their rate, or, where exponential and downward, in
/// proportion to the level; release ends at zero and sustain never ends by itself.
pub proof fn law_sustain_and_release_steps(
    envelope: Envelope,
    config: EnvelopeConfig,
    change: int,
    fall: int,
)
    requires
        envelope.wf(),
        envelope.phase == EnvelopePhase::Sustain || envelope.phase == EnvelopePhase::Release,
        ({
            let rate = if envelope.phase == EnvelopePhase::Sustain {
                config.sustain
            } else {
                config.release
            };
            is_rate_change(rate.shift as int, rate.step as int, change) && rate.step < 0
        }),
        is_floor(change * envelope.level, 0x8000, fall),
    ensures
        ({
            let proportional = if envelope.phase == EnvelopePhase::Sustain {
                config.sustain_exponential && config.sustain_decrease
            } else {
                config.release_exponential
            };
            &&& is_level_after(
                envelope.level as int,
                if !proportional {
                    change
                } else if fall == 0 && envelope.level != 0 {
                    -1
                } else {
                    fall
                },
                envelope.stepped(config).level as int,
            )
            &&& envelope.phase == EnvelopePhase::Sustain ==> envelope.stepped(config).phase
                == EnvelopePhase::Sustain
            &&& envelope.phase == EnvelopePhase::Release ==> envelope.stepped(config).phase
                == if envelope.stepped(config).level == 0 {
                EnvelopePhase::Off
            } else {
                EnvelopePhase::Release
            }
        }),
{
}

/// A rising sustain moves linearly.
pub proof fn law_rising_sustain_step(envelope: Envelope, config: EnvelopeConfig, change: int)
    requires
        envelope.wf(),
        envelope.phase == EnvelopePhase::Sustain,
        !config.sustain_decrease,
        is_rate_change(config.sustain.shift as int, config.sustain.step as int, change),
    ensures
        is_level_after(envelope.level as int, change, envelope.stepped(config).level as int),
{
}

/// Steps come one interval apart: a clock for shifts up to eleven, twice as many for each
/// shift above, and four times that while an exponential rise is above three quarters.
/// Before the interval is over nothing but the countdown changes, and one that was begun is
/// waited for.
pub proof fn law_step_intervals(envelope: Envelope, config: EnvelopeConfig, clocks: nat)
    requires
        envelope.wf(),
        envelope.phase != EnvelopePhase::Off,
        config.attack.shift <= 31,
        config.decay.shift <= 31,
        config.sustain.shift <= 31,
        config.release.shift <= 31,
    ensures
        ({
            let (shift, rises) = match envelope.phase {
                EnvelopePhase::Attack => (config.attack.shift as int, config.attack_exponential),
                EnvelopePhase::Decay => (config.decay.shift as int, false),
                EnvelopePhase::Sustain => (
                    config.sustain.shift as int,
                    config.sustain_exponential && !config.sustain_decrease,
                ),
                _ => (config.release.shift as int, false),
            };
            let plain = if shift <= 11 {
                1int
            } else {
                pow2((shift - 11) as nat) as int
            };
            let interval = if envelope.clocks_until_step > 0 {
                envelope.clocks_until_step as int
            } else if rises && envelope.level > 0x6000 {
                4 * plain
            } else {
                plain
            };
            &&& clocks < interval ==> envelope.after(config, clocks).level == envelope.level
                && envelope.after(config, clocks).phase == envelope.phase
            &&& clocks == interval ==> envelope.after(config, clocks) == envelope.stepped(config)
        }),
{
    vstd::arithmetic::power2::lemma2_to64();
    let rate = match envelope.phase {
        EnvelopePhase::Attack => config.attack,
        EnvelopePhase::Decay => config.decay,
        EnvelopePhase::Sustain => config.sustain,
        _ => config.release,
    };
    if rate.shift > 11 {
        vstd::arithmetic::power2::lemma_pow2_pos((rate.shift - 11) as nat);
        vstd::arithmetic::power2::lemma_pow2_strictly_increases((rate.shift - 11) as nat, 21);
    }
    if clocks > 0 && clocks <= envelope.due_in(config) {
        crate::spu_common::adsr::lemma_after_jump(envelope, config, clocks);
    }
}

/// Key-on starts an attack from silence; key-off releases from the current level, except
/// where nothing sounds.
pub proof fn law_keys(envelope: Envelope)
    ensures
        Envelope::keyed_on().level == 0,
        Envelope::keyed_on().phase == EnvelopePhase::Attack,
        Envelope::keyed_on().clocks_until_step == 0,
        envelope.keyed_off().level == envelope.level,
        envelope.phase != EnvelopePhase::Off ==> envelope.keyed_off().phase
            == EnvelopePhase::Release && envelope.keyed_off().clocks_until_step == 0,
        envelope.phase == EnvelopePhase::Off ==> envelope.keyed_off() == envelope,
        Envelope::silent().level == 0 && Envelope::silent().phase == EnvelopePhase::Off,
{
}

/// The noise generator shifts right by one bit, and what comes in on the left is the sum
/// of bits 0, 2, 3 and 5.
pub proof fn law_noise_is_a_shift_register(state: u16)
    ensures
        noise_next(state) % 0x8000 == state / 2,
        noise_next(state) / 0x8000 == (state + state / 4 + state / 8 + state / 32) % 2,
{
    lemma_noise_bits(state);
}

proof fn lemma_noise_bits(state: u16)
    by (bit_vector)
    ensures
        ((state >> 1) | (((state ^ (state >> 2) ^ (state >> 3) ^ (state >> 5)) & 1) << 15)) % 0x8000
            == state / 2,
        ((state >> 1) | (((state ^ (state >> 2) ^ (state >> 3) ^ (state >> 5)) & 1) << 15)) / 0x8000
            == (state % 2 + (state / 4) % 2 + (state / 8) % 2 + (state / 32) % 2) % 2,
{
}

/// One output sample moves the position by the pitch, in 1/4096 of a source sample, and
/// never by four source samples.
pub proof fn law_pitch_moves_the_position(phase: u16, pitch: u16)
    requires
        phase < 0x1000,
    ensures
        ({
            let whole = pitch_total(phase, pitch) / 0x1000;
            let next = (PitchCounter { phase }).advanced(pitch).phase;
            &&& next < 0x1000
            &&& pitch <= 0x3fff ==> 0x1000 * whole + next == phase + pitch
            &&& pitch >= 0x3fff ==> 0x1000 * whole + next == phase + 0x3fff
            &&& 0 <= whole <= 4
        }),
{
}

/// One step forward in a ring is the next byte, and after the last one the first.
pub proof fn law_ring_steps(address: RingBufferAddress)
    requires
        address.wf(),
    ensures
        address.advanced(1).base == address.base,
        address.advanced(1).length == address.length,
        address.position + 1 < address.length ==> address.advanced(1).position == address.position
            + 1,
        address.position + 1 == address.length ==> address.advanced(1).position == 0,
{
    if address.position + 1 < address.length {
        vstd::arithmetic::div_mod::lemma_small_mod(
            (address.position + 1) as nat,
            address.length as nat,
        );
    } else {
        vstd::arithmetic::div_mod::lemma_mod_self_0(address.length as int);
    }
}

/// A direct volume is fifteen bits in two's complement, full scale being half a register;
/// the product is rounded down and limited.
pub proof fn law_direct_volume(sample: i16, register: u16, volume: int, product: int)
    requires
        -0x4000 <= volume < 0x4000,
        (volume - register) % 0x8000 == 0,
        is_floor(sample * volume, 0x4000, product),
    ensures
        is_saturated(product, at_volume(sample as int, register)),
{
    let direct = crate::spu_common::mixer::direct_volume(register);
    assert(direct == volume);
}

/// A signed volume is a 16-bit two's-complement fraction of 32768.
pub proof fn law_signed_volume(sample: i16, register: u16, volume: int, product: int)
    requires
        -0x8000 <= volume < 0x8000,
        (volume - register) % 0x1_0000 == 0,
        is_floor(sample * volume, 0x8000, product),
    ensures
        is_saturated(product, at_signed_volume(sample as int, register)),
{
}

/// An envelope level is a fraction of 32768.
pub proof fn law_envelope_volume(sample: i16, level: u16, product: int)
    requires
        level <= 0x7fff,
        is_floor(sample * level, 0x8000, product),
    ensures
        is_saturated(product, at_level(sample, level) as int),
{
    assert(-0x8000 * 0x7fff <= sample * level <= 0x7fff * 0x7fff) by (nonlinear_arith)
        requires
            -0x8000 <= sample <= 0x7fff,
            0 <= level <= 0x7fff,
    ;
    assert((sample * level) / 0x8000 == product);
    assert(-0x8000 <= clamp16(product) <= 0x7fff);
}

/// Pitch modulation scales a pitch by what the voice before puts out: to nothing at its
/// lowest, not at all at zero, and up to almost twice, short of the highest pitch.
pub proof fn law_pitch_modulation(base: u16, previous: i16, product: int)
    requires
        is_floor(base * (previous + 0x8000), 0x8000, product),
    ensures
        modulated(base, previous) == if product > 0x3fff {
            0x3fff
        } else {
            product
        },
{
    assert(0 <= base * (previous + 0x8000)) by (nonlinear_arith)
        requires
            base >= 0,
            previous + 0x8000 >= 0,
    ;
}

/// Interpolation weighs four samples, oldest first, by the row of the phase, each product
/// rounded down.
pub proof fn law_interpolation_taps(
    samples: Seq<i16>,
    phase: u8,
    first: int,
    second: int,
    third: int,
    fourth: int,
)
    requires
        samples.len() == 4,
        is_floor(samples[0] * GAUSSIAN_WEIGHTS[phase as int][0], 0x8000, first),
        is_floor(samples[1] * GAUSSIAN_WEIGHTS[phase as int][1], 0x8000, second),
        is_floor(samples[2] * GAUSSIAN_WEIGHTS[phase as int][2], 0x8000, third),
        is_floor(samples[3] * GAUSSIAN_WEIGHTS[phase as int][3], 0x8000, fourth),
    ensures
        is_saturated(first + second + third + fourth, clamp16(gaussian_sum(samples, phase))),
{
    reveal(gaussian_tap);
}

/// Accumulation is exact: appending a term adds its product, until 64 bits are full.
pub proof fn law_accumulation(terms: Seq<(i16, i16)>, left: i16, right: i16)
    requires
        terms.len() < 0x1_0000_0000,
    ensures
        saturating_dot(terms.push((left, right))) == saturating_dot(terms) + left * right,
        saturating_dot(Seq::<(i16, i16)>::empty()) == 0,
{
    let longer = terms.push((left, right));
    assert(longer.drop_last() =~= terms);
    crate::spu_common::fixed::law_mac_is_exact(longer);
    crate::spu_common::fixed::law_mac_is_exact(terms);
    assert(dot(longer) == dot(terms) + left * right);
}

} // verus!
