//! Sound-processor primitives.

use upse_hw::spu_common::{
    clamp_i16, clamp_i64_to_i16, decode_block, mac_q15, multiply_q15, AdpcmError, AdpcmFlags,
    AdpcmHistory, Envelope, EnvelopeConfig, EnvelopePhase, EnvelopeRate, GaussianInterpolator,
    NoiseGenerator, PitchCounter, PitchStep, RingBufferAddress, GAUSSIAN_WEIGHTS,
};
use upse_hw::spu_common::mixer::{
    apply_level, apply_signed_volume, apply_volume, direct_level, modulated_pitch,
};

#[test]
fn filter_zero_nibble_order_and_flags_match_golden_vector() {
    let mut block = [0_u8; 16];
    block[0] = 12;
    block[1] = 7;
    block[2] = 0xf1;
    block[3] = 0x87;
    let decoded = decode_block(&block, &mut AdpcmHistory::default()).unwrap();
    assert_eq!(&decoded.samples[..4], &[1, -1, 7, -8]);
    assert!(decoded.samples[4..].iter().all(|&sample| sample == 0));
    assert_eq!(
        decoded.flags,
        AdpcmFlags {
            end: true,
            repeat: true,
            loop_start: true
        }
    );
}

#[test]
fn predictor_history_crosses_blocks_and_saturates() {
    let mut first = [0_u8; 16];
    first[0] = 0x1c;
    first[2] = 7;
    let mut history = AdpcmHistory::default();
    let decoded = decode_block(&first, &mut history).unwrap();
    assert!(decoded.samples.iter().all(|&sample| sample == 7));
    assert_eq!(history, AdpcmHistory::new(7, 7));

    let block = [
        0x40, 0, 0x77, 0x77, 0x77, 0x77, 0x77, 0x77, 0x77, 0x77, 0x77, 0x77, 0x77, 0x77, 0x77,
        0x77,
    ];
    let decoded = decode_block(&block, &mut history).unwrap();
    assert_eq!(decoded.samples.last(), Some(&i16::MAX));
    assert_eq!(history.previous(), i16::MAX);
}

#[test]
fn invalid_headers_do_not_mutate_history() {
    let original = AdpcmHistory::new(12, -4);
    for (header, expected) in [
        (13, AdpcmError::InvalidShift { shift: 13 }),
        (0x50, AdpcmError::InvalidFilter { filter: 5 }),
    ] {
        let mut history = original;
        let mut block = [0_u8; 16];
        block[0] = header;
        assert_eq!(decode_block(&block, &mut history), Err(expected));
        assert_eq!(history, original);
    }
}

fn config() -> EnvelopeConfig {
    EnvelopeConfig {
        attack: EnvelopeRate::new(11, 7),
        attack_exponential: false,
        decay: EnvelopeRate::new(11, -8),
        sustain_level: 0x5fff,
        sustain: EnvelopeRate::new(12, -5),
        sustain_decrease: true,
        sustain_exponential: false,
        release: EnvelopeRate::new(11, -8),
        release_exponential: false,
    }
}

#[test]
fn phase_transitions_and_levels_match_golden_sequence() {
    let config = config();
    let mut envelope = Envelope::new();
    envelope.key_on();
    envelope.advance(&config, 4_681);
    assert_eq!(envelope.level(), 0x7fff);
    assert_eq!(envelope.phase(), EnvelopePhase::Decay);
    envelope.advance(&config, 1_200);
    assert_eq!(envelope.phase(), EnvelopePhase::Sustain);
    assert!(envelope.level() <= config.sustain_level);
    let sustain = envelope.level();
    envelope.advance(&config, 20);
    assert!(envelope.level() < sustain);
    envelope.key_off();
    envelope.advance(&config, 4_096);
    assert_eq!(envelope.level(), 0);
    assert_eq!(envelope.phase(), EnvelopePhase::Off);
}

#[test]
fn register_decode_and_chunk_partitioning_are_stable() {
    let config = EnvelopeConfig::from_registers(0x8f7a, 0xc523);
    assert_eq!(config.sustain_level, 0x5800);
    assert!(config.attack_exponential);
    assert!(config.sustain_decrease);
    assert!(config.sustain_exponential);
    assert!(config.release_exponential);

    let mut whole = Envelope::new();
    whole.key_on();
    whole.advance(&config, 10_000);
    let mut chunks = Envelope::new();
    chunks.key_on();
    for _ in 0..100 {
        chunks.advance(&config, 100);
    }
    assert_eq!(whole, chunks);
}

#[test]
fn exponential_release_never_stalls_above_zero() {
    let config = EnvelopeConfig {
        release_exponential: true,
        ..config()
    };
    let mut envelope = Envelope::new();
    envelope.key_on();
    envelope.advance(&config, 5_000);
    envelope.key_off();
    envelope.advance(&config, 100_000);
    assert_eq!(envelope.phase(), EnvelopePhase::Off);
    assert_eq!(envelope.level(), 0);
}

#[test]
fn saturation_and_q15_boundaries_are_golden() {
    assert_eq!(clamp_i16(-40_000), i16::MIN);
    assert_eq!(clamp_i16(40_000), i16::MAX);
    assert_eq!(clamp_i16(123), 123);
    assert_eq!(multiply_q15(16_384, 16_384), 8_192);
    assert_eq!(multiply_q15(-16_384, 16_384), -8_192);
    assert_eq!(mac_q15(&[(i16::MAX, i16::MAX); 4]), i16::MAX);
    assert_eq!(mac_q15(&[(i16::MIN, i16::MAX); 4]), i16::MIN);
}

#[test]
fn hardware_table_is_normalized_and_symmetric() {
    for (phase, weights) in GAUSSIAN_WEIGHTS.iter().enumerate() {
        let sum = weights.iter().copied().map(i32::from).sum::<i32>();
        assert!((32_639..=32_641).contains(&sum), "phase {phase}: {sum}");
        let mut mirrored = GAUSSIAN_WEIGHTS[255 - phase];
        mirrored.reverse();
        assert_eq!(*weights, mirrored);
    }
    assert_eq!(GAUSSIAN_WEIGHTS[0], [0x12c7, 0x59b3, 0x1307, -1]);
    assert_eq!(GAUSSIAN_WEIGHTS[255], [-1, 0x1307, 0x59b3, 0x12c7]);
}

#[test]
fn interpolation_phases_and_saturation_match_goldens() {
    let samples = [0, 3_000, 6_000, 9_000];
    assert_eq!(GaussianInterpolator::interpolate(samples, 0), 2_992);
    assert_eq!(GaussianInterpolator::interpolate(samples, 128), 4_487);
    assert_eq!(GaussianInterpolator::interpolate(samples, u8::MAX), 5_969);
    assert_eq!(GaussianInterpolator::interpolate([i16::MAX; 4], 77), 32_635);
}

#[test]
fn zero_seed_and_initial_sequence_are_golden() {
    let mut noise = NoiseGenerator::new(0);
    assert_eq!(noise.state(), 1);
    let actual: Vec<_> = (0..8).map(|_| noise.step()).collect();
    assert_eq!(
        actual,
        [-32_768, 16_384, 8_192, 4_096, 2_048, 1_024, 512, 256]
    );
    assert_ne!(noise.state(), 0);
}

#[test]
fn unity_fractional_and_clamped_pitch_are_golden() {
    let mut pitch = PitchCounter::new();
    assert_eq!(
        pitch.advance(0x1000),
        PitchStep {
            whole_samples: 1,
            phase: 0
        }
    );
    assert_eq!(pitch.advance(0x0800).whole_samples, 0);
    assert_eq!(pitch.advance(0x0800).whole_samples, 1);
    assert_eq!(pitch.phase(), 0);
    assert_eq!(pitch.advance(u16::MAX).whole_samples, 3);
    assert_eq!(pitch.phase(), 0x0fff);
}

#[test]
fn positive_and_negative_offsets_wrap_without_address_policy() {
    assert_eq!(RingBufferAddress::new(10, 0), None);
    let mut address = RingBufferAddress::new(1_000, 16).unwrap();
    address.advance(18);
    assert_eq!(address.get(), Some(1_002));
    address.advance(-5);
    assert_eq!(address.get(), Some(1_013));
    address.advance(i64::MIN);
    assert_eq!(address.get(), Some(1_013));
}

#[test]
fn signed_wrap_matches_euclidean_remainder() {
    for length in 1..=65 {
        for initial in 0..length {
            for offset in [
                i64::MIN,
                -1_000_003,
                -129,
                -65,
                -1,
                0,
                1,
                65,
                129,
                1_000_003,
                i64::MAX,
            ] {
                let mut address = RingBufferAddress::new(0, length).unwrap();
                address.advance(i64::try_from(initial).unwrap());
                address.advance(offset);
                let expected = (i128::try_from(initial).unwrap() + i128::from(offset))
                    .rem_euclid(i128::try_from(length).unwrap());
                assert_eq!(address.get(), usize::try_from(expected).ok());
            }
        }
    }
}

#[test]
fn table_is_the_windowed_sinc_of_the_hardware() {
    let mut source = [0.0_f64; 512];
    for sample in 0_u16..512 {
        let position = 0.5 + f64::from(sample);
        let fundamental = (std::f64::consts::PI * position * 2.048 / 1024.0).sin();
        let first = ((std::f64::consts::PI * position * 2.0 / 1023.0).cos() - 1.0) * 0.5;
        let second = ((std::f64::consts::PI * position * 4.0 / 1023.0).cos() - 1.0) * 0.08;
        source[511 - usize::from(sample)] = fundamental * (first + second + 1.0) / position;
    }
    let scale = f64::from(0x7f80 * 128) / source.iter().sum::<f64>();
    for sample in &mut source {
        *sample *= scale;
    }
    for phase in 0..256_usize {
        let taps = [
            source[phase],
            source[phase + 256],
            source[511 - phase],
            source[255 - phase],
        ];
        let correction = (taps.iter().sum::<f64>() - f64::from(0x7f80)) / 4.0;
        for (tap, weight) in taps.into_iter().zip(GAUSSIAN_WEIGHTS[255 - phase]) {
            assert_eq!((tap - correction).round() as i16, weight, "phase {phase}");
        }
    }
}

#[test]
fn wide_accumulators_saturate() {
    assert_eq!(clamp_i64_to_i16(i64::MIN), i16::MIN);
    assert_eq!(clamp_i64_to_i16(i64::MAX), i16::MAX);
    assert_eq!(clamp_i64_to_i16(-32_768), i16::MIN);
    assert_eq!(clamp_i64_to_i16(-123), -123);
}

#[test]
fn products_round_toward_negative_infinity() {
    assert_eq!(multiply_q15(-1, 1), -1);
    assert_eq!(multiply_q15(i16::MIN, i16::MIN), 32_768);
    assert_eq!(mac_q15(&[]), 0);
    assert_eq!(mac_q15(&[(-1, 1), (-1, 1)]), -1);
    assert_eq!(mac_q15(&[(16_384, 3), (16_384, -1)]), 1);
}

#[test]
fn filters_use_both_history_samples() {
    let mut block = [0_u8; 16];
    block[0] = 0x20;
    block[2] = 0x01;
    let mut history = AdpcmHistory::new(640, 64);
    let decoded = decode_block(&block, &mut history).unwrap();
    // 4096 + (115 * 640 - 52 * 64 + 32) / 64, then (115 * 5194 - 52 * 640 + 32) / 64.
    assert_eq!(decoded.samples[0], 5_194);
    assert_eq!(decoded.samples[1], 8_813);
    assert_eq!(history.previous(), decoded.samples[27]);
    assert_eq!(history.previous2(), decoded.samples[26]);
}

#[test]
fn every_step_of_a_release_descends() {
    let config = EnvelopeConfig::from_registers(0x00ff, 0x1f21);
    assert!(config.release_exponential);
    let mut envelope = Envelope::new();
    envelope.key_on();
    envelope.advance(&config, 64);
    envelope.key_off();
    let mut steps: u32 = 0;
    while envelope.phase() == EnvelopePhase::Release {
        let before = envelope.level();
        envelope.advance(&config, 1);
        assert!(envelope.level() < before);
        steps += 1;
    }
    assert_eq!(envelope.level(), 0);
    assert!(steps <= 0x7fff);
}

#[test]
fn rates_are_bounded_and_silent_envelopes_stay_silent() {
    assert_eq!(EnvelopeRate::new(200, -3), EnvelopeRate::new(31, -3));
    let config = EnvelopeConfig::from_registers(0, 0);
    let mut envelope = Envelope::new();
    envelope.key_off();
    envelope.advance(&config, 100);
    assert_eq!(envelope, Envelope::new());
    assert_eq!(EnvelopeConfig::from_registers(0x000f, 0).sustain_level, 0x7fff);
}

#[test]
fn ring_offsets_add_and_reverse() {
    let mut stepped = RingBufferAddress::new(5, 12).unwrap();
    stepped.advance(7);
    stepped.advance(-30);
    let mut direct = RingBufferAddress::new(5, 12).unwrap();
    direct.advance(-23);
    assert_eq!(stepped, direct);
    assert_eq!(direct.get(), Some(6));
    direct.advance(23);
    assert_eq!(direct, RingBufferAddress::new(5, 12).unwrap());
    assert_eq!(RingBufferAddress::new(usize::MAX, 2).unwrap().get(), Some(usize::MAX));
    let mut high = RingBufferAddress::new(usize::MAX, 2).unwrap();
    high.advance(1);
    assert_eq!(high.get(), None);
}

#[test]
fn pitch_steps_account_for_every_fraction() {
    let mut pitch = PitchCounter::new();
    let mut whole: u32 = 0;
    for _ in 0..1_000 {
        whole += u32::from(pitch.advance(0x0abc).whole_samples);
    }
    assert_eq!(whole * 0x1000 + u32::from(pitch.phase()), 1_000 * 0x0abc);
    pitch.reset();
    assert_eq!(pitch, PitchCounter::new());
}

#[test]
fn noise_never_locks_up() {
    let mut noise = NoiseGenerator::new(0x8000);
    assert_eq!(noise.state(), 0x8000);
    for _ in 0..100_000 {
        noise.step();
        assert_ne!(noise.state(), 0);
    }
}

#[test]
fn volumes_levels_and_modulation_have_exact_values() {
    assert_eq!(apply_volume(1_000, 0x2000), 500);
    assert_eq!(apply_volume(1_000, 0x6000), -500);
    assert_eq!(apply_volume(i16::MIN, 0x4000), i16::MAX);
    assert_eq!(direct_level(0x7fff), -1);
    assert_eq!(apply_signed_volume(1_000, 0xc000), -500);
    assert_eq!(apply_level(-3, 0x4000), -2);
    assert_eq!(modulated_pitch(0x1000, 0), 0x1000);
    assert_eq!(modulated_pitch(0x1000, i16::MIN), 0);
    assert_eq!(modulated_pitch(0x3000, 0x4000), 0x3fff);
}

#[test]
fn a_release_step_descends_and_ends_at_zero() {
    for exponential in [false, true] {
        let config = EnvelopeConfig {
            release_exponential: exponential,
            ..config()
        };
        let mut envelope = Envelope::new();
        envelope.key_on();
        envelope.advance(&config, 100);
        envelope.key_off();
        while envelope.level() > 0 {
            let before = envelope.level();
            envelope.apply_step(&config);
            assert!(envelope.level() < before);
            let ended = envelope.phase() == EnvelopePhase::Off;
            assert_eq!(ended, envelope.level() == 0);
        }
    }
}
