//! PS2 sound processor.

use upse_hw::ps2::dma::{SoundDmaChannel, Spu2DmaEndpoint, Spu2MmioEndpoint};
use upse_hw::ps2::irq::{InterruptController, InterruptSource};
use upse_hw::ps2::spu2::{
    CoreInput, Spu2, Spu2Error, StereoFrame, CORE_ATTR, CORE_ATTR_EFFECT_ENABLE, CORE_ATTR_ENABLE,
    CORE_ATTR_EXTERNAL_ENABLE, CORE_ATTR_IRQ_ENABLE, CORE_ATTR_UNMUTE, CORE_COUNT,
    EFFECT_END_HIGH, EFFECT_START_HIGH, EFFECT_START_LOW, ENDX_HIGH, IRQA_HIGH, IRQA_LOW,
    KEY_ON_HIGH, KEY_ON_LOW, MMIX, MMIX_INPUT_A_DRY_LEFT, MMIX_INPUT_A_DRY_RIGHT,
    MMIX_VOICE_DRY_LEFT, MMIX_VOICE_DRY_RIGHT, MMIX_VOICE_EFFECT_LEFT, MMIX_VOICE_EFFECT_RIGHT,
    NON_HIGH, PMON_HIGH, PRIMARY_BASE, PRIMARY_STRIDE, SAMPLE_RATE, SOUND_RAM_SIZE, SPU2_BASE,
    SPU2_END, TSA_HIGH, TSA_LOW, VMIXEL_HIGH, VMIXER_HIGH, VMIXL_HIGH, VMIXL_LOW, VMIXR_HIGH,
    VMIXR_LOW, VOICES_PER_CORE, VOICE_ADDRESS_BASE, VOICE_STRIDE,
};
use upse_hw::spu_common::AdpcmError;

fn core_register(core: usize, local: u32) -> u32 {
    SPU2_BASE + u32::try_from(core).unwrap() * 0x400 + local
}

fn primary_register(core: usize, local: u32) -> u32 {
    SPU2_BASE + PRIMARY_BASE + u32::try_from(core).unwrap() * PRIMARY_STRIDE + local
}

fn constant_block(nibble: u8, flags: u8) -> [u8; 16] {
    let mut block = [0_u8; 16];
    block[0] = 0;
    block[1] = flags;
    for byte in &mut block[2..] {
        *byte = nibble | (nibble << 4);
    }
    block
}

fn write_address(spu2: &mut Spu2, core: usize, local: u32, address: u32) {
    spu2.write_register(core_register(core, local), (address >> 17) as u16)
        .unwrap();
    spu2.write_register(
        core_register(core, local + 2),
        ((address >> 1) & 0xfff8) as u16,
    )
    .unwrap();
}

fn configure_voice(spu2: &mut Spu2, core: usize, voice: usize, start: u32) {
    let base = core_register(core, u32::try_from(voice).unwrap() * VOICE_STRIDE);
    spu2.write_register(base, 0x3fff).unwrap();
    spu2.write_register(base + 2, 0x3fff).unwrap();
    spu2.write_register(base + 4, 0x1000).unwrap();
    spu2.write_register(base + 6, 0x00ff).unwrap();
    spu2.write_register(base + 8, 0x1f00).unwrap();
    write_address(
        spu2,
        core,
        VOICE_ADDRESS_BASE + u32::try_from(voice).unwrap() * 0x0c,
        start,
    );
}

fn enable_voice_mix(spu2: &mut Spu2, core: usize, voice_mask: u16) {
    spu2.write_register(core_register(core, VMIXL_HIGH), voice_mask)
        .unwrap();
    spu2.write_register(core_register(core, VMIXR_HIGH), voice_mask)
        .unwrap();
    spu2.write_register(
        core_register(core, MMIX),
        MMIX_VOICE_DRY_LEFT | MMIX_VOICE_DRY_RIGHT,
    )
    .unwrap();
    spu2.write_register(primary_register(core, 0), 0x7fff)
        .unwrap();
    spu2.write_register(primary_register(core, 2), 0x7fff)
        .unwrap();
    spu2.write_register(
        core_register(core, CORE_ATTR),
        CORE_ATTR_ENABLE | CORE_ATTR_UNMUTE,
    )
    .unwrap();
}

fn enable_core0_passthrough(spu2: &mut Spu2) {
    spu2.write_register(
        core_register(1, MMIX),
        MMIX_INPUT_A_DRY_LEFT | MMIX_INPUT_A_DRY_RIGHT,
    )
    .unwrap();
    spu2.write_register(primary_register(1, 0), 0x7fff).unwrap();
    spu2.write_register(primary_register(1, 2), 0x7fff).unwrap();
    spu2.write_register(primary_register(1, 8), 0x7fff).unwrap();
    spu2.write_register(primary_register(1, 0x0a), 0x7fff)
        .unwrap();
    spu2.write_register(
        core_register(1, CORE_ATTR),
        CORE_ATTR_ENABLE | CORE_ATTR_UNMUTE | CORE_ATTR_EXTERNAL_ENABLE,
    )
    .unwrap();
}

fn configured_spu2() -> Spu2 {
    let mut spu2 = Spu2::new();
    spu2.load_ram(0x1000, &constant_block(1, 3)).unwrap();
    configure_voice(&mut spu2, 0, 0, 0x1000);
    enable_voice_mix(&mut spu2, 0, 1);
    enable_core0_passthrough(&mut spu2);
    spu2.write_register(core_register(0, KEY_ON_HIGH), 1)
        .unwrap();
    spu2
}

#[test]
fn simultaneous_cores_and_input_paths_mix_before_final_saturation() {
    let mut spu2 = configured_spu2();
    spu2.load_ram(0x2000, &constant_block(2, 3)).unwrap();
    configure_voice(&mut spu2, 1, 0, 0x2000);
    enable_voice_mix(&mut spu2, 1, 1);
    spu2.write_register(
        core_register(1, MMIX),
        MMIX_INPUT_A_DRY_LEFT
            | MMIX_INPUT_A_DRY_RIGHT
            | MMIX_VOICE_DRY_LEFT
            | MMIX_VOICE_DRY_RIGHT,
    )
    .unwrap();
    spu2.write_register(primary_register(1, 8), 0x7fff).unwrap();
    spu2.write_register(primary_register(1, 0x0a), 0x7fff)
        .unwrap();
    spu2.write_register(core_register(1, KEY_ON_HIGH), 1)
        .unwrap();

    let first = spu2
        .render_frame([
            CoreInput::default(),
            CoreInput {
                input_a: StereoFrame::new(100, -100),
                input_b: StereoFrame::default(),
            },
        ])
        .unwrap();
    assert_ne!(first.cores[0], StereoFrame::default());
    assert_ne!(first.cores[1], first.cores[0]);
    assert_eq!(first.final_output, first.cores[1]);

    let mut loud = Spu2::new();
    loud.load_ram(0, &constant_block(7, 3)).unwrap();
    for voice in 0..VOICES_PER_CORE {
        configure_voice(&mut loud, 1, voice, 0);
    }
    enable_voice_mix(&mut loud, 1, u16::MAX);
    loud.write_register(core_register(1, VMIXL_LOW), 0xff)
        .unwrap();
    loud.write_register(core_register(1, VMIXR_LOW), 0xff)
        .unwrap();
    loud.write_register(core_register(1, KEY_ON_HIGH), u16::MAX)
        .unwrap();
    loud.write_register(core_register(1, KEY_ON_LOW), 0xff)
        .unwrap();
    let mut saturated = [0; 80];
    loud.render(40, &mut saturated).unwrap();
    assert!(saturated.iter().any(|&sample| sample >= 32_760));
}

#[test]
fn dma_directions_irq_edges_and_sound_ram_wrap_are_deterministic() {
    let mut spu2 = Spu2::new();
    write_address(&mut spu2, 1, IRQA_HIGH, 0x1f_fff0);
    write_address(&mut spu2, 1, TSA_HIGH, 0x1f_fff0);
    spu2.write_register(
        core_register(1, CORE_ATTR),
        CORE_ATTR_ENABLE | CORE_ATTR_IRQ_ENABLE,
    )
    .unwrap();
    spu2.write_word(SoundDmaChannel::Core1, 0x1122_3344)
        .unwrap();
    spu2.write_word(SoundDmaChannel::Core1, 0xaabb_ccdd)
        .unwrap();
    assert_eq!(
        &spu2.ram()[SOUND_RAM_SIZE - 16..SOUND_RAM_SIZE - 12],
        &[0x44, 0x33, 0x22, 0x11]
    );
    assert_eq!(
        &spu2.ram()[SOUND_RAM_SIZE - 12..SOUND_RAM_SIZE - 8],
        &[0xdd, 0xcc, 0xbb, 0xaa]
    );
    let mut irq = InterruptController::new();
    assert!(spu2.drain_irq(&mut irq));
    assert!(!spu2.drain_irq(&mut irq));
    assert_eq!(irq.status(), InterruptSource::Spu2.bit());

    write_address(&mut spu2, 1, TSA_HIGH, 0x1f_fff0);
    assert_eq!(spu2.read_word(SoundDmaChannel::Core1).unwrap(), 0x1122_3344);
    assert_eq!(spu2.read_word(SoundDmaChannel::Core1).unwrap(), 0xaabb_ccdd);
}

#[test]
fn voice_loops_endx_noise_pitch_and_chunk_boundaries_are_stable() {
    let mut whole = configured_spu2();
    configure_voice(&mut whole, 0, 1, 0x1000);
    whole
        .write_register(core_register(0, VMIXL_HIGH), 3)
        .unwrap();
    whole
        .write_register(core_register(0, VMIXR_HIGH), 3)
        .unwrap();
    whole
        .write_register(core_register(0, KEY_ON_HIGH), 2)
        .unwrap();
    whole
        .write_register(core_register(0, PMON_HIGH), 2)
        .unwrap();
    whole
        .write_register(core_register(0, NON_HIGH), 2)
        .unwrap();
    let mut chunked = whole.clone();
    let mut expected = [0_i16; 256];
    whole.render(128, &mut expected).unwrap();
    let mut actual = [0_i16; 256];
    for chunk in actual.chunks_exact_mut(16) {
        chunked.render(8, chunk).unwrap();
    }
    assert_eq!(actual, expected);
    assert_ne!(
        whole.read_register(core_register(0, ENDX_HIGH)).unwrap() & 1,
        0
    );
    assert_eq!(SAMPLE_RATE, 48_000);
    assert_eq!(CORE_COUNT, 2);
}

#[test]
fn register_endpoint_and_host_ranges_are_checked() {
    let mut spu2 = Spu2::new();
    Spu2MmioEndpoint::write_register(&mut spu2, SPU2_BASE + 0x7fe, 0x1234).unwrap();
    assert_eq!(
        Spu2MmioEndpoint::read_register(&mut spu2, SPU2_BASE + 0x7fe).unwrap(),
        0x1234
    );
    assert!(matches!(
        spu2.write_register(SPU2_BASE + 1, 0),
        Err(Spu2Error::InvalidRegister { .. })
    ));
    assert!(matches!(
        spu2.read_register(SPU2_END + 1),
        Err(Spu2Error::InvalidRegister { .. })
    ));
    assert!(matches!(
        spu2.load_ram(SOUND_RAM_SIZE - 1, &[1, 2]),
        Err(Spu2Error::RamRange { .. })
    ));
    assert_eq!(EFFECT_START_LOW, EFFECT_START_HIGH + 2);
    assert_eq!(IRQA_LOW, IRQA_HIGH + 2);
    assert_eq!(TSA_LOW, TSA_HIGH + 2);
}

#[test]
fn a_constant_block_renders_through_both_cores() {
    // The first frame interpolates silence and three samples of 4096 to 3477, the
    // others four samples to 4077; the envelope rises in steps of 14336.
    let mut spu2 = configured_spu2();
    let mut core0 = [0_i16; 8];
    let mut output = [0_i16; 8];
    for index in 0..8 {
        let rendered = spu2
            .render_frame([CoreInput::default(); CORE_COUNT])
            .unwrap();
        core0[index] = rendered.cores[0].left;
        output[index] = rendered.final_output.right;
    }
    assert_eq!(core0, [1_519, 3_565, 4_074, 4_074, 4_074, 4_074, 4_074, 4_074]);
    assert_eq!(output, [1_517, 3_563, 4_072, 4_072, 4_072, 4_072, 4_072, 4_072]);
}

#[test]
fn effects_write_only_their_area() {
    let mut spu2 = configured_spu2();
    spu2.write_register(core_register(0, VMIXEL_HIGH), 1).unwrap();
    spu2.write_register(core_register(0, VMIXER_HIGH), 1).unwrap();
    spu2.write_register(
        core_register(0, MMIX),
        MMIX_VOICE_DRY_LEFT | MMIX_VOICE_DRY_RIGHT | MMIX_VOICE_EFFECT_LEFT
            | MMIX_VOICE_EFFECT_RIGHT,
    )
    .unwrap();
    write_address(&mut spu2, 0, EFFECT_START_HIGH, 0x1f_0000);
    spu2.write_register(core_register(0, EFFECT_END_HIGH), 0x000f)
        .unwrap();
    for local in [4, 6, 0x14, 0x16, 0x24, 0x26] {
        spu2.write_register(primary_register(0, local), 0x7fff).unwrap();
    }
    spu2.write_register(
        core_register(0, CORE_ATTR),
        CORE_ATTR_ENABLE | CORE_ATTR_UNMUTE | CORE_ATTR_EFFECT_ENABLE,
    )
    .unwrap();
    let mut dry = configured_spu2();
    let before = spu2.ram().to_vec();
    let mut wet_output = [0_i16; 128];
    let mut dry_output = [0_i16; 128];
    spu2.render(64, &mut wet_output).unwrap();
    dry.render(64, &mut dry_output).unwrap();
    assert_ne!(wet_output, dry_output);
    assert_eq!(spu2.ram()[..0x1f_0000], before[..0x1f_0000]);
    assert!(spu2.ram()[0x1f_0000..].iter().any(|&byte| byte != 0));
}

#[test]
fn registers_of_one_core_leave_the_other_alone() {
    let mut spu2 = Spu2::default();
    let other = spu2.read_register(core_register(1, VMIXL_HIGH)).unwrap();
    spu2.write_register(core_register(0, VMIXL_HIGH), 0x1234).unwrap();
    assert_eq!(spu2.read_register(core_register(0, VMIXL_HIGH)), Ok(0x1234));
    assert_eq!(spu2.read_register(core_register(1, VMIXL_HIGH)), Ok(other));
}

#[test]
fn start_addresses_read_back() {
    let mut spu2 = Spu2::new();
    write_address(&mut spu2, 0, VOICE_ADDRESS_BASE, 0x12_3450);
    assert_eq!(spu2.read_register(core_register(0, VOICE_ADDRESS_BASE)), Ok(0x0009));
    assert_eq!(spu2.read_register(core_register(0, VOICE_ADDRESS_BASE + 2)), Ok(0x1a28));
}

#[test]
fn interrupts_need_their_address_and_are_drained_once() {
    for (address, expected) in [(0x2000, true), (0x2010, false)] {
        let mut spu2 = Spu2::new();
        write_address(&mut spu2, 0, IRQA_HIGH, address);
        write_address(&mut spu2, 0, TSA_HIGH, 0x2000);
        spu2.write_register(
            core_register(0, CORE_ATTR),
            CORE_ATTR_ENABLE | CORE_ATTR_IRQ_ENABLE,
        )
        .unwrap();
        spu2.write_word(SoundDmaChannel::Core0, 5).unwrap();
        let mut irq = InterruptController::new();
        assert_eq!(spu2.drain_irq(&mut irq), expected);
        assert!(!spu2.drain_irq(&mut irq));
    }
}

#[test]
fn inputs_and_outputs_must_match_the_frame_count() {
    let mut spu2 = Spu2::new();
    assert_eq!(
        spu2.render(2, &mut [0; 3]),
        Err(Spu2Error::OutputSize {
            expected: 4,
            actual: 3
        })
    );
    assert_eq!(
        spu2.render_with_inputs(&[[CoreInput::default(); CORE_COUNT]], &mut [0; 4]),
        Err(Spu2Error::OutputSize {
            expected: 2,
            actual: 4
        })
    );
    assert_eq!(
        Spu2Error::OutputSize {
            expected: 2,
            actual: 4
        }
        .message(),
        "SPU2 output has 4 samples, expected 2"
    );
}

#[test]
fn diagnostics_read_as_text() {
    assert_eq!(
        Spu2Error::InvalidRegister {
            address: 0x1f90_0801
        }
        .message(),
        "invalid SPU2 register address 0x1f900801"
    );
    assert_eq!(
        Spu2Error::RamRange {
            offset: 0x1f_ffff,
            size: 2
        }
        .message(),
        "SPU2 sound-RAM range 0x1fffff..+0x2 is out of bounds"
    );
    assert_eq!(
        Spu2Error::InputSize {
            expected: 10,
            actual: 0
        }
        .message(),
        "SPU2 input has 0 frames, expected 10"
    );
    assert_eq!(
        Spu2Error::Adpcm {
            core: 1,
            voice: 23,
            address: 0x10,
            source: AdpcmError::InvalidShift { shift: 13 }
        }
        .message(),
        "SPU2 core 1 voice 23 ADPCM failure at 0x000010: invalid PlayStation ADPCM shift 13"
    );
}

#[test]
fn broken_blocks_name_their_core_voice_and_address() {
    let mut spu2 = configured_spu2();
    spu2.load_ram(0x1000, &[0x50]).unwrap();
    assert_eq!(
        spu2.render(1, &mut [0; 2]),
        Err(Spu2Error::Adpcm {
            core: 0,
            voice: 0,
            address: 0x1000,
            source: AdpcmError::InvalidFilter { filter: 5 }
        })
    );
}

#[test]
fn a_disabled_core_is_silent_and_stands_still() {
    let mut spu2 = configured_spu2();
    spu2.write_register(core_register(0, CORE_ATTR), 0).unwrap();
    let rendered = spu2
        .render_frame([CoreInput::default(); CORE_COUNT])
        .unwrap();
    assert_eq!(rendered.cores[0], StereoFrame::new(0, 0));
    assert_eq!(rendered.final_output, StereoFrame::default());
}
