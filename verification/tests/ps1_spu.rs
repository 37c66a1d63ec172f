//! PS1 sound processor.

use upse_hw::ps1::dma::SoundDmaEndpoint;
use upse_hw::ps1::irq::{InterruptController, InterruptSource};
use upse_hw::ps1::spu::{
    Spu, SpuError, CD_VOLUME_LEFT, CD_VOLUME_RIGHT, CONTROL, CONTROL_ENABLE, CONTROL_IRQ_ENABLE,
    CONTROL_REVERB_ENABLE, ENDX_LOW, EXTERNAL_VOLUME_LEFT, EXTERNAL_VOLUME_RIGHT, IRQ_ADDRESS,
    KEY_OFF_LOW, KEY_ON_HIGH, KEY_ON_LOW, MAIN_VOLUME_LEFT, MAIN_VOLUME_RIGHT, NOISE_LOW,
    PITCH_MOD_LOW, REVERB_BASE, REVERB_ON_HIGH, REVERB_ON_LOW, REVERB_REGISTERS_START,
    REVERB_VOLUME_LEFT, REVERB_VOLUME_RIGHT, SOUND_RAM_SIZE, SPU_BASE, STATUS, STATUS_IRQ,
    TRANSFER_ADDRESS, TRANSFER_CONTROL, UNKNOWN_DA0, UNKNOWN_DBC, UNKNOWN_DBE, VOICE_COUNT,
};
use upse_hw::spu_common::AdpcmError;

const ROOM_REVERB: [u16; 32] = [
    0x007d, 0x005b, 0x6d80, 0x54b8, 0xbed0, 0x0000, 0x0000, 0xba80, 0x5800, 0x5300, 0x04d6,
    0x0333, 0x03f0, 0x0227, 0x0374, 0x01ef, 0x0334, 0x01b5, 0x0000, 0x0000, 0x0000, 0x0000,
    0x0000, 0x0000, 0x0000, 0x0000, 0x01b4, 0x0136, 0x00b8, 0x005c, 0x8000, 0x8000,
];

fn constant_block(nibble: u8, flags: u8) -> [u8; 16] {
    let mut block = [0_u8; 16];
    block[0] = 0;
    block[1] = flags;
    for byte in &mut block[2..] {
        *byte = nibble | (nibble << 4);
    }
    block
}

fn configure_voice(spu: &mut Spu, index: usize, start: u16) {
    let base = SPU_BASE + u32::try_from(index).unwrap() * 0x10;
    spu.write_register(base, 0x3fff).unwrap();
    spu.write_register(base + 2, 0x3fff).unwrap();
    spu.write_register(base + 4, 0x1000).unwrap();
    spu.write_register(base + 6, start).unwrap();
    spu.write_register(base + 8, 0x00ff).unwrap();
    spu.write_register(base + 10, 0x1f00).unwrap();
    spu.write_register(base + 14, start).unwrap();
}

fn configured_spu() -> Spu {
    let mut spu = Spu::new();
    spu.load_ram(0, &constant_block(1, 3)).unwrap();
    configure_voice(&mut spu, 0, 0);
    spu.write_register(MAIN_VOLUME_LEFT, 0x3fff).unwrap();
    spu.write_register(MAIN_VOLUME_RIGHT, 0x3fff).unwrap();
    spu.write_register(CONTROL, CONTROL_ENABLE).unwrap();
    spu.write_register(KEY_ON_LOW, 1).unwrap();
    spu
}

fn configure_room_reverb(spu: &mut Spu, master_enable: bool) {
    let base = u16::try_from((SOUND_RAM_SIZE - 0x26c0) / 8).unwrap();
    spu.write_register(REVERB_BASE, base).unwrap();
    spu.write_register(REVERB_VOLUME_LEFT, 0x7fff).unwrap();
    spu.write_register(REVERB_VOLUME_RIGHT, 0x7fff).unwrap();
    spu.write_register(REVERB_ON_LOW, 1).unwrap();
    spu.write_register(TRANSFER_CONTROL, 4).unwrap();
    for (index, value) in ROOM_REVERB.into_iter().enumerate() {
        let address = REVERB_REGISTERS_START + u32::try_from(index).unwrap() * 2;
        spu.write_register(address, value).unwrap();
    }
    let control = CONTROL_ENABLE | (u16::from(master_enable) * CONTROL_REVERB_ENABLE);
    spu.write_register(CONTROL, control).unwrap();
}

#[test]
fn render_is_chunk_independent_and_rejects_wrong_output_size() {
    let mut whole = configured_spu();
    let mut chunked = whole.clone();
    let mut expected = [0_i16; 128];
    whole.render(64, &mut expected).unwrap();
    let mut actual = [0_i16; 128];
    for chunk in actual.chunks_exact_mut(16) {
        chunked.render(8, chunk).unwrap();
    }
    assert_eq!(actual, expected);
    assert_eq!(
        whole.render(2, &mut [0; 3]),
        Err(SpuError::OutputSize {
            expected: 4,
            actual: 3
        })
    );
}

#[test]
fn room_reverb_writes_its_ring_and_adds_a_delayed_wet_signal() {
    let mut dry = configured_spu();
    let mut disabled = dry.clone();
    let mut wet = dry.clone();
    configure_room_reverb(&mut disabled, false);
    configure_room_reverb(&mut wet, true);

    let mut dry_output = vec![0_i16; 16_384];
    let mut disabled_output = vec![0_i16; 16_384];
    let mut wet_output = vec![0_i16; 16_384];
    dry.render(8_192, &mut dry_output).unwrap();
    disabled.render(8_192, &mut disabled_output).unwrap();
    wet.render(8_192, &mut wet_output).unwrap();

    assert_eq!(disabled_output, dry_output);
    assert_ne!(wet_output, dry_output);
    let base = SOUND_RAM_SIZE - 0x26c0;
    assert!(disabled.ram()[base..].iter().all(|&byte| byte == 0));
    assert!(wet.ram()[base..].iter().any(|&byte| byte != 0));
}

#[test]
fn key_end_loop_noise_pitch_modulation_and_clipping_are_deterministic() {
    let mut spu = Spu::new();
    spu.load_ram(0, &constant_block(7, 1)).unwrap();
    spu.load_ram(16, &constant_block(7, 3)).unwrap();
    for index in 0..VOICE_COUNT {
        configure_voice(&mut spu, index, if index == 0 { 0 } else { 2 });
    }
    spu.write_register(MAIN_VOLUME_LEFT, 0x3fff).unwrap();
    spu.write_register(MAIN_VOLUME_RIGHT, 0x3fff).unwrap();
    spu.write_register(PITCH_MOD_LOW, 0xfffe).unwrap();
    spu.write_register(NOISE_LOW, 1 << 1).unwrap();
    spu.write_register(REVERB_ON_LOW, u16::MAX).unwrap();
    spu.write_register(CONTROL, CONTROL_ENABLE).unwrap();
    spu.write_register(KEY_ON_LOW, u16::MAX).unwrap();
    spu.write_register(KEY_ON_HIGH, 0xff).unwrap();
    let mut output = vec![0_i16; 80];
    spu.render(40, &mut output).unwrap();
    assert!(output.iter().any(|&sample| sample >= 32_760));
    assert_ne!(spu.read_register(ENDX_LOW).unwrap() & 1, 0);
    assert_eq!(spu.read_register(ENDX_LOW).unwrap(), 0xfffd);
    assert_eq!(spu.read_register(REVERB_ON_LOW).unwrap(), u16::MAX);
    assert_eq!(spu.read_register(SPU_BASE + 12).unwrap(), 0);
    spu.write_register(KEY_OFF_LOW, 2).unwrap();
    let mut tail = [0_i16; 8];
    spu.render(4, &mut tail).unwrap();
    assert_ne!(tail, [0; 8]);
}

#[test]
fn transfer_fifo_dma_and_irq_address_wrap_sound_ram() {
    let mut spu = Spu::new();
    spu.write_register(IRQ_ADDRESS, 0).unwrap();
    spu.write_register(TRANSFER_ADDRESS, u16::MAX).unwrap();
    spu.write_register(CONTROL, CONTROL_ENABLE | CONTROL_IRQ_ENABLE)
        .unwrap();
    spu.write_word(0x1122_3344).unwrap();
    assert_eq!(
        &spu.ram()[SOUND_RAM_SIZE - 8..SOUND_RAM_SIZE - 4],
        &[0x44, 0x33, 0x22, 0x11]
    );
    spu.write_register(TRANSFER_ADDRESS, u16::MAX).unwrap();
    assert_eq!(spu.read_word().unwrap(), 0x1122_3344);

    spu.write_register(TRANSFER_ADDRESS, 0).unwrap();
    spu.write_word(0xaabb_ccdd).unwrap();
    assert_ne!(spu.read_register(STATUS).unwrap() & STATUS_IRQ, 0);
    let mut irq = InterruptController::new();
    assert!(spu.drain_irq(&mut irq));
    assert!(!spu.drain_irq(&mut irq));
    assert_eq!(irq.status(), InterruptSource::Spu.bit());
}

#[test]
fn register_and_ram_boundaries_are_checked() {
    let mut spu = Spu::new();
    spu.write_register(REVERB_VOLUME_LEFT, 0x1234).unwrap();
    spu.write_register(REVERB_VOLUME_RIGHT, 0xfedc).unwrap();
    spu.write_register(REVERB_ON_LOW, 0x4567).unwrap();
    spu.write_register(REVERB_ON_HIGH, 0x00ab).unwrap();
    spu.write_register(CD_VOLUME_LEFT, 0x1111).unwrap();
    spu.write_register(CD_VOLUME_RIGHT, 0x2222).unwrap();
    spu.write_register(EXTERNAL_VOLUME_LEFT, 0x3333).unwrap();
    spu.write_register(EXTERNAL_VOLUME_RIGHT, 0x4444).unwrap();
    spu.write_register(UNKNOWN_DA0, 0x5555).unwrap();
    spu.write_register(UNKNOWN_DBC, 0x6666).unwrap();
    spu.write_register(UNKNOWN_DBE, 0x7777).unwrap();
    assert_eq!(spu.read_register(REVERB_VOLUME_LEFT).unwrap(), 0x1234);
    assert_eq!(spu.read_register(REVERB_VOLUME_RIGHT).unwrap(), 0xfedc);
    assert_eq!(spu.read_register(REVERB_ON_LOW).unwrap(), 0x4567);
    assert_eq!(spu.read_register(REVERB_ON_HIGH).unwrap(), 0x00ab);
    assert_eq!(spu.read_register(CD_VOLUME_LEFT).unwrap(), 0x1111);
    assert_eq!(spu.read_register(CD_VOLUME_RIGHT).unwrap(), 0x2222);
    assert_eq!(spu.read_register(EXTERNAL_VOLUME_LEFT).unwrap(), 0x3333);
    assert_eq!(spu.read_register(EXTERNAL_VOLUME_RIGHT).unwrap(), 0x4444);
    assert_eq!(spu.read_register(UNKNOWN_DA0).unwrap(), 0x5555);
    assert_eq!(spu.read_register(UNKNOWN_DBC).unwrap(), 0x6666);
    assert_eq!(spu.read_register(UNKNOWN_DBE).unwrap(), 0x7777);
    assert!(matches!(
        spu.write_register(SPU_BASE + 1, 0),
        Err(SpuError::InvalidRegister { .. })
    ));
    assert!(matches!(
        spu.load_ram(SOUND_RAM_SIZE - 1, &[1, 2]),
        Err(SpuError::RamRange { .. })
    ));
}

#[test]
fn a_constant_block_renders_the_interpolated_level() {
    // Four equal samples of 4096 pass the first interpolation phase as 4077; the
    // envelope then rises in steps of 14336, and each volume costs one more unit.
    let mut spu = configured_spu();
    let mut output = [0_i16; 16];
    spu.render(8, &mut output).unwrap();
    assert_eq!(
        output,
        [
            1_781, 1_781, 3_565, 3_565, 4_074, 4_074, 4_074, 4_074, 4_074, 4_074, 4_074, 4_074,
            4_074, 4_074, 4_074, 4_074
        ]
    );
}

#[test]
fn rendering_writes_nothing_outside_the_reverb_area() {
    let mut spu = configured_spu();
    spu.load_ram(0x1000, &[0x5a; 0x100]).unwrap();
    configure_room_reverb(&mut spu, true);
    let before = spu.ram().to_vec();
    let mut output = vec![0_i16; 4_096];
    spu.render(2_048, &mut output).unwrap();
    let base = SOUND_RAM_SIZE - 0x26c0;
    assert_eq!(spu.ram()[..base], before[..base]);
    assert_ne!(spu.ram()[base..], before[base..]);
}

#[test]
fn what_the_transfer_port_wrote_it_reads() {
    let mut spu = Spu::default();
    spu.write_register(TRANSFER_ADDRESS, 0x200).unwrap();
    for word in [0x0102_0304, 0xa0b0_c0d0] {
        spu.write_word(word).unwrap();
    }
    spu.write_register(TRANSFER_ADDRESS, 0x200).unwrap();
    assert_eq!(spu.read_word().unwrap(), 0x0102_0304);
    assert_eq!(spu.read_word().unwrap(), 0xa0b0_c0d0);
    assert_eq!(spu.ram()[0x1000..0x1004], [4, 3, 2, 1]);
}

#[test]
fn no_interrupt_comes_without_its_address_or_enable() {
    let mut irq = InterruptController::new();
    for (control, address, expected) in [
        (CONTROL_ENABLE | CONTROL_IRQ_ENABLE, 0x1000, true),
        (CONTROL_ENABLE | CONTROL_IRQ_ENABLE, 0x1001, false),
        (CONTROL_ENABLE, 0x1000, false),
    ] {
        let mut spu = Spu::new();
        spu.write_register(IRQ_ADDRESS, address).unwrap();
        spu.write_register(TRANSFER_ADDRESS, 0x1000).unwrap();
        spu.write_register(CONTROL, control).unwrap();
        spu.write_word(1).unwrap();
        assert_eq!(spu.drain_irq(&mut irq), expected);
    }
}

#[test]
fn broken_blocks_name_their_voice_and_address() {
    let mut spu = configured_spu();
    spu.load_ram(0, &[0x0d]).unwrap();
    let error = spu.render(1, &mut [0; 2]).unwrap_err();
    assert_eq!(
        error,
        SpuError::Adpcm {
            voice: 0,
            address: 0,
            source: AdpcmError::InvalidShift { shift: 13 }
        }
    );
}
