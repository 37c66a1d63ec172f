//! CD-ROM registers.

use upse_hw::ps1::cdrom::{CdRom, CdRomError, CDROM_BASE};

#[test]
fn reset_status_describes_empty_ready_fifos() {
    let mut drive = CdRom::new();
    assert_eq!(drive.read_register(CDROM_BASE).unwrap(), 0x18);
    assert_eq!(drive.read_register(CDROM_BASE + 1).unwrap(), 0);
    assert!(!drive.interrupt_pending());
}

#[test]
fn bank_selection_controls_interrupt_registers() {
    let mut drive = CdRom::new();
    drive.write_register(CDROM_BASE, 1).unwrap();
    drive.write_register(CDROM_BASE + 2, 0x04).unwrap();
    assert_eq!(drive.index(), 1);
    assert_eq!(drive.read_register(CDROM_BASE + 3).unwrap(), 0xe0);
    drive.write_register(CDROM_BASE, 0).unwrap();
    assert_eq!(drive.read_register(CDROM_BASE + 3).unwrap(), 0xe4);
}

#[test]
fn parameter_fifo_status_and_clear_follow_register_protocol() {
    let mut drive = CdRom::new();
    drive.write_register(CDROM_BASE + 2, 0xaa).unwrap();
    assert_eq!(drive.read_register(CDROM_BASE).unwrap() & 0x08, 0);
    drive.write_register(CDROM_BASE, 1).unwrap();
    drive.write_register(CDROM_BASE + 3, 0x40).unwrap();
    drive.write_register(CDROM_BASE, 0).unwrap();
    assert_ne!(drive.read_register(CDROM_BASE).unwrap() & 0x08, 0);
}

#[test]
fn audio_volume_changes_are_latched_only_when_applied() {
    let mut drive = CdRom::new();
    drive.write_register(CDROM_BASE, 2).unwrap();
    drive.write_register(CDROM_BASE + 2, 0x11).unwrap();
    drive.write_register(CDROM_BASE + 3, 0x22).unwrap();
    drive.write_register(CDROM_BASE, 3).unwrap();
    drive.write_register(CDROM_BASE + 1, 0x33).unwrap();
    drive.write_register(CDROM_BASE + 2, 0x44).unwrap();
    drive.write_register(CDROM_BASE + 3, 0x20).unwrap();
    assert_eq!(drive.applied_audio_volume, [0x11, 0x22, 0x33, 0x44]);
}

#[test]
fn parameters_queue_until_full_and_a_command_consumes_them() {
    let mut drive = CdRom::new();
    for value in 0..17_u8 {
        drive.write_register(CDROM_BASE + 2, value).unwrap();
    }
    assert_eq!(drive.parameter_count, 16);
    assert_eq!(drive.parameters[0], 0);
    assert_eq!(drive.parameters[15], 15);
    assert_eq!(drive.read_register(CDROM_BASE).unwrap(), 0);
    drive.write_register(CDROM_BASE + 1, 0x0a).unwrap();
    assert_eq!(drive.read_register(CDROM_BASE).unwrap(), 0x18);
}

#[test]
fn responses_come_out_first_in_first_out() {
    let mut drive = CdRom::new();
    drive.response[15] = 7;
    drive.response[0] = 8;
    drive.response_read = 15;
    drive.response_count = 2;
    assert_eq!(drive.read_register(CDROM_BASE).unwrap() & 0x20, 0x20);
    assert_eq!(drive.read_register(CDROM_BASE + 1).unwrap(), 7);
    assert_eq!(drive.read_register(CDROM_BASE + 1).unwrap(), 8);
    assert_eq!(drive.read_register(CDROM_BASE + 1).unwrap(), 0);
    assert_eq!(drive.read_register(CDROM_BASE + 2).unwrap(), 0);
}

#[test]
fn written_ones_acknowledge_interrupt_flags() {
    let mut drive = CdRom::new();
    drive.interrupt_flags = 0x15;
    drive.write_register(CDROM_BASE, 1).unwrap();
    drive.write_register(CDROM_BASE + 2, 0xff).unwrap();
    assert!(drive.interrupt_pending());
    assert_eq!(drive.read_register(CDROM_BASE + 3).unwrap(), 0xf5);
    drive.write_register(CDROM_BASE + 3, 0x05).unwrap();
    assert_eq!(drive.read_register(CDROM_BASE + 3).unwrap(), 0xf0);
    drive.write_register(CDROM_BASE + 3, 0x1f).unwrap();
    assert!(!drive.interrupt_pending());
    drive.write_register(CDROM_BASE, 0).unwrap();
    assert_eq!(drive.read_register(CDROM_BASE + 3).unwrap(), 0xff);
}

#[test]
fn latched_volumes_wait_for_the_apply_bit() {
    let mut drive = CdRom::new();
    drive.write_register(CDROM_BASE, 3).unwrap();
    drive.write_register(CDROM_BASE + 1, 0x33).unwrap();
    drive.write_register(CDROM_BASE + 3, 0x1f).unwrap();
    assert_eq!(drive.applied_audio_volume, [0; 4]);
}

#[test]
fn addresses_outside_the_window_are_invalid() {
    let mut drive = CdRom::default();
    for address in [CDROM_BASE - 1, CDROM_BASE + 4] {
        assert_eq!(
            drive.read_register(address),
            Err(CdRomError::InvalidRegister { address })
        );
        assert_eq!(
            drive.write_register(address, 1),
            Err(CdRomError::InvalidRegister { address })
        );
    }
    assert_eq!(drive, CdRom::new());
}
