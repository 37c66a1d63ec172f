//! PS2 subsystem-bus registers.

use upse_hw::ps2::ssbus::{SsbusController, SsbusError, COMMON_DELAY};

#[test]
fn direct_and_typed_register_access_share_state() {
    let mut bus = SsbusController::new();
    bus.write_u32(0x1f80_1404, 0xbf90_0000).unwrap();
    bus.write_u32(0x1f80_140c, 0xbf90_0800).unwrap();
    bus.write_u32(0x1f80_1014, 0x200b_31e1).unwrap();
    bus.write_u32(0x1f80_1414, 0x200b_31e1).unwrap();
    assert_eq!(bus.base(4).unwrap(), 0xbf90_0000);
    assert_eq!(bus.base(9).unwrap(), 0xbf90_0800);
    assert_eq!(bus.delay(4).unwrap(), 0x200b_31e1);
    assert_eq!(bus.delay(9).unwrap(), 0x200b_31e1);
    assert_eq!(bus.set_common_delay(0x1234), 0);
    assert_eq!(bus.read_u32(COMMON_DELAY).unwrap(), 0x1234);
}

#[test]
fn holes_and_unknown_addresses_are_diagnostic() {
    let mut bus = SsbusController::new();
    assert!(matches!(
        bus.set_base(2, 1),
        Err(SsbusError::InvalidDevice { device: 2, .. })
    ));
    assert!(matches!(
        bus.write_u32(0x1f80_1424, 1),
        Err(SsbusError::InvalidRegister {
            address: 0x1f80_1424
        })
    ));
}

#[test]
fn every_register_reads_back_alone() {
    let addresses: Vec<u32> = (0x1f80_1000..=0x1f80_1424)
        .step_by(4)
        .filter(|&address| SsbusController::contains(address))
        .collect();
    assert_eq!(addresses.len(), 18);
    for &address in &addresses {
        let mut bus = SsbusController::default();
        bus.write_u32(address, 0x1357_9bdf).unwrap();
        for &other in &addresses {
            let expected = if other == address { 0x1357_9bdf } else { 0 };
            assert_eq!(bus.read_u32(other), Ok(expected));
        }
    }
}

#[test]
fn typed_writes_return_what_they_replace() {
    let mut bus = SsbusController::new();
    assert_eq!(bus.set_base(8, 5), Ok(0));
    assert_eq!(bus.set_base(8, 6), Ok(5));
    assert_eq!(bus.read_u32(0x1f80_1004), Ok(6));
    assert_eq!(bus.set_delay(12, 7), Ok(0));
    assert_eq!(bus.read_u32(0x1f80_1420), Ok(7));
    assert_eq!(bus.set_common_delay(3), 0);
    assert_eq!(bus.common_delay(), 3);
    assert_eq!(
        bus.delay(3),
        Err(SsbusError::InvalidDevice {
            device: 3,
            kind: "delay"
        })
    );
    assert_eq!(
        bus.base(13),
        Err(SsbusError::InvalidDevice {
            device: 13,
            kind: "base-address"
        })
    );
    assert_eq!(
        bus.read_u32(0x1f80_1001),
        Err(SsbusError::InvalidRegister {
            address: 0x1f80_1001
        })
    );
}
