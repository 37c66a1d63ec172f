//! PS2 I/O-processor memory map.

use upse_hw::ps2::memory::{
    IopMemory, MemoryError, MemoryRegion, OpenBusPolicy, HLE_ROM_START, MMIO_START, RAM_SIZE,
    SCRATCHPAD_START, SPU2_MMIO_START,
};

#[test]
fn ram_is_mirrored_through_all_direct_aliases() {
    let mut memory = IopMemory::new(OpenBusPolicy::Strict);
    memory.write_u32(0x001f_fffc, 0x1234_5678).unwrap();
    for address in [
        0x001f_fffc,
        0x003f_fffc,
        0x201f_fffc,
        0x801f_fffc,
        0xa01f_fffc,
    ] {
        assert_eq!(memory.read_u32(address).unwrap(), 0x1234_5678);
    }
    assert_eq!(memory.ram().len(), RAM_SIZE);
}

#[test]
fn scratchpad_and_device_windows_are_distinct() {
    let mut memory = IopMemory::new(OpenBusPolicy::Strict);
    memory.write_u16(SCRATCHPAD_START + 0x7fe, 0xabcd).unwrap();
    assert_eq!(memory.read_u16(0xbf80_07fe).unwrap(), 0xabcd);
    assert_eq!(
        IopMemory::classify(MMIO_START).unwrap(),
        MemoryRegion::Mmio {
            physical: MMIO_START
        }
    );
    assert_eq!(
        memory.read_u16(SPU2_MMIO_START),
        Err(MemoryError::Spu2 {
            address: SPU2_MMIO_START
        })
    );
    assert_eq!(
        memory.read_u32(HLE_ROM_START),
        Err(MemoryError::HleRom {
            address: HLE_ROM_START
        })
    );
}

#[test]
fn invalid_segments_boundaries_and_loads_are_diagnostic() {
    let mut memory = IopMemory::new(OpenBusPolicy::Strict);
    assert_eq!(
        memory.read_u8(0x4000_0000),
        Err(MemoryError::UnsupportedSegment {
            address: 0x4000_0000
        })
    );
    assert_eq!(
        memory.write_u32(0x007f_fffe, 1),
        Err(MemoryError::CrossesBoundary {
            address: 0x007f_fffe
        })
    );
    let before = memory.ram().to_vec();
    assert_eq!(
        memory.load_ram(0x001f_ffff, &[1, 2]),
        Err(MemoryError::InvalidRamRange {
            address: 0x001f_ffff,
            length: 2
        })
    );
    assert_eq!(memory.ram(), before);
}

#[test]
fn open_bus_policy_is_explicit() {
    let mut memory = IopMemory::new(OpenBusPolicy::Ones);
    assert_eq!(memory.read_u32(0x0100_0000).unwrap(), u32::MAX);
    memory.write_u32(0x0100_0000, 0).unwrap();
}

#[test]
fn loads_and_stores_share_one_ram() {
    let mut memory = IopMemory::new(OpenBusPolicy::Strict);
    memory.load_ram(0x100, &[1, 2, 3, 4]).unwrap();
    assert_eq!(memory.read_u32(0x8020_0100).unwrap(), 0x0403_0201);
    memory.write_u16(0x101, 0xbeef).unwrap();
    assert_eq!(memory.read_u32(0x100).unwrap(), 0x04be_ef01);
    memory.ram_mut()[0x103] = 9;
    assert_eq!(memory.read_u8(0x103).unwrap(), 9);
    assert_eq!(memory.read_u16(SCRATCHPAD_START + 0x100).unwrap(), 0);
    assert_eq!(IopMemory::translate(0xa000_0010), Ok(0x10));
}

#[test]
fn device_windows_and_holes_are_refused() {
    let mut memory = IopMemory::new(OpenBusPolicy::Strict);
    assert_eq!(
        memory.write_u32(MMIO_START, 1),
        Err(MemoryError::Mmio {
            address: MMIO_START
        })
    );
    assert_eq!(
        memory.read_u8(0x0100_0000),
        Err(MemoryError::Unmapped {
            address: 0x0100_0000
        })
    );
    assert_eq!(
        memory.write_u8(HLE_ROM_START, 1),
        Err(MemoryError::HleRom {
            address: HLE_ROM_START
        })
    );
}
