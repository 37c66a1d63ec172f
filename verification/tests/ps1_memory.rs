//! PS1 memory map.

use upse_hw::ps1::memory::{
    MemoryError, MemoryRegion, OpenBusPolicy, Ps1Memory, MEMORY_CONTROL_START,
};
use upse_hw::psx_exe::{ExecutableImage, RAM_SIZE};

#[test]
fn ram_is_mirrored_through_first_eight_megabytes_and_kseg_aliases() {
    let mut memory = Ps1Memory::new(OpenBusPolicy::Strict);
    memory.write_u32(0x0000_0120, 0x1234_5678).unwrap();
    assert_eq!(memory.read_u32(0x0020_0120).unwrap(), 0x1234_5678);
    assert_eq!(memory.read_u32(0x8040_0120).unwrap(), 0x1234_5678);
    assert_eq!(memory.read_u32(0xa060_0120).unwrap(), 0x1234_5678);
    assert_eq!(memory.ram().len(), RAM_SIZE);
}

#[test]
fn scratchpad_is_distinct_and_boundary_checked() {
    let mut memory = Ps1Memory::new(OpenBusPolicy::Strict);
    memory.write_u16(0x1f80_0002, 0xbeef).unwrap();
    assert_eq!(memory.read_u16(0x9f80_0002).unwrap(), 0xbeef);
    assert!(matches!(
        memory.read_u32(0x1f80_03fe),
        Err(MemoryError::CrossesBoundary { .. })
    ));
}

#[test]
fn memory_control_reset_values_and_readback_are_instance_owned() {
    let mut first = Ps1Memory::new(OpenBusPolicy::Strict);
    let second = Ps1Memory::new(OpenBusPolicy::Strict);
    assert_eq!(first.read_control(0x1f80_1014).unwrap(), 0x2009_31e1);
    first.write_control(0x1f80_1014, 0x2209_31e1).unwrap();
    assert_eq!(first.read_control(0x1f80_1014).unwrap(), 0x2209_31e1);
    assert_eq!(second.read_control(0x1f80_1014).unwrap(), 0x2009_31e1);
    assert!(matches!(
        first.read_control(MEMORY_CONTROL_START + 2),
        Err(MemoryError::Mmio { .. })
    ));
}

#[test]
fn mmio_and_hle_rom_are_explicit_and_no_bios_can_be_loaded() {
    assert!(matches!(
        Ps1Memory::classify(0x1f80_1c00).unwrap(),
        MemoryRegion::Mmio { .. }
    ));
    let mut memory = Ps1Memory::new(OpenBusPolicy::Strict);
    assert!(matches!(
        memory.read_u8(0xbfc0_0000),
        Err(MemoryError::HleRom { .. })
    ));
    assert!(matches!(
        memory.write_u8(0xbfc0_0000, 1),
        Err(MemoryError::HleRom { .. })
    ));
}

#[test]
fn strict_and_ones_open_bus_policies_differ_without_global_state() {
    let strict = Ps1Memory::new(OpenBusPolicy::Strict);
    let ones = Ps1Memory::new(OpenBusPolicy::Ones);
    assert!(matches!(
        strict.read_u8(0x1e00_0000),
        Err(MemoryError::Unmapped { .. })
    ));
    assert_eq!(ones.read_u32(0x1e00_0000).unwrap(), u32::MAX);
    assert!(matches!(
        strict.read_u8(0xc000_0000),
        Err(MemoryError::UnsupportedSegment { .. })
    ));
}

#[test]
fn words_and_halfwords_read_back_through_every_alias() {
    let mut memory = Ps1Memory::new(OpenBusPolicy::Strict);
    for address in [0x0000_0001, 0x8012_3457, 0xa01f_fffc, 0x1f80_03fc] {
        memory.write_u32(address, 0x8765_4321).unwrap();
        assert_eq!(memory.read_u32(address).unwrap(), 0x8765_4321);
        assert_eq!(memory.read_u8(address + 1).unwrap(), 0x43);
        memory.write_u16(address + 2, 0xbeef).unwrap();
        assert_eq!(memory.read_u32(address).unwrap(), 0xbeef_4321);
    }
    assert_eq!(memory.read_u8(0).unwrap(), 0);
}

#[test]
fn an_access_across_the_end_of_a_mirror_is_refused() {
    let mut memory = Ps1Memory::new(OpenBusPolicy::Strict);
    assert_eq!(
        memory.write_u32(0x007f_fffd, 1),
        Err(MemoryError::CrossesBoundary {
            address: 0x007f_fffd
        })
    );
    assert!(memory.ram().iter().all(|&byte| byte == 0));
}

#[test]
fn images_fill_main_ram_or_are_refused() {
    let mut bytes = vec![0_u8; RAM_SIZE];
    bytes[RAM_SIZE - 1] = 0x5a;
    let image = ExecutableImage::new(bytes);
    let memory = Ps1Memory::from_image(&image, OpenBusPolicy::Strict).unwrap();
    assert_eq!(memory.read_u8(0x801f_ffff).unwrap(), 0x5a);
    assert_eq!(image.ram().len(), RAM_SIZE);
    assert!(matches!(
        Ps1Memory::from_image(&ExecutableImage::new(vec![1, 2]), OpenBusPolicy::Strict),
        Err(MemoryError::InvalidImageSize { actual: 2 })
    ));
}

#[test]
fn decoded_accesses_follow_their_region() {
    let mut memory = Ps1Memory::new(OpenBusPolicy::Strict);
    let region = Ps1Memory::classify(0x8000_0200).unwrap();
    memory.write_decoded_u32(0x8000_0200, region, 0x0102_0304).unwrap();
    assert_eq!(memory.read_decoded_u32(0x8000_0200, region).unwrap(), 0x0102_0304);
    memory.write_decoded_u16(0x8000_0200, region, 0xffff).unwrap();
    assert_eq!(memory.read_decoded_u16(0x8000_0200, region).unwrap(), 0xffff);
    assert_eq!(memory.ram()[0x200..0x204], [0xff, 0xff, 0x02, 0x01]);
    memory.ram_mut()[0x200] = 0x11;
    assert_eq!(memory.read_u8(0x200).unwrap(), 0x11);
}
