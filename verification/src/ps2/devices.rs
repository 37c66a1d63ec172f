//! What the memory map and the bus controller of the IOP do.

use vstd::prelude::*;

use crate::ps2::memory::{
    classified, spanned, MemoryContents, MemoryError, MemoryRegion, OpenBusPolicy,
};
use crate::ps2::ssbus::{law_registers_are_distinct, SsbusController, SsbusError};

verus! {

/// The memory map. The first gigabyte and the third show the same 512 MiB: main RAM four
/// times in the first 8 MiB, the scratchpad, the device registers, the sound registers and
/// the ROM.
pub proof fn law_memory_map(address: u32, physical: u32)
    requires
        physical == address as int % 0x2000_0000,
    ensures
        0x4000_0000 <= address < 0x8000_0000 || address >= 0xc000_0000 ==> classified(address)
            == Err::<MemoryRegion, MemoryError>(MemoryError::UnsupportedSegment { address }),
        address < 0x4000_0000 || 0x8000_0000 <= address < 0xc000_0000 ==> classified(address)
            == Ok::<MemoryRegion, MemoryError>(
            if physical < 0x80_0000 {
                MemoryRegion::Ram { offset: (physical as int % 0x20_0000) as usize }
            } else if 0x1f80_0000 <= physical <= 0x1f80_07ff {
                MemoryRegion::Scratchpad { offset: (physical - 0x1f80_0000) as usize }
            } else if 0x1f80_1000 <= physical <= 0x1f80_ffff {
                MemoryRegion::Mmio { physical }
            } else if 0x1f90_0000 <= physical <= 0x1f90_07ff {
                MemoryRegion::Spu2 { physical }
            } else if 0x1fc0_0000 <= physical <= 0x1fc7_ffff {
                MemoryRegion::HleRom { physical }
            } else {
                MemoryRegion::Unmapped { physical }
            },
        ),
{
}

/// Reads and writes of RAM are little-endian, and a write changes the bytes that it is for
/// alone.
pub proof fn law_ram_accesses(
    contents: MemoryContents,
    address: u32,
    offset: usize,
    value: u32,
    each: int,
)
    requires
        contents.wf(),
        classified(address) == Ok::<MemoryRegion, MemoryError>(MemoryRegion::Ram { offset }),
        offset + 3 < 0x20_0000,
        address as int % 0x2000_0000 + 3 < 0x80_0000,
        0 <= each < 0x20_0000,
    ensures
        contents.read8(address) == Ok::<u8, MemoryError>(contents.ram[offset as int]),
        contents.read16(address) is Ok,
        contents.read16(address)->Ok_0 == contents.ram[offset as int] + 0x100
            * contents.ram[offset + 1],
        contents.read32(address) is Ok,
        contents.read32(address)->Ok_0 == contents.ram[offset as int] + 0x100
            * contents.ram[offset + 1] + 0x1_0000 * contents.ram[offset + 2] + 0x100_0000
            * contents.ram[offset + 3],
        contents.written32(address, value).ram.len() == contents.ram.len(),
        contents.written32(address, value).ram[each] == if each == offset {
            value as int % 0x100
        } else if each == offset + 1 {
            (value as int / 0x100) % 0x100
        } else if each == offset + 2 {
            (value as int / 0x1_0000) % 0x100
        } else if each == offset + 3 {
            value as int / 0x100_0000
        } else {
            contents.ram[each] as int
        },
        contents.written32(address, value).scratchpad == contents.scratchpad,
{
    lemma_ram_span(address, offset, 1);
    lemma_ram_span(address, offset, 2);
    lemma_ram_span(address, offset, 4);
}

proof fn lemma_ram_span(address: u32, offset: usize, count: int)
    requires
        classified(address) == Ok::<MemoryRegion, MemoryError>(MemoryRegion::Ram { offset }),
        offset + 3 < 0x20_0000,
        address as int % 0x2000_0000 + 3 < 0x80_0000,
        1 <= count <= 4,
    ensures
        spanned(address, count) == Ok::<MemoryRegion, MemoryError>(MemoryRegion::Ram { offset }),
{
    let physical = address as int % 0x2000_0000;
    let last = (address + count - 1) as u32;
    assert(last as int % 0x2000_0000 == physical + count - 1);
    assert((physical + count - 1) % 0x20_0000 == offset + count - 1);
}

/// Nothing is read from device and sound registers and the ROM, and elsewhere all ones
/// unless accesses there are errors.
pub proof fn law_other_reads(contents: MemoryContents, address: u32, region: MemoryRegion)
    requires
        contents.wf(),
        classified(address) == Ok::<MemoryRegion, MemoryError>(region),
    ensures
        region matches MemoryRegion::Scratchpad { offset } ==> contents.read8(address) == Ok::<
            u8,
            MemoryError,
        >(contents.scratchpad[offset as int]),
        region matches MemoryRegion::Mmio { physical } ==> contents.read8(address) == Err::<
            u8,
            MemoryError,
        >(MemoryError::Mmio { address: physical }),
        region matches MemoryRegion::Spu2 { physical } ==> contents.read8(address) == Err::<
            u8,
            MemoryError,
        >(MemoryError::Spu2 { address: physical }),
        region matches MemoryRegion::HleRom { physical } ==> contents.read8(address) == Err::<
            u8,
            MemoryError,
        >(MemoryError::HleRom { address: physical }),
        region matches MemoryRegion::Unmapped { physical } ==> contents.read8(address) == if
            contents.open_bus == OpenBusPolicy::Strict {
            Err::<u8, MemoryError>(MemoryError::Unmapped { address: physical })
        } else {
            Ok::<u8, MemoryError>(0xff)
        },
{
}

/// The bus controller holds a base for seven devices, a delay for ten and one delay in
/// common, at these addresses.
pub proof fn law_bus_registers(controller: SsbusController)
    ensures
        controller.value_at(0x1f80_1000) == Ok::<u32, SsbusError>(controller.bases@[0]),
        controller.value_at(0x1f80_1400) == Ok::<u32, SsbusError>(controller.bases@[1]),
        controller.value_at(0x1f80_1404) == Ok::<u32, SsbusError>(controller.bases@[4]),
        controller.value_at(0x1f80_1408) == Ok::<u32, SsbusError>(controller.bases@[5]),
        controller.value_at(0x1f80_1004) == Ok::<u32, SsbusError>(controller.bases@[8]),
        controller.value_at(0x1f80_140c) == Ok::<u32, SsbusError>(controller.bases@[9]),
        controller.value_at(0x1f80_1410) == Ok::<u32, SsbusError>(controller.bases@[11]),
        controller.value_at(0x1f80_1008) == Ok::<u32, SsbusError>(controller.delays@[0]),
        controller.value_at(0x1f80_100c) == Ok::<u32, SsbusError>(controller.delays@[1]),
        controller.value_at(0x1f80_1010) == Ok::<u32, SsbusError>(controller.delays@[2]),
        controller.value_at(0x1f80_1014) == Ok::<u32, SsbusError>(controller.delays@[4]),
        controller.value_at(0x1f80_1018) == Ok::<u32, SsbusError>(controller.delays@[5]),
        controller.value_at(0x1f80_101c) == Ok::<u32, SsbusError>(controller.delays@[8]),
        controller.value_at(0x1f80_1414) == Ok::<u32, SsbusError>(controller.delays@[9]),
        controller.value_at(0x1f80_1418) == Ok::<u32, SsbusError>(controller.delays@[10]),
        controller.value_at(0x1f80_141c) == Ok::<u32, SsbusError>(controller.delays@[11]),
        controller.value_at(0x1f80_1420) == Ok::<u32, SsbusError>(controller.delays@[12]),
        controller.value_at(0x1f80_1020) == Ok::<u32, SsbusError>(controller.common_delay),
{
    law_registers_are_distinct(0, 0, 0x1f80_1000);
    law_registers_are_distinct(1, 1, 0x1f80_1400);
    law_registers_are_distinct(4, 4, 0x1f80_1404);
    law_registers_are_distinct(5, 5, 0x1f80_1408);
    law_registers_are_distinct(8, 8, 0x1f80_1004);
    law_registers_are_distinct(9, 9, 0x1f80_140c);
    law_registers_are_distinct(11, 11, 0x1f80_1410);
    lemma_delay(0, 0x1f80_1008);
    lemma_delay(1, 0x1f80_100c);
    lemma_delay(2, 0x1f80_1010);
    lemma_delay(4, 0x1f80_1014);
    lemma_delay(5, 0x1f80_1018);
    lemma_delay(8, 0x1f80_101c);
    lemma_delay(9, 0x1f80_1414);
    lemma_delay(10, 0x1f80_1418);
    lemma_delay(11, 0x1f80_141c);
    lemma_delay(12, 0x1f80_1420);
}

proof fn lemma_delay(device: int, address: u32)
    requires
        crate::ps2::ssbus::is_delay(device, address),
    ensures
        crate::ps2::ssbus::has_delay(address),
        crate::ps2::ssbus::delay_device(address) == device,
        !crate::ps2::ssbus::has_base(address),
        address != 0x1f80_1020,
{
    law_registers_are_distinct(device, device, address);
    if crate::ps2::ssbus::has_base(address) {
        law_registers_are_distinct(crate::ps2::ssbus::base_device(address), device, address);
    }
}

} // verus!
