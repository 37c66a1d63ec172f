//! What the memory map, the CD-ROM, picture and graphics registers of the PS1 do.

use vstd::prelude::*;

use crate::bits::lemma_bits;
use crate::ps1::cdrom::{CdRom, CdRomError};
use crate::ps1::gpu::Gpu;
use crate::ps1::mdec::{Mdec, MdecError};
use crate::ps1::memory::{
    classified, spanned, MemoryContents, MemoryError, MemoryRegion, OpenBusPolicy,
};

verus! {

/// The memory map. The three lower quarters of the address space show the same 512 MiB:
/// main RAM four times in the first 8 MiB, the scratchpad, the device registers and the ROM.
pub proof fn law_memory_map(address: u32, physical: u32)
    requires
        address >= 0xc000_0000 || physical == address as int % 0x2000_0000,
    ensures
        address >= 0xc000_0000 ==> classified(address) == Err::<MemoryRegion, MemoryError>(
            MemoryError::UnsupportedSegment { address },
        ),
        address < 0xc000_0000 ==> classified(address) == Ok::<MemoryRegion, MemoryError>(
            if physical < 0x80_0000 {
                MemoryRegion::Ram { offset: (physical as int % 0x20_0000) as usize }
            } else if 0x1f80_0000 <= physical <= 0x1f80_03ff {
                MemoryRegion::Scratchpad { offset: (physical - 0x1f80_0000) as usize }
            } else if 0x1f80_1000 <= physical <= 0x1f80_2fff {
                MemoryRegion::Mmio { physical }
            } else if 0x1fc0_0000 <= physical <= 0x1fc7_ffff {
                MemoryRegion::HleRom { physical }
            } else {
                MemoryRegion::Unmapped { physical }
            },
        ),
{
}

/// Reads of RAM and the scratchpad are little-endian. Nothing is read from device registers
/// and the ROM, and elsewhere all ones unless accesses there are errors.
pub proof fn law_memory_reads(contents: MemoryContents, address: u32, region: MemoryRegion)
    requires
        contents.ram.len() == 0x20_0000,
        contents.scratchpad.len() == 0x400,
        classified(address) == Ok::<MemoryRegion, MemoryError>(region),
    ensures
        region matches MemoryRegion::Ram { offset } ==> {
            &&& contents.read8(address) == Ok::<u8, MemoryError>(contents.ram[offset as int])
            &&& spanned(address, region, 2) is Ok ==> contents.read16(address, region) is Ok
                && contents.read16(address, region)->Ok_0 == contents.ram[offset as int] + 0x100
                * contents.ram[(offset + 1) % 0x20_0000]
            &&& spanned(address, region, 4) is Ok ==> contents.read32(address, region) is Ok
                && contents.read32(address, region)->Ok_0 == contents.ram[offset as int] + 0x100
                * contents.ram[(offset + 1) % 0x20_0000] + 0x1_0000 * contents.ram[(offset + 2)
                % 0x20_0000] + 0x100_0000 * contents.ram[(offset + 3) % 0x20_0000]
        },
        region matches MemoryRegion::Scratchpad { offset } ==> {
            &&& contents.read8(address) == Ok::<u8, MemoryError>(
                contents.scratchpad[offset as int],
            )
            &&& spanned(address, region, 2) is Ok ==> contents.read16(address, region) is Ok
                && contents.read16(address, region)->Ok_0 == contents.scratchpad[offset as int]
                + 0x100 * contents.scratchpad[offset + 1]
        },
        region matches MemoryRegion::Mmio { physical } ==> contents.read8(address) == Err::<
            u8,
            MemoryError,
        >(MemoryError::Mmio { address: physical }),
        region matches MemoryRegion::HleRom { physical } ==> contents.read8(address) == Err::<
            u8,
            MemoryError,
        >(MemoryError::HleRom { address: physical }),
        region matches MemoryRegion::Unmapped { physical } ==> contents.read8(address) == if
            contents.open_bus == OpenBusPolicy::Strict {
            Err::<u8, MemoryError>(MemoryError::Unmapped { address: physical })
        } else {
            Ok::<u8, MemoryError>(0xff)
        },
{
    if let MemoryRegion::Ram { offset } = region {
        assert((offset + 0) % 0x20_0000 == offset);
    }
}

/// An access of several bytes must end in the region that it starts in.
pub proof fn law_memory_spans(address: u32, region: MemoryRegion, count: int)
    requires
        1 <= count <= 4,
        classified(address) == Ok::<MemoryRegion, MemoryError>(region),
    ensures
        address + count > 0x1_0000_0000 ==> spanned(address, region, count) == Err::<
            (),
            MemoryError,
        >(MemoryError::CrossesBoundary { address }),
        ({
            let physical = address as int % 0x2000_0000;
            let last = physical + count - 1;
            &&& physical < 0x80_0000 <= last ==> spanned(address, region, count) is Err
            &&& physical < 0x1f80_0400 <= last ==> spanned(address, region, count) is Err
            &&& physical < 0x1f80_3000 <= last ==> spanned(address, region, count) is Err
            &&& physical < 0x1fc8_0000 <= last ==> spanned(address, region, count) is Err
            &&& last < 0x80_0000 ==> spanned(address, region, count) is Ok
            &&& 0x1f80_0000 <= physical && last < 0x1f80_0400 ==> spanned(
                address,
                region,
                count,
            ) is Ok
        }),
{
}

proof fn lemma_device_bits(status: u32, value: u32)
    by (bit_vector)
    ensures
        value >> 24u32 == value / 0x100_0000,
        value & 3 == value % 4,
        value & 7 == value % 8,
        value & 0x000f_ffff == value % 0x10_0000,
        value & 0x0007_ffff == value % 0x8_0000,
        value & 0x003f_ffff == value % 0x40_0000,
        ((status & !0x87ffu32) | (value & 0x07ff) | ((value & 0x0800) << 4u32)) % 0x800 == value
            % 0x800,
        ((status & !0x87ffu32) | (value & 0x07ff) | ((value & 0x0800) << 4u32)) / 0x8000 % 2
            == value / 0x800 % 2,
        ((status & !0x87ffu32) | (value & 0x07ff) | ((value & 0x0800) << 4u32)) / 0x800 % 0x10
            == status / 0x800 % 0x10,
        ((status & !0x87ffu32) | (value & 0x07ff) | ((value & 0x0800) << 4u32)) / 0x1_0000 == status
            / 0x1_0000,
        ((status & !0x1800u32) | ((value & 3) << 11u32)) / 0x800 % 4 == value % 4,
        ((status & !0x1800u32) | ((value & 3) << 11u32)) % 0x800 == status % 0x800,
        ((status & !0x1800u32) | ((value & 3) << 11u32)) / 0x2000 == status / 0x2000,
        (status | (0x400_0000u32 | 0x1000_0000u32)) % 0x400_0000 == status % 0x400_0000,
        (status | (0x400_0000u32 | 0x1000_0000u32)) / 0x400_0000 % 2 == 1,
        (status | (0x400_0000u32 | 0x1000_0000u32)) / 0x800_0000 % 2 == status / 0x800_0000 % 2,
        (status | (0x400_0000u32 | 0x1000_0000u32)) / 0x1000_0000 % 2 == 1,
        (status | (0x400_0000u32 | 0x1000_0000u32)) / 0x2000_0000 == status / 0x2000_0000,
        ((status | (0x400_0000u32 | 0x1000_0000u32)) & !0x800_0000u32) / 0x400_0000 % 8 == 5,
        ((status | (0x400_0000u32 | 0x1000_0000u32)) & !0x800_0000u32) % 0x400_0000 == status
            % 0x400_0000,
        ((status | (0x400_0000u32 | 0x1000_0000u32)) & !0x800_0000u32) / 0x2000_0000 == status
            / 0x2000_0000,
        (status | 0x100_0000u32) / 0x100_0000 % 2 == 1,
        (status | 0x100_0000u32) % 0x100_0000 == status % 0x100_0000,
        (status | 0x100_0000u32) / 0x200_0000 == status / 0x200_0000,
        ((status & !0x80_0000u32) | ((value & 1) << 23u32)) / 0x80_0000 % 2 == value % 2,
        ((status & !0x80_0000u32) | ((value & 1) << 23u32)) % 0x80_0000 == status % 0x80_0000,
        ((status & !0x80_0000u32) | ((value & 1) << 23u32)) / 0x100_0000 == status / 0x100_0000,
        ({
            let shown = (status & !0x007f_4000u32) | (((value >> 6u32) & 1) << 16u32) | ((value & 3)
                << 17u32) | (((value >> 2u32) & 0x0f) << 19u32) | (((value >> 7u32) & 1) << 14u32);
            let field = shown | 0x2000u32;
            &&& shown / 0x1_0000 % 2 == value / 0x40 % 2
            &&& shown / 0x2_0000 % 4 == value % 4
            &&& shown / 0x8_0000 % 16 == value / 4 % 16
            &&& shown / 0x4000 % 2 == value / 0x80 % 2
            &&& shown / 0x80_0000 == status / 0x80_0000
            &&& shown % 0x4000 == status % 0x4000
            &&& shown % 0x2000 == status % 0x2000
            &&& field / 0x1_0000 % 2 == value / 0x40 % 2
            &&& field / 0x2_0000 % 4 == value % 4
            &&& field / 0x8_0000 % 16 == value / 4 % 16
            &&& field / 0x4000 % 2 == value / 0x80 % 2
            &&& field / 0x80_0000 == status / 0x80_0000
            &&& field % 0x2000 == status % 0x2000
            &&& field / 0x2000 % 2 == 1
        }),
        ({
            let mode = ((status & !0x87ffu32) | (value & 0x07ff) | ((value & 0x0800) << 4u32)) | (
            0x400_0000u32 | 0x1000_0000u32);
            let mask = ((status & !0x1800u32) | ((value & 3) << 11u32)) | (0x400_0000u32
                | 0x1000_0000u32);
            let raised = (status | 0x100_0000u32) | (0x400_0000u32 | 0x1000_0000u32);
            &&& mode % 0x400_0000 % 0x800 == value % 0x800
            &&& mode % 0x400_0000 / 0x8000 % 2 == value / 0x800 % 2
            &&& mode / 0x400_0000 % 2 == 1 && mode / 0x1000_0000 % 2 == 1
            &&& mask % 0x400_0000 / 0x800 % 4 == value % 4
            &&& mask % 0x400_0000 % 0x800 == status % 0x800
            &&& mask / 0x400_0000 % 2 == 1 && mask / 0x1000_0000 % 2 == 1
            &&& raised % 0x400_0000 / 0x100_0000 % 2 == 1
            &&& raised / 0x400_0000 % 2 == 1 && raised / 0x1000_0000 % 2 == 1
        }),
        value & 0x20 == 0 <==> value / 0x20 % 2 == 0,
        value & 0x8000_0000 != 0 <==> value >= 0x8000_0000,
        value & 0x4000_0000 != 0 <==> value / 0x4000_0000 % 2 == 1,
        value & 0x2000_0000 != 0 <==> value / 0x2000_0000 % 2 == 1,
        0x8004_ffffu32 | 0x1000_0000u32 == 0x9004_ffffu32,
        value < 0x1_0000 ==> (0x8000_0000u32 | 0x2000_0000u32 | 0x4_0000u32 | value)
            == 0xa004_0000u32 + value,
        value < 0x1_0000 ==> ((0x8000_0000u32 | 0x2000_0000u32 | 0x4_0000u32 | value)
            | 0x1000_0000u32) == 0xb004_0000u32 + value,
        status | 0u32 == status,
{
}

/// Drawing commands by their upper byte: `0xe1` sets the drawing mode, `0xe2` to `0xe5` the
/// texture window, the drawing area and the offset, `0xe6` the mask setting, and `0x1f`
/// raises the interrupt. Each leaves the unit ready for the next.
pub proof fn law_drawing_commands(gpu: Gpu, value: u32)
    ensures
        ({
            let command = value / 0x100_0000;
            let after = gpu.commanded(value);
            let low = after.status % 0x400_0000;
            &&& (after.status / 0x400_0000) % 2 == 1
            &&& (after.status / 0x1000_0000) % 2 == 1
            &&& command == 0xe1 ==> low % 0x800 == value % 0x800 && (low / 0x8000) % 2 == (value
                / 0x800) % 2
            &&& command == 0xe6 ==> (low / 0x800) % 4 == value % 4 && low % 0x800 == gpu.status
                % 0x800
            &&& command == 0x1f ==> (low / 0x100_0000) % 2 == 1
            &&& command != 0xe1 && command != 0xe6 && command != 0x1f ==> low == gpu.status
                % 0x400_0000
            &&& after.texture_window == if command == 0xe2 {
                value % 0x10_0000
            } else {
                gpu.texture_window
            }
            &&& after.draw_area_top_left == if command == 0xe3 {
                value % 0x8_0000
            } else {
                gpu.draw_area_top_left
            }
            &&& after.draw_area_bottom_right == if command == 0xe4 {
                value % 0x8_0000
            } else {
                gpu.draw_area_bottom_right
            }
            &&& after.draw_offset == if command == 0xe5 {
                value % 0x40_0000
            } else {
                gpu.draw_offset
            }
            &&& after.read_latch == gpu.read_latch
        }),
{
    assert(value >> 24u32 == value / 0x100_0000) by {
        lemma_device_bits(0, value);
    }
    let command = value / 0x100_0000;
    let status = gpu.commanded(value).status;
    assert((status / 0x400_0000) % 2 == 1 && (status / 0x1000_0000) % 2 == 1) by {
        lemma_device_bits(gpu.drawn(value).status, value);
    }
    if command == 0xe1 {
        assert((status % 0x400_0000) % 0x800 == value % 0x800 && ((status % 0x400_0000) / 0x8000)
            % 2 == (value / 0x800) % 2) by {
            lemma_device_bits(gpu.status, value);
        }
    } else if command == 0xe6 {
        assert(((status % 0x400_0000) / 0x800) % 4 == value % 4 && (status % 0x400_0000) % 0x800
            == gpu.status % 0x800) by {
            lemma_device_bits(gpu.status, value);
        }
    } else if command == 0x1f {
        assert(((status % 0x400_0000) / 0x100_0000) % 2 == 1) by {
            lemma_device_bits(gpu.status, value);
        }
    } else {
        assert(status % 0x400_0000 == gpu.status % 0x400_0000) by {
            lemma_device_bits(gpu.status, value);
        }
    }
    assert(value & 0x000f_ffff == value % 0x10_0000 && value & 0x0007_ffff == value % 0x8_0000
        && value & 0x003f_ffff == value % 0x40_0000) by {
        lemma_device_bits(0, value);
    }
}

/// Control commands by their upper byte: 0 resets, 1 clears the queue, 3 turns the display
/// on or off, 8 sets the display mode, and 16 to 31 answer a query, of which 7 is the
/// version of the unit.
pub proof fn law_control_commands(gpu: Gpu, value: u32)
    ensures
        ({
            let command = value / 0x100_0000;
            let after = gpu.controlled(value);
            &&& command == 0 ==> after == Gpu::at_reset() && after.status == 0x1480_2000
                && after.read_latch == 0 && after.texture_window == 0 && after.draw_offset == 0
            &&& command == 1 ==> after.status / 0x400_0000 % 8 == 5 && after.status % 0x400_0000
                == gpu.status % 0x400_0000
            &&& command == 3 ==> after.status / 0x80_0000 % 2 == value % 2 && after.status
                % 0x80_0000 == gpu.status % 0x80_0000 && after.status / 0x100_0000 == gpu.status
                / 0x100_0000
            &&& command == 8 ==> {
                &&& after.status / 0x1_0000 % 2 == value / 0x40 % 2
                &&& after.status / 0x2_0000 % 4 == value % 4
                &&& after.status / 0x8_0000 % 16 == value / 4 % 16
                &&& after.status / 0x4000 % 2 == value / 0x80 % 2
                &&& after.status / 0x80_0000 == gpu.status / 0x80_0000
                &&& after.status % 0x2000 == gpu.status % 0x2000
                &&& value / 0x20 % 2 == 0 ==> after.status / 0x2000 % 2 == 1
                &&& value / 0x20 % 2 == 1 ==> after.status % 0x4000 == gpu.status % 0x4000
            }
            &&& 0x10 <= command <= 0x1f ==> after.status == gpu.status && after.read_latch == if
                value % 8 == 2 {
                gpu.texture_window
            } else if value % 8 == 3 {
                gpu.draw_area_top_left
            } else if value % 8 == 4 {
                gpu.draw_area_bottom_right
            } else if value % 8 == 5 {
                gpu.draw_offset
            } else if value % 8 == 7 {
                2
            } else {
                gpu.read_latch
            }
            &&& 5 <= command <= 7 || 9 <= command <= 15 || command >= 0x20 ==> after == gpu
        }),
{
    assert(value >> 24u32 == value / 0x100_0000 && value & 7 == value % 8) by {
        lemma_device_bits(0, value);
    }
    let command = value / 0x100_0000;
    let status = gpu.controlled(value).status;
    if command == 1 {
        assert(status / 0x400_0000 % 8 == 5 && status % 0x400_0000 == gpu.status % 0x400_0000) by {
            lemma_device_bits(gpu.status, value);
        }
    } else if command == 3 {
        assert(status / 0x80_0000 % 2 == value % 2 && status % 0x80_0000 == gpu.status % 0x80_0000
            && status / 0x100_0000 == gpu.status / 0x100_0000) by {
            lemma_device_bits(gpu.status, value);
        }
    } else if command == 8 {
        lemma_display(gpu, value);
    }
}

proof fn lemma_display(gpu: Gpu, value: u32)
    ensures
        ({
            let status = crate::ps1::gpu::displayed(gpu.status, value);
            &&& status / 0x1_0000 % 2 == value / 0x40 % 2
            &&& status / 0x2_0000 % 4 == value % 4
            &&& status / 0x8_0000 % 16 == value / 4 % 16
            &&& status / 0x4000 % 2 == value / 0x80 % 2
            &&& status / 0x80_0000 == gpu.status / 0x80_0000
            &&& status % 0x2000 == gpu.status % 0x2000
            &&& value / 0x20 % 2 == 0 ==> status / 0x2000 % 2 == 1
            &&& value / 0x20 % 2 == 1 ==> status % 0x4000 == gpu.status % 0x4000
        }),
{
    lemma_device_bits(gpu.status, value);
}

/// The picture unit's status: bit 31 is always set, bit 29 while parameters are awaited,
/// bit 28 while input is enabled, and the lower half counts the parameters that are still
/// awaited, less one.
pub proof fn law_picture_status(mdec: Mdec)
    ensures
        mdec.parameter_words_remaining == 0 && !mdec.dma_in_enabled ==> mdec.status_value()
            == 0x8004_ffff,
        mdec.parameter_words_remaining == 0 && mdec.dma_in_enabled ==> mdec.status_value()
            == 0x9004_ffff,
        mdec.parameter_words_remaining > 0 && !mdec.dma_in_enabled ==> mdec.status_value()
            == 0xa004_0000 + (mdec.parameter_words_remaining - 1),
        mdec.parameter_words_remaining > 0 && mdec.dma_in_enabled ==> mdec.status_value()
            == 0xb004_0000 + (mdec.parameter_words_remaining - 1),
{
    if mdec.parameter_words_remaining > 0 {
        lemma_device_bits(
            0x8000_0000u32 | 0x2000_0000u32 | 0x4_0000u32 | (mdec.parameter_words_remaining
                - 1) as u32,
            (mdec.parameter_words_remaining - 1) as u32,
        );
    }
    lemma_device_bits(0x8004_ffff, 0);
}

/// A control write enables input by bit 30 and output by bit 29, and bit 31 drops a command.
/// Commands 2 and 3 load tables: 16 or 32 words of quantization, by bit 0, and 32 of scale.
/// Decoding is not available.
pub proof fn law_picture_commands(mdec: Mdec, value: u32)
    ensures
        mdec.controlled(value) == (Mdec {
            dma_in_enabled: (value / 0x4000_0000) % 2 == 1,
            dma_out_enabled: (value / 0x2000_0000) % 2 == 1,
            parameter_words_remaining: if value >= 0x8000_0000 {
                0
            } else {
                mdec.parameter_words_remaining
            },
        }),
        mdec.parameter_words_remaining > 0 ==> mdec.data_outcome(value) is Ok && mdec.fed(value)
            == (Mdec {
            parameter_words_remaining: (mdec.parameter_words_remaining - 1) as u16,
            ..mdec
        }),
        mdec.parameter_words_remaining == 0 ==> {
            &&& value / 0x2000_0000 == 1 ==> mdec.data_outcome(value) == Err::<(), MdecError>(
                MdecError::MacroblockDecodeUnavailable { command: value },
            )
            &&& value / 0x2000_0000 == 2 ==> mdec.data_outcome(value) is Ok && mdec.fed(
                value,
            ).parameter_words_remaining == if value % 2 == 1 {
                32int
            } else {
                16
            }
            &&& value / 0x2000_0000 == 3 ==> mdec.data_outcome(value) is Ok && mdec.fed(
                value,
            ).parameter_words_remaining == 32
            &&& value / 0x2000_0000 == 0 || value / 0x2000_0000 > 3 ==> mdec.data_outcome(value)
                == Err::<(), MdecError>(MdecError::UnsupportedCommand { command: value })
        },
{
    lemma_device_bits(0, value);
}

/// The drive's registers are four bytes from `0x1f80_1800` on. The first one selects a bank
/// and shows it with the state of the queues: bit 3 no parameter, bit 4 room for one, bit 5
/// a response.
pub proof fn law_drive_status(drive: CdRom, value: u8)
    requires
        drive.wf(),
    ensures
        drive.written(0x1f80_1800, value) == (CdRom { index: value % 4, ..drive }),
        drive.value_at(0x1f80_1800) is Ok,
        ({
            let status = drive.value_at(0x1f80_1800)->Ok_0;
            &&& status % 4 == drive.index
            &&& (status / 4) % 2 == 0
            &&& (status / 8) % 2 == 1 <==> drive.parameter_count == 0
            &&& (status / 16) % 2 == 1 <==> drive.parameter_count < 16
            &&& (status / 32) % 2 == 1 <==> drive.response_count > 0
            &&& status < 64
        }),
        drive.value_at(0x1f80_1802) == Ok::<u8, CdRomError>(0),
        forall|address: u32|
            address < 0x1f80_1800 || address > 0x1f80_1803 ==> #[trigger] drive.value_at(address)
                == Err::<u8, CdRomError>(CdRomError::InvalidRegister { address }),
{
}

/// The volumes of the drive: the third bank holds left to left and left to right at the
/// third and fourth register, the fourth bank right to right and right to left at the
/// second and third. Bit 5 of the last register applies them there. In the second bank bit
/// 6 of the last register empties the parameters.
pub proof fn law_drive_volumes(drive: CdRom, value: u8)
    requires
        drive.wf(),
    ensures
        drive.index == 2 ==> drive.written(0x1f80_1802, value).audio_volume@
            == drive.audio_volume@.update(0, value),
        drive.index == 2 ==> drive.written(0x1f80_1803, value).audio_volume@
            == drive.audio_volume@.update(1, value),
        drive.index == 3 ==> drive.written(0x1f80_1801, value).audio_volume@
            == drive.audio_volume@.update(2, value),
        drive.index == 3 ==> drive.written(0x1f80_1802, value).audio_volume@
            == drive.audio_volume@.update(3, value),
        drive.index == 0 ==> drive.written(0x1f80_1803, value) == (CdRom {
            request: value,
            ..drive
        }),
        drive.index == 1 ==> drive.written(0x1f80_1802, value) == (CdRom {
            interrupt_enable: value & 0x1f,
            ..drive
        }),
        drive.index == 1 || drive.index == 2 ==> drive.written(0x1f80_1801, value) == drive,
        drive.index == 1 ==> drive.written(0x1f80_1803, value) == (CdRom {
            interrupt_flags: drive.interrupt_flags & !(value & 0x1f),
            parameter_count: if (value / 0x40) % 2 == 1 {
                0
            } else {
                drive.parameter_count
            },
            ..drive
        }),
        drive.index == 3 ==> drive.written(0x1f80_1803, value) == (CdRom {
            applied_audio_volume: if (value / 0x20) % 2 == 1 {
                drive.audio_volume
            } else {
                drive.applied_audio_volume
            },
            ..drive
        }),
{
    vstd::arithmetic::power2::lemma2_to64();
    lemma_bits(value as u32, 0, 6, 6);
    lemma_bits(value as u32, 0, 5, 5);
    if drive.index == 2 {
        assert(drive.written(0x1f80_1802, value).audio_volume@ =~= drive.audio_volume@.update(
            0,
            value,
        ));
        assert(drive.written(0x1f80_1803, value).audio_volume@ =~= drive.audio_volume@.update(
            1,
            value,
        ));
    } else if drive.index == 3 {
        assert(drive.written(0x1f80_1801, value).audio_volume@ =~= drive.audio_volume@.update(
            2,
            value,
        ));
        assert(drive.written(0x1f80_1802, value).audio_volume@ =~= drive.audio_volume@.update(
            3,
            value,
        ));
    }
}

} // verus!
