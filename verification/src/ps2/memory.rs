//! PS2 IOP RAM and address decoding with no firmware-image input path.

use vstd::prelude::*;

use crate::bytes::{
    half_at, law_half_round_trip, law_word_round_trip, read_half, read_word, with_bytes, with_half,
    with_word, word_at, write_bytes, write_half, write_word, zeroed,
};

verus! {

/// Installed IOP main RAM size.
pub const RAM_SIZE: usize = 0x20_0000;

/// End of the address range in which main RAM is mirrored.
pub const RAM_MIRROR_END: u32 = 0x80_0000;

/// First physical scratchpad byte.
pub const SCRATCHPAD_START: u32 = 0x1f80_0000;

/// Size of the two IOP scratchpad/cache banks exposed before MMIO.
pub const SCRATCHPAD_SIZE: usize = 0x800;

/// First physical IOP hardware register.
pub const MMIO_START: u32 = 0x1f80_1000;

/// Last physical register in the main IOP hardware window.
pub const MMIO_END: u32 = 0x1f80_ffff;

/// First SPU2 register byte.
pub const SPU2_MMIO_START: u32 = 0x1f90_0000;

/// Last SPU2 register byte.
pub const SPU2_MMIO_END: u32 = 0x1f90_07ff;

/// First byte of the firmware range reserved for BIOS HLE.
pub const HLE_ROM_START: u32 = 0x1fc0_0000;

/// Last byte of the firmware range reserved for BIOS HLE.
pub const HLE_ROM_END: u32 = 0x1fc7_ffff;

/// Handling for addresses outside modeled IOP regions.
#[derive(Clone, Copy, Debug, Default, PartialEq, Eq, Structural)]
pub enum OpenBusPolicy {
    /// Return an explicit diagnostic.
    #[default]
    Strict,
    /// Return all-one values and discard writes.
    Ones,
}

/// Decoded IOP address region.
#[derive(Clone, Copy, Debug, PartialEq, Eq, Structural)]
pub enum MemoryRegion {
    /// Main RAM, including its low eight-megabyte mirrors.
    Ram {
        /// Offset into the two-megabyte allocation.
        offset: usize,
    },
    /// IOP scratchpad/cache storage.
    Scratchpad {
        /// Offset into scratchpad storage.
        offset: usize,
    },
    /// Machine-routed IOP register.
    Mmio {
        /// Physical register address.
        physical: u32,
    },
    /// Machine-routed SPU2 register.
    Spu2 {
        /// Physical register address.
        physical: u32,
    },
    /// Firmware range intentionally owned by BIOS HLE.
    HleRom {
        /// Physical firmware address.
        physical: u32,
    },
    /// Address has no modeled region.
    Unmapped {
        /// Translated physical address.
        physical: u32,
    },
}

/// IOP memory access failure.
#[derive(Clone, Copy, Debug, PartialEq, Eq, Structural)]
pub enum MemoryError {
    /// An address requires an IOP TLB mapping or lies in KSEG2/3.
    UnsupportedSegment {
        /// Guest virtual address.
        address: u32,
    },
    /// Host pointer width cannot represent a decoded physical offset.
    UnsupportedAddressWidth {
        /// Guest virtual address.
        address: u32,
    },
    /// Access belongs to the machine-level IOP register router.
    Mmio {
        /// Physical register address.
        address: u32,
    },
    /// Access belongs to the machine-level SPU2 router.
    Spu2 {
        /// Physical register address.
        address: u32,
    },
    /// Guest attempted to fetch or read an absent Sony firmware image.
    HleRom {
        /// Physical firmware address.
        address: u32,
    },
    /// Strict mode rejected an unmapped address.
    Unmapped {
        /// Physical address.
        address: u32,
    },
    /// Multi-byte access crossed a region boundary.
    CrossesBoundary {
        /// First guest virtual address.
        address: u32,
    },
    /// A host load request leaves physical main RAM.
    InvalidRamRange {
        /// Physical base address.
        address: u32,
        /// Requested byte count.
        length: usize,
    },
}

/// The physical address behind a direct-mapped address: the low cached and uncached
/// aliases, KSEG0, and KSEG1 are direct-mapped.
pub open spec fn translated(address: u32) -> Result<u32, MemoryError> {
    if address < 0x4000_0000 || 0x8000_0000 <= address < 0xc000_0000 {
        Ok((address % 0x2000_0000) as u32)
    } else {
        Err(MemoryError::UnsupportedSegment { address })
    }
}

/// The region of a physical address.
pub open spec fn region_of(physical: u32) -> MemoryRegion {
    if physical < RAM_MIRROR_END {
        MemoryRegion::Ram { offset: (physical as int % RAM_SIZE as int) as usize }
    } else if SCRATCHPAD_START <= physical < SCRATCHPAD_START + SCRATCHPAD_SIZE {
        MemoryRegion::Scratchpad { offset: (physical - SCRATCHPAD_START) as usize }
    } else if MMIO_START <= physical <= MMIO_END {
        MemoryRegion::Mmio { physical }
    } else if SPU2_MMIO_START <= physical <= SPU2_MMIO_END {
        MemoryRegion::Spu2 { physical }
    } else if HLE_ROM_START <= physical <= HLE_ROM_END {
        MemoryRegion::HleRom { physical }
    } else {
        MemoryRegion::Unmapped { physical }
    }
}

/// The region of a guest address.
pub open spec fn classified(address: u32) -> Result<MemoryRegion, MemoryError> {
    match translated(address) {
        Ok(physical) => Ok(region_of(physical)),
        Err(error) => Err(error),
    }
}

/// Whether an access that starts in `first` can end in `last`: the regions are of one
/// kind, and RAM does not wrap to its start in between.
pub open spec fn continues(first: MemoryRegion, last: MemoryRegion) -> bool {
    match first {
        MemoryRegion::Ram { offset } => last matches MemoryRegion::Ram { offset: end } && offset
            <= end,
        MemoryRegion::Scratchpad { offset } => last matches MemoryRegion::Scratchpad { offset: end }
            && offset <= end,
        MemoryRegion::Mmio { .. } => last is Mmio,
        MemoryRegion::Spu2 { .. } => last is Spu2,
        MemoryRegion::HleRom { .. } => last is HleRom,
        MemoryRegion::Unmapped { .. } => last is Unmapped,
    }
}

/// The region of an access of `count` bytes, or why there is none.
pub open spec fn spanned(address: u32, count: int) -> Result<MemoryRegion, MemoryError> {
    match classified(address) {
        Err(error) => Err(error),
        Ok(region) => if address + count - 1 > u32::MAX {
            Err(MemoryError::CrossesBoundary { address })
        } else {
            match classified((address + count - 1) as u32) {
                Err(error) => Err(error),
                Ok(last) => if continues(region, last) {
                    Ok(region)
                } else {
                    Err(MemoryError::CrossesBoundary { address })
                },
            }
        },
    }
}

/// Instance-owned PS2 IOP memory.
#[derive(Clone, Debug, PartialEq, Eq)]
pub struct IopMemory {
    pub ram: Vec<u8>,
    pub scratchpad: Vec<u8>,
    pub open_bus: OpenBusPolicy,
}

/// The contents of an IOP memory.
#[verifier::ext_equal]
pub ghost struct MemoryContents {
    pub ram: Seq<u8>,
    pub scratchpad: Seq<u8>,
    pub open_bus: OpenBusPolicy,
}

impl View for IopMemory {
    type V = MemoryContents;

    open spec fn view(&self) -> MemoryContents {
        MemoryContents {
            ram: self.ram@,
            scratchpad: self.scratchpad@,
            open_bus: self.open_bus,
        }
    }
}

impl MemoryContents {
    /// Both memories have their full size.
    pub open spec fn wf(self) -> bool {
        self.ram.len() == RAM_SIZE && self.scratchpad.len() == SCRATCHPAD_SIZE
    }

    /// Whether a region can be read and written here, or why not.
    pub open spec fn backed(self, region: MemoryRegion) -> Result<(), MemoryError> {
        match region {
            MemoryRegion::Mmio { physical } => Err(MemoryError::Mmio { address: physical }),
            MemoryRegion::Spu2 { physical } => Err(MemoryError::Spu2 { address: physical }),
            MemoryRegion::HleRom { physical } => Err(MemoryError::HleRom { address: physical }),
            MemoryRegion::Unmapped { physical } => if self.open_bus == OpenBusPolicy::Strict {
                Err(MemoryError::Unmapped { address: physical })
            } else {
                Ok(())
            },
            _ => Ok(()),
        }
    }

    /// The region of an access of `count` bytes that succeeds, or why it fails.
    pub open spec fn accessible(self, address: u32, count: int) -> Result<
        MemoryRegion,
        MemoryError,
    > {
        match spanned(address, count) {
            Err(error) => Err(error),
            Ok(region) => match self.backed(region) {
                Err(error) => Err(error),
                Ok(_) => Ok(region),
            },
        }
    }

    /// A byte read.
    pub open spec fn read8(self, address: u32) -> Result<u8, MemoryError> {
        match self.accessible(address, 1) {
            Err(error) => Err(error),
            Ok(MemoryRegion::Ram { offset }) => Ok(self.ram[offset as int]),
            Ok(MemoryRegion::Scratchpad { offset }) => Ok(self.scratchpad[offset as int]),
            Ok(_) => Ok(0xff),
        }
    }

    /// A halfword read.
    pub open spec fn read16(self, address: u32) -> Result<u16, MemoryError> {
        match self.accessible(address, 2) {
            Err(error) => Err(error),
            Ok(MemoryRegion::Ram { offset }) => Ok(half_at(self.ram, offset as int)),
            Ok(MemoryRegion::Scratchpad { offset }) => Ok(half_at(self.scratchpad, offset as int)),
            Ok(_) => Ok(0xffff),
        }
    }

    /// A word read.
    pub open spec fn read32(self, address: u32) -> Result<u32, MemoryError> {
        match self.accessible(address, 4) {
            Err(error) => Err(error),
            Ok(MemoryRegion::Ram { offset }) => Ok(word_at(self.ram, offset as int)),
            Ok(MemoryRegion::Scratchpad { offset }) => Ok(word_at(self.scratchpad, offset as int)),
            Ok(_) => Ok(0xffff_ffff),
        }
    }

    /// The contents after a byte write; one that fails changes nothing.
    pub open spec fn written8(self, address: u32, value: u8) -> MemoryContents {
        match self.accessible(address, 1) {
            Ok(MemoryRegion::Ram { offset }) => MemoryContents {
                ram: self.ram.update(offset as int, value),
                ..self
            },
            Ok(MemoryRegion::Scratchpad { offset }) => MemoryContents {
                scratchpad: self.scratchpad.update(offset as int, value),
                ..self
            },
            _ => self,
        }
    }

    /// The contents after a halfword write; one that fails changes nothing.
    pub open spec fn written16(self, address: u32, value: u16) -> MemoryContents {
        match self.accessible(address, 2) {
            Ok(MemoryRegion::Ram { offset }) => MemoryContents {
                ram: with_half(self.ram, offset as int, value),
                ..self
            },
            Ok(MemoryRegion::Scratchpad { offset }) => MemoryContents {
                scratchpad: with_half(self.scratchpad, offset as int, value),
                ..self
            },
            _ => self,
        }
    }

    /// The contents after a word write; one that fails changes nothing.
    pub open spec fn written32(self, address: u32, value: u32) -> MemoryContents {
        match self.accessible(address, 4) {
            Ok(MemoryRegion::Ram { offset }) => MemoryContents {
                ram: with_word(self.ram, offset as int, value),
                ..self
            },
            Ok(MemoryRegion::Scratchpad { offset }) => MemoryContents {
                scratchpad: with_word(self.scratchpad, offset as int, value),
                ..self
            },
            _ => self,
        }
    }
}

/// What a write of `count` bytes returns.
pub open spec fn write_outcome(contents: MemoryContents, address: u32, count: int) -> Result<
    (),
    MemoryError,
> {
    match contents.accessible(address, count) {
        Ok(_) => Ok(()),
        Err(error) => Err(error),
    }
}

impl IopMemory {
    /// Both memories have their full size.
    pub open spec fn wf(self) -> bool {
        self@.wf()
    }

    /// Constructs reset memory.
    pub fn new(open_bus: OpenBusPolicy) -> (result: Self)
        ensures
            result.wf(),
            result@ == (MemoryContents {
                ram: Seq::new(RAM_SIZE as nat, |i: int| 0u8),
                scratchpad: Seq::new(SCRATCHPAD_SIZE as nat, |i: int| 0u8),
                open_bus,
            }),
    {
        Self { ram: zeroed(RAM_SIZE), scratchpad: zeroed(SCRATCHPAD_SIZE), open_bus }
    }

    /// Returns immutable physical main RAM.
    pub fn ram(&self) -> (result: &[u8])
        ensures
            result@ == self@.ram,
    {
        self.ram.as_slice()
    }

    /// Returns mutable physical main RAM.
    pub fn ram_mut(&mut self) -> (result: &mut [u8])
        ensures
            result@ == old(self)@.ram,
            final(self)@ == (MemoryContents { ram: final(result)@, ..old(self)@ }),
    {
        self.ram.as_mut_slice()
    }

    /// Copies a validated byte image into physical main RAM.
    ///
    /// RAM is unchanged when the complete range does not fit.
    pub fn load_ram(&mut self, address: u32, bytes: &[u8]) -> (result: Result<(), MemoryError>)
        requires
            old(self).wf(),
        ensures
            final(self).wf(),
            result == if address + bytes@.len() <= RAM_SIZE {
                Ok(())
            } else {
                Err(MemoryError::InvalidRamRange { address, length: bytes@.len() as usize })
            },
            final(self)@ == if address + bytes@.len() <= RAM_SIZE {
                MemoryContents {
                    ram: with_bytes(old(self)@.ram, address as int, bytes@),
                    ..old(self)@
                }
            } else {
                old(self)@
            },
    {
        let start: usize = address as usize;
        assert(bytes.len() == bytes@.len());
        if start > RAM_SIZE || bytes.len() > RAM_SIZE - start {
            return Err(MemoryError::InvalidRamRange { address, length: bytes.len() });
        }
        write_bytes(&mut self.ram, start, bytes);
        Ok(())
    }

    /// Translates a direct-mapped IOP address to its physical bus address.
    ///
    /// The IOP accepts the low cached and uncached aliases beginning at zero,
    /// as well as KSEG0 and KSEG1. TLB-backed KUSEG ranges and KSEG2/3 are not
    /// available in the PSF2 machine profile.
    pub fn translate(address: u32) -> (result: Result<u32, MemoryError>)
        ensures
            result == translated(address),
    {
        if address < 0x4000_0000 || (0x8000_0000 <= address && address < 0xc000_0000) {
            Ok(address % 0x2000_0000)
        } else {
            Err(MemoryError::UnsupportedSegment { address })
        }
    }

    /// Classifies a guest address without performing an access.
    pub fn classify(address: u32) -> (result: Result<MemoryRegion, MemoryError>)
        ensures
            result == classified(address),
    {
        let physical: u32 = match Self::translate(address) {
            Ok(physical) => physical,
            Err(error) => {
                return Err(error);
            },
        };
        Ok(
            if physical < RAM_MIRROR_END {
                MemoryRegion::Ram { offset: physical as usize % RAM_SIZE }
            } else if SCRATCHPAD_START <= physical && physical < SCRATCHPAD_START
                + SCRATCHPAD_SIZE as u32 {
                MemoryRegion::Scratchpad { offset: (physical - SCRATCHPAD_START) as usize }
            } else if MMIO_START <= physical && physical <= MMIO_END {
                MemoryRegion::Mmio { physical }
            } else if SPU2_MMIO_START <= physical && physical <= SPU2_MMIO_END {
                MemoryRegion::Spu2 { physical }
            } else if HLE_ROM_START <= physical && physical <= HLE_ROM_END {
                MemoryRegion::HleRom { physical }
            } else {
                MemoryRegion::Unmapped { physical }
            },
        )
    }

    /// Reads one byte from a directly backed region.
    pub fn read_u8(&self, address: u32) -> (result: Result<u8, MemoryError>)
        requires
            self.wf(),
        ensures
            result == self@.read8(address),
    {
        match self.access(address, 1) {
            Err(error) => Err(error),
            Ok(MemoryRegion::Ram { offset }) => Ok(self.ram[offset]),
            Ok(MemoryRegion::Scratchpad { offset }) => Ok(self.scratchpad[offset]),
            Ok(_) => Ok(0xff),
        }
    }

    /// Reads one little-endian halfword from a directly backed region.
    pub fn read_u16(&self, address: u32) -> (result: Result<u16, MemoryError>)
        requires
            self.wf(),
        ensures
            result == self@.read16(address),
    {
        match self.access(address, 2) {
            Err(error) => Err(error),
            Ok(MemoryRegion::Ram { offset }) => Ok(read_half(self.ram.as_slice(), offset)),
            Ok(MemoryRegion::Scratchpad { offset }) => Ok(
                read_half(self.scratchpad.as_slice(), offset),
            ),
            Ok(_) => Ok(0xffff),
        }
    }

    /// Reads one little-endian word from a directly backed region.
    pub fn read_u32(&self, address: u32) -> (result: Result<u32, MemoryError>)
        requires
            self.wf(),
        ensures
            result == self@.read32(address),
    {
        match self.access(address, 4) {
            Err(error) => Err(error),
            Ok(MemoryRegion::Ram { offset }) => Ok(read_word(self.ram.as_slice(), offset)),
            Ok(MemoryRegion::Scratchpad { offset }) => Ok(
                read_word(self.scratchpad.as_slice(), offset),
            ),
            Ok(_) => Ok(0xffff_ffff),
        }
    }

    /// Writes one byte to a directly backed region.
    pub fn write_u8(&mut self, address: u32, value: u8) -> (result: Result<(), MemoryError>)
        requires
            old(self).wf(),
        ensures
            final(self).wf(),
            result == write_outcome(old(self)@, address, 1),
            final(self)@ == old(self)@.written8(address, value),
    {
        match self.access(address, 1) {
            Err(error) => {
                return Err(error);
            },
            Ok(MemoryRegion::Ram { offset }) => {
                self.ram[offset] = value;
            },
            Ok(MemoryRegion::Scratchpad { offset }) => {
                self.scratchpad[offset] = value;
            },
            Ok(_) => {},
        }
        Ok(())
    }

    /// Writes one little-endian halfword to a directly backed region.
    pub fn write_u16(&mut self, address: u32, value: u16) -> (result: Result<(), MemoryError>)
        requires
            old(self).wf(),
        ensures
            final(self).wf(),
            result == write_outcome(old(self)@, address, 2),
            final(self)@ == old(self)@.written16(address, value),
    {
        match self.access(address, 2) {
            Err(error) => {
                return Err(error);
            },
            Ok(MemoryRegion::Ram { offset }) => write_half(&mut self.ram, offset, value),
            Ok(MemoryRegion::Scratchpad { offset }) => write_half(
                &mut self.scratchpad,
                offset,
                value,
            ),
            Ok(_) => {},
        }
        Ok(())
    }

    /// Writes one little-endian word to a directly backed region.
    pub fn write_u32(&mut self, address: u32, value: u32) -> (result: Result<(), MemoryError>)
        requires
            old(self).wf(),
        ensures
            final(self).wf(),
            result == write_outcome(old(self)@, address, 4),
            final(self)@ == old(self)@.written32(address, value),
    {
        match self.access(address, 4) {
            Err(error) => {
                return Err(error);
            },
            Ok(MemoryRegion::Ram { offset }) => write_word(&mut self.ram, offset, value),
            Ok(MemoryRegion::Scratchpad { offset }) => write_word(
                &mut self.scratchpad,
                offset,
                value,
            ),
            Ok(_) => {},
        }
        Ok(())
    }

    fn access(&self, address: u32, count: u32) -> (result: Result<MemoryRegion, MemoryError>)
        requires
            self.wf(),
            1 <= count <= 4,
        ensures
            result == self@.accessible(address, count as int),
            match result {
                Ok(MemoryRegion::Ram { offset }) => offset + count <= RAM_SIZE,
                Ok(MemoryRegion::Scratchpad { offset }) => offset + count <= SCRATCHPAD_SIZE,
                _ => true,
            },
    {
        let region = match Self::classify(address) {
            Ok(region) => region,
            Err(error) => {
                return Err(error);
            },
        };
        if let Err(error) = Self::validate_span(address, region, count) {
            return Err(error);
        }
        match region {
            MemoryRegion::Mmio { physical } => Err(MemoryError::Mmio { address: physical }),
            MemoryRegion::Spu2 { physical } => Err(MemoryError::Spu2 { address: physical }),
            MemoryRegion::HleRom { physical } => Err(MemoryError::HleRom { address: physical }),
            MemoryRegion::Unmapped { physical } => match self.open_bus {
                OpenBusPolicy::Strict => Err(MemoryError::Unmapped { address: physical }),
                OpenBusPolicy::Ones => Ok(region),
            },
            _ => Ok(region),
        }
    }

    fn validate_span(address: u32, first: MemoryRegion, length: u32) -> (result: Result<
        (),
        MemoryError,
    >)
        requires
            1 <= length <= 4,
            classified(address) == Ok::<MemoryRegion, MemoryError>(first),
        ensures
            match result {
                Ok(_) => spanned(address, length as int) == Ok::<MemoryRegion, MemoryError>(first),
                Err(error) => spanned(address, length as int) == Err::<MemoryRegion, MemoryError>(
                    error,
                ),
            },
    {
        let last_address: u32 = match address.checked_add(length - 1) {
            Some(last_address) => last_address,
            None => {
                return Err(MemoryError::CrossesBoundary { address });
            },
        };
        let last = match Self::classify(last_address) {
            Ok(last) => last,
            Err(error) => {
                return Err(error);
            },
        };
        let continued = match (first, last) {
            (MemoryRegion::Ram { offset }, MemoryRegion::Ram { offset: end }) => offset <= end,
            (
                MemoryRegion::Scratchpad { offset },
                MemoryRegion::Scratchpad { offset: end },
            ) => offset <= end,
            (MemoryRegion::Mmio { .. }, MemoryRegion::Mmio { .. }) => true,
            (MemoryRegion::Spu2 { .. }, MemoryRegion::Spu2 { .. }) => true,
            (MemoryRegion::HleRom { .. }, MemoryRegion::HleRom { .. }) => true,
            (MemoryRegion::Unmapped { .. }, MemoryRegion::Unmapped { .. }) => true,
            _ => false,
        };
        if continued {
            Ok(())
        } else {
            Err(MemoryError::CrossesBoundary { address })
        }
    }
}

proof fn lemma_access_in_storage(contents: MemoryContents, address: u32, count: int)
    requires
        1 <= count <= 4,
    ensures
        match contents.accessible(address, count) {
            Ok(MemoryRegion::Ram { offset }) => offset + count <= RAM_SIZE,
            Ok(MemoryRegion::Scratchpad { offset }) => offset + count <= SCRATCHPAD_SIZE,
            _ => true,
        },
{
}

/// A word written to RAM or scratchpad reads back through every address that names
/// the same storage, whatever segment or mirror it lies in.
pub proof fn law_word_reads_back(contents: MemoryContents, address: u32, alias: u32, value: u32)
    requires
        contents.wf(),
        contents.accessible(address, 4) is Ok,
        contents.accessible(address, 4)->Ok_0 is Ram || contents.accessible(
            address,
            4,
        )->Ok_0 is Scratchpad,
        contents.accessible(alias, 4) == contents.accessible(address, 4),
    ensures
        contents.written32(address, value).read32(alias) == Ok::<u32, MemoryError>(value),
{
    lemma_access_in_storage(contents, address, 4);
    match contents.accessible(address, 4)->Ok_0 {
        MemoryRegion::Ram { offset } => {
            law_word_round_trip(contents.ram, offset as int, value);
        },
        MemoryRegion::Scratchpad { offset } => {
            law_word_round_trip(contents.scratchpad, offset as int, value);
        },
        _ => {},
    }
}

/// A halfword written to RAM or scratchpad reads back through every address that
/// names the same storage.
pub proof fn law_half_reads_back(contents: MemoryContents, address: u32, alias: u32, value: u16)
    requires
        contents.wf(),
        contents.accessible(address, 2) is Ok,
        contents.accessible(address, 2)->Ok_0 is Ram || contents.accessible(
            address,
            2,
        )->Ok_0 is Scratchpad,
        contents.accessible(alias, 2) == contents.accessible(address, 2),
    ensures
        contents.written16(address, value).read16(alias) == Ok::<u16, MemoryError>(value),
{
    lemma_access_in_storage(contents, address, 2);
    match contents.accessible(address, 2)->Ok_0 {
        MemoryRegion::Ram { offset } => {
            law_half_round_trip(contents.ram, offset as int, value);
        },
        MemoryRegion::Scratchpad { offset } => {
            law_half_round_trip(contents.scratchpad, offset as int, value);
        },
        _ => {},
    }
}

/// RAM repeats every two megabytes through the first eight megabytes of each
/// direct-mapped segment.
pub proof fn law_ram_is_mirrored(offset: u32, mirror: int, segment: int)
    requires
        offset < RAM_SIZE,
        0 <= mirror < 4,
        0 <= segment < 2 || 4 <= segment < 6,
    ensures
        classified((segment * 0x2000_0000 + mirror * 0x20_0000 + offset) as u32) == Ok::<
            MemoryRegion,
            MemoryError,
        >(MemoryRegion::Ram { offset: offset as usize }),
{
}

/// RAM and scratchpad are distinct storage, and a write that is refused changes
/// neither.
pub proof fn law_storage_is_distinct(contents: MemoryContents, address: u32, value: u32)
    ensures
        ({
            let after = contents.written32(address, value);
            &&& after.ram == contents.ram || after.scratchpad == contents.scratchpad
            &&& contents.accessible(address, 4) is Err ==> after == contents
            &&& after.open_bus == contents.open_bus
        }),
{
}

} // verus!
