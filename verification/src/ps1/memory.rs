//! PS1 memory regions with no firmware-image input path.

use vstd::prelude::*;

use crate::bytes::{
    bytes16, bytes32, half_bytes, half_of, halves, join_bytes, join_halves, word_of, zeroed,
};
use crate::bits::lemma_alignment;
use crate::psx_exe::{ExecutableImage, RAM_SIZE};

verus! {

/// Size of the scratchpad in bytes.
pub const SCRATCH_SIZE: usize = 0x400;

/// First memory-control register address.
pub const MEMORY_CONTROL_START: u32 = 0x1f80_1000;

/// Last byte occupied by the memory-control register block.
pub const MEMORY_CONTROL_END: u32 = 0x1f80_1023;

/// Reset values of the memory-control registers.
pub const MEMORY_CONTROL_RESET: [u32; 9] = [
    0x1f00_0000,
    0x1f80_2000,
    0x0013_243f,
    0x0000_3022,
    0x0013_243f,
    0x2009_31e1,
    0x0002_0843,
    0x0007_0777,
    0x0003_1125,
];

/// Handling for otherwise unmapped physical addresses.
#[derive(Clone, Copy, Debug, Default, PartialEq, Eq, Structural)]
pub enum OpenBusPolicy {
    /// Report an explicit error.
    #[default]
    Strict,
    /// Return all-one values and discard writes.
    Ones,
}

/// Decoded address region.
#[derive(Clone, Copy, Debug, PartialEq, Eq, Structural)]
pub enum MemoryRegion {
    /// Mirrored two-megabyte main RAM.
    Ram {
        /// Offset into the physical two-megabyte RAM allocation.
        offset: usize,
    },
    /// One-kilobyte scratchpad.
    Scratchpad {
        /// Offset into the scratchpad allocation.
        offset: usize,
    },
    /// Machine-routed I/O registers.
    Mmio {
        /// Translated physical I/O address.
        physical: u32,
    },
    /// Firmware range intentionally implemented only through HLE.
    HleRom {
        /// Translated physical ROM address.
        physical: u32,
    },
    /// Address has no modeled region.
    Unmapped {
        /// Translated physical address.
        physical: u32,
    },
}

/// Memory access failure.
#[derive(Clone, Copy, Debug, PartialEq, Eq, Structural)]
pub enum MemoryError {
    /// KSEG2/3 address translation is not available in the PSF1 profile.
    UnsupportedSegment {
        /// Guest virtual address.
        address: u32,
    },
    /// Host pointer width cannot represent a decoded physical offset.
    UnsupportedAddressWidth {
        /// Guest virtual address.
        address: u32,
    },
    /// Access belongs to machine-level MMIO routing.
    Mmio {
        /// Physical I/O address.
        address: u32,
    },
    /// Guest attempted to read or write unmodeled console ROM contents.
    HleRom {
        /// Physical ROM address.
        address: u32,
    },
    /// Strict mode rejected an unmapped address.
    Unmapped {
        /// Physical address.
        address: u32,
    },
    /// Multi-byte access crossed a region boundary.
    CrossesBoundary {
        /// First guest virtual address.
        address: u32,
    },
    /// Executable image had an unexpected RAM size.
    InvalidImageSize {
        /// Supplied byte count.
        actual: usize,
    },
}

/// The physical address behind a direct-mapped virtual address: the three top bits
/// select a segment, of which the last two are not direct-mapped.
pub open spec fn translated(address: u32) -> Result<u32, MemoryError> {
    if address < 0xc000_0000 {
        Ok((address % 0x2000_0000) as u32)
    } else {
        Err(MemoryError::UnsupportedSegment { address })
    }
}

/// The region of a physical address.
pub open spec fn region_of(physical: u32) -> MemoryRegion {
    if physical < 0x80_0000 {
        MemoryRegion::Ram { offset: (physical as int % RAM_SIZE as int) as usize }
    } else if 0x1f80_0000 <= physical < 0x1f80_0400 {
        MemoryRegion::Scratchpad { offset: (physical - 0x1f80_0000) as usize }
    } else if 0x1f80_1000 <= physical < 0x1f80_3000 {
        MemoryRegion::Mmio { physical }
    } else if 0x1fc0_0000 <= physical < 0x1fc8_0000 {
        MemoryRegion::HleRom { physical }
    } else {
        MemoryRegion::Unmapped { physical }
    }
}

/// The region of a virtual address.
pub open spec fn classified(address: u32) -> Result<MemoryRegion, MemoryError> {
    match translated(address) {
        Ok(physical) => Ok(region_of(physical)),
        Err(error) => Err(error),
    }
}

/// Whether two regions are of one kind.
pub open spec fn same_kind(left: MemoryRegion, right: MemoryRegion) -> bool {
    match left {
        MemoryRegion::Ram { .. } => right is Ram,
        MemoryRegion::Scratchpad { .. } => right is Scratchpad,
        MemoryRegion::Mmio { .. } => right is Mmio,
        MemoryRegion::HleRom { .. } => right is HleRom,
        MemoryRegion::Unmapped { .. } => right is Unmapped,
    }
}

/// Whether `count` bytes from `address` on stay in a region of the kind of `region`.
pub open spec fn spanned(address: u32, region: MemoryRegion, count: int) -> Result<
    (),
    MemoryError,
> {
    if address + count - 1 > u32::MAX {
        Err(MemoryError::CrossesBoundary { address })
    } else {
        match classified((address + count - 1) as u32) {
            Ok(last) => if same_kind(region, last) {
                Ok(())
            } else {
                Err(MemoryError::CrossesBoundary { address })
            },
            Err(error) => Err(error),
        }
    }
}

/// Instance-owned PS1 RAM and scratchpad.
#[derive(Clone, Debug, PartialEq, Eq)]
pub struct Ps1Memory {
    pub ram: Vec<u8>,
    pub scratchpad: [u8; 1024],
    pub memory_control: [u32; 9],
    pub open_bus: OpenBusPolicy,
}

/// The contents of a PS1 memory.
#[verifier::ext_equal]
pub ghost struct MemoryContents {
    pub ram: Seq<u8>,
    pub scratchpad: Seq<u8>,
    pub control: Seq<u32>,
    pub open_bus: OpenBusPolicy,
}

impl View for Ps1Memory {
    type V = MemoryContents;

    open spec fn view(&self) -> MemoryContents {
        MemoryContents {
            ram: self.ram@,
            scratchpad: self.scratchpad@,
            control: self.memory_control@,
            open_bus: self.open_bus,
        }
    }
}

impl MemoryContents {
    /// Zeroed memory.
    pub open spec fn at_reset(ram: Seq<u8>, open_bus: OpenBusPolicy) -> MemoryContents {
        MemoryContents {
            ram,
            scratchpad: Seq::new(SCRATCH_SIZE as nat, |i: int| 0u8),
            control: MEMORY_CONTROL_RESET@,
            open_bus,
        }
    }

    /// Byte `index` of an access to a region; RAM offsets wrap.
    pub open spec fn byte(self, region: MemoryRegion, index: int) -> u8 {
        match region {
            MemoryRegion::Ram { offset } => self.ram[(offset + index) % RAM_SIZE as int],
            MemoryRegion::Scratchpad { offset } => self.scratchpad[offset + index],
            _ => 0xff,
        }
    }

    /// Whether a region can be read and written here, or why not.
    pub open spec fn backed(self, region: MemoryRegion) -> Result<(), MemoryError> {
        match region {
            MemoryRegion::Mmio { physical } => Err(MemoryError::Mmio { address: physical }),
            MemoryRegion::HleRom { physical } => Err(MemoryError::HleRom { address: physical }),
            MemoryRegion::Unmapped { physical } => if self.open_bus == OpenBusPolicy::Strict {
                Err(MemoryError::Unmapped { address: physical })
            } else {
                Ok(())
            },
            _ => Ok(()),
        }
    }

    /// Whether an access of `count` bytes to a decoded region succeeds, or why not.
    pub open spec fn accessible(self, address: u32, region: MemoryRegion, count: int) -> Result<
        (),
        MemoryError,
    > {
        match spanned(address, region, count) {
            Ok(_) => self.backed(region),
            Err(error) => Err(error),
        }
    }

    /// A byte read.
    pub open spec fn read8(self, address: u32) -> Result<u8, MemoryError> {
        match classified(address) {
            Ok(region) => match self.backed(region) {
                Ok(_) => Ok(self.byte(region, 0)),
                Err(error) => Err(error),
            },
            Err(error) => Err(error),
        }
    }

    /// A halfword read of a decoded region.
    pub open spec fn read16(self, address: u32, region: MemoryRegion) -> Result<
        u16,
        MemoryError,
    > {
        match self.accessible(address, region, 2) {
            Ok(_) => Ok(half_of(self.byte(region, 0), self.byte(region, 1))),
            Err(error) => Err(error),
        }
    }

    /// A word read of a decoded region.
    pub open spec fn read32(self, address: u32, region: MemoryRegion) -> Result<
        u32,
        MemoryError,
    > {
        match self.accessible(address, region, 4) {
            Ok(_) => Ok(
                word_of(
                    half_of(self.byte(region, 0), self.byte(region, 1)),
                    half_of(self.byte(region, 2), self.byte(region, 3)),
                ),
            ),
            Err(error) => Err(error),
        }
    }

    /// The contents after byte `index` of an access to a region is written.
    pub open spec fn with_byte(
        self,
        region: MemoryRegion,
        index: int,
        value: u8,
    ) -> MemoryContents {
        match region {
            MemoryRegion::Ram { offset } => MemoryContents {
                ram: self.ram.update((offset + index) % RAM_SIZE as int, value),
                ..self
            },
            MemoryRegion::Scratchpad { offset } => MemoryContents {
                scratchpad: self.scratchpad.update(offset + index, value),
                ..self
            },
            _ => self,
        }
    }

    /// The contents after the bytes of an access are written.
    pub open spec fn with_bytes(self, region: MemoryRegion, bytes: Seq<u8>) -> MemoryContents
        decreases bytes.len(),
    {
        if bytes.len() == 0 {
            self
        } else {
            self.with_bytes(region, bytes.drop_last()).with_byte(
                region,
                bytes.len() - 1,
                bytes.last(),
            )
        }
    }

    /// Whether a write of `count` bytes to a decoded region succeeds, or why not.
    pub open spec fn writable(self, address: u32, region: MemoryRegion, count: int) -> Result<
        (),
        MemoryError,
    > {
        match self.accessible(address, region, count) {
            Ok(_) => if region matches MemoryRegion::Scratchpad { offset } && offset + count
                > SCRATCH_SIZE {
                Err(MemoryError::CrossesBoundary { address })
            } else {
                Ok(())
            },
            Err(error) => Err(error),
        }
    }

    /// The contents after a write to a decoded region; a write that fails changes
    /// nothing.
    pub open spec fn written(
        self,
        address: u32,
        region: MemoryRegion,
        bytes: Seq<u8>,
    ) -> MemoryContents {
        if self.writable(address, region, bytes.len() as int) is Ok {
            self.with_bytes(region, bytes)
        } else {
            self
        }
    }
}

/// The control register at an address.
pub open spec fn control_index(address: u32) -> Result<int, MemoryError> {
    if MEMORY_CONTROL_START <= address <= MEMORY_CONTROL_END && address % 4 == 0 {
        Ok((address - MEMORY_CONTROL_START) / 4)
    } else {
        Err(MemoryError::Mmio { address })
    }
}

/// A supplied region lies inside the storage that it names.
pub open spec fn region_ok(region: MemoryRegion, count: int) -> bool {
    match region {
        MemoryRegion::Ram { offset } => offset < RAM_SIZE,
        MemoryRegion::Scratchpad { offset } => offset + count <= SCRATCH_SIZE,
        _ => true,
    }
}

impl Ps1Memory {
    /// RAM has its full size.
    pub open spec fn wf(self) -> bool {
        self.ram@.len() == RAM_SIZE
    }

    /// Constructs zeroed memory with the selected unmapped-access policy.
    pub fn new(open_bus: OpenBusPolicy) -> (result: Self)
        ensures
            result.wf(),
            result@ == MemoryContents::at_reset(Seq::new(RAM_SIZE as nat, |i: int| 0u8), open_bus),
    {
        Self {
            ram: zeroed(RAM_SIZE),
            scratchpad: [0u8;1024],
            memory_control: MEMORY_CONTROL_RESET,
            open_bus,
        }
    }

    /// Constructs memory from an applied executable image, which must contain
    /// exactly two megabytes.
    pub fn from_image(image: &ExecutableImage, open_bus: OpenBusPolicy) -> (result: Result<
        Self,
        MemoryError,
    >)
        ensures
            match result {
                Ok(memory) => {
                    &&& image.ram@.len() == RAM_SIZE
                    &&& memory.wf()
                    &&& memory@ == MemoryContents::at_reset(image.ram@, open_bus)
                },
                Err(error) => {
                    &&& image.ram@.len() != RAM_SIZE
                    &&& error == (MemoryError::InvalidImageSize {
                        actual: image.ram@.len() as usize,
                    })
                },
            },
    {
        if image.ram().len() != RAM_SIZE {
            return Err(MemoryError::InvalidImageSize { actual: image.ram().len() });
        }
        let mut ram: Vec<u8> = zeroed(RAM_SIZE);
        crate::bytes::write_bytes(&mut ram, 0, image.ram());
        assert(ram@ =~= image.ram@);
        Ok(
            Self {
                ram,
                scratchpad: [0u8;1024],
                memory_control: MEMORY_CONTROL_RESET,
                open_bus,
            },
        )
    }

    /// Reads one aligned memory-control register.
    pub fn read_control(&self, address: u32) -> (result: Result<u32, MemoryError>)
        ensures
            result == match control_index(address) {
                Ok(index) => Ok(self@.control[index]),
                Err(error) => Err(error),
            },
    {
        match memory_control_index(address) {
            Ok(index) => Ok(self.memory_control[index]),
            Err(error) => Err(error),
        }
    }

    /// Writes one aligned memory-control register.
    ///
    /// Timing fields are retained for guest-visible readback; the PSF profile
    /// does not use them to stall the host-side memory implementation.
    pub fn write_control(&mut self, address: u32, value: u32) -> (result: Result<(), MemoryError>)
        ensures
            result == match control_index(address) {
                Ok(_) => Ok(()),
                Err(error) => Err(error),
            },
            final(self)@ == match control_index(address) {
                Ok(index) => MemoryContents {
                    control: old(self)@.control.update(index, value),
                    ..old(self)@
                },
                Err(_) => old(self)@,
            },
            final(self).wf() == old(self).wf(),
    {
        match memory_control_index(address) {
            Ok(index) => {
                self.memory_control[index] = value;
                Ok(())
            },
            Err(error) => Err(error),
        }
    }

    /// Decodes a guest virtual address without performing an access.
    pub fn classify(address: u32) -> (result: Result<MemoryRegion, MemoryError>)
        ensures
            result == classified(address),
    {
        let physical: u32 = match translate(address) {
            Ok(physical) => physical,
            Err(error) => {
                return Err(error);
            },
        };
        Ok(
            if physical < 0x80_0000 {
                MemoryRegion::Ram { offset: physical as usize % RAM_SIZE }
            } else if 0x1f80_0000 <= physical && physical < 0x1f80_0400 {
                MemoryRegion::Scratchpad { offset: (physical - 0x1f80_0000) as usize }
            } else if 0x1f80_1000 <= physical && physical < 0x1f80_3000 {
                MemoryRegion::Mmio { physical }
            } else if 0x1fc0_0000 <= physical && physical < 0x1fc8_0000 {
                MemoryRegion::HleRom { physical }
            } else {
                MemoryRegion::Unmapped { physical }
            },
        )
    }

    /// Reads one byte.
    pub fn read_u8(&self, address: u32) -> (result: Result<u8, MemoryError>)
        requires
            self.wf(),
        ensures
            result == self@.read8(address),
    {
        let region = match Self::classify(address) {
            Ok(region) => region,
            Err(error) => {
                return Err(error);
            },
        };
        match self.check_backed(region) {
            Ok(_) => Ok(self.fetch(region, 0)),
            Err(error) => Err(error),
        }
    }

    /// Reads one little-endian halfword without crossing a region boundary.
    pub fn read_u16(&self, address: u32) -> (result: Result<u16, MemoryError>)
        requires
            self.wf(),
        ensures
            result == match classified(address) {
                Ok(region) => self@.read16(address, region),
                Err(error) => Err(error),
            },
    {
        match Self::classify(address) {
            Ok(region) => self.read_decoded_u16(address, region),
            Err(error) => Err(error),
        }
    }

    /// Reads one little-endian word without crossing a region boundary.
    pub fn read_u32(&self, address: u32) -> (result: Result<u32, MemoryError>)
        requires
            self.wf(),
        ensures
            result == match classified(address) {
                Ok(region) => self@.read32(address, region),
                Err(error) => Err(error),
            },
    {
        match Self::classify(address) {
            Ok(region) => self.read_decoded_u32(address, region),
            Err(error) => Err(error),
        }
    }

    /// Reads a halfword using an address classification already obtained by a
    /// machine-level bus router.
    pub fn read_decoded_u16(&self, address: u32, region: MemoryRegion) -> (result: Result<
        u16,
        MemoryError,
    >)
        requires
            self.wf(),
            self@.accessible(address, region, 2) is Ok ==> region_ok(region, 2),
        ensures
            result == self@.read16(address, region),
    {
        if let Err(error) = self.check_access(address, region, 2) {
            return Err(error);
        }
        Ok(join_bytes(self.fetch(region, 0), self.fetch(region, 1)))
    }

    /// Reads a word using an address classification already obtained by a
    /// machine-level bus router.
    pub fn read_decoded_u32(&self, address: u32, region: MemoryRegion) -> (result: Result<
        u32,
        MemoryError,
    >)
        requires
            self.wf(),
            self@.accessible(address, region, 4) is Ok ==> region_ok(region, 4),
        ensures
            result == self@.read32(address, region),
    {
        if let Err(error) = self.check_access(address, region, 4) {
            return Err(error);
        }
        Ok(
            join_halves(
                join_bytes(self.fetch(region, 0), self.fetch(region, 1)),
                join_bytes(self.fetch(region, 2), self.fetch(region, 3)),
            ),
        )
    }

    /// Writes one byte.
    pub fn write_u8(&mut self, address: u32, value: u8) -> (result: Result<(), MemoryError>)
        requires
            old(self).wf(),
        ensures
            final(self).wf(),
            match classified(address) {
                Ok(region) => {
                    &&& result == old(self)@.backed(region)
                    &&& final(self)@ == if result is Ok {
                        old(self)@.with_byte(region, 0, value)
                    } else {
                        old(self)@
                    }
                },
                Err(error) => result == Err::<(), MemoryError>(error) && final(self)@ == old(self)@,
            },
    {
        let region = match Self::classify(address) {
            Ok(region) => region,
            Err(error) => {
                return Err(error);
            },
        };
        match self.check_backed(region) {
            Ok(_) => {
                self.store(region, 0, value);
                Ok(())
            },
            Err(error) => Err(error),
        }
    }

    /// Writes one little-endian halfword without crossing a region boundary.
    pub fn write_u16(&mut self, address: u32, value: u16) -> (result: Result<(), MemoryError>)
        requires
            old(self).wf(),
        ensures
            final(self).wf(),
            match classified(address) {
                Ok(region) => {
                    &&& result == old(self)@.writable(address, region, 2)
                    &&& final(self)@ == old(self)@.written(address, region, bytes16(value))
                },
                Err(error) => result == Err::<(), MemoryError>(error) && final(self)@ == old(self)@,
            },
    {
        match Self::classify(address) {
            Ok(region) => self.write_decoded_u16(address, region, value),
            Err(error) => Err(error),
        }
    }

    /// Writes one little-endian word without crossing a region boundary.
    pub fn write_u32(&mut self, address: u32, value: u32) -> (result: Result<(), MemoryError>)
        requires
            old(self).wf(),
        ensures
            final(self).wf(),
            match classified(address) {
                Ok(region) => {
                    &&& result == old(self)@.writable(address, region, 4)
                    &&& final(self)@ == old(self)@.written(address, region, bytes32(value))
                },
                Err(error) => result == Err::<(), MemoryError>(error) && final(self)@ == old(self)@,
            },
    {
        match Self::classify(address) {
            Ok(region) => self.write_decoded_u32(address, region, value),
            Err(error) => Err(error),
        }
    }

    /// Writes a halfword using an address classification already obtained by
    /// a machine-level bus router.
    pub fn write_decoded_u16(
        &mut self,
        address: u32,
        region: MemoryRegion,
        value: u16,
    ) -> (result: Result<(), MemoryError>)
        requires
            old(self).wf(),
            region matches MemoryRegion::Ram { offset } ==> offset <= usize::MAX - 1,
        ensures
            final(self).wf(),
            result == old(self)@.writable(address, region, 2),
            final(self)@ == old(self)@.written(address, region, bytes16(value)),
    {
        let (low, high) = half_bytes(value);
        self.write_decoded_bytes(address, region, &[low, high], 2)
    }

    /// Writes a word using an address classification already obtained by a
    /// machine-level bus router.
    pub fn write_decoded_u32(
        &mut self,
        address: u32,
        region: MemoryRegion,
        value: u32,
    ) -> (result: Result<(), MemoryError>)
        requires
            old(self).wf(),
            region matches MemoryRegion::Ram { offset } ==> offset <= usize::MAX - 3,
        ensures
            final(self).wf(),
            result == old(self)@.writable(address, region, 4),
            final(self)@ == old(self)@.written(address, region, bytes32(value)),
    {
        let (low, high) = halves(value);
        let (b0, b1) = half_bytes(low);
        let (b2, b3) = half_bytes(high);
        self.write_decoded_bytes(address, region, &[b0, b1, b2, b3], 4)
    }

    /// Returns the physical main-RAM bytes for checked DMA integration.
    pub fn ram(&self) -> (result: &[u8])
        ensures
            result@ == self@.ram,
    {
        self.ram.as_slice()
    }

    /// Returns mutable physical main-RAM bytes for checked DMA integration.
    pub fn ram_mut(&mut self) -> (result: &mut [u8])
        ensures
            result@ == old(self)@.ram,
            final(self)@ == (MemoryContents { ram: final(result)@, ..old(self)@ }),
    {
        self.ram.as_mut_slice()
    }

    fn check_backed(&self, region: MemoryRegion) -> (result: Result<(), MemoryError>)
        ensures
            result == self@.backed(region),
    {
        match region {
            MemoryRegion::Mmio { physical } => Err(MemoryError::Mmio { address: physical }),
            MemoryRegion::HleRom { physical } => Err(MemoryError::HleRom { address: physical }),
            MemoryRegion::Unmapped { physical } => match self.open_bus {
                OpenBusPolicy::Strict => Err(MemoryError::Unmapped { address: physical }),
                OpenBusPolicy::Ones => Ok(()),
            },
            _ => Ok(()),
        }
    }

    fn check_access(&self, address: u32, region: MemoryRegion, count: u32) -> (result: Result<
        (),
        MemoryError,
    >)
        requires
            1 <= count <= 4,
        ensures
            result == self@.accessible(address, region, count as int),
    {
        match Self::validate_decoded_access(address, region, count) {
            Ok(_) => self.check_backed(region),
            Err(error) => Err(error),
        }
    }

    fn validate_decoded_access(address: u32, region: MemoryRegion, count: u32) -> (result: Result<
        (),
        MemoryError,
    >)
        requires
            1 <= count <= 4,
        ensures
            result == spanned(address, region, count as int),
    {
        let last: u32 = match address.checked_add(count - 1) {
            Some(last) => last,
            None => {
                return Err(MemoryError::CrossesBoundary { address });
            },
        };
        match Self::classify(last) {
            Ok(other) => if same_region(region, other) {
                Ok(())
            } else {
                Err(MemoryError::CrossesBoundary { address })
            },
            Err(error) => Err(error),
        }
    }

    fn fetch(&self, region: MemoryRegion, index: usize) -> (result: u8)
        requires
            self.wf(),
            index < 4,
            region_ok(region, index + 1),
        ensures
            result == self@.byte(region, index as int),
    {
        match region {
            MemoryRegion::Ram { offset } => self.ram[(offset + index) % RAM_SIZE],
            MemoryRegion::Scratchpad { offset } => self.scratchpad[offset + index],
            _ => 0xff,
        }
    }

    fn store(&mut self, region: MemoryRegion, index: usize, value: u8)
        requires
            old(self).wf(),
            index < 4,
            match region {
                MemoryRegion::Ram { offset } => offset + index <= usize::MAX,
                MemoryRegion::Scratchpad { offset } => offset + index < SCRATCH_SIZE,
                _ => true,
            },
        ensures
            final(self).wf(),
            final(self)@ == old(self)@.with_byte(region, index as int, value),
    {
        match region {
            MemoryRegion::Ram { offset } => {
                self.ram[(offset + index) % RAM_SIZE] = value;
            },
            MemoryRegion::Scratchpad { offset } => {
                self.scratchpad[offset + index] = value;
            },
            _ => {},
        }
    }

    fn write_decoded_bytes(
        &mut self,
        address: u32,
        region: MemoryRegion,
        bytes: &[u8],
        count: u32,
    ) -> (result: Result<(), MemoryError>)
        requires
            old(self).wf(),
            1 <= count <= 4,
            bytes@.len() == count,
            region matches MemoryRegion::Ram { offset } ==> offset + count - 1 <= usize::MAX,
        ensures
            final(self).wf(),
            result == old(self)@.writable(address, region, count as int),
            final(self)@ == old(self)@.written(address, region, bytes@),
    {
        if let Err(error) = self.check_access(address, region, count) {
            return Err(error);
        }
        if let MemoryRegion::Scratchpad { offset } = region {
            if offset > SCRATCH_SIZE || count as usize > SCRATCH_SIZE - offset {
                return Err(MemoryError::CrossesBoundary { address });
            }
        }
        let mut index: usize = 0;
        while index < bytes.len()
            invariant
                self.wf(),
                index <= bytes@.len(),
                bytes@.len() == count,
                1 <= count <= 4,
                region matches MemoryRegion::Ram { offset } ==> offset + count - 1 <= usize::MAX,
                region matches MemoryRegion::Scratchpad { offset } ==> offset + count
                    <= SCRATCH_SIZE,
                self@ == old(self)@.with_bytes(region, bytes@.take(index as int)),
            decreases bytes@.len() - index,
        {
            proof {
                let longer = bytes@.take(index + 1);
                assert(longer.drop_last() =~= bytes@.take(index as int));
                assert(longer.last() == bytes@[index as int]);
            }
            self.store(region, index, bytes[index]);
            index += 1;
        }
        assert(bytes@.take(index as int) =~= bytes@);
        Ok(())
    }
}

fn translate(address: u32) -> (result: Result<u32, MemoryError>)
    ensures
        result == translated(address),
{
    if address >= 0xc000_0000 {
        return Err(MemoryError::UnsupportedSegment { address });
    }
    Ok(address % 0x2000_0000)
}

fn memory_control_index(address: u32) -> (result: Result<usize, MemoryError>)
    ensures
        match result {
            Ok(index) => control_index(address) == Ok::<int, MemoryError>(index as int) && index
                < 9,
            Err(error) => control_index(address) == Err::<int, MemoryError>(error),
        },
{
    proof {
        lemma_alignment(address);
    }
    if address < MEMORY_CONTROL_START || address > MEMORY_CONTROL_END || address & 3 != 0 {
        return Err(MemoryError::Mmio { address });
    }
    Ok(((address - MEMORY_CONTROL_START) / 4) as usize)
}

fn same_region(left: MemoryRegion, right: MemoryRegion) -> (result: bool)
    ensures
        result == same_kind(left, right),
{
    match (left, right) {
        (MemoryRegion::Ram { .. }, MemoryRegion::Ram { .. }) => true,
        (MemoryRegion::Scratchpad { .. }, MemoryRegion::Scratchpad { .. }) => true,
        (MemoryRegion::Mmio { .. }, MemoryRegion::Mmio { .. }) => true,
        (MemoryRegion::HleRom { .. }, MemoryRegion::HleRom { .. }) => true,
        (MemoryRegion::Unmapped { .. }, MemoryRegion::Unmapped { .. }) => true,
        _ => false,
    }
}

/// A word written to RAM or scratchpad reads back through every address that is
/// classified alike, whatever segment or mirror it lies in.
pub proof fn law_word_reads_back(
    contents: MemoryContents,
    address: u32,
    alias: u32,
    region: MemoryRegion,
    value: u32,
)
    requires
        contents.ram.len() == RAM_SIZE,
        contents.scratchpad.len() == SCRATCH_SIZE,
        classified(address) == Ok::<MemoryRegion, MemoryError>(region),
        classified(alias) == Ok::<MemoryRegion, MemoryError>(region),
        region is Ram || region is Scratchpad,
        contents.writable(address, region, 4) is Ok,
        spanned(alias, region, 4) is Ok,
    ensures
        contents.written(address, region, bytes32(value)).read32(alias, region) == Ok::<
            u32,
            MemoryError,
        >(value),
{
    let bytes = bytes32(value);
    assert(bytes.drop_last() =~= seq![bytes[0], bytes[1], bytes[2]]);
    assert(bytes.drop_last().drop_last() =~= seq![bytes[0], bytes[1]]);
    assert(bytes.drop_last().drop_last().drop_last() =~= seq![bytes[0]]);
    assert(bytes.drop_last().drop_last().drop_last().drop_last() =~= Seq::<u8>::empty());
    reveal_with_fuel(MemoryContents::with_bytes, 5);
    let c0 = contents.with_byte(region, 0, bytes[0]);
    let c1 = c0.with_byte(region, 1, bytes[1]);
    let c2 = c1.with_byte(region, 2, bytes[2]);
    let c3 = c2.with_byte(region, 3, bytes[3]);
    assert(contents.with_bytes(region, bytes) == c3);
    assert(c3.byte(region, 0) == bytes[0]);
    assert(c3.byte(region, 1) == bytes[1]);
    assert(c3.byte(region, 2) == bytes[2]);
    assert(c3.byte(region, 3) == bytes[3]);
}

/// A halfword written to RAM or scratchpad reads back through every address that
/// is classified alike.
pub proof fn law_half_reads_back(
    contents: MemoryContents,
    address: u32,
    alias: u32,
    region: MemoryRegion,
    value: u16,
)
    requires
        contents.ram.len() == RAM_SIZE,
        contents.scratchpad.len() == SCRATCH_SIZE,
        classified(address) == Ok::<MemoryRegion, MemoryError>(region),
        classified(alias) == Ok::<MemoryRegion, MemoryError>(region),
        region is Ram || region is Scratchpad,
        contents.writable(address, region, 2) is Ok,
        spanned(alias, region, 2) is Ok,
    ensures
        contents.written(address, region, bytes16(value)).read16(alias, region) == Ok::<
            u16,
            MemoryError,
        >(value),
{
    let bytes = bytes16(value);
    assert(bytes.drop_last() =~= seq![bytes[0]]);
    assert(bytes.drop_last().drop_last() =~= Seq::<u8>::empty());
    reveal_with_fuel(MemoryContents::with_bytes, 3);
    let c0 = contents.with_byte(region, 0, bytes[0]);
    let c1 = c0.with_byte(region, 1, bytes[1]);
    assert(contents.with_bytes(region, bytes) == c1);
    assert(c1.byte(region, 0) == bytes[0]);
    assert(c1.byte(region, 1) == bytes[1]);
}

/// RAM repeats every two megabytes through the first eight megabytes of each
/// direct-mapped segment.
pub proof fn law_ram_is_mirrored(offset: u32, mirror: int, segment: int)
    requires
        offset < RAM_SIZE,
        0 <= mirror < 4,
        0 <= segment < 6,
    ensures
        classified((segment * 0x2000_0000 + mirror * 0x20_0000 + offset) as u32) == Ok::<
            MemoryRegion,
            MemoryError,
        >(MemoryRegion::Ram { offset: offset as usize }),
{
}

/// The scratchpad is storage of its own: what is written there changes no RAM, and
/// a write to RAM changes no scratchpad byte.
pub proof fn law_scratchpad_is_distinct(
    contents: MemoryContents,
    address: u32,
    region: MemoryRegion,
    bytes: Seq<u8>,
)
    ensures
        region is Scratchpad ==> contents.written(address, region, bytes).ram == contents.ram,
        region is Ram ==> contents.written(address, region, bytes).scratchpad
            == contents.scratchpad,
        contents.written(address, region, bytes).control == contents.control,
{
    lemma_bytes_keep_other(contents, region, bytes);
}

proof fn lemma_bytes_keep_other(contents: MemoryContents, region: MemoryRegion, bytes: Seq<u8>)
    ensures
        region is Scratchpad ==> contents.with_bytes(region, bytes).ram == contents.ram,
        region is Ram ==> contents.with_bytes(region, bytes).scratchpad == contents.scratchpad,
        contents.with_bytes(region, bytes).control == contents.control,
    decreases bytes.len(),
{
    if bytes.len() > 0 {
        lemma_bytes_keep_other(contents, region, bytes.drop_last());
    }
}

} // verus!
