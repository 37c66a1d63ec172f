//! PS1 interrupt status, mask, and CPU-line behavior.

use vstd::prelude::*;

use crate::bytes::{halves, low_half};

verus! {

/// Physical address of the interrupt status register.
pub const I_STAT: u32 = 0x1f80_1070;

/// Physical address of the interrupt mask register.
pub const I_MASK: u32 = 0x1f80_1074;

/// The implemented bits of both registers.
pub const VALID_BITS: u16 = 0x07ff;

/// A hardware source bit in `I_STAT` and `I_MASK`.
#[derive(Clone, Copy, Debug, PartialEq, Eq, PartialOrd, Ord, Hash, Structural)]
pub enum InterruptSource {
    /// Vertical blank.
    VBlank,
    /// GPU interrupt.
    Gpu,
    /// CD-ROM controller interrupt.
    CdRom,
    /// DMA controller interrupt.
    Dma,
    /// Root counter 0 interrupt.
    Timer0,
    /// Root counter 1 interrupt.
    Timer1,
    /// Root counter 2 interrupt.
    Timer2,
    /// Controller and memory-card interrupt.
    Controller,
    /// Serial I/O interrupt.
    Sio,
    /// Sound processing unit interrupt.
    Spu,
    /// Light-pen interrupt.
    LightPen,
}

impl InterruptSource {
    /// The register bit of a source.
    pub open spec fn mask(self) -> u16 {
        match self {
            InterruptSource::VBlank => 0x001,
            InterruptSource::Gpu => 0x002,
            InterruptSource::CdRom => 0x004,
            InterruptSource::Dma => 0x008,
            InterruptSource::Timer0 => 0x010,
            InterruptSource::Timer1 => 0x020,
            InterruptSource::Timer2 => 0x040,
            InterruptSource::Controller => 0x080,
            InterruptSource::Sio => 0x100,
            InterruptSource::Spu => 0x200,
            InterruptSource::LightPen => 0x400,
        }
    }

    /// Returns the source's register bit.
    pub fn bit(self) -> (result: u16)
        ensures
            result == self.mask(),
    {
        match self {
            InterruptSource::VBlank => 0x001,
            InterruptSource::Gpu => 0x002,
            InterruptSource::CdRom => 0x004,
            InterruptSource::Dma => 0x008,
            InterruptSource::Timer0 => 0x010,
            InterruptSource::Timer1 => 0x020,
            InterruptSource::Timer2 => 0x040,
            InterruptSource::Controller => 0x080,
            InterruptSource::Sio => 0x100,
            InterruptSource::Spu => 0x200,
            InterruptSource::LightPen => 0x400,
        }
    }
}

/// Invalid interrupt-controller register access.
#[derive(Clone, Copy, Debug, PartialEq, Eq, Structural)]
pub enum IrqError {
    /// Address is not a modeled interrupt register.
    InvalidRegister {
        /// Physical address supplied by the machine.
        address: u32,
    },
}

/// Instance-owned PS1 interrupt controller.
///
/// Pulsed sources latch their status bit until acknowledged. Level sources are
/// also latched and immediately reassert if software acknowledges them while
/// the producer's level remains high.
#[derive(Clone, Copy, Debug, PartialEq, Eq, Structural)]
pub struct InterruptController {
    pub status: u16,
    pub mask: u16,
    pub levels: u16,
}

impl Default for InterruptController {
    fn default() -> (result: Self)
        ensures
            result == (InterruptController { status: 0, mask: 0, levels: 0 }),
    {
        Self::new()
    }
}

impl InterruptController {
    /// The state after a pulse from `source`.
    pub open spec fn requested(self, source: InterruptSource) -> InterruptController {
        InterruptController { status: self.status | source.mask(), ..self }
    }

    /// The state after an acknowledgement.
    pub open spec fn acknowledged(self, value: u16) -> InterruptController {
        InterruptController { status: (self.status & value & VALID_BITS) | self.levels, ..self }
    }

    /// The state after a mask write.
    pub open spec fn masked(self, value: u16) -> InterruptController {
        InterruptController { mask: value & VALID_BITS, ..self }
    }

    /// The state after a producer changes its level.
    pub open spec fn leveled(self, source: InterruptSource, asserted: bool) -> InterruptController {
        if asserted {
            InterruptController {
                levels: self.levels | source.mask(),
                status: self.status | source.mask(),
                ..self
            }
        } else {
            InterruptController { levels: self.levels & !source.mask(), ..self }
        }
    }

    /// Constructs a reset controller with every source masked.
    pub fn new() -> (result: Self)
        ensures
            result == (InterruptController { status: 0, mask: 0, levels: 0 }),
    {
        Self { status: 0, mask: 0, levels: 0 }
    }

    /// Latches a pulse from one source.
    pub fn request(&mut self, source: InterruptSource)
        ensures
            *final(self) == old(self).requested(source),
    {
        self.status = self.status | source.bit();
    }

    /// Changes a producer's level and latches a rising or currently high level.
    pub fn set_level(&mut self, source: InterruptSource, asserted: bool)
        ensures
            *final(self) == old(self).leveled(source, asserted),
    {
        let bit: u16 = source.bit();
        if asserted {
            self.levels = self.levels | bit;
            self.status = self.status | bit;
        } else {
            self.levels = self.levels & !bit;
        }
    }

    /// Returns the latched status register.
    pub fn status(&self) -> (result: u16)
        ensures
            result == self.status,
    {
        self.status
    }

    /// Returns the source mask register.
    pub fn mask(&self) -> (result: u16)
        ensures
            result == self.mask,
    {
        self.mask
    }

    /// Reports whether the R3000 external interrupt line is asserted.
    pub fn pending(&self) -> (result: bool)
        ensures
            result == (self.status & self.mask != 0),
    {
        self.status & self.mask != 0
    }

    /// Applies PS1 `I_STAT` acknowledgement semantics: zero clears, one keeps.
    pub fn acknowledge(&mut self, value: u16)
        ensures
            *final(self) == old(self).acknowledged(value),
    {
        self.status = (self.status & value & VALID_BITS) | self.levels;
    }

    /// Replaces the implemented bits of `I_MASK`.
    pub fn set_mask(&mut self, value: u16)
        ensures
            *final(self) == old(self).masked(value),
    {
        self.mask = value & VALID_BITS;
    }

    /// Reads a 32-bit interrupt-controller register.
    pub fn read(&self, address: u32) -> (result: Result<u32, IrqError>)
        ensures
            result == if address == I_STAT {
                Ok(self.status as u32)
            } else if address == I_MASK {
                Ok(self.mask as u32)
            } else {
                Err(IrqError::InvalidRegister { address })
            },
            address == 0x1f80_1070 ==> result == Ok::<u32, IrqError>(self.status as u32),
            address == 0x1f80_1074 ==> result == Ok::<u32, IrqError>(self.mask as u32),
            address != 0x1f80_1070 && address != 0x1f80_1074 ==> result is Err,
    {
        match address {
            I_STAT => Ok(u32::from(self.status)),
            I_MASK => Ok(u32::from(self.mask)),
            _ => Err(IrqError::InvalidRegister { address }),
        }
    }

    /// Writes a 32-bit interrupt-controller register.
    pub fn write(&mut self, address: u32, value: u32) -> (result: Result<(), IrqError>)
        ensures
            result == if address == I_STAT || address == I_MASK {
                Ok(())
            } else {
                Err(IrqError::InvalidRegister { address })
            },
            *final(self) == if address == I_STAT {
                old(self).acknowledged(low_half(value))
            } else if address == I_MASK {
                old(self).masked(low_half(value))
            } else {
                *old(self)
            },
            final(self).levels == old(self).levels,
            address == 0x1f80_1070 ==> final(self).mask == old(self).mask,
            address == 0x1f80_1074 ==> final(self).status == old(self).status,
            address != 0x1f80_1070 && address != 0x1f80_1074 ==> *final(self) == *old(self)
                && result is Err,
    {
        let (low, _) = halves(value);
        match address {
            I_STAT => self.acknowledge(low),
            I_MASK => self.set_mask(low),
            _ => {
                return Err(IrqError::InvalidRegister { address });
            },
        }
        Ok(())
    }
}

proof fn lemma_latch_bits(status: u16, levels: u16, mask: u16, value: u16, bit: u16)
    by (bit_vector)
    requires
        bit == 1 || bit == 2 || bit == 4 || bit == 8 || bit == 0x10 || bit == 0x20 || bit == 0x40
            || bit == 0x80 || bit == 0x100 || bit == 0x200 || bit == 0x400,
    ensures
        ((status & value & 0x7ff) | levels) & bit != 0 <==> levels & bit != 0 || (status & bit != 0
            && value & bit != 0),
        (status | bit) & bit != 0,
        (status | bit) & mask != 0 <==> status & mask != 0 || mask & bit != 0,
        (levels & !bit) & bit == 0,
{
}

/// An acknowledgement clears exactly the latched sources whose bit is zero and
/// whose level is not asserted.
pub proof fn law_zero_acknowledges(
    controller: InterruptController,
    value: u16,
    source: InterruptSource,
)
    ensures
        controller.acknowledged(value).status & source.mask() != 0 <==> controller.levels
            & source.mask() != 0 || (controller.status & source.mask() != 0 && value
            & source.mask() != 0),
        controller.acknowledged(value).mask == controller.mask,
{
    lemma_latch_bits(controller.status, controller.levels, 0, value, source.mask());
}

/// An asserted level survives every acknowledgement and is cleared only by one
/// after the producer dropped it.
pub proof fn law_level_reasserts(
    controller: InterruptController,
    source: InterruptSource,
    value: u16,
)
    ensures
        controller.leveled(source, true).acknowledged(value).status & source.mask() != 0,
        value & source.mask() == 0 ==> controller.leveled(source, false).acknowledged(value).status
            & source.mask() == 0,
{
    let high = controller.leveled(source, true);
    let low = controller.leveled(source, false);
    lemma_latch_bits(high.status, high.levels, 0, value, source.mask());
    lemma_latch_bits(controller.levels, controller.levels, 0, value, source.mask());
    lemma_latch_bits(low.status, low.levels, 0, value, source.mask());
}

/// A request asserts the CPU line if and only if it was asserted or the source is
/// unmasked, and the mask never changes what is latched.
pub proof fn law_mask_gates_line(
    controller: InterruptController,
    source: InterruptSource,
    value: u16,
)
    ensures
        controller.requested(source).status & controller.mask != 0 <==> controller.status
            & controller.mask != 0 || controller.mask & source.mask() != 0,
        controller.requested(source).status & source.mask() != 0,
        controller.masked(value).status == controller.status,
{
    lemma_latch_bits(
        controller.status,
        controller.levels,
        controller.mask,
        value,
        source.mask(),
    );
}

} // verus!
