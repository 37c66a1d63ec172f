//! PS2 IOP primary interrupt status, mask, and CPU-line behavior.

use vstd::prelude::*;

verus! {

/// Physical address of the IOP interrupt status register.
pub const I_STAT: u32 = 0x1f80_1070;

/// Physical address of the IOP interrupt mask register.
pub const I_MASK: u32 = 0x1f80_1074;

/// The implemented bits of both registers.
pub const VALID_BITS: u32 = 0x03ff_ffff;

/// A primary IOP hardware interrupt source.
#[derive(Clone, Copy, Debug, PartialEq, Eq, PartialOrd, Ord, Hash, Structural)]
pub enum InterruptSource {
    /// Start of vertical blank.
    VBlank,
    /// Sub-bus interrupt.
    SBus,
    /// CD/DVD controller interrupt.
    Cdvd,
    /// Aggregate interrupt from the first and second DMA controllers.
    Dma,
    /// Counter 0 interrupt.
    Timer0,
    /// Counter 1 interrupt.
    Timer1,
    /// Counter 2 interrupt.
    Timer2,
    /// First serial controller interrupt.
    Sio0,
    /// Second serial controller interrupt.
    Sio1,
    /// SPU2 address interrupt.
    Spu2,
    /// Parallel port interrupt.
    Pio,
    /// End of vertical blank.
    VBlankEnd,
    /// DVD interrupt.
    Dvd,
    /// Expansion/DEV9 interrupt.
    Dev9,
    /// Counter 3 interrupt.
    Timer3,
    /// Counter 4 interrupt.
    Timer4,
    /// Counter 5 interrupt.
    Timer5,
    /// SIO2 interrupt.
    Sio2,
    /// Hold timer 0 interrupt.
    Hold0,
    /// Hold timer 1 interrupt.
    Hold1,
    /// Hold timer 2 interrupt.
    Hold2,
    /// Hold timer 3 interrupt.
    Hold3,
    /// USB controller interrupt.
    Usb,
    /// Expansion interface interrupt.
    Expansion,
    /// IEEE-1394 interrupt.
    ILink,
    /// IEEE-1394 DMA interrupt.
    FireWireDma,
}

impl InterruptSource {
    /// The bit number of a source.
    pub open spec fn index(self) -> u8 {
        match self {
            InterruptSource::VBlank => 0,
            InterruptSource::SBus => 1,
            InterruptSource::Cdvd => 2,
            InterruptSource::Dma => 3,
            InterruptSource::Timer0 => 4,
            InterruptSource::Timer1 => 5,
            InterruptSource::Timer2 => 6,
            InterruptSource::Sio0 => 7,
            InterruptSource::Sio1 => 8,
            InterruptSource::Spu2 => 9,
            InterruptSource::Pio => 10,
            InterruptSource::VBlankEnd => 11,
            InterruptSource::Dvd => 12,
            InterruptSource::Dev9 => 13,
            InterruptSource::Timer3 => 14,
            InterruptSource::Timer4 => 15,
            InterruptSource::Timer5 => 16,
            InterruptSource::Sio2 => 17,
            InterruptSource::Hold0 => 18,
            InterruptSource::Hold1 => 19,
            InterruptSource::Hold2 => 20,
            InterruptSource::Hold3 => 21,
            InterruptSource::Usb => 22,
            InterruptSource::Expansion => 23,
            InterruptSource::ILink => 24,
            InterruptSource::FireWireDma => 25,
        }
    }

    /// The register bit of a source.
    pub open spec fn mask(self) -> u32 {
        1u32 << (self.index() as u32)
    }

    /// Returns the source's register bit.
    pub fn bit(self) -> (result: u32)
        ensures
            result == self.mask(),
    {
        1u32 << self.number()
    }

    fn number(self) -> (result: u32)
        ensures
            result == self.index(),
            result < 26,
    {
        match self {
            InterruptSource::VBlank => 0,
            InterruptSource::SBus => 1,
            InterruptSource::Cdvd => 2,
            InterruptSource::Dma => 3,
            InterruptSource::Timer0 => 4,
            InterruptSource::Timer1 => 5,
            InterruptSource::Timer2 => 6,
            InterruptSource::Sio0 => 7,
            InterruptSource::Sio1 => 8,
            InterruptSource::Spu2 => 9,
            InterruptSource::Pio => 10,
            InterruptSource::VBlankEnd => 11,
            InterruptSource::Dvd => 12,
            InterruptSource::Dev9 => 13,
            InterruptSource::Timer3 => 14,
            InterruptSource::Timer4 => 15,
            InterruptSource::Timer5 => 16,
            InterruptSource::Sio2 => 17,
            InterruptSource::Hold0 => 18,
            InterruptSource::Hold1 => 19,
            InterruptSource::Hold2 => 20,
            InterruptSource::Hold3 => 21,
            InterruptSource::Usb => 22,
            InterruptSource::Expansion => 23,
            InterruptSource::ILink => 24,
            InterruptSource::FireWireDma => 25,
        }
    }

    /// Converts one implemented bit number.
    pub fn from_index(index: u8) -> (result: Option<Self>)
        ensures
            match result {
                Some(source) => source.index() == index,
                None => index >= 26,
            },
    {
        match index {
            0 => Some(InterruptSource::VBlank),
            1 => Some(InterruptSource::SBus),
            2 => Some(InterruptSource::Cdvd),
            3 => Some(InterruptSource::Dma),
            4 => Some(InterruptSource::Timer0),
            5 => Some(InterruptSource::Timer1),
            6 => Some(InterruptSource::Timer2),
            7 => Some(InterruptSource::Sio0),
            8 => Some(InterruptSource::Sio1),
            9 => Some(InterruptSource::Spu2),
            10 => Some(InterruptSource::Pio),
            11 => Some(InterruptSource::VBlankEnd),
            12 => Some(InterruptSource::Dvd),
            13 => Some(InterruptSource::Dev9),
            14 => Some(InterruptSource::Timer3),
            15 => Some(InterruptSource::Timer4),
            16 => Some(InterruptSource::Timer5),
            17 => Some(InterruptSource::Sio2),
            18 => Some(InterruptSource::Hold0),
            19 => Some(InterruptSource::Hold1),
            20 => Some(InterruptSource::Hold2),
            21 => Some(InterruptSource::Hold3),
            22 => Some(InterruptSource::Usb),
            23 => Some(InterruptSource::Expansion),
            24 => Some(InterruptSource::ILink),
            25 => Some(InterruptSource::FireWireDma),
            _ => None,
        }
    }
}

/// Typed interrupt input used by independently composable devices.
pub trait InterruptSink: Sized {
    /// Taking a pulse from `source` may leave `after`.
    open spec fn requested(before: Self, source: InterruptSource, after: Self) -> bool {
        true
    }

    /// Taking a level change of `source` may leave `after`.
    open spec fn leveled(
        before: Self,
        source: InterruptSource,
        asserted: bool,
        after: Self,
    ) -> bool {
        true
    }

    /// Latches a pulse from one primary IOP source.
    fn request(&mut self, source: InterruptSource)
        ensures
            Self::requested(*old(self), source, *final(self)),
    ;

    /// Changes a level-sensitive source.
    fn set_level(&mut self, source: InterruptSource, asserted: bool)
        ensures
            Self::leveled(*old(self), source, asserted, *final(self)),
    ;
}

/// Invalid IOP interrupt-controller access.
#[derive(Clone, Copy, Debug, PartialEq, Eq, Structural)]
pub struct IrqError {
    /// Physical address supplied by the machine.
    pub address: u32,
}

/// Instance-owned IOP interrupt controller.
#[derive(Clone, Copy, Debug, PartialEq, Eq, Structural)]
pub struct InterruptController {
    pub status: u32,
    pub mask: u32,
    pub levels: u32,
}

impl Default for InterruptController {
    fn default() -> (result: Self)
        ensures
            result == (InterruptController { status: 0, mask: 0, levels: 0 }),
            result.wf(),
    {
        Self::new()
    }
}

impl InterruptController {
    /// Every register holds implemented bits only.
    pub open spec fn wf(self) -> bool {
        &&& self.status & !VALID_BITS == 0
        &&& self.mask & !VALID_BITS == 0
        &&& self.levels & !VALID_BITS == 0
    }

    /// The state after a pulse from `source`.
    pub open spec fn pulsed(self, source: InterruptSource) -> InterruptController {
        InterruptController { status: self.status | source.mask(), ..self }
    }

    /// The state after a producer changes its level.
    pub open spec fn with_level(
        self,
        source: InterruptSource,
        asserted: bool,
    ) -> InterruptController {
        if asserted {
            InterruptController {
                levels: self.levels | source.mask(),
                status: self.status | source.mask(),
                ..self
            }
        } else {
            InterruptController { levels: self.levels & !source.mask(), ..self }
        }
    }

    /// The state after an acknowledgement.
    pub open spec fn acknowledged(self, value: u32) -> InterruptController {
        InterruptController { status: (self.status & (value & VALID_BITS)) | self.levels, ..self }
    }

    /// The state after a mask write.
    pub open spec fn masked(self, value: u32) -> InterruptController {
        InterruptController { mask: value & VALID_BITS, ..self }
    }

    /// Constructs reset state with all sources masked.
    pub fn new() -> (result: Self)
        ensures
            result == (InterruptController { status: 0, mask: 0, levels: 0 }),
            result.wf(),
    {
        proof {
            lemma_implemented_bits(0, 0, 0, 0);
        }
        Self { status: 0, mask: 0, levels: 0 }
    }

    /// Returns the latched status register.
    pub fn status(&self) -> (result: u32)
        ensures
            result == self.status,
    {
        self.status
    }

    /// Returns the source mask register.
    pub fn mask(&self) -> (result: u32)
        ensures
            result == self.mask,
    {
        self.mask
    }

    /// Returns enabled, latched sources.
    pub fn pending_bits(&self) -> (result: u32)
        ensures
            result == self.status & self.mask,
    {
        self.status & self.mask
    }

    /// Returns the lowest-numbered enabled, latched source.
    pub fn first_pending(&self) -> (result: Option<InterruptSource>)
        requires
            self.wf(),
        ensures
            match result {
                Some(source) => {
                    &&& (self.status & self.mask) & source.mask() != 0
                    &&& forall|other: InterruptSource|
                        other.index() < source.index() ==> (self.status & self.mask)
                            & #[trigger] other.mask() == 0
                },
                None => self.status & self.mask == 0,
            },
    {
        let bits: u32 = self.pending_bits();
        if bits == 0 {
            return None;
        }
        let lowest: u32 = bits.trailing_zeros();
        proof {
            vstd::std_specs::bits::axiom_u32_trailing_zeros(bits);
            lemma_lowest_bit(self.status, self.mask, bits, lowest);
            lemma_tested_bit(bits, lowest);
            assert forall|other: InterruptSource| other.index() < lowest implies bits
                & #[trigger] other.mask() == 0 by {
                lemma_tested_bit(bits, other.index() as u32);
            }
        }
        InterruptSource::from_index(lowest as u8)
    }

    /// Reports whether the R3000 external interrupt line is asserted.
    pub fn pending(&self) -> (result: bool)
        ensures
            result == (self.status & self.mask != 0),
    {
        self.pending_bits() != 0
    }

    /// Applies IOP `I_STAT` acknowledgement semantics: zero clears, one keeps.
    pub fn acknowledge(&mut self, value: u32)
        ensures
            *final(self) == old(self).acknowledged(value),
            old(self).wf() ==> final(self).wf(),
    {
        proof {
            lemma_implemented_bits(self.status, self.levels, value, 0);
        }
        self.status = (self.status & (value & VALID_BITS)) | self.levels;
    }

    /// Replaces the implemented bits of `I_MASK`.
    pub fn set_mask(&mut self, value: u32)
        ensures
            *final(self) == old(self).masked(value),
            old(self).wf() ==> final(self).wf(),
    {
        proof {
            lemma_implemented_bits(self.status, self.levels, value, 0);
        }
        self.mask = value & VALID_BITS;
    }

    /// Reads a primary interrupt register.
    pub fn read(&self, address: u32) -> (result: Result<u32, IrqError>)
        ensures
            result == if address == I_STAT {
                Ok(self.status)
            } else if address == I_MASK {
                Ok(self.mask)
            } else {
                Err(IrqError { address })
            },
            address == 0x1f80_1070 ==> result == Ok::<u32, IrqError>(self.status),
            address == 0x1f80_1074 ==> result == Ok::<u32, IrqError>(self.mask),
            address != 0x1f80_1070 && address != 0x1f80_1074 ==> result is Err,
    {
        match address {
            I_STAT => Ok(self.status),
            I_MASK => Ok(self.mask),
            _ => Err(IrqError { address }),
        }
    }

    /// Writes a primary interrupt register.
    pub fn write(&mut self, address: u32, value: u32) -> (result: Result<(), IrqError>)
        ensures
            result == if address == I_STAT || address == I_MASK {
                Ok(())
            } else {
                Err(IrqError { address })
            },
            *final(self) == if address == I_STAT {
                old(self).acknowledged(value)
            } else if address == I_MASK {
                old(self).masked(value)
            } else {
                *old(self)
            },
            old(self).wf() ==> final(self).wf(),
            final(self).levels == old(self).levels,
            address == 0x1f80_1070 ==> final(self).mask == old(self).mask,
            address == 0x1f80_1074 ==> final(self).status == old(self).status,
            address != 0x1f80_1070 && address != 0x1f80_1074 ==> *final(self) == *old(self)
                && result is Err,
    {
        match address {
            I_STAT => self.acknowledge(value),
            I_MASK => self.set_mask(value),
            _ => {
                return Err(IrqError { address });
            },
        }
        Ok(())
    }
}

impl InterruptSink for InterruptController {
    open spec fn requested(before: Self, source: InterruptSource, after: Self) -> bool {
        &&& after == before.pulsed(source)
        &&& before.wf() ==> after.wf()
    }

    open spec fn leveled(
        before: Self,
        source: InterruptSource,
        asserted: bool,
        after: Self,
    ) -> bool {
        &&& after == before.with_level(source, asserted)
        &&& before.wf() ==> after.wf()
    }

    fn request(&mut self, source: InterruptSource) {
        proof {
            lemma_implemented_bits(self.status, self.levels, 0, source.index() as u32);
        }
        self.status = self.status | source.bit();
    }

    fn set_level(&mut self, source: InterruptSource, asserted: bool) {
        proof {
            lemma_implemented_bits(self.status, self.levels, 0, source.index() as u32);
        }
        let bit: u32 = source.bit();
        if asserted {
            self.levels = self.levels | bit;
            self.status = self.status | bit;
        } else {
            self.levels = self.levels & !bit;
        }
    }
}

proof fn lemma_implemented_bits(status: u32, levels: u32, value: u32, index: u32)
    by (bit_vector)
    requires
        index < 26,
    ensures
        0u32 & !VALID_BITS == 0,
        (value & VALID_BITS) & !VALID_BITS == 0,
        levels & !VALID_BITS == 0 ==> ((status & (value & VALID_BITS)) | levels) & !VALID_BITS == 0,
        status & !VALID_BITS == 0 ==> (status | (1u32 << index)) & !VALID_BITS == 0,
        levels & !VALID_BITS == 0 ==> (levels | (1u32 << index)) & !VALID_BITS == 0,
        levels & !VALID_BITS == 0 ==> (levels & !(1u32 << index)) & !VALID_BITS == 0,
{
}

proof fn lemma_lowest_bit(status: u32, mask: u32, bits: u32, lowest: u32)
    by (bit_vector)
    requires
        mask & !VALID_BITS == 0,
        bits == status & mask,
        bits != 0,
        (bits >> lowest) & 1 == 1,
    ensures
        lowest < 26,
{
}

proof fn lemma_tested_bit(bits: u32, index: u32)
    by (bit_vector)
    requires
        index < 32,
    ensures
        (bits >> index) & 1 == 1 <==> bits & (1u32 << index) != 0,
        (bits >> index) & 1 == 0 <==> bits & (1u32 << index) == 0,
{
}

proof fn lemma_latch_bits(status: u32, levels: u32, mask: u32, value: u32, index: u32)
    by (bit_vector)
    requires
        index < 26,
    ensures
        ((status & (value & VALID_BITS)) | levels) & (1u32 << index) != 0 <==> levels & (1u32
            << index) != 0 || (status & (1u32 << index) != 0 && value & (1u32 << index) != 0),
        (status | (1u32 << index)) & (1u32 << index) != 0,
        (status | (1u32 << index)) & mask != 0 <==> status & mask != 0 || mask & (1u32 << index)
            != 0,
        (levels & !(1u32 << index)) & (1u32 << index) == 0,
{
}

proof fn lemma_independent_bits(status: u32, left: u32, right: u32)
    by (bit_vector)
    requires
        left < 26,
        right < 26,
        left != right,
    ensures
        (status | (1u32 << left)) & (1u32 << right) == status & (1u32 << right),
        (status & !(1u32 << left)) & (1u32 << right) == status & (1u32 << right),
{
}

/// Every source has a bit of its own: a pulse or level of one source latches that
/// source and changes no other.
pub proof fn law_sources_are_independent(
    controller: InterruptController,
    source: InterruptSource,
    other: InterruptSource,
    asserted: bool,
)
    requires
        source != other,
    ensures
        source.mask() != other.mask(),
        controller.pulsed(source).status & source.mask() != 0,
        controller.pulsed(source).status & other.mask() == controller.status & other.mask(),
        controller.with_level(source, asserted).status & other.mask() == controller.status
            & other.mask(),
        controller.with_level(source, asserted).levels & other.mask() == controller.levels
            & other.mask(),
{
    lemma_independent_bits(controller.status, source.index() as u32, other.index() as u32);
    lemma_independent_bits(controller.levels, source.index() as u32, other.index() as u32);
    lemma_independent_bits(0, source.index() as u32, other.index() as u32);
    lemma_latch_bits(controller.status, 0, 0, 0, source.index() as u32);
    lemma_latch_bits(0, 0, 0, 0, source.index() as u32);
}

/// An acknowledgement clears exactly the latched sources whose bit is zero and
/// whose level is not asserted.
pub proof fn law_zero_acknowledges(
    controller: InterruptController,
    value: u32,
    source: InterruptSource,
)
    ensures
        controller.acknowledged(value).status & source.mask() != 0 <==> controller.levels
            & source.mask() != 0 || (controller.status & source.mask() != 0 && value
            & source.mask() != 0),
        controller.acknowledged(value).mask == controller.mask,
{
    lemma_latch_bits(
        controller.status,
        controller.levels,
        0,
        value,
        source.index() as u32,
    );
}

/// An asserted level survives every acknowledgement, and one that was dropped is
/// cleared by a zero.
pub proof fn law_level_reasserts(
    controller: InterruptController,
    source: InterruptSource,
    value: u32,
)
    ensures
        controller.with_level(source, true).acknowledged(value).status & source.mask() != 0,
        value & source.mask() == 0 ==> controller.with_level(source, false).acknowledged(
            value,
        ).status & source.mask() == 0,
{
    let high = controller.with_level(source, true);
    let low = controller.with_level(source, false);
    let index = source.index() as u32;
    lemma_latch_bits(high.status, high.levels, 0, value, index);
    lemma_latch_bits(controller.levels, controller.levels, 0, value, index);
    lemma_latch_bits(low.status, low.levels, 0, value, index);
}

/// A request asserts the CPU line if and only if it was asserted or the source is
/// unmasked, and the mask never changes what is latched.
pub proof fn law_mask_gates_line(
    controller: InterruptController,
    source: InterruptSource,
    value: u32,
)
    ensures
        controller.pulsed(source).status & controller.mask != 0 <==> controller.status
            & controller.mask != 0 || controller.mask & source.mask() != 0,
        controller.pulsed(source).status & source.mask() != 0,
        controller.masked(value).status == controller.status,
{
    lemma_latch_bits(
        controller.status,
        controller.levels,
        controller.mask,
        value,
        source.index() as u32,
    );
}

} // verus!
