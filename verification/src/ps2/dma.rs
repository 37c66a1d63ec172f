//! PS2 IOP DMA register banks with SPU2 channels 4 and 7.

use std::collections::VecDeque;

use vstd::prelude::*;

use crate::arrays::with;
use crate::bits::wrap32;
use crate::bytes::{
    halves, high_half, join_halves, low_half, read_word, word_of, write_word,
};
use crate::clock::{ClockError, Deadline, Ticks};
use crate::ps2::irq::{InterruptSink, InterruptSource};
use crate::ps2::memory::{IopMemory, MemoryContents, RAM_SIZE};
use crate::scheduler::{
    lemma_not_later_bound, not_later, DueEvent, EventId, Queue, Scheduler, SchedulerError,
};
use crate::text::{address_text, push_address};
use crate::trace::{chain, lemma_chain_concat, lemma_chain_push};
use crate::transfer::{
    in_ram, incoming, outgoing, programmed_words, range_fits, sync_mode, sync_of, transfer_address,
    word_address, words_of, MAX_RAM_WORDS,
};

verus! {

/// First register of DMA channel 0.
pub const DMA1_CHANNEL_START: u32 = 0x1f80_1080;

/// Last channel-register word in the first DMA bank.
pub const DMA1_CHANNEL_END: u32 = 0x1f80_10ec;

/// First register of DMA channel 7.
pub const DMA2_CHANNEL_START: u32 = 0x1f80_1500;

/// Last channel-register word in the second DMA bank.
pub const DMA2_CHANNEL_END: u32 = 0x1f80_155c;

/// First of the three extended control registers.
pub const EXTENDED_START: u32 = 0x1f80_1560;

/// Last of the three extended control registers.
pub const EXTENDED_END: u32 = 0x1f80_1568;

/// DMA priority control for channels 0 through 6.
pub const DPCR1: u32 = 0x1f80_10f0;

/// DMA interrupt control for channels 0 through 6.
pub const DICR1: u32 = 0x1f80_10f4;

/// DMA priority control for channels 7 through 12.
pub const DPCR2: u32 = 0x1f80_1570;

/// DMA interrupt control for channels 7 through 12.
pub const DICR2: u32 = 0x1f80_1574;

/// Second DMA controller enable register.
pub const DMAC_ENABLE: u32 = 0x1f80_1578;

/// Channel 4 memory address register.
pub const D4_MADR: u32 = 0x1f80_10c0;

/// Channel 4 block control register.
pub const D4_BCR: u32 = 0x1f80_10c4;

/// Channel 4 channel control register.
pub const D4_CHCR: u32 = 0x1f80_10c8;

/// Channel 7 memory address register.
pub const D7_MADR: u32 = 0x1f80_1500;

/// Channel 7 block control register.
pub const D7_BCR: u32 = 0x1f80_1504;

/// Channel 7 channel control register.
pub const D7_CHCR: u32 = 0x1f80_1508;

/// Number of the scheduler identity for channel 4 completion.
pub const CHANNEL4_EVENT: u32 = 0x0204_0004;

/// Number of the scheduler identity for channel 7 completion.
pub const CHANNEL7_EVENT: u32 = 0x0207_0007;

/// The implemented bits of a memory address register.
pub const RAM_ADDRESS_MASK: u32 = 0x00ff_fffc;

/// RAM-to-device direction bit in `CHCR`.
pub const CHCR_DIRECTION_FROM_RAM: u32 = 0x1;

/// Downward address bit in `CHCR`.
pub const CHCR_DECREMENT: u32 = 0x2;

/// Start bit in `CHCR`.
pub const CHCR_START: u32 = 0x100_0000;

/// Reset value of the first priority control register.
pub const DPCR1_RESET: u32 = 0x0765_4321;

/// Channel 4 enable bit in `DPCR1`.
pub const CHANNEL4_ENABLE: u32 = 0x8_0000;

/// Channel 7 enable bit in `DPCR2`.
pub const CHANNEL7_ENABLE: u32 = 0x8;

/// Forced interrupt bit in `DICR1`.
pub const DICR_FORCE: u32 = 0x8000;

/// Master interrupt enable bit in `DICR1`.
pub const DICR_MASTER_ENABLE: u32 = 0x0080_0000;

/// Aggregate interrupt flag bit of both interrupt control registers.
pub const DICR_MASTER_FLAG: u32 = 0x8000_0000;

/// The control bits of `DICR1`.
pub const DICR1_CONTROL: u32 = 0x00ff_ffff;

/// The channel flags of `DICR1`.
pub const DICR1_FLAGS: u32 = 0x7f00_0000;

/// The control bits of `DICR2`.
pub const DICR2_CONTROL: u32 = 0x003f_ffff;

/// The channel flags of `DICR2`.
pub const DICR2_FLAGS: u32 = 0x3f00_0000;

/// Channel 4 flag in `DICR1`.
pub const CHANNEL4_FLAG: u32 = 0x1000_0000;

/// Channel 7 flag in `DICR2`.
pub const CHANNEL7_FLAG: u32 = 0x0100_0000;

/// Cycles from the start of a transfer to its completion: sound payloads become
/// visible atomically at the next scheduler boundary.
pub const COMPLETION_CYCLES: u64 = 0;

/// First SPU2 register.
pub const SOUND_REGISTER_START: u32 = 0x1f90_0000;

/// Last SPU2 register.
pub const SOUND_REGISTER_END: u32 = 0x1f90_07fe;

/// SPU2 core selected by an IOP DMA channel.
#[derive(Clone, Copy, Debug, PartialEq, Eq, PartialOrd, Ord, Hash, Structural)]
pub enum SoundDmaChannel {
    /// Channel 4, feeding SPU2 core 0.
    Core0,
    /// Channel 7, feeding SPU2 core 1.
    Core1,
}

impl SoundDmaChannel {
    /// The number of the SPU2 core.
    pub open spec fn core_number(self) -> int {
        match self {
            SoundDmaChannel::Core0 => 0,
            SoundDmaChannel::Core1 => 1,
        }
    }

    /// The number of the DMA channel.
    pub open spec fn channel_number(self) -> int {
        match self {
            SoundDmaChannel::Core0 => 4,
            SoundDmaChannel::Core1 => 7,
        }
    }

    /// The identity of the completion event.
    pub open spec fn event_id(self) -> EventId {
        match self {
            SoundDmaChannel::Core0 => EventId { number: CHANNEL4_EVENT },
            SoundDmaChannel::Core1 => EventId { number: CHANNEL7_EVENT },
        }
    }

    fn core_index(self) -> (result: usize)
        ensures
            result == self.core_number(),
            result < 2,
    {
        match self {
            SoundDmaChannel::Core0 => 0,
            SoundDmaChannel::Core1 => 1,
        }
    }

    fn channel(self) -> (result: usize)
        ensures
            result == self.channel_number(),
            result < 13,
    {
        match self {
            SoundDmaChannel::Core0 => 4,
            SoundDmaChannel::Core1 => 7,
        }
    }

    fn event(self) -> (result: EventId)
        ensures
            result == self.event_id(),
    {
        match self {
            SoundDmaChannel::Core0 => EventId::new(CHANNEL4_EVENT),
            SoundDmaChannel::Core1 => EventId::new(CHANNEL7_EVENT),
        }
    }
}

/// Direction of one sound DMA transfer.
#[derive(Clone, Copy, Debug, PartialEq, Eq, Structural)]
pub enum DmaDirection {
    /// IOP RAM to SPU2.
    FromRam,
    /// SPU2 to IOP RAM.
    ToRam,
}

/// Hardware DMA event exposed to machine and BIOS layers.
#[derive(Clone, Copy, Debug, PartialEq, Eq, Structural)]
pub enum DmaEvent {
    /// A validated transfer was scheduled.
    Started {
        /// SPU2 core and DMA channel.
        channel: SoundDmaChannel,
        /// Transfer direction.
        direction: DmaDirection,
        /// Number of 32-bit words.
        words: u64,
        /// Exact completion timestamp.
        deadline: Deadline,
    },
    /// All words reached their destination.
    Completed {
        /// SPU2 core and DMA channel.
        channel: SoundDmaChannel,
        /// Transfer direction.
        direction: DmaDirection,
        /// Number of 32-bit words.
        words: u64,
    },
}

/// Observer used by machine and BIOS composition layers.
pub trait DmaObserver: Sized {
    /// Seeing `event` may leave `after`.
    open spec fn observed(before: Self, event: DmaEvent, after: Self) -> bool {
        true
    }

    /// Observes one DMA lifecycle event.
    fn observe(&mut self, event: DmaEvent)
        ensures
            Self::observed(*old(self), event, *final(self)),
    ;
}

impl DmaObserver for Vec<DmaEvent> {
    open spec fn observed(before: Self, event: DmaEvent, after: Self) -> bool {
        after@ == before@.push(event)
    }

    fn observe(&mut self, event: DmaEvent) {
        self.push(event);
    }
}

/// Observer which intentionally discards events.
#[derive(Clone, Copy, Debug, PartialEq, Eq, Default, Structural)]
pub struct NoopObserver;

impl DmaObserver for NoopObserver {
    open spec fn observed(before: Self, event: DmaEvent, after: Self) -> bool {
        after == before
    }

    fn observe(&mut self, _event: DmaEvent) {
    }
}

/// A sound endpoint rejected or failed one transfer word.
#[derive(Clone, Debug, PartialEq, Eq)]
pub struct EndpointError {
    pub message: String,
}

impl EndpointError {
    /// Constructs an endpoint diagnostic.
    pub fn new<M: Into<String>>(message: M) -> (result: Self)
        ensures
            call_ensures(<M as Into<String>>::into, (message,), result.message),
    {
        Self { message: message.into() }
    }

    /// Returns the diagnostic text.
    pub fn message(&self) -> (result: &str)
        ensures
            result@ == self.message@,
    {
        self.message.as_str()
    }
}

/// SPU2 transfer endpoint consumed independently by both sound channels.
pub trait Spu2DmaEndpoint: Sized {
    /// The device is in a state in which it can be used.
    open spec fn valid(self) -> bool {
        true
    }

    /// Offering `value` may end as `result` and leave `after`.
    open spec fn accepted(
        before: Self,
        channel: SoundDmaChannel,
        value: u32,
        result: Result<(), EndpointError>,
        after: Self,
    ) -> bool {
        true
    }

    /// Asking for a word may end as `result` and leave `after`.
    open spec fn supplied(
        before: Self,
        channel: SoundDmaChannel,
        result: Result<u32, EndpointError>,
        after: Self,
    ) -> bool {
        true
    }

    /// Accepts one little-endian word from IOP RAM.
    fn write_word(&mut self, channel: SoundDmaChannel, value: u32) -> (result: Result<
        (),
        EndpointError,
    >)
        requires
            old(self).valid(),
        ensures
            final(self).valid(),
            Self::accepted(*old(self), channel, value, result, *final(self)),
    ;

    /// Supplies one little-endian word for IOP RAM.
    fn read_word(&mut self, channel: SoundDmaChannel) -> (result: Result<u32, EndpointError>)
        requires
            old(self).valid(),
        ensures
            final(self).valid(),
            Self::supplied(*old(self), channel, result, *final(self)),
    ;
}

/// SPU2 register endpoint used by the IOP machine's sound MMIO router.
pub trait Spu2MmioEndpoint: Sized {
    /// The device is in a state in which it can be used.
    open spec fn ready(self) -> bool {
        true
    }

    /// A register read may end as `result` and leave `after`.
    open spec fn register_read(
        before: Self,
        address: u32,
        result: Result<u16, EndpointError>,
        after: Self,
    ) -> bool {
        true
    }

    /// A register write may end as `result` and leave `after`.
    open spec fn register_written(
        before: Self,
        address: u32,
        value: u16,
        result: Result<(), EndpointError>,
        after: Self,
    ) -> bool {
        true
    }

    /// Reads one aligned 16-bit SPU2 register.
    fn read_register(&mut self, address: u32) -> (result: Result<u16, EndpointError>)
        requires
            old(self).ready(),
        ensures
            final(self).ready(),
            Self::register_read(*old(self), address, result, *final(self)),
    ;

    /// Writes one aligned 16-bit SPU2 register.
    fn write_register(&mut self, address: u32, value: u16) -> (result: Result<(), EndpointError>)
        requires
            old(self).ready(),
        ensures
            final(self).ready(),
            Self::register_written(*old(self), address, value, result, *final(self)),
    ;
}

/// What one core of the standalone endpoint received and will supply.
#[derive(Clone, Debug, PartialEq, Eq)]
pub struct MockCore {
    pub written: Vec<u32>,
    pub readable: VecDeque<u32>,
}

/// Deterministic standalone SPU2 endpoint for DMA and machine tests.
#[derive(Clone, Debug, PartialEq, Eq)]
pub struct MockSpu2Endpoint {
    pub core0: MockCore,
    pub core1: MockCore,
    pub registers: Vec<u16>,
}

/// The contents of one core of the standalone endpoint.
#[verifier::ext_equal]
pub ghost struct MockQueues {
    pub written: Seq<u32>,
    pub readable: Seq<u32>,
}

impl View for MockCore {
    type V = MockQueues;

    open spec fn view(&self) -> MockQueues {
        MockQueues { written: self.written@, readable: self.readable@ }
    }
}

/// The contents of the standalone endpoint.
#[verifier::ext_equal]
pub ghost struct MockContents {
    pub core0: MockQueues,
    pub core1: MockQueues,
    pub registers: Seq<u16>,
}

impl View for MockSpu2Endpoint {
    type V = MockContents;

    open spec fn view(&self) -> MockContents {
        MockContents { core0: self.core0@, core1: self.core1@, registers: self.registers@ }
    }
}

impl MockContents {
    /// The contents of a core.
    pub open spec fn queues(self, channel: SoundDmaChannel) -> MockQueues {
        match channel {
            SoundDmaChannel::Core0 => self.core0,
            SoundDmaChannel::Core1 => self.core1,
        }
    }

    /// The contents with those of one core replaced.
    pub open spec fn with_core(self, channel: SoundDmaChannel, queues: MockQueues) -> MockContents {
        match channel {
            SoundDmaChannel::Core0 => MockContents { core0: queues, ..self },
            SoundDmaChannel::Core1 => MockContents { core1: queues, ..self },
        }
    }

    /// The contents after a word was written to a core.
    pub open spec fn with_written(self, channel: SoundDmaChannel, value: u32) -> MockContents {
        let queues = self.queues(channel);
        self.with_core(channel, MockQueues { written: queues.written.push(value), ..queues })
    }
}

/// The index of the register at an address.
pub open spec fn register_index(address: u32) -> Option<int> {
    if address % 2 == 0 && SOUND_REGISTER_START <= address <= SOUND_REGISTER_END {
        Some((address - SOUND_REGISTER_START) / 2)
    } else {
        None
    }
}

/// The diagnostic for an address that selects no register.
pub open spec fn register_fault(address: u32) -> Seq<char> {
    "invalid SPU2 register address "@ + address_text(address)
}

/// The diagnostic for an empty read queue.
pub open spec fn underflow_fault(channel: SoundDmaChannel) -> Seq<char> {
    match channel {
        SoundDmaChannel::Core0 => "SPU2 core 0 DMA read underflow"@,
        SoundDmaChannel::Core1 => "SPU2 core 1 DMA read underflow"@,
    }
}

impl Default for MockSpu2Endpoint {
    fn default() -> (result: Self)
        ensures
            result.wf(),
            result@ == MockContents::empty(),
    {
        let registers: Vec<u16> = vec![0u16;0x400];
        assert(registers@ =~= Seq::new(0x400, |i: int| 0u16));
        Self {
            core0: MockCore { written: Vec::new(), readable: VecDeque::new() },
            core1: MockCore { written: Vec::new(), readable: VecDeque::new() },
            registers,
        }
    }
}

impl MockContents {
    /// Nothing written, nothing to read, and zeroed registers.
    pub open spec fn empty() -> MockContents {
        let queues = MockQueues { written: Seq::empty(), readable: Seq::empty() };
        MockContents { core0: queues, core1: queues, registers: Seq::new(0x400, |i: int| 0u16) }
    }
}

impl MockSpu2Endpoint {
    /// The register file has its full size.
    pub open spec fn wf(self) -> bool {
        self.registers@.len() == 0x400
    }

    /// Constructs an empty endpoint.
    pub fn new() -> (result: Self)
        ensures
            result.wf(),
            result@ == MockContents::empty(),
    {
        Self::default()
    }

    /// Queues words returned by a later SPU2-to-IOP transfer.
    pub fn queue_read_words(&mut self, channel: SoundDmaChannel, words: &[u32])
        requires
            old(self).wf(),
        ensures
            final(self).wf(),
            final(self)@ == old(self)@.with_core(
                channel,
                MockQueues {
                    readable: old(self)@.queues(channel).readable + words@,
                    ..old(self)@.queues(channel)
                },
            ),
    {
        match channel {
            SoundDmaChannel::Core0 => queue_words(&mut self.core0.readable, words),
            SoundDmaChannel::Core1 => queue_words(&mut self.core1.readable, words),
        }
    }

    /// Returns words received by an IOP-to-SPU2 transfer.
    pub fn written_words(&self, channel: SoundDmaChannel) -> (result: &[u32])
        ensures
            result@ == self@.queues(channel).written,
    {
        match channel {
            SoundDmaChannel::Core0 => self.core0.written.as_slice(),
            SoundDmaChannel::Core1 => self.core1.written.as_slice(),
        }
    }
}

fn queue_words(queue: &mut VecDeque<u32>, words: &[u32])
    ensures
        final(queue)@ == old(queue)@ + words@,
{
    let mut index: usize = 0;
    while index < words.len()
        invariant
            index <= words@.len(),
            queue@ == old(queue)@ + words@.take(index as int),
        decreases words@.len() - index,
    {
        queue.push_back(words[index]);
        index += 1;
        assert(queue@ =~= old(queue)@ + words@.take(index as int));
    }
    assert(words@.take(index as int) =~= words@);
}

fn underflow(channel: SoundDmaChannel) -> (result: EndpointError)
    ensures
        result.message@ == underflow_fault(channel),
{
    EndpointError {
        message: String::from_str(
            match channel {
                SoundDmaChannel::Core0 => "SPU2 core 0 DMA read underflow",
                SoundDmaChannel::Core1 => "SPU2 core 1 DMA read underflow",
            },
        ),
    }
}

impl Spu2DmaEndpoint for MockSpu2Endpoint {
    open spec fn valid(self) -> bool {
        self.wf()
    }

    open spec fn accepted(
        before: Self,
        channel: SoundDmaChannel,
        value: u32,
        result: Result<(), EndpointError>,
        after: Self,
    ) -> bool {
        &&& result is Ok
        &&& after@ == before@.with_written(channel, value)
    }

    open spec fn supplied(
        before: Self,
        channel: SoundDmaChannel,
        result: Result<u32, EndpointError>,
        after: Self,
    ) -> bool {
        let queues = before@.queues(channel);
        if queues.readable.len() == 0 {
            &&& result matches Err(error) && error.message@ == underflow_fault(channel)
            &&& after@ == before@
        } else {
            &&& result == Ok::<u32, EndpointError>(queues.readable[0])
            &&& after@ == before@.with_core(
                channel,
                MockQueues { readable: queues.readable.drop_first(), ..queues },
            )
        }
    }

    fn write_word(&mut self, channel: SoundDmaChannel, value: u32) -> (result: Result<
        (),
        EndpointError,
    >) {
        match channel {
            SoundDmaChannel::Core0 => self.core0.written.push(value),
            SoundDmaChannel::Core1 => self.core1.written.push(value),
        }
        Ok(())
    }

    fn read_word(&mut self, channel: SoundDmaChannel) -> (result: Result<u32, EndpointError>) {
        let word = match channel {
            SoundDmaChannel::Core0 => self.core0.readable.pop_front(),
            SoundDmaChannel::Core1 => self.core1.readable.pop_front(),
        };
        match word {
            Some(value) => {
                assert(self@.queues(channel).readable =~= old(self)@.queues(
                    channel,
                ).readable.drop_first());
                Ok(value)
            },
            None => Err(underflow(channel)),
        }
    }
}

impl Spu2MmioEndpoint for MockSpu2Endpoint {
    open spec fn ready(self) -> bool {
        self.wf()
    }

    open spec fn register_read(
        before: Self,
        address: u32,
        result: Result<u16, EndpointError>,
        after: Self,
    ) -> bool {
        &&& after@ == before@
        &&& match register_index(address) {
            Some(index) => result == Ok::<u16, EndpointError>(before@.registers[index]),
            None => result matches Err(error) && error.message@ == register_fault(address),
        }
    }

    open spec fn register_written(
        before: Self,
        address: u32,
        value: u16,
        result: Result<(), EndpointError>,
        after: Self,
    ) -> bool {
        match register_index(address) {
            Some(index) => {
                &&& result is Ok
                &&& after@ == (MockContents {
                    registers: before@.registers.update(index, value),
                    ..before@
                })
            },
            None => {
                &&& result matches Err(error) && error.message@ == register_fault(address)
                &&& after@ == before@
            },
        }
    }

    fn read_register(&mut self, address: u32) -> (result: Result<u16, EndpointError>) {
        match sound_register_index(address) {
            Ok(index) => Ok(self.registers[index]),
            Err(error) => Err(error),
        }
    }

    fn write_register(&mut self, address: u32, value: u16) -> (result: Result<(), EndpointError>) {
        match sound_register_index(address) {
            Ok(index) => {
                self.registers[index] = value;
                Ok(())
            },
            Err(error) => Err(error),
        }
    }
}

fn sound_register_index(address: u32) -> (result: Result<usize, EndpointError>)
    ensures
        match result {
            Ok(index) => register_index(address) == Some(index as int) && index < 0x400,
            Err(error) => register_index(address) is None && error.message@ == register_fault(
                address,
            ),
        },
{
    if address % 2 != 0 || address < SOUND_REGISTER_START || address > SOUND_REGISTER_END {
        let mut message = String::from_str("invalid SPU2 register address ");
        push_address(&mut message, address);
        return Err(EndpointError { message });
    }
    Ok(((address - SOUND_REGISTER_START) / 2) as usize)
}

/// Invalid DMA programming or transfer failure.
#[derive(Clone, Debug, PartialEq, Eq)]
pub enum DmaError {
    /// Address does not select a modeled DMA register.
    InvalidRegister {
        /// Physical address supplied by the machine.
        address: u32,
    },
    /// Linked-list or reserved synchronization mode is unsupported for sound.
    UnsupportedSync {
        /// Numeric DMA channel.
        channel: usize,
        /// Two-bit synchronization field.
        mode: u8,
    },
    /// Guest word count exceeds the complete IOP RAM allocation.
    TransferTooLarge {
        /// Guest-programmed transfer size.
        words: u64,
    },
    /// Transfer addresses leave physical main RAM.
    RamRange {
        /// Numeric DMA channel.
        channel: usize,
        /// Masked physical start address.
        base: u32,
        /// Transfer word count.
        words: u64,
        /// Whether addresses move downward.
        decrement: bool,
    },
    /// Scheduler delivered a different or obsolete completion event.
    StaleEvent {
        /// Numeric scheduler event identifier.
        event: u32,
    },
    /// Sound endpoint failed while transferring a word.
    Endpoint(EndpointError),
    /// Scheduler insertion sequence was exhausted.
    Scheduler,
    /// Completion-cycle arithmetic exceeded `u64`.
    ClockOverflow,
}

impl From<EndpointError> for DmaError {
    fn from(error: EndpointError) -> (result: Self) {
        DmaError::Endpoint(error)
    }
}

impl vstd::std_specs::convert::FromSpecImpl<EndpointError> for DmaError {
    open spec fn obeys_from_spec() -> bool {
        true
    }

    open spec fn from_spec(error: EndpointError) -> Self {
        DmaError::Endpoint(error)
    }
}

impl From<SchedulerError> for DmaError {
    fn from(error: SchedulerError) -> (result: Self) {
        match error {
            SchedulerError::SequenceExhausted => DmaError::Scheduler,
        }
    }
}

impl vstd::std_specs::convert::FromSpecImpl<SchedulerError> for DmaError {
    open spec fn obeys_from_spec() -> bool {
        true
    }

    open spec fn from_spec(error: SchedulerError) -> Self {
        DmaError::Scheduler
    }
}

impl From<ClockError> for DmaError {
    fn from(error: ClockError) -> (result: Self) {
        match error {
            ClockError::Overflow => DmaError::ClockOverflow,
        }
    }
}

impl vstd::std_specs::convert::FromSpecImpl<ClockError> for DmaError {
    open spec fn obeys_from_spec() -> bool {
        true
    }

    open spec fn from_spec(error: ClockError) -> Self {
        DmaError::ClockOverflow
    }
}

/// The registers of one channel.
#[derive(Clone, Copy, Debug, PartialEq, Eq, Structural)]
pub struct ChannelRegisters {
    /// Memory address.
    pub madr: u32,
    /// Block control.
    pub bcr: u32,
    /// Channel control.
    pub chcr: u32,
    /// Tag address.
    pub tadr: u32,
}

/// A scheduled sound transfer.
#[derive(Clone, Copy, Debug, PartialEq, Eq, Structural)]
pub struct PendingTransfer {
    pub deadline: Deadline,
    pub address: u32,
    pub words: u64,
    pub direction: DmaDirection,
    pub decrement: bool,
}

/// Instance-owned IOP DMA controller.
#[verifier::ext_equal]
#[derive(Clone, Copy, Debug, PartialEq, Eq)]
pub struct DmaController {
    pub channels: [ChannelRegisters; 13],
    pub dpcr1: u32,
    pub dpcr2: u32,
    pub dicr1_control: u32,
    pub dicr1_flags: u32,
    pub dicr2_control: u32,
    pub dicr2_flags: u32,
    pub extended: [u32; 3],
    pub dmac_enable: u32,
    pub pending: [Option<PendingTransfer>; 2],
}

/// The channel and the register of a channel register address.
pub open spec fn register_at(address: u32) -> Option<(int, int)> {
    let first = address - DMA1_CHANNEL_START;
    let second = address - DMA2_CHANNEL_START;
    if address % 4 != 0 {
        None
    } else if DMA1_CHANNEL_START <= address <= DMA1_CHANNEL_END {
        Some((first / 16, (first % 16) / 4))
    } else if DMA2_CHANNEL_START <= address <= DMA2_CHANNEL_END {
        Some((7 + second / 16, (second % 16) / 4))
    } else {
        None
    }
}

/// The sound channel with a number.
pub open spec fn sound_of(channel: int) -> Option<SoundDmaChannel> {
    if channel == 4 {
        Some(SoundDmaChannel::Core0)
    } else if channel == 7 {
        Some(SoundDmaChannel::Core1)
    } else {
        None
    }
}

/// The address of the register that holds a halfword.
pub open spec fn register_base(address: u32) -> u32 {
    (address - address % 4) as u32
}

/// Whether a halfword address selects the high half of its register.
pub open spec fn is_high(address: u32) -> bool {
    (address / 2) % 2 == 1
}

/// A word with one half replaced.
pub open spec fn with_register_half(word: u32, high: bool, value: u16) -> u32 {
    if high {
        word_of(low_half(word), value)
    } else {
        word_of(value, high_half(word))
    }
}

/// The flags of enabled channels, of which there are as many as `mask` has bits.
pub open spec fn enabled(control: u32, flags: u32, mask: u32) -> u32 {
    ((control >> 16) & mask) & ((flags >> 24) & mask)
}

/// An endpoint takes one word.
pub open spec fn endpoint_takes<E: Spu2DmaEndpoint>(channel: SoundDmaChannel) -> spec_fn(
    E,
    u32,
    E,
) -> bool {
    |before: E, value: u32, after: E| E::accepted(before, channel, value, Ok(()), after)
}

/// An endpoint gives one word.
pub open spec fn endpoint_gives<E: Spu2DmaEndpoint>(channel: SoundDmaChannel) -> spec_fn(
    E,
    u32,
    E,
) -> bool {
    |before: E, value: u32, after: E| E::supplied(before, channel, Ok(value), after)
}

/// An observer sees one event.
pub open spec fn observer_sees<O: DmaObserver>() -> spec_fn(O, DmaEvent, O) -> bool {
    |before: O, event: DmaEvent, after: O| O::observed(before, event, after)
}

/// An endpoint fails at some word of a transfer, after it took the words before.
pub open spec fn endpoint_fails<E: Spu2DmaEndpoint>(
    channel: SoundDmaChannel,
    before: E,
    words: Seq<u32>,
    error: EndpointError,
    after: E,
) -> bool {
    exists|index: int, between: E|
        #![trigger chain(endpoint_takes::<E>(channel), before, words.take(index), between)]
        0 <= index < words.len() && chain(
            endpoint_takes::<E>(channel),
            before,
            words.take(index),
            between,
        ) && E::accepted(between, channel, words[index], Err(error), after)
}

/// What a register write or the start of a transfer leads to.
#[verifier::ext_equal]
pub ghost struct Written {
    pub state: DmaController,
    pub queue: Queue,
    pub events: Seq<DmaEvent>,
    pub result: Result<(), DmaError>,
}

impl PendingTransfer {
    /// All words of the transfer were moved.
    pub open spec fn moved<E: Spu2DmaEndpoint>(
        self,
        channel: SoundDmaChannel,
        memory: MemoryContents,
        endpoint: E,
        memory_after: MemoryContents,
        endpoint_after: E,
    ) -> bool {
        match self.direction {
            DmaDirection::FromRam => {
                &&& memory_after == memory
                &&& chain(
                    endpoint_takes::<E>(channel),
                    endpoint,
                    outgoing(memory.ram, self.address, self.words as nat, self.decrement),
                    endpoint_after,
                )
            },
            DmaDirection::ToRam => self.received(
                channel,
                memory,
                endpoint,
                memory_after,
                endpoint_after,
            ),
        }
    }

    /// The endpoint gave every word, and RAM holds them.
    pub open spec fn received<E: Spu2DmaEndpoint>(
        self,
        channel: SoundDmaChannel,
        memory: MemoryContents,
        endpoint: E,
        memory_after: MemoryContents,
        endpoint_after: E,
    ) -> bool {
        exists|words: Seq<u32>|
            words.len() == self.words && #[trigger] chain(
                endpoint_gives::<E>(channel),
                endpoint,
                words,
                endpoint_after,
            ) && memory_after == (MemoryContents {
                ram: incoming(memory.ram, self.address, words, self.decrement),
                ..memory
            })
    }

    /// The endpoint failed after some words were moved.
    pub open spec fn failed<E: Spu2DmaEndpoint>(
        self,
        channel: SoundDmaChannel,
        memory: MemoryContents,
        endpoint: E,
        fault: EndpointError,
        memory_after: MemoryContents,
        endpoint_after: E,
    ) -> bool {
        match self.direction {
            DmaDirection::FromRam => {
                &&& memory_after == memory
                &&& endpoint_fails(
                    channel,
                    endpoint,
                    outgoing(memory.ram, self.address, self.words as nat, self.decrement),
                    fault,
                    endpoint_after,
                )
            },
            DmaDirection::ToRam => self.receiving_failed(
                channel,
                memory,
                endpoint,
                fault,
                memory_after,
                endpoint_after,
            ),
        }
    }

    /// The endpoint failed after it gave some words, which RAM holds.
    pub open spec fn receiving_failed<E: Spu2DmaEndpoint>(
        self,
        channel: SoundDmaChannel,
        memory: MemoryContents,
        endpoint: E,
        fault: EndpointError,
        memory_after: MemoryContents,
        endpoint_after: E,
    ) -> bool {
        exists|words: Seq<u32>, between: E|
            words.len() < self.words && #[trigger] chain(
                endpoint_gives::<E>(channel),
                endpoint,
                words,
                between,
            ) && E::supplied(between, channel, Err(fault), endpoint_after) && memory_after == (
            MemoryContents {
                ram: incoming(memory.ram, self.address, words, self.decrement),
                ..memory
            })
    }

    /// Whether every word lies in RAM.
    pub open spec fn in_range(self) -> bool {
        in_ram(self.address, self.words, self.decrement, RAM_SIZE as int)
    }
}

impl DmaController {
    /// A scheduled transfer has a word count that RAM can hold.
    pub open spec fn wf(self) -> bool {
        forall|core: int|
            0 <= core < 2 ==> (#[trigger] self.pending@[core] matches Some(pending) ==> 1
                <= pending.words <= MAX_RAM_WORDS)
    }

    /// The aggregate interrupt of both banks.
    pub open spec fn master(self) -> bool {
        self.dicr1_control & DICR_FORCE != 0 || (self.dicr1_control & DICR_MASTER_ENABLE != 0 && (
        enabled(self.dicr1_control, self.dicr1_flags, 0x7f) != 0 || enabled(
            self.dicr2_control,
            self.dicr2_flags,
            0x3f,
        ) != 0))
    }

    /// An interrupt control register as it reads.
    pub open spec fn dicr_value(self, control: u32, flags: u32) -> u32 {
        control | flags | if self.master() {
            DICR_MASTER_FLAG
        } else {
            0
        }
    }

    /// A register of a channel.
    pub open spec fn channel_value(self, channel: int, register: int) -> u32 {
        let registers = self.channels@[channel];
        if register == 0 {
            registers.madr
        } else if register == 1 {
            registers.bcr
        } else if register == 2 {
            registers.chcr
        } else {
            registers.tadr
        }
    }

    /// What a word read returns.
    pub open spec fn value_at(self, address: u32) -> Result<u32, DmaError> {
        match register_at(address) {
            Some((channel, register)) => Ok(self.channel_value(channel, register)),
            None => if address == DPCR1 {
                Ok(self.dpcr1)
            } else if address == DICR1 {
                Ok(self.dicr_value(self.dicr1_control, self.dicr1_flags))
            } else if address % 4 == 0 && EXTENDED_START <= address <= EXTENDED_END {
                Ok(self.extended@[(address - EXTENDED_START) / 4])
            } else if address == DPCR2 {
                Ok(self.dpcr2)
            } else if address == DICR2 {
                Ok(self.dicr_value(self.dicr2_control, self.dicr2_flags))
            } else if address == DMAC_ENABLE {
                Ok(self.dmac_enable)
            } else {
                Err(DmaError::InvalidRegister { address })
            },
        }
    }

    /// What a halfword read returns.
    pub open spec fn half_value_at(self, address: u32) -> Result<u16, DmaError> {
        match self.value_at(register_base(address)) {
            Ok(value) => Ok(
                if is_high(address) {
                    high_half(value)
                } else {
                    low_half(value)
                },
            ),
            Err(error) => Err(error),
        }
    }

    /// The state after a channel register write. Channels without a device complete
    /// as soon as they are started.
    pub open spec fn channel_written(
        self,
        channel: int,
        register: int,
        value: u32,
    ) -> DmaController {
        let registers = self.channels@[channel];
        DmaController {
            channels: with(
                self.channels,
                channel,
                if register == 0 {
                    ChannelRegisters { madr: value & RAM_ADDRESS_MASK, ..registers }
                } else if register == 1 {
                    ChannelRegisters { bcr: value, ..registers }
                } else if register == 2 {
                    ChannelRegisters {
                        chcr: if sound_of(channel) is Some {
                            value
                        } else {
                            value & !CHCR_START
                        },
                        ..registers
                    }
                } else {
                    ChannelRegisters { tadr: value, ..registers }
                },
            ),
            ..self
        }
    }

    /// Whether a sound channel is enabled.
    pub open spec fn is_enabled(self, channel: SoundDmaChannel) -> bool {
        match channel {
            SoundDmaChannel::Core0 => self.dpcr1 & CHANNEL4_ENABLE != 0,
            SoundDmaChannel::Core1 => self.dpcr2 & CHANNEL7_ENABLE != 0,
        }
    }

    /// The transfer that a sound channel is set up for at `now`: none if it waits or
    /// is under way, or why it cannot run.
    pub open spec fn planned(self, channel: SoundDmaChannel, now: Deadline) -> Result<
        Option<PendingTransfer>,
        DmaError,
    > {
        let registers = self.channels@[channel.channel_number()];
        let sync = sync_of(registers.chcr);
        if self.pending@[channel.core_number()] is Some || !self.is_enabled(channel)
            || registers.chcr & CHCR_START == 0 {
            Ok(None)
        } else if sync > 1 {
            Err(
                DmaError::UnsupportedSync {
                    channel: channel.channel_number() as usize,
                    mode: sync as u8,
                },
            )
        } else if words_of(registers.bcr, sync) > MAX_RAM_WORDS {
            Err(DmaError::TransferTooLarge { words: words_of(registers.bcr, sync) as u64 })
        } else {
            Ok(
                Some(
                    PendingTransfer {
                        deadline: now,
                        address: registers.madr,
                        words: words_of(registers.bcr, sync) as u64,
                        direction: if registers.chcr & CHCR_DIRECTION_FROM_RAM != 0 {
                            DmaDirection::FromRam
                        } else {
                            DmaDirection::ToRam
                        },
                        decrement: registers.chcr & CHCR_DECREMENT != 0,
                    },
                ),
            )
        }
    }

    /// The state with the transfer of a sound channel replaced.
    pub open spec fn with_pending(
        self,
        channel: SoundDmaChannel,
        pending: Option<PendingTransfer>,
    ) -> DmaController {
        DmaController { pending: with(self.pending, channel.core_number(), pending), ..self }
    }

    /// The outcome of starting a sound channel that is ready.
    pub open spec fn started(
        self,
        channel: SoundDmaChannel,
        now: Deadline,
        queue: Queue,
    ) -> Written {
        match self.planned(channel, now) {
            Err(error) => Written { state: self, queue, events: Seq::empty(), result: Err(error) },
            Ok(None) => Written { state: self, queue, events: Seq::empty(), result: Ok(()) },
            Ok(Some(pending)) => if !queue.has_room() {
                Written {
                    state: self,
                    queue,
                    events: Seq::empty(),
                    result: Err(DmaError::Scheduler),
                }
            } else {
                Written {
                    state: self.with_pending(channel, Some(pending)),
                    queue: queue.scheduled(channel.event_id(), now),
                    events: seq![
                        DmaEvent::Started {
                            channel,
                            direction: pending.direction,
                            words: pending.words,
                            deadline: now,
                        },
                    ],
                    result: Ok(()),
                }
            },
        }
    }

    /// The outcome of starting both sound channels; a failure of the first leaves the
    /// second alone.
    pub open spec fn all_started(self, now: Deadline, queue: Queue) -> Written {
        let first = self.started(SoundDmaChannel::Core0, now, queue);
        if first.result is Err {
            first
        } else {
            let second = first.state.started(SoundDmaChannel::Core1, now, first.queue);
            Written { events: first.events + second.events, ..second }
        }
    }

    /// The state after a write of the bits in `mask` to the first interrupt control
    /// register: flags are cleared by ones.
    pub open spec fn dicr1_written(self, value: u32, mask: u32) -> DmaController {
        DmaController {
            dicr1_control: (self.dicr1_control & !(mask & DICR1_CONTROL)) | (value & (mask
                & DICR1_CONTROL)),
            dicr1_flags: self.dicr1_flags & !(value & mask & DICR1_FLAGS),
            ..self
        }
    }

    /// The state after a write of the bits in `mask` to the second interrupt control
    /// register: flags are cleared by ones.
    pub open spec fn dicr2_written(self, value: u32, mask: u32) -> DmaController {
        DmaController {
            dicr2_control: (self.dicr2_control & !(mask & DICR2_CONTROL)) | (value & (mask
                & DICR2_CONTROL)),
            dicr2_flags: self.dicr2_flags & !(value & mask & DICR2_FLAGS),
            ..self
        }
    }

    /// The outcome of a word write at `now`.
    pub open spec fn written(
        self,
        address: u32,
        value: u32,
        now: Deadline,
        queue: Queue,
    ) -> Written {
        let quiet = |state: DmaController|
            Written { state, queue, events: Seq::empty(), result: Ok(()) };
        match register_at(address) {
            Some((channel, register)) => {
                let state = self.channel_written(channel, register, value);
                match sound_of(channel) {
                    Some(sound) => if register == 2 {
                        state.with_pending(sound, None).started(
                            sound,
                            now,
                            queue.without(sound.event_id()),
                        )
                    } else {
                        state.started(sound, now, queue)
                    },
                    None => quiet(state),
                }
            },
            None => if address == DPCR1 {
                DmaController { dpcr1: value, ..self }.all_started(now, queue)
            } else if address == DICR1 {
                quiet(self.dicr1_written(value, u32::MAX))
            } else if address % 4 == 0 && EXTENDED_START <= address <= EXTENDED_END {
                quiet(
                    DmaController {
                        extended: with(self.extended, (address - EXTENDED_START) / 4, value),
                        ..self
                    },
                )
            } else if address == DPCR2 {
                DmaController { dpcr2: value, ..self }.all_started(now, queue)
            } else if address == DICR2 {
                quiet(self.dicr2_written(value, u32::MAX))
            } else if address == DMAC_ENABLE {
                quiet(DmaController { dmac_enable: value, ..self })
            } else {
                Written {
                    state: self,
                    queue,
                    events: Seq::empty(),
                    result: Err(DmaError::InvalidRegister { address }),
                }
            },
        }
    }

    /// The outcome of a halfword write at `now`. Interrupt control registers see only
    /// the written half; other registers are written whole with the other half kept.
    pub open spec fn half_written(
        self,
        address: u32,
        value: u16,
        now: Deadline,
        queue: Queue,
    ) -> Written {
        let base = register_base(address);
        let high = is_high(address);
        let shifted = with_register_half(0, high, value);
        let mask = with_register_half(0, high, 0xffff);
        if base == DICR1 {
            Written {
                state: self.dicr1_written(shifted, mask),
                queue,
                events: Seq::empty(),
                result: Ok(()),
            }
        } else if base == DICR2 {
            Written {
                state: self.dicr2_written(shifted, mask),
                queue,
                events: Seq::empty(),
                result: Ok(()),
            }
        } else {
            match self.value_at(base) {
                Ok(word) => self.written(base, with_register_half(word, high, value), now, queue),
                Err(error) => Written {
                    state: self,
                    queue,
                    events: Seq::empty(),
                    result: Err(error),
                },
            }
        }
    }

    /// A sink has seen the aggregate interrupt if it rose on the way to `after`.
    pub open spec fn reported<S: InterruptSink>(
        self,
        after: DmaController,
        sink: S,
        sink_after: S,
    ) -> bool {
        if !self.master() && after.master() {
            S::requested(sink, InterruptSource::Dma, sink_after)
        } else {
            sink_after == sink
        }
    }

    /// The state after a sound channel moved all words of a transfer.
    pub open spec fn finished(
        self,
        channel: SoundDmaChannel,
        pending: PendingTransfer,
    ) -> DmaController {
        let registers = self.channels@[channel.channel_number()];
        let idle = DmaController {
            channels: with(
                self.channels,
                channel.channel_number(),
                ChannelRegisters {
                    madr: wrap32(
                        word_address(registers.madr, pending.words as int, pending.decrement),
                    ) & RAM_ADDRESS_MASK,
                    chcr: registers.chcr & !CHCR_START,
                    ..registers
                },
            ),
            ..self.with_pending(channel, None)
        };
        match channel {
            SoundDmaChannel::Core0 => DmaController {
                dicr1_flags: idle.dicr1_flags | CHANNEL4_FLAG,
                ..idle
            },
            SoundDmaChannel::Core1 => DmaController {
                dicr2_flags: idle.dicr2_flags | CHANNEL7_FLAG,
                ..idle
            },
        }
    }

    /// The channel and transfer that wait for `event`.
    pub open spec fn awaiting(self, event: DueEvent) -> Option<(SoundDmaChannel, PendingTransfer)> {
        let channel = if event.id.number == CHANNEL4_EVENT {
            Some(SoundDmaChannel::Core0)
        } else if event.id.number == CHANNEL7_EVENT {
            Some(SoundDmaChannel::Core1)
        } else {
            None
        };
        match channel {
            None => None,
            Some(channel) => match self.pending@[channel.core_number()] {
                Some(pending) => if pending.deadline == event.deadline {
                    Some((channel, pending))
                } else {
                    None
                },
                None => None,
            },
        }
    }

    /// Completing `event` may end as `result`. A transfer that fails stays scheduled.
    pub open spec fn completed<E: Spu2DmaEndpoint, S: InterruptSink, O: DmaObserver>(
        self,
        event: DueEvent,
        memory: MemoryContents,
        endpoint: E,
        sink: S,
        observer: O,
        result: Result<(), DmaError>,
        after: DmaController,
        memory_after: MemoryContents,
        endpoint_after: E,
        sink_after: S,
        observer_after: O,
    ) -> bool {
        match self.awaiting(event) {
            None => {
                &&& result == Err::<(), DmaError>(DmaError::StaleEvent { event: event.id.number })
                &&& after == self
                &&& memory_after == memory
                &&& endpoint_after == endpoint
                &&& sink_after == sink
                &&& observer_after == observer
            },
            Some((channel, pending)) => if !pending.in_range() {
                &&& result == Err::<(), DmaError>(
                    DmaError::RamRange {
                        channel: channel.channel_number() as usize,
                        base: pending.address,
                        words: pending.words,
                        decrement: pending.decrement,
                    },
                )
                &&& after == self
                &&& memory_after == memory
                &&& endpoint_after == endpoint
                &&& sink_after == sink
                &&& observer_after == observer
            } else {
                match result {
                    Ok(_) => {
                        &&& pending.moved(channel, memory, endpoint, memory_after, endpoint_after)
                        &&& after == self.finished(channel, pending)
                        &&& O::observed(
                            observer,
                            DmaEvent::Completed {
                                channel,
                                direction: pending.direction,
                                words: pending.words,
                            },
                            observer_after,
                        )
                        &&& self.reported(after, sink, sink_after)
                    },
                    Err(error) => {
                        &&& error matches DmaError::Endpoint(fault) && pending.failed(
                            channel,
                            memory,
                            endpoint,
                            fault,
                            memory_after,
                            endpoint_after,
                        )
                        &&& after == self
                        &&& sink_after == sink
                        &&& observer_after == observer
                    },
                }
            },
        }
    }
}

impl Default for DmaController {
    fn default() -> (result: Self)
        ensures
            result.wf(),
            result.at_reset(),
    {
        Self::new()
    }
}

impl DmaController {
    /// Every register is zero but the first priority control register, and nothing is
    /// scheduled.
    pub open spec fn at_reset(self) -> bool {
        &&& forall|i: int|
            0 <= i < 13 ==> #[trigger] self.channels@[i] == (ChannelRegisters {
                madr: 0,
                bcr: 0,
                chcr: 0,
                tadr: 0,
            })
        &&& self.dpcr1 == DPCR1_RESET
        &&& self.dpcr2 == 0
        &&& self.dicr1_control == 0
        &&& self.dicr1_flags == 0
        &&& self.dicr2_control == 0
        &&& self.dicr2_flags == 0
        &&& self.extended@ =~= seq![0u32, 0u32, 0u32]
        &&& self.dmac_enable == 0
        &&& self.pending@[0] is None
        &&& self.pending@[1] is None
    }

    /// Constructs reset DMA state.
    pub fn new() -> (result: Self)
        ensures
            result.wf(),
            result.at_reset(),
    {
        Self {
            channels: [ChannelRegisters { madr: 0, bcr: 0, chcr: 0, tadr: 0 };13],
            dpcr1: DPCR1_RESET,
            dpcr2: 0,
            dicr1_control: 0,
            dicr1_flags: 0,
            dicr2_control: 0,
            dicr2_flags: 0,
            extended: [0u32, 0u32, 0u32],
            dmac_enable: 0,
            pending: [None, None],
        }
    }

    /// Returns the completion deadline for one sound channel.
    pub fn completion_deadline(&self, channel: SoundDmaChannel) -> (result: Option<Deadline>)
        ensures
            result == match self.pending@[channel.core_number()] {
                Some(pending) => Some(pending.deadline),
                None => None,
            },
    {
        match self.pending[channel.core_index()] {
            Some(pending) => Some(pending.deadline),
            None => None,
        }
    }

    /// Reads one aligned 32-bit DMA register.
    pub fn read_u32(&self, address: u32) -> (result: Result<u32, DmaError>)
        ensures
            result == self.value_at(address),
    {
        if let Some((channel, register)) = decode_channel_register(address) {
            let registers = self.channels[channel];
            return Ok(
                match register {
                    0 => registers.madr,
                    1 => registers.bcr,
                    2 => registers.chcr,
                    _ => registers.tadr,
                },
            );
        }
        if let Some(index) = extended_index(address) {
            return Ok(self.extended[index]);
        }
        match address {
            DPCR1 => Ok(self.dpcr1),
            DICR1 => Ok(self.dicr(self.dicr1_control, self.dicr1_flags)),
            DPCR2 => Ok(self.dpcr2),
            DICR2 => Ok(self.dicr(self.dicr2_control, self.dicr2_flags)),
            DMAC_ENABLE => Ok(self.dmac_enable),
            _ => Err(DmaError::InvalidRegister { address }),
        }
    }

    /// Reads one DMA-register halfword.
    pub fn read_u16(&self, address: u32) -> (result: Result<u16, DmaError>)
        ensures
            result == self.half_value_at(address),
    {
        let base: u32 = address - address % 4;
        match self.read_u32(base) {
            Ok(value) => {
                let (low, high) = halves(value);
                Ok(
                    if (address / 2) % 2 == 1 {
                        high
                    } else {
                        low
                    },
                )
            },
            Err(error) => Err(error),
        }
    }

    /// Writes one aligned 32-bit DMA register and schedules newly active sound
    /// transfers.
    pub fn write_u32<S: InterruptSink, O: DmaObserver>(
        &mut self,
        address: u32,
        value: u32,
        now: Deadline,
        scheduler: &mut Scheduler,
        sink: &mut S,
        observer: &mut O,
    ) -> (result: Result<(), DmaError>)
        requires
            old(self).wf(),
            old(scheduler).wf(),
        ensures
            final(self).wf(),
            final(scheduler).wf(),
            ({
                let written = old(self).written(address, value, now, old(scheduler)@);
                &&& *final(self) == written.state
                &&& final(scheduler)@ == written.queue
                &&& result == written.result
                &&& chain(observer_sees::<O>(), *old(observer), written.events, *final(observer))
            }),
            if address == DICR1 || address == DICR2 {
                old(self).reported(*final(self), *old(sink), *final(sink))
            } else {
                *final(sink) == *old(sink)
            },
    {
        if let Some((channel, register)) = decode_channel_register(address) {
            let mut registers = self.channels[channel];
            let sound = sound_channel(channel);
            match register {
                0 => {
                    registers.madr = value & RAM_ADDRESS_MASK;
                },
                1 => {
                    registers.bcr = value;
                },
                2 => {
                    registers.chcr = match sound {
                        Some(_) => value,
                        None => value & !CHCR_START,
                    };
                },
                _ => {
                    registers.tadr = value;
                },
            }
            self.channels[channel] = registers;
            if let Some(sound) = sound {
                if register == 2 {
                    scheduler.cancel(sound.event());
                    self.pending[sound.core_index()] = None;
                }
                return self.schedule_if_ready(sound, now, scheduler, observer);
            }
            return Ok(());
        }
        if let Some(index) = extended_index(address) {
            self.extended[index] = value;
            return Ok(());
        }
        match address {
            DPCR1 => {
                self.dpcr1 = value;
                self.schedule_all(now, scheduler, observer)
            },
            DICR1 => {
                self.write_dicr1(value, u32::MAX, sink);
                Ok(())
            },
            DPCR2 => {
                self.dpcr2 = value;
                self.schedule_all(now, scheduler, observer)
            },
            DICR2 => {
                self.write_dicr2(value, u32::MAX, sink);
                Ok(())
            },
            DMAC_ENABLE => {
                self.dmac_enable = value;
                Ok(())
            },
            _ => Err(DmaError::InvalidRegister { address }),
        }
    }

    /// Writes one DMA-register halfword.
    pub fn write_u16<S: InterruptSink, O: DmaObserver>(
        &mut self,
        address: u32,
        value: u16,
        now: Deadline,
        scheduler: &mut Scheduler,
        sink: &mut S,
        observer: &mut O,
    ) -> (result: Result<(), DmaError>)
        requires
            old(self).wf(),
            old(scheduler).wf(),
        ensures
            final(self).wf(),
            final(scheduler).wf(),
            ({
                let written = old(self).half_written(address, value, now, old(scheduler)@);
                &&& *final(self) == written.state
                &&& final(scheduler)@ == written.queue
                &&& result == written.result
                &&& chain(observer_sees::<O>(), *old(observer), written.events, *final(observer))
            }),
            if register_base(address) == DICR1 || register_base(address) == DICR2 {
                old(self).reported(*final(self), *old(sink), *final(sink))
            } else {
                *final(sink) == *old(sink)
            },
    {
        let base: u32 = address - address % 4;
        let is_high = (address / 2) % 2 == 1;
        if base == DICR1 || base == DICR2 {
            let (shifted, mask): (u32, u32) = if is_high {
                (join_halves(0, value), join_halves(0, 0xffff))
            } else {
                (join_halves(value, 0), join_halves(0xffff, 0))
            };
            if base == DICR1 {
                self.write_dicr1(shifted, mask, sink);
            } else {
                self.write_dicr2(shifted, mask, sink);
            }
            return Ok(());
        }
        match self.read_u32(base) {
            Ok(word) => {
                let (low, high) = halves(word);
                let merged: u32 = if is_high {
                    join_halves(low, value)
                } else {
                    join_halves(value, high)
                };
                self.write_u32(base, merged, now, scheduler, sink, observer)
            },
            Err(error) => Err(error),
        }
    }

    /// Completes one due sound transfer.
    ///
    /// The complete RAM range is validated before the endpoint or memory is
    /// touched.
    pub fn complete<E: Spu2DmaEndpoint, S: InterruptSink, O: DmaObserver>(
        &mut self,
        event: DueEvent,
        memory: &mut IopMemory,
        endpoint: &mut E,
        sink: &mut S,
        observer: &mut O,
    ) -> (result: Result<(), DmaError>)
        requires
            old(self).wf(),
            old(memory).wf(),
            old(endpoint).valid(),
        ensures
            final(self).wf(),
            final(memory).wf(),
            final(endpoint).valid(),
            old(self).completed(
                event,
                old(memory)@,
                *old(endpoint),
                *old(sink),
                *old(observer),
                result,
                *final(self),
                final(memory)@,
                *final(endpoint),
                *final(sink),
                *final(observer),
            ),
    {
        let stale = DmaError::StaleEvent { event: event.id.get() };
        let channel = match event.id.number {
            CHANNEL4_EVENT => SoundDmaChannel::Core0,
            CHANNEL7_EVENT => SoundDmaChannel::Core1,
            _ => {
                return Err(stale);
            },
        };
        let pending = match self.pending[channel.core_index()] {
            Some(pending) => pending,
            None => {
                return Err(stale);
            },
        };
        if pending.deadline.time != event.deadline.time {
            return Err(stale);
        }
        if !range_fits(pending.address, pending.words, pending.decrement, RAM_SIZE) {
            return Err(
                DmaError::RamRange {
                    channel: channel.channel(),
                    base: pending.address,
                    words: pending.words,
                    decrement: pending.decrement,
                },
            );
        }
        let moved = match pending.direction {
            DmaDirection::FromRam => send_words(channel, pending, memory, endpoint),
            DmaDirection::ToRam => receive_words(channel, pending, memory, endpoint),
        };
        if let Err(error) = moved {
            return Err(DmaError::Endpoint(error));
        }
        observer.observe(
            DmaEvent::Completed { channel, direction: pending.direction, words: pending.words },
        );
        self.finish_channel(channel, pending, sink);
        Ok(())
    }

    fn schedule_all<O: DmaObserver>(
        &mut self,
        now: Deadline,
        scheduler: &mut Scheduler,
        observer: &mut O,
    ) -> (result: Result<(), DmaError>)
        requires
            old(self).wf(),
            old(scheduler).wf(),
        ensures
            final(self).wf(),
            final(scheduler).wf(),
            ({
                let written = old(self).all_started(now, old(scheduler)@);
                &&& *final(self) == written.state
                &&& final(scheduler)@ == written.queue
                &&& result == written.result
                &&& chain(observer_sees::<O>(), *old(observer), written.events, *final(observer))
            }),
    {
        let ghost first = self.started(SoundDmaChannel::Core0, now, scheduler@);
        if let Err(error) = self.schedule_if_ready(
            SoundDmaChannel::Core0,
            now,
            scheduler,
            observer,
        ) {
            return Err(error);
        }
        let ghost between = *observer;
        let result = self.schedule_if_ready(SoundDmaChannel::Core1, now, scheduler, observer);
        proof {
            let second = first.state.started(SoundDmaChannel::Core1, now, first.queue);
            lemma_chain_concat(
                observer_sees::<O>(),
                *old(observer),
                first.events,
                between,
                second.events,
                *observer,
            );
        }
        result
    }

    fn schedule_if_ready<O: DmaObserver>(
        &mut self,
        channel: SoundDmaChannel,
        now: Deadline,
        scheduler: &mut Scheduler,
        observer: &mut O,
    ) -> (result: Result<(), DmaError>)
        requires
            old(self).wf(),
            old(scheduler).wf(),
        ensures
            final(self).wf(),
            final(scheduler).wf(),
            ({
                let written = old(self).started(channel, now, old(scheduler)@);
                &&& *final(self) == written.state
                &&& final(scheduler)@ == written.queue
                &&& result == written.result
                &&& chain(observer_sees::<O>(), *old(observer), written.events, *final(observer))
            }),
    {
        let under_way = match self.pending[channel.core_index()] {
            Some(_) => true,
            None => false,
        };
        if under_way || !self.channel_enabled(channel) {
            return Ok(());
        }
        let registers = self.channels[channel.channel()];
        if registers.chcr & CHCR_START == 0 {
            return Ok(());
        }
        let sync: u8 = sync_mode(registers.chcr);
        if sync > 1 {
            return Err(DmaError::UnsupportedSync { channel: channel.channel(), mode: sync });
        }
        let words: u64 = programmed_words(registers.bcr, sync);
        if words > MAX_RAM_WORDS {
            return Err(DmaError::TransferTooLarge { words });
        }
        let direction = if registers.chcr & CHCR_DIRECTION_FROM_RAM != 0 {
            DmaDirection::FromRam
        } else {
            DmaDirection::ToRam
        };
        let deadline = match now.checked_advance(Ticks::new(COMPLETION_CYCLES)) {
            Ok(deadline) => deadline,
            Err(error) => {
                return Err(DmaError::from(error));
            },
        };
        if let Err(error) = scheduler.schedule(channel.event(), deadline) {
            return Err(DmaError::from(error));
        }
        self.pending[channel.core_index()] = Some(
            PendingTransfer {
                deadline,
                address: registers.madr,
                words,
                direction,
                decrement: registers.chcr & CHCR_DECREMENT != 0,
            },
        );
        let event = DmaEvent::Started { channel, direction, words, deadline };
        observer.observe(event);
        proof {
            lemma_chain_push(
                observer_sees::<O>(),
                *old(observer),
                Seq::empty(),
                *old(observer),
                event,
                *observer,
            );
            assert(Seq::empty().push(event) =~= seq![event]);
        }
        Ok(())
    }

    fn channel_enabled(&self, channel: SoundDmaChannel) -> (result: bool)
        ensures
            result == self.is_enabled(channel),
    {
        match channel {
            SoundDmaChannel::Core0 => self.dpcr1 & CHANNEL4_ENABLE != 0,
            SoundDmaChannel::Core1 => self.dpcr2 & CHANNEL7_ENABLE != 0,
        }
    }

    fn dicr(&self, control: u32, flags: u32) -> (result: u32)
        ensures
            result == self.dicr_value(control, flags),
    {
        control | flags | if self.master_irq() {
            DICR_MASTER_FLAG
        } else {
            0
        }
    }

    fn master_irq(&self) -> (result: bool)
        ensures
            result == self.master(),
    {
        self.dicr1_control & DICR_FORCE != 0 || (self.dicr1_control & DICR_MASTER_ENABLE != 0 && (
        enabled_flags(self.dicr1_control, self.dicr1_flags, 0x7f) != 0 || enabled_flags(
            self.dicr2_control,
            self.dicr2_flags,
            0x3f,
        ) != 0))
    }

    fn write_dicr1<S: InterruptSink>(&mut self, value: u32, mask: u32, sink: &mut S)
        ensures
            *final(self) == old(self).dicr1_written(value, mask),
            old(self).reported(*final(self), *old(sink), *final(sink)),
    {
        let was_asserted = self.master_irq();
        let control_mask: u32 = mask & DICR1_CONTROL;
        self.dicr1_control = (self.dicr1_control & !control_mask) | (value & control_mask);
        self.dicr1_flags = self.dicr1_flags & !(value & mask & DICR1_FLAGS);
        if !was_asserted && self.master_irq() {
            sink.request(InterruptSource::Dma);
        }
    }

    fn write_dicr2<S: InterruptSink>(&mut self, value: u32, mask: u32, sink: &mut S)
        ensures
            *final(self) == old(self).dicr2_written(value, mask),
            old(self).reported(*final(self), *old(sink), *final(sink)),
    {
        let was_asserted = self.master_irq();
        let control_mask: u32 = mask & DICR2_CONTROL;
        self.dicr2_control = (self.dicr2_control & !control_mask) | (value & control_mask);
        self.dicr2_flags = self.dicr2_flags & !(value & mask & DICR2_FLAGS);
        if !was_asserted && self.master_irq() {
            sink.request(InterruptSource::Dma);
        }
    }

    fn finish_channel<S: InterruptSink>(
        &mut self,
        channel: SoundDmaChannel,
        pending: PendingTransfer,
        sink: &mut S,
    )
        requires
            old(self).wf(),
            pending.words <= MAX_RAM_WORDS,
        ensures
            final(self).wf(),
            *final(self) == old(self).finished(channel, pending),
            old(self).reported(*final(self), *old(sink), *final(sink)),
    {
        let was_asserted = self.master_irq();
        self.pending[channel.core_index()] = None;
        let mut registers = self.channels[channel.channel()];
        let byte_count: u32 = pending.words as u32 * 4;
        let next: u32 = if pending.decrement {
            registers.madr.wrapping_sub(byte_count)
        } else {
            registers.madr.wrapping_add(byte_count)
        };
        registers.madr = next & RAM_ADDRESS_MASK;
        registers.chcr = registers.chcr & !CHCR_START;
        self.channels[channel.channel()] = registers;
        match channel {
            SoundDmaChannel::Core0 => {
                self.dicr1_flags = self.dicr1_flags | CHANNEL4_FLAG;
            },
            SoundDmaChannel::Core1 => {
                self.dicr2_flags = self.dicr2_flags | CHANNEL7_FLAG;
            },
        }
        if !was_asserted && self.master_irq() {
            sink.request(InterruptSource::Dma);
        }
    }
}

fn enabled_flags(control: u32, flags: u32, mask: u32) -> (result: u32)
    ensures
        result == enabled(control, flags, mask),
{
    ((control >> 16) & mask) & ((flags >> 24) & mask)
}

fn sound_channel(channel: usize) -> (result: Option<SoundDmaChannel>)
    ensures
        result == sound_of(channel as int),
{
    match channel {
        4 => Some(SoundDmaChannel::Core0),
        7 => Some(SoundDmaChannel::Core1),
        _ => None,
    }
}

fn decode_channel_register(address: u32) -> (result: Option<(usize, usize)>)
    ensures
        match result {
            Some((channel, register)) => register_at(address) == Some(
                (channel as int, register as int),
            ) && channel < 13 && register < 4,
            None => register_at(address) is None,
        },
{
    if address % 4 != 0 {
        return None;
    }
    if DMA1_CHANNEL_START <= address && address <= DMA1_CHANNEL_END {
        let offset: u32 = address - DMA1_CHANNEL_START;
        Some(((offset / 16) as usize, ((offset % 16) / 4) as usize))
    } else if DMA2_CHANNEL_START <= address && address <= DMA2_CHANNEL_END {
        let offset: u32 = address - DMA2_CHANNEL_START;
        Some((7 + (offset / 16) as usize, ((offset % 16) / 4) as usize))
    } else {
        None
    }
}

fn extended_index(address: u32) -> (result: Option<usize>)
    ensures
        match result {
            Some(index) => address % 4 == 0 && EXTENDED_START <= address <= EXTENDED_END && index
                == (address - EXTENDED_START) / 4 && index < 3,
            None => address % 4 != 0 || address < EXTENDED_START || address > EXTENDED_END,
        },
{
    if address % 4 == 0 && EXTENDED_START <= address && address <= EXTENDED_END {
        Some(((address - EXTENDED_START) / 4) as usize)
    } else {
        None
    }
}

fn send_words<E: Spu2DmaEndpoint>(
    channel: SoundDmaChannel,
    pending: PendingTransfer,
    memory: &IopMemory,
    endpoint: &mut E,
) -> (result: Result<(), EndpointError>)
    requires
        memory.wf(),
        old(endpoint).valid(),
        1 <= pending.words <= MAX_RAM_WORDS,
        pending.in_range(),
        pending.direction == DmaDirection::FromRam,
    ensures
        final(endpoint).valid(),
        match result {
            Ok(_) => pending.moved(channel, memory@, *old(endpoint), memory@, *final(endpoint)),
            Err(fault) => pending.failed(
                channel,
                memory@,
                *old(endpoint),
                fault,
                memory@,
                *final(endpoint),
            ),
        },
{
    let ghost sent = outgoing(
        memory@.ram,
        pending.address,
        pending.words as nat,
        pending.decrement,
    );
    let mut index: u64 = 0;
    while index < pending.words
        invariant
            memory.wf(),
            endpoint.valid(),
            index <= pending.words <= MAX_RAM_WORDS,
            pending.in_range(),
            pending.direction == DmaDirection::FromRam,
            sent == outgoing(
                memory@.ram,
                pending.address,
                pending.words as nat,
                pending.decrement,
            ),
            chain(
                endpoint_takes::<E>(channel),
                *old(endpoint),
                sent.take(index as int),
                *endpoint,
            ),
        decreases pending.words - index,
    {
        let ghost between = *endpoint;
        let offset: usize = transfer_address(
            pending.address,
            index,
            pending.decrement,
            pending.words,
            RAM_SIZE,
        );
        let value: u32 = read_word(memory.ram(), offset);
        assert(value == sent[index as int]);
        match endpoint.write_word(channel, value) {
            Ok(done) => {
                proof {
                    assert(done == ());
                    lemma_chain_push(
                        endpoint_takes::<E>(channel),
                        *old(endpoint),
                        sent.take(index as int),
                        between,
                        value,
                        *endpoint,
                    );
                    assert(sent.take(index as int).push(value) =~= sent.take(index + 1));
                }
            },
            Err(error) => {
                assert(endpoint_fails(channel, *old(endpoint), sent, error, *endpoint)) by {
                    assert(chain(
                        endpoint_takes::<E>(channel),
                        *old(endpoint),
                        sent.take(index as int),
                        between,
                    ));
                }
                return Err(error);
            },
        }
        index += 1;
    }
    assert(sent.take(pending.words as int) =~= sent);
    Ok(())
}

fn receive_words<E: Spu2DmaEndpoint>(
    channel: SoundDmaChannel,
    pending: PendingTransfer,
    memory: &mut IopMemory,
    endpoint: &mut E,
) -> (result: Result<(), EndpointError>)
    requires
        old(memory).wf(),
        old(endpoint).valid(),
        1 <= pending.words <= MAX_RAM_WORDS,
        pending.in_range(),
        pending.direction == DmaDirection::ToRam,
    ensures
        final(endpoint).valid(),
        final(memory).wf(),
        match result {
            Ok(_) => pending.moved(
                channel,
                old(memory)@,
                *old(endpoint),
                final(memory)@,
                *final(endpoint),
            ),
            Err(fault) => pending.failed(
                channel,
                old(memory)@,
                *old(endpoint),
                fault,
                final(memory)@,
                *final(endpoint),
            ),
        },
{
    let ghost mut received: Seq<u32> = Seq::empty();
    let mut index: u64 = 0;
    while index < pending.words
        invariant
            memory.wf(),
            endpoint.valid(),
            index <= pending.words <= MAX_RAM_WORDS,
            pending.in_range(),
            pending.direction == DmaDirection::ToRam,
            received.len() == index,
            memory@ == (MemoryContents {
                ram: incoming(old(memory)@.ram, pending.address, received, pending.decrement),
                ..old(memory)@
            }),
            chain(endpoint_gives::<E>(channel), *old(endpoint), received, *endpoint),
        decreases pending.words - index,
    {
        let ghost between = *endpoint;
        let offset: usize = transfer_address(
            pending.address,
            index,
            pending.decrement,
            pending.words,
            RAM_SIZE,
        );
        match endpoint.read_word(channel) {
            Ok(value) => {
                write_word(&mut memory.ram, offset, value);
                proof {
                    lemma_chain_push(
                        endpoint_gives::<E>(channel),
                        *old(endpoint),
                        received,
                        between,
                        value,
                        *endpoint,
                    );
                    assert(received.push(value).drop_last() =~= received);
                    received = received.push(value);
                }
            },
            Err(error) => {
                assert(pending.receiving_failed(
                    channel,
                    old(memory)@,
                    *old(endpoint),
                    error,
                    memory@,
                    *endpoint,
                )) by {
                    assert(chain(endpoint_gives::<E>(channel), *old(endpoint), received, between));
                }
                return Err(error);
            },
        }
        index += 1;
    }
    assert(pending.received(channel, old(memory)@, *old(endpoint), memory@, *endpoint)) by {
        assert(chain(endpoint_gives::<E>(channel), *old(endpoint), received, *endpoint));
    }
    Ok(())
}

proof fn lemma_control_bits(value: u32, mask: u32, flags: u32, flag: u32)
    by (bit_vector)
    ensures
        (value & !CHCR_START) & CHCR_START == 0,
        value & flag == flag && mask & flag == flag && flag & !DICR1_FLAGS == 0 ==> (flags & !(value
            & mask & DICR1_FLAGS)) & flag == 0,
        value & flag == flag && mask & flag == flag && flag & !DICR2_FLAGS == 0 ==> (flags & !(value
            & mask & DICR2_FLAGS)) & flag == 0,
        value & flag == 0 || mask & flag == 0 ==> (flags & !(value & mask & DICR1_FLAGS)) & flag
            == flags & flag,
        value & flag == 0 || mask & flag == 0 ==> (flags & !(value & mask & DICR2_FLAGS)) & flag
            == flags & flag,
{
}

/// Writing a one to an interrupt flag clears it; writing a zero, or only the other
/// half of the register, keeps it.
pub proof fn law_flags_clear_by_one(controller: DmaController, value: u32, mask: u32, flag: u32)
    ensures
        flag & !DICR1_FLAGS == 0 && value & flag == flag && mask & flag == flag
            ==> controller.dicr1_written(value, mask).dicr1_flags & flag == 0,
        value & flag == 0 || mask & flag == 0 ==> controller.dicr1_written(value, mask).dicr1_flags
            & flag == controller.dicr1_flags & flag,
        flag & !DICR2_FLAGS == 0 && value & flag == flag && mask & flag == flag
            ==> controller.dicr2_written(value, mask).dicr2_flags & flag == 0,
        value & flag == 0 || mask & flag == 0 ==> controller.dicr2_written(value, mask).dicr2_flags
            & flag == controller.dicr2_flags & flag,
{
    lemma_control_bits(value, mask, controller.dicr1_flags, flag);
    lemma_control_bits(value, mask, controller.dicr2_flags, flag);
}

/// A channel without a device is never left busy, and a finished transfer never
/// leaves its channel busy.
pub proof fn law_channels_do_not_stay_busy(
    controller: DmaController,
    channel: int,
    value: u32,
    sound: SoundDmaChannel,
    pending: PendingTransfer,
)
    requires
        0 <= channel < 13,
    ensures
        sound_of(channel) is None ==> controller.channel_written(
            channel,
            2,
            value,
        ).channels@[channel].chcr & CHCR_START == 0,
        controller.finished(sound, pending).channels@[sound.channel_number()].chcr & CHCR_START
            == 0,
        controller.finished(sound, pending).pending@[sound.core_number()] is None,
{
    lemma_control_bits(value, 0, 0, 0);
    lemma_control_bits(controller.channels@[sound.channel_number()].chcr, 0, 0, 0);
}

/// A channel register that was written reads back with its implemented bits, and no
/// other channel register changes.
pub proof fn law_channel_register_reads_back(
    controller: DmaController,
    channel: int,
    register: int,
    value: u32,
)
    requires
        0 <= channel < 13,
        0 <= register < 4,
    ensures
        controller.channel_written(channel, register, value).channel_value(channel, register)
            == if register == 0 {
            value & RAM_ADDRESS_MASK
        } else if register == 2 && sound_of(channel) is None {
            value & !CHCR_START
        } else {
            value
        },
        forall|other: int, slot: int|
            0 <= other < 13 && 0 <= slot < 4 && (other != channel || slot != register)
                ==> #[trigger] controller.channel_written(channel, register, value).channel_value(
                other,
                slot,
            ) == controller.channel_value(other, slot),
{
}

/// A sound transfer that starts at `now` is due at `now`: its payload becomes visible
/// at the next scheduler boundary.
pub proof fn law_transfer_is_due_at_once(
    controller: DmaController,
    channel: SoundDmaChannel,
    now: Deadline,
    queue: Queue,
)
    requires
        controller.started(channel, now, queue).events.len() > 0,
    ensures
        ({
            let started = controller.started(channel, now, queue);
            &&& started.result is Ok
            &&& started.state.pending@[channel.core_number()] matches Some(pending)
                && pending.deadline == now && started.events == seq![
                DmaEvent::Started {
                    channel,
                    direction: pending.direction,
                    words: pending.words,
                    deadline: now,
                },
            ]
            &&& started.queue.events.contains(DueEvent { id: channel.event_id(), deadline: now })
        }),
{
    let event = DueEvent { id: channel.event_id(), deadline: now };
    let at = not_later(queue.events, now) as int;
    lemma_not_later_bound(queue.events, now);
    assert(queue.scheduled(channel.event_id(), now).events[at] == event);
}

/// The two sound channels are independent: starting or finishing one leaves the
/// registers and the transfer of the other.
pub proof fn law_sound_channels_are_independent(
    controller: DmaController,
    channel: SoundDmaChannel,
    other: SoundDmaChannel,
    now: Deadline,
    queue: Queue,
    pending: PendingTransfer,
)
    requires
        channel != other,
    ensures
        controller.started(channel, now, queue).state.pending@[other.core_number()]
            == controller.pending@[other.core_number()],
        controller.started(channel, now, queue).state.channels == controller.channels,
        controller.finished(channel, pending).pending@[other.core_number()]
            == controller.pending@[other.core_number()],
        controller.finished(channel, pending).channels@[other.channel_number()]
            == controller.channels@[other.channel_number()],
{
}

} // verus!
