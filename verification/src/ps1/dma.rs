//! PS1 DMA registers with MDEC-input and sound transfers.

use vstd::prelude::*;

use crate::arrays::with;
use crate::bits::wrap32;
use crate::bytes::{read_word, write_word};
use crate::clock::{ClockError, Deadline, Ticks};
use crate::ps1::irq::{InterruptController, InterruptSource};
use crate::ps1::memory::{MemoryContents, Ps1Memory};
use crate::psx_exe::RAM_SIZE;
use crate::scheduler::{
    lemma_not_later_bound, not_later, DueEvent, EventId, Queue, Scheduler, SchedulerError,
};
use crate::trace::{chain, lemma_chain_push};
use crate::transfer::{
    in_ram, incoming, outgoing, programmed_words, range_fits, sync_mode, sync_of, transfer_address,
    word_address, words_of, MAX_RAM_WORDS,
};

verus! {

/// First DMA channel register.
pub const DMA_CHANNEL_START: u32 = 0x1f80_1080;

/// Last DMA channel register (channel 6 CHCR).
pub const DMA_CHANNEL_END: u32 = 0x1f80_10e8;

/// Last DMA channel halfword address (high half of channel 6 CHCR).
pub const DMA_CHANNEL_HALFWORD_END: u32 = 0x1f80_10ea;

/// Last DMA global-control halfword address.
pub const DMA_CONTROL_END: u32 = 0x1f80_10f6;

/// Channel 0 memory address register.
pub const D0_MADR: u32 = 0x1f80_1080;

/// Channel 0 block control register.
pub const D0_BCR: u32 = 0x1f80_1084;

/// Channel 0 channel control register.
pub const D0_CHCR: u32 = 0x1f80_1088;

/// Channel 4 memory address register.
pub const D4_MADR: u32 = 0x1f80_10c0;

/// Channel 4 block control register.
pub const D4_BCR: u32 = 0x1f80_10c4;

/// Channel 4 channel control register.
pub const D4_CHCR: u32 = 0x1f80_10c8;

/// DMA priority control register.
pub const DPCR: u32 = 0x1f80_10f0;

/// DMA interrupt control register.
pub const DICR: u32 = 0x1f80_10f4;

/// Number of the scheduler identity reserved for DMA channel 4 completion.
pub const CHANNEL4_EVENT: u32 = 0x0004_0004;

/// Reset value of the priority control register.
pub const DPCR_RESET: u32 = 0x0765_4321;

/// Channel 0 enable bit in `DPCR`.
pub const CHANNEL0_ENABLE: u32 = 0x8;

/// Channel 4 enable bit in `DPCR`.
pub const CHANNEL4_ENABLE: u32 = 0x8_0000;

/// RAM-to-device direction bit in `CHCR`.
pub const CHCR_DIRECTION_FROM_RAM: u32 = 0x1;

/// Downward address bit in `CHCR`.
pub const CHCR_DECREMENT: u32 = 0x2;

/// Start bit in `CHCR`.
pub const CHCR_START: u32 = 0x100_0000;

/// Manual trigger bit in `CHCR`.
pub const CHCR_TRIGGER: u32 = 0x1000_0000;

/// The bits of `CHCR` that a transfer clears when it completes.
pub const CHCR_BUSY: u32 = 0x1100_0000;

/// The implemented bits of `CHCR`.
pub const CHCR_WRITABLE: u32 = 0x1100_0603;

/// Forced interrupt bit in `DICR`.
pub const DICR_FORCE: u32 = 0x8000;

/// Channel interrupt enable bits in `DICR`.
pub const DICR_CHANNEL_MASKS: u32 = 0x007f_0000;

/// Master interrupt enable bit in `DICR`.
pub const DICR_MASTER_ENABLE: u32 = 0x0080_0000;

/// Channel interrupt flag bits in `DICR`.
pub const DICR_CHANNEL_FLAGS: u32 = 0x7f00_0000;

/// Aggregate interrupt flag bit in `DICR`.
pub const DICR_MASTER_FLAG: u32 = 0x8000_0000;

/// The writable control bits of `DICR`.
pub const DICR_WRITABLE_CONTROL: u32 = 0x00ff_803f;

/// Channel 4 interrupt-enable bit in `DICR`.
pub const DICR_CHANNEL4_MASK: u32 = 0x0010_0000;

/// Channel 4 interrupt flag bit in `DICR`.
pub const DICR_CHANNEL4_FLAG: u32 = 0x1000_0000;

/// Channel 0 interrupt flag bit in `DICR`.
pub const DICR_CHANNEL0_FLAG: u32 = 0x0100_0000;

/// The implemented bits of a memory address register.
pub const RAM_ADDRESS_MASK: u32 = 0x00ff_fffc;

/// Cycles that channel 4 takes for a word.
pub const CYCLES_PER_WORD: u64 = 4;

/// A device endpoint rejected or failed a transfer word.
#[derive(Clone, Debug, PartialEq, Eq)]
pub struct EndpointError {
    pub message: String,
}

impl EndpointError {
    /// Constructs an endpoint diagnostic.
    pub fn new<M: Into<String>>(message: M) -> (result: Self)
        ensures
            call_ensures(<M as Into<String>>::into, (message,), result.message),
    {
        Self { message: message.into() }
    }

    /// Returns the endpoint diagnostic.
    pub fn message(&self) -> (result: &str)
        ensures
            result@ == self.message@,
    {
        self.message.as_str()
    }
}

/// MDEC command port consumed by DMA channel 0.
pub trait MdecDmaEndpoint: Sized {
    /// The device is in a state in which it can be used.
    open spec fn valid(self) -> bool {
        true
    }

    /// Offering `value` may end as `result` and leave `after`.
    open spec fn accepted(
        before: Self,
        value: u32,
        result: Result<(), EndpointError>,
        after: Self,
    ) -> bool {
        true
    }

    /// Accepts one little-endian 32-bit word from main RAM.
    fn write_word(&mut self, value: u32) -> (result: Result<(), EndpointError>)
        requires
            old(self).valid(),
        ensures
            final(self).valid(),
            Self::accepted(*old(self), value, result, *final(self)),
    ;
}

/// Sound-device port consumed by DMA channel 4.
pub trait SoundDmaEndpoint: Sized {
    /// The device is in a state in which it can be used.
    open spec fn valid(self) -> bool {
        true
    }

    /// Offering `value` may end as `result` and leave `after`.
    open spec fn accepted(
        before: Self,
        value: u32,
        result: Result<(), EndpointError>,
        after: Self,
    ) -> bool {
        true
    }

    /// Asking for a word may end as `result` and leave `after`.
    open spec fn supplied(before: Self, result: Result<u32, EndpointError>, after: Self) -> bool {
        true
    }

    /// Accepts one little-endian 32-bit word from main RAM.
    fn write_word(&mut self, value: u32) -> (result: Result<(), EndpointError>)
        requires
            old(self).valid(),
        ensures
            final(self).valid(),
            Self::accepted(*old(self), value, result, *final(self)),
    ;

    /// Supplies one little-endian 32-bit word for main RAM.
    fn read_word(&mut self) -> (result: Result<u32, EndpointError>)
        requires
            old(self).valid(),
        ensures
            final(self).valid(),
            Self::supplied(*old(self), result, *final(self)),
    ;
}

/// Typed interrupt output consumed by the DMA component.
pub trait InterruptSink: Sized {
    /// Taking a request from `source` may leave `after`.
    open spec fn requested(before: Self, source: InterruptSource, after: Self) -> bool {
        true
    }

    /// Latches or records one DMA interrupt request.
    fn request(&mut self, source: InterruptSource)
        ensures
            Self::requested(*old(self), source, *final(self)),
    ;
}

impl InterruptSink for InterruptController {
    open spec fn requested(before: Self, source: InterruptSource, after: Self) -> bool {
        after == InterruptController::requested(before, source)
    }

    fn request(&mut self, source: InterruptSource) {
        InterruptController::request(self, source);
    }
}

/// Invalid DMA programming or transfer failure.
#[derive(Clone, Debug, PartialEq, Eq)]
pub enum DmaError {
    /// Address does not select a modeled DMA register.
    InvalidRegister {
        /// Physical address supplied by the machine.
        address: u32,
    },
    /// Channel 4 linked-list or reserved synchronization mode is unsupported.
    UnsupportedSync {
        /// Two-bit synchronization field.
        mode: u8,
    },
    /// Guest word count exceeds the complete emulated RAM allocation.
    TransferTooLarge {
        /// Guest-programmed transfer size.
        words: u64,
    },
    /// Transfer addresses leave physical main RAM.
    RamRange {
        /// Masked physical start address.
        base: u32,
        /// Transfer word count.
        words: u64,
        /// Whether addresses move downward.
        decrement: bool,
    },
    /// Scheduler delivered a different or obsolete event.
    StaleEvent,
    /// Device endpoint failed while transferring a word.
    Endpoint(EndpointError),
    /// Channel 0 was programmed in a direction unsupported by MDEC input.
    MdecDirection,
    /// Channel 0 linked-list or reserved synchronization mode is unsupported.
    UnsupportedMdecSync {
        /// Two-bit synchronization field.
        mode: u8,
    },
    /// Scheduler insertion sequence was exhausted.
    Scheduler,
    /// Completion-cycle arithmetic exceeded `u64`.
    ClockOverflow,
}

impl From<EndpointError> for DmaError {
    fn from(error: EndpointError) -> (result: Self) {
        DmaError::Endpoint(error)
    }
}

impl vstd::std_specs::convert::FromSpecImpl<EndpointError> for DmaError {
    open spec fn obeys_from_spec() -> bool {
        true
    }

    open spec fn from_spec(error: EndpointError) -> Self {
        DmaError::Endpoint(error)
    }
}

impl From<SchedulerError> for DmaError {
    fn from(error: SchedulerError) -> (result: Self) {
        match error {
            SchedulerError::SequenceExhausted => DmaError::Scheduler,
        }
    }
}

impl vstd::std_specs::convert::FromSpecImpl<SchedulerError> for DmaError {
    open spec fn obeys_from_spec() -> bool {
        true
    }

    open spec fn from_spec(error: SchedulerError) -> Self {
        DmaError::Scheduler
    }
}

impl From<ClockError> for DmaError {
    fn from(error: ClockError) -> (result: Self) {
        match error {
            ClockError::Overflow => DmaError::ClockOverflow,
        }
    }
}

impl vstd::std_specs::convert::FromSpecImpl<ClockError> for DmaError {
    open spec fn obeys_from_spec() -> bool {
        true
    }

    open spec fn from_spec(error: ClockError) -> Self {
        DmaError::ClockOverflow
    }
}

/// The registers of one channel.
#[derive(Clone, Copy, Debug, PartialEq, Eq, Structural)]
pub struct ChannelRegisters {
    /// Memory address.
    pub madr: u32,
    /// Block control.
    pub bcr: u32,
    /// Channel control.
    pub chcr: u32,
}

/// A scheduled channel 4 transfer.
#[derive(Clone, Copy, Debug, PartialEq, Eq, Structural)]
pub struct PendingTransfer {
    pub deadline: Deadline,
    pub words: u64,
}

/// Instance-owned PS1 DMA controller implementing MDEC input and sound channels.
#[verifier::ext_equal]
#[derive(Clone, Copy, Debug, PartialEq, Eq)]
pub struct DmaController {
    pub channels: [ChannelRegisters; 7],
    pub dpcr: u32,
    pub dicr_control: u32,
    pub dicr_flags: u32,
    pub pending: Option<PendingTransfer>,
}

/// The channel and the register of a channel register address.
pub open spec fn register_at(address: u32) -> Option<(int, int)> {
    let offset = address - DMA_CHANNEL_START;
    if 0 <= offset < 0x70 && offset % 4 == 0 && offset % 16 < 12 {
        Some((offset / 16, (offset % 16) / 4))
    } else {
        None
    }
}

/// The number of words of a started channel, none if it waits, or why it cannot run.
pub open spec fn planned(
    registers: ChannelRegisters,
    enabled: bool,
    unsupported: DmaError,
) -> Result<Option<u64>, DmaError> {
    let sync = sync_of(registers.chcr);
    if !enabled || registers.chcr & CHCR_START == 0 {
        Ok(None)
    } else if sync > 1 {
        Err(unsupported)
    } else if sync == 0 && registers.chcr & CHCR_TRIGGER == 0 {
        Ok(None)
    } else if words_of(registers.bcr, sync) > MAX_RAM_WORDS {
        Err(DmaError::TransferTooLarge { words: words_of(registers.bcr, sync) as u64 })
    } else {
        Ok(Some(words_of(registers.bcr, sync) as u64))
    }
}

/// An MDEC port takes one word.
pub open spec fn mdec_takes<E: MdecDmaEndpoint>() -> spec_fn(E, u32, E) -> bool {
    |before: E, value: u32, after: E| E::accepted(before, value, Ok(()), after)
}

/// A sound port takes one word.
pub open spec fn sound_takes<E: SoundDmaEndpoint>() -> spec_fn(E, u32, E) -> bool {
    |before: E, value: u32, after: E| E::accepted(before, value, Ok(()), after)
}

/// A sound port gives one word.
pub open spec fn sound_gives<E: SoundDmaEndpoint>() -> spec_fn(E, u32, E) -> bool {
    |before: E, value: u32, after: E| E::supplied(before, Ok(value), after)
}

/// An MDEC port fails at some word of a transfer, after it took the words before.
pub open spec fn mdec_fails<E: MdecDmaEndpoint>(
    before: E,
    words: Seq<u32>,
    error: EndpointError,
    after: E,
) -> bool {
    exists|index: int, between: E|
        #![trigger chain(mdec_takes::<E>(), before, words.take(index), between)]
        0 <= index < words.len() && chain(mdec_takes::<E>(), before, words.take(index), between)
            && E::accepted(between, words[index], Err(error), after)
}

/// A sound port fails at some word of a transfer, after it took the words before.
pub open spec fn sound_fails<E: SoundDmaEndpoint>(
    before: E,
    words: Seq<u32>,
    error: EndpointError,
    after: E,
) -> bool {
    exists|index: int, between: E|
        #![trigger chain(sound_takes::<E>(), before, words.take(index), between)]
        0 <= index < words.len() && chain(sound_takes::<E>(), before, words.take(index), between)
            && E::accepted(between, words[index], Err(error), after)
}

impl DmaController {
    /// A scheduled transfer has a word count that RAM can hold.
    pub open spec fn wf(self) -> bool {
        self.pending matches Some(pending) ==> 1 <= pending.words <= MAX_RAM_WORDS
    }

    /// The aggregate interrupt.
    pub open spec fn master(self) -> bool {
        self.dicr_control & DICR_FORCE != 0 || (self.dicr_control & DICR_MASTER_ENABLE != 0 && ((
        self.dicr_control & DICR_CHANNEL_MASKS) << 8) & self.dicr_flags != 0)
    }

    /// The interrupt control register as it reads.
    pub open spec fn dicr_value(self) -> u32 {
        self.dicr_control | self.dicr_flags | if self.master() {
            DICR_MASTER_FLAG
        } else {
            0
        }
    }

    /// A register of a channel.
    pub open spec fn channel_value(self, channel: int, register: int) -> u32 {
        if register == 0 {
            self.channels@[channel].madr
        } else if register == 1 {
            self.channels@[channel].bcr
        } else {
            self.channels@[channel].chcr
        }
    }

    /// What a read returns.
    pub open spec fn value_at(self, address: u32) -> Result<u32, DmaError> {
        match register_at(address) {
            Some((channel, register)) => Ok(self.channel_value(channel, register)),
            None => if address == DPCR {
                Ok(self.dpcr)
            } else if address == DICR {
                Ok(self.dicr_value())
            } else {
                Err(DmaError::InvalidRegister { address })
            },
        }
    }

    /// The state with the registers of a channel replaced.
    pub open spec fn with_channel(
        self,
        channel: int,
        registers: ChannelRegisters,
    ) -> DmaController {
        DmaController { channels: with(self.channels, channel, registers), ..self }
    }

    /// The state after a channel register write. Channels without a device complete
    /// as soon as they are started.
    pub open spec fn channel_written(
        self,
        channel: int,
        register: int,
        value: u32,
    ) -> DmaController {
        let registers = self.channels@[channel];
        self.with_channel(
            channel,
            if register == 0 {
                ChannelRegisters { madr: value & RAM_ADDRESS_MASK, ..registers }
            } else if register == 1 {
                ChannelRegisters { bcr: value, ..registers }
            } else if channel == 0 || channel == 4 {
                ChannelRegisters { chcr: value & CHCR_WRITABLE, ..registers }
            } else {
                ChannelRegisters { chcr: value & !CHCR_BUSY, ..registers }
            },
        )
    }

    /// The work that channel 4 is set up for.
    pub open spec fn sound_plan(self) -> Result<Option<u64>, DmaError> {
        planned(
            self.channels@[4],
            self.dpcr & CHANNEL4_ENABLE != 0,
            DmaError::UnsupportedSync { mode: sync_of(self.channels@[4].chcr) as u8 },
        )
    }

    /// The outcome of scheduling channel 4 anew at `now`: the state, the queue, and
    /// whether it succeeded.
    pub open spec fn rescheduled(self, now: Deadline, queue: Queue) -> (
        DmaController,
        Queue,
        Result<(), DmaError>,
    ) {
        let id = EventId { number: CHANNEL4_EVENT };
        let idle = DmaController { pending: None, ..self };
        let cleared = queue.without(id);
        match self.sound_plan() {
            Err(error) => (idle, cleared, Err(error)),
            Ok(None) => (idle, cleared, Ok(())),
            Ok(Some(words)) => if now.time + words * CYCLES_PER_WORD > u64::MAX {
                (idle, cleared, Err(DmaError::ClockOverflow))
            } else if !cleared.has_room() {
                (idle, cleared, Err(DmaError::Scheduler))
            } else {
                let deadline = Deadline { time: (now.time + words * CYCLES_PER_WORD) as u64 };
                (
                    DmaController {
                        pending: Some(PendingTransfer { deadline, words }),
                        ..self
                    },
                    cleared.scheduled(id, deadline),
                    Ok(()),
                )
            },
        }
    }

    /// The state after an interrupt control write: flags are cleared by ones.
    pub open spec fn dicr_written(self, value: u32) -> DmaController {
        DmaController {
            dicr_control: value & DICR_WRITABLE_CONTROL,
            dicr_flags: self.dicr_flags & !(value & DICR_CHANNEL_FLAGS),
            ..self
        }
    }

    /// The outcome of a register write at `now`.
    pub open spec fn written(self, address: u32, value: u32, now: Deadline, queue: Queue) -> (
        DmaController,
        Queue,
        Result<(), DmaError>,
    ) {
        match register_at(address) {
            Some((channel, register)) => {
                let state = self.channel_written(channel, register, value);
                if channel == 4 && register == 2 {
                    state.rescheduled(now, queue)
                } else {
                    (state, queue, Ok(()))
                }
            },
            None => if address == DPCR {
                DmaController { dpcr: value, ..self }.rescheduled(now, queue)
            } else if address == DICR {
                (self.dicr_written(value), queue, Ok(()))
            } else {
                (self, queue, Err(DmaError::InvalidRegister { address }))
            },
        }
    }

    /// Whether the aggregate interrupt rises on the way to `after`.
    pub open spec fn rises(self, after: DmaController) -> bool {
        !self.master() && after.master()
    }

    /// The state after a channel completed `words` words and set `flag`.
    pub open spec fn finished(self, channel: int, words: u64, flag: u32) -> DmaController {
        let registers = self.channels@[channel];
        let state = self.with_channel(
            channel,
            ChannelRegisters {
                madr: wrap32(
                    word_address(
                        registers.madr,
                        words as int,
                        registers.chcr & CHCR_DECREMENT != 0,
                    ),
                ) & RAM_ADDRESS_MASK,
                chcr: registers.chcr & !CHCR_BUSY,
                ..registers
            },
        );
        DmaController { dicr_flags: self.dicr_flags | flag, ..state }
    }

    /// The work that channel 0 is set up for.
    pub open spec fn mdec_plan(self) -> Result<Option<u64>, DmaError> {
        let registers = self.channels@[0];
        if self.dpcr & CHANNEL0_ENABLE != 0 && registers.chcr & CHCR_START != 0 && registers.chcr
            & CHCR_DIRECTION_FROM_RAM == 0 {
            Err(DmaError::MdecDirection)
        } else {
            planned(
                registers,
                self.dpcr & CHANNEL0_ENABLE != 0,
                DmaError::UnsupportedMdecSync { mode: sync_of(registers.chcr) as u8 },
            )
        }
    }

    /// A sink has seen the aggregate interrupt if it rose.
    pub open spec fn reported<S: InterruptSink>(
        self,
        after: DmaController,
        sink: S,
        sink_after: S,
    ) -> bool {
        if self.rises(after) {
            S::requested(sink, InterruptSource::Dma, sink_after)
        } else {
            sink_after == sink
        }
    }

    /// Whether `event` is the completion that is waited for.
    pub open spec fn awaits(self, event: DueEvent) -> bool {
        self.pending matches Some(pending) && event.id.number == CHANNEL4_EVENT && event.deadline
            == pending.deadline
    }

    /// Constructs reset DMA registers with channel 4 disabled.
    pub fn new() -> (result: Self)
        ensures
            result.wf(),
            forall|i: int|
                0 <= i < 7 ==> #[trigger] result.channels@[i] == (ChannelRegisters {
                    madr: 0,
                    bcr: 0,
                    chcr: 0,
                }),
            result.dpcr == DPCR_RESET,
            result.dicr_control == 0,
            result.dicr_flags == 0,
            result.pending is None,
    {
        Self {
            channels: [ChannelRegisters { madr: 0, bcr: 0, chcr: 0 };7],
            dpcr: DPCR_RESET,
            dicr_control: 0,
            dicr_flags: 0,
            pending: None,
        }
    }

    /// Returns the scheduled channel 4 completion, if active.
    pub fn completion_deadline(&self) -> (result: Option<Deadline>)
        ensures
            result == match self.pending {
                Some(pending) => Some(pending.deadline),
                None => None,
            },
    {
        match self.pending {
            Some(pending) => Some(pending.deadline),
            None => None,
        }
    }

    /// Reads a modeled 32-bit DMA register.
    ///
    /// Addresses outside the seven channel register triplets, `DPCR`, and `DICR`
    /// are an error.
    pub fn read(&self, address: u32) -> (result: Result<u32, DmaError>)
        ensures
            result == self.value_at(address),
    {
        if let Some((channel, register)) = channel_register(address) {
            let registers = self.channels[channel];
            return Ok(
                if register == 0 {
                    registers.madr
                } else if register == 1 {
                    registers.bcr
                } else {
                    registers.chcr
                },
            );
        }
        match address {
            DPCR => Ok(self.dpcr),
            DICR => Ok(self.dicr()),
            _ => Err(DmaError::InvalidRegister { address }),
        }
    }

    /// Writes a modeled DMA register and schedules newly active channel 4 work.
    ///
    /// Enabling `DPCR` after an already-started `CHCR` also starts the channel.
    /// `DICR` writes apply write-one-to-clear flag behavior and may raise the
    /// aggregate DMA interrupt on a low-to-high master transition.
    pub fn write<S: InterruptSink>(
        &mut self,
        address: u32,
        value: u32,
        now: Deadline,
        scheduler: &mut Scheduler,
        sink: &mut S,
    ) -> (result: Result<(), DmaError>)
        requires
            old(self).wf(),
            old(scheduler).wf(),
        ensures
            final(self).wf(),
            final(scheduler).wf(),
            ({
                let written = old(self).written(address, value, now, old(scheduler)@);
                &&& *final(self) == written.0
                &&& final(scheduler)@ == written.1
                &&& result == written.2
            }),
            if address == DICR {
                old(self).reported(*final(self), *old(sink), *final(sink))
            } else {
                *final(sink) == *old(sink)
            },
    {
        if let Some((channel, register)) = channel_register(address) {
            let mut registers = self.channels[channel];
            if register == 0 {
                registers.madr = value & RAM_ADDRESS_MASK;
            } else if register == 1 {
                registers.bcr = value;
            } else if channel == 0 || channel == 4 {
                registers.chcr = value & CHCR_WRITABLE;
            } else {
                registers.chcr = value & !CHCR_BUSY;
            }
            self.channels[channel] = registers;
            if channel == 4 && register == 2 {
                return self.reschedule(now, scheduler);
            }
            return Ok(());
        }
        match address {
            DPCR => {
                self.dpcr = value;
                self.reschedule(now, scheduler)
            },
            DICR => {
                self.write_dicr(value, sink);
                Ok(())
            },
            _ => Err(DmaError::InvalidRegister { address }),
        }
    }

    /// Immediately services one active MDEC-input transfer.
    ///
    /// The audio-oriented machine has no video timing consumer, so channel 0
    /// completes at its next MMIO programming boundary. Sound channel 4 keeps
    /// its scheduled cycle timing.
    pub fn service_mdec_in<E: MdecDmaEndpoint, S: InterruptSink>(
        &mut self,
        memory: &Ps1Memory,
        endpoint: &mut E,
        sink: &mut S,
    ) -> (result: Result<bool, DmaError>)
        requires
            old(self).wf(),
            memory.wf(),
            old(endpoint).valid(),
        ensures
            final(self).wf(),
            final(endpoint).valid(),
            final(self).dicr_flags == if result == Ok::<bool, DmaError>(true) {
                old(self).dicr_flags | 0x0100_0000
            } else {
                old(self).dicr_flags
            },
            ({
                let registers = old(self).channels@[0];
                let decrement = registers.chcr & CHCR_DECREMENT != 0;
                match old(self).mdec_plan() {
                    Err(error) => {
                        &&& result == Err::<bool, DmaError>(error)
                        &&& *final(self) == *old(self)
                        &&& *final(endpoint) == *old(endpoint)
                        &&& *final(sink) == *old(sink)
                    },
                    Ok(None) => {
                        &&& result == Ok::<bool, DmaError>(false)
                        &&& *final(self) == *old(self)
                        &&& *final(endpoint) == *old(endpoint)
                        &&& *final(sink) == *old(sink)
                    },
                    Ok(Some(words)) => if !in_ram(
                        registers.madr,
                        words,
                        decrement,
                        RAM_SIZE as int,
                    ) {
                        &&& result == Err::<bool, DmaError>(
                            DmaError::RamRange { base: registers.madr, words, decrement },
                        )
                        &&& *final(self) == *old(self)
                        &&& *final(endpoint) == *old(endpoint)
                        &&& *final(sink) == *old(sink)
                    } else {
                        let sent = outgoing(memory@.ram, registers.madr, words as nat, decrement);
                        match result {
                            Ok(done) => {
                                &&& done
                                &&& chain(mdec_takes::<E>(), *old(endpoint), sent, *final(endpoint))
                                &&& *final(self) == old(self).finished(0, words, DICR_CHANNEL0_FLAG)
                                &&& old(self).reported(*final(self), *old(sink), *final(sink))
                            },
                            Err(error) => {
                                &&& error matches DmaError::Endpoint(fault) && mdec_fails(
                                    *old(endpoint),
                                    sent,
                                    fault,
                                    *final(endpoint),
                                )
                                &&& *final(self) == *old(self)
                                &&& *final(sink) == *old(sink)
                            },
                        }
                    },
                }
            }),
    {
        let registers = self.channels[0];
        if self.dpcr & CHANNEL0_ENABLE == 0 || registers.chcr & CHCR_START == 0 {
            return Ok(false);
        }
        if registers.chcr & CHCR_DIRECTION_FROM_RAM == 0 {
            return Err(DmaError::MdecDirection);
        }
        let sync: u8 = sync_mode(registers.chcr);
        if sync > 1 {
            return Err(DmaError::UnsupportedMdecSync { mode: sync });
        }
        if sync == 0 && registers.chcr & CHCR_TRIGGER == 0 {
            return Ok(false);
        }
        let words: u64 = match transfer_words(registers.bcr, sync) {
            Ok(words) => words,
            Err(error) => {
                return Err(error);
            },
        };
        let decrement = registers.chcr & CHCR_DECREMENT != 0;
        let base: u32 = registers.madr;
        if let Err(error) = validate_ram_range(base, words, decrement, RAM_SIZE) {
            return Err(error);
        }
        let ghost sent = outgoing(memory@.ram, base, words as nat, decrement);
        let mut index: u64 = 0;
        while index < words
            invariant
                *self == *old(self),
                *sink == *old(sink),
                endpoint.valid(),
                memory.wf(),
                old(self).wf(),
                registers == old(self).channels@[0],
                base == registers.madr,
                decrement == (registers.chcr & CHCR_DECREMENT != 0),
                old(self).mdec_plan() == Ok::<Option<u64>, DmaError>(Some(words)),
                index <= words <= MAX_RAM_WORDS,
                in_ram(base, words, decrement, RAM_SIZE as int),
                sent == outgoing(memory@.ram, base, words as nat, decrement),
                chain(mdec_takes::<E>(), *old(endpoint), sent.take(index as int), *endpoint),
            decreases words - index,
        {
            let ghost between = *endpoint;
            let offset: usize = transfer_address(base, index, decrement, words, RAM_SIZE);
            let value: u32 = read_word(memory.ram(), offset);
            assert(value == sent[index as int]);
            match endpoint.write_word(value) {
                Ok(done) => {
                    proof {
                        assert(done == ());
                        lemma_chain_push(
                            mdec_takes::<E>(),
                            *old(endpoint),
                            sent.take(index as int),
                            between,
                            value,
                            *endpoint,
                        );
                        assert(sent.take(index as int).push(value) =~= sent.take(index + 1));
                    }
                },
                Err(error) => {
                    assert(mdec_fails(*old(endpoint), sent, error, *endpoint)) by {
                        assert(chain(
                            mdec_takes::<E>(),
                            *old(endpoint),
                            sent.take(index as int),
                            between,
                        ));
                    }
                    return Err(DmaError::Endpoint(error));
                },
            }
            index += 1;
        }
        assert(sent.take(words as int) =~= sent);
        self.finish_channel(0, words, DICR_CHANNEL0_FLAG, sink);
        Ok(true)
    }

    /// Completes the scheduler event and transfers exact words through the port.
    ///
    /// Another event or deadline is [`DmaError::StaleEvent`]. A range that leaves
    /// RAM is refused before any word moves.
    pub fn complete<E: SoundDmaEndpoint, S: InterruptSink>(
        &mut self,
        event: DueEvent,
        memory: &mut Ps1Memory,
        endpoint: &mut E,
        sink: &mut S,
    ) -> (result: Result<(), DmaError>)
        requires
            old(self).wf(),
            old(memory).wf(),
            old(endpoint).valid(),
        ensures
            final(self).wf(),
            final(endpoint).valid(),
            final(memory).wf(),
            old(self).completed(
                event,
                old(memory)@,
                *old(endpoint),
                *old(sink),
                result,
                *final(self),
                final(memory)@,
                *final(endpoint),
                *final(sink),
            ),
    {
        let pending = match self.pending {
            Some(pending) => pending,
            None => {
                return Err(DmaError::StaleEvent);
            },
        };
        if event.id.number != CHANNEL4_EVENT || event.deadline.time != pending.deadline.time {
            return Err(DmaError::StaleEvent);
        }
        self.pending = None;
        let ghost idle = *self;
        let registers = self.channels[4];
        let base: u32 = registers.madr;
        let words: u64 = pending.words;
        let decrement = registers.chcr & CHCR_DECREMENT != 0;
        if let Err(error) = validate_ram_range(base, words, decrement, RAM_SIZE) {
            return Err(error);
        }
        let moved = if registers.chcr & CHCR_DIRECTION_FROM_RAM != 0 {
            send_words(memory, endpoint, base, words, decrement)
        } else {
            receive_words(memory, endpoint, base, words, decrement)
        };
        match moved {
            Ok(_) => {
                self.finish_channel(4, words, DICR_CHANNEL4_FLAG, sink);
                Ok(())
            },
            Err(error) => Err(DmaError::Endpoint(error)),
        }
    }

    /// Completing `event` may end as `result`.
    pub open spec fn completed<E: SoundDmaEndpoint, S: InterruptSink>(
        self,
        event: DueEvent,
        memory: MemoryContents,
        endpoint: E,
        sink: S,
        result: Result<(), DmaError>,
        after: DmaController,
        memory_after: MemoryContents,
        endpoint_after: E,
        sink_after: S,
    ) -> bool {
        if !self.awaits(event) {
            &&& result == Err::<(), DmaError>(DmaError::StaleEvent)
            &&& after == self
            &&& memory_after == memory
            &&& endpoint_after == endpoint
            &&& sink_after == sink
        } else {
            let idle = DmaController { pending: None, ..self };
            let registers = self.channels@[4];
            let words = self.pending->0.words;
            let decrement = registers.chcr & CHCR_DECREMENT != 0;
            if !in_ram(registers.madr, words, decrement, RAM_SIZE as int) {
                &&& result == Err::<(), DmaError>(
                    DmaError::RamRange { base: registers.madr, words, decrement },
                )
                &&& after == idle
                &&& memory_after == memory
                &&& endpoint_after == endpoint
                &&& sink_after == sink
            } else {
                match result {
                    Ok(_) => {
                        &&& if registers.chcr & CHCR_DIRECTION_FROM_RAM != 0 {
                            sent_all(
                                memory,
                                endpoint,
                                registers.madr,
                                words,
                                decrement,
                                memory_after,
                                endpoint_after,
                            )
                        } else {
                            received_all(
                                memory,
                                endpoint,
                                registers.madr,
                                words,
                                decrement,
                                memory_after,
                                endpoint_after,
                            )
                        }
                        &&& after == idle.finished(4, words, DICR_CHANNEL4_FLAG)
                        &&& idle.reported(after, sink, sink_after)
                    },
                    Err(error) => {
                        &&& error matches DmaError::Endpoint(fault) && if registers.chcr
                            & CHCR_DIRECTION_FROM_RAM != 0 {
                            sending_failed(
                                memory,
                                endpoint,
                                registers.madr,
                                words,
                                decrement,
                                fault,
                                memory_after,
                                endpoint_after,
                            )
                        } else {
                            receiving_failed(
                                memory,
                                endpoint,
                                registers.madr,
                                words,
                                decrement,
                                fault,
                                memory_after,
                                endpoint_after,
                            )
                        }
                        &&& after == idle
                        &&& sink_after == sink
                    },
                }
            }
        }
    }

    fn dicr(&self) -> (result: u32)
        ensures
            result == self.dicr_value(),
    {
        self.dicr_control | self.dicr_flags | if self.master_irq() {
            DICR_MASTER_FLAG
        } else {
            0
        }
    }

    fn master_irq(&self) -> (result: bool)
        ensures
            result == self.master(),
    {
        self.dicr_control & DICR_FORCE != 0 || (self.dicr_control & DICR_MASTER_ENABLE != 0 && ((
        self.dicr_control & DICR_CHANNEL_MASKS) << 8) & self.dicr_flags != 0)
    }

    fn write_dicr<S: InterruptSink>(&mut self, value: u32, sink: &mut S)
        ensures
            *final(self) == old(self).dicr_written(value),
            old(self).reported(*final(self), *old(sink), *final(sink)),
    {
        let was_asserted = self.master_irq();
        self.dicr_control = value & DICR_WRITABLE_CONTROL;
        self.dicr_flags = self.dicr_flags & !(value & DICR_CHANNEL_FLAGS);
        if !was_asserted && self.master_irq() {
            sink.request(InterruptSource::Dma);
        }
    }

    fn finish_channel<S: InterruptSink>(
        &mut self,
        channel: usize,
        words: u64,
        flag: u32,
        sink: &mut S,
    )
        requires
            channel < 7,
            words <= MAX_RAM_WORDS,
        ensures
            *final(self) == old(self).finished(channel as int, words, flag),
            old(self).reported(*final(self), *old(sink), *final(sink)),
    {
        let was_asserted = self.master_irq();
        let mut registers = self.channels[channel];
        let byte_count: u32 = words as u32 * 4;
        let next: u32 = if registers.chcr & CHCR_DECREMENT != 0 {
            registers.madr.wrapping_sub(byte_count)
        } else {
            registers.madr.wrapping_add(byte_count)
        };
        registers.madr = next & RAM_ADDRESS_MASK;
        registers.chcr = registers.chcr & !CHCR_BUSY;
        self.channels[channel] = registers;
        self.dicr_flags = self.dicr_flags | flag;
        if !was_asserted && self.master_irq() {
            sink.request(InterruptSource::Dma);
        }
    }

    fn reschedule(&mut self, now: Deadline, scheduler: &mut Scheduler) -> (result: Result<
        (),
        DmaError,
    >)
        requires
            old(scheduler).wf(),
        ensures
            final(self).wf(),
            final(scheduler).wf(),
            ({
                let rescheduled = old(self).rescheduled(now, old(scheduler)@);
                &&& *final(self) == rescheduled.0
                &&& final(scheduler)@ == rescheduled.1
                &&& result == rescheduled.2
            }),
    {
        let id = EventId { number: CHANNEL4_EVENT };
        scheduler.cancel(id);
        self.pending = None;
        let registers = self.channels[4];
        if self.dpcr & CHANNEL4_ENABLE == 0 || registers.chcr & CHCR_START == 0 {
            return Ok(());
        }
        let sync: u8 = sync_mode(registers.chcr);
        if sync > 1 {
            return Err(DmaError::UnsupportedSync { mode: sync });
        }
        if sync == 0 && registers.chcr & CHCR_TRIGGER == 0 {
            return Ok(());
        }
        let words: u64 = match transfer_words(registers.bcr, sync) {
            Ok(words) => words,
            Err(error) => {
                return Err(error);
            },
        };
        let deadline = match now.checked_advance(Ticks::new(words * CYCLES_PER_WORD)) {
            Ok(deadline) => deadline,
            Err(error) => {
                return Err(DmaError::from(error));
            },
        };
        if let Err(error) = scheduler.schedule(id, deadline) {
            return Err(DmaError::from(error));
        }
        self.pending = Some(PendingTransfer { deadline, words });
        Ok(())
    }
}

impl Default for DmaController {
    fn default() -> (result: Self)
        ensures
            result.wf(),
            result.dpcr == DPCR_RESET,
            result.dicr_control == 0,
            result.dicr_flags == 0,
            result.pending is None,
            forall|i: int|
                0 <= i < 7 ==> #[trigger] result.channels@[i] == (ChannelRegisters {
                    madr: 0,
                    bcr: 0,
                    chcr: 0,
                }),
    {
        Self::new()
    }
}

/// Every word of RAM in the range was taken by the port.
pub open spec fn sent_all<E: SoundDmaEndpoint>(
    memory: MemoryContents,
    endpoint: E,
    base: u32,
    words: u64,
    decrement: bool,
    memory_after: MemoryContents,
    endpoint_after: E,
) -> bool {
    &&& memory_after == memory
    &&& chain(
        sound_takes::<E>(),
        endpoint,
        outgoing(memory.ram, base, words as nat, decrement),
        endpoint_after,
    )
}

/// The port failed at some word, after it took the words before.
pub open spec fn sending_failed<E: SoundDmaEndpoint>(
    memory: MemoryContents,
    endpoint: E,
    base: u32,
    words: u64,
    decrement: bool,
    fault: EndpointError,
    memory_after: MemoryContents,
    endpoint_after: E,
) -> bool {
    &&& memory_after == memory
    &&& sound_fails(
        endpoint,
        outgoing(memory.ram, base, words as nat, decrement),
        fault,
        endpoint_after,
    )
}

/// The port gave every word, and RAM holds them.
pub open spec fn received_all<E: SoundDmaEndpoint>(
    memory: MemoryContents,
    endpoint: E,
    base: u32,
    words: u64,
    decrement: bool,
    memory_after: MemoryContents,
    endpoint_after: E,
) -> bool {
    exists|received: Seq<u32>|
        received.len() == words && #[trigger] chain(
            sound_gives::<E>(),
            endpoint,
            received,
            endpoint_after,
        ) && memory_after == (MemoryContents {
            ram: incoming(memory.ram, base, received, decrement),
            ..memory
        })
}

/// The port failed after it gave some words, which RAM holds.
pub open spec fn receiving_failed<E: SoundDmaEndpoint>(
    memory: MemoryContents,
    endpoint: E,
    base: u32,
    words: u64,
    decrement: bool,
    fault: EndpointError,
    memory_after: MemoryContents,
    endpoint_after: E,
) -> bool {
    exists|received: Seq<u32>, between: E|
        received.len() < words && #[trigger] chain(
            sound_gives::<E>(),
            endpoint,
            received,
            between,
        ) && E::supplied(between, Err(fault), endpoint_after) && memory_after == (MemoryContents {
            ram: incoming(memory.ram, base, received, decrement),
            ..memory
        })
}

fn send_words<E: SoundDmaEndpoint>(
    memory: &Ps1Memory,
    endpoint: &mut E,
    base: u32,
    words: u64,
    decrement: bool,
) -> (result: Result<(), EndpointError>)
    requires
        memory.wf(),
        old(endpoint).valid(),
        1 <= words <= MAX_RAM_WORDS,
        in_ram(base, words, decrement, RAM_SIZE as int),
    ensures
        final(endpoint).valid(),
        match result {
            Ok(_) => sent_all(
                memory@,
                *old(endpoint),
                base,
                words,
                decrement,
                memory@,
                *final(endpoint),
            ),
            Err(fault) => sending_failed(
                memory@,
                *old(endpoint),
                base,
                words,
                decrement,
                fault,
                memory@,
                *final(endpoint),
            ),
        },
{
    let ghost sent = outgoing(memory@.ram, base, words as nat, decrement);
    let mut index: u64 = 0;
    while index < words
        invariant
            memory.wf(),
            endpoint.valid(),
            index <= words <= MAX_RAM_WORDS,
            in_ram(base, words, decrement, RAM_SIZE as int),
            sent == outgoing(memory@.ram, base, words as nat, decrement),
            chain(sound_takes::<E>(), *old(endpoint), sent.take(index as int), *endpoint),
        decreases words - index,
    {
        let ghost between = *endpoint;
        let offset: usize = transfer_address(base, index, decrement, words, RAM_SIZE);
        let value: u32 = read_word(memory.ram(), offset);
        assert(value == sent[index as int]);
        match endpoint.write_word(value) {
            Ok(done) => {
                proof {
                    assert(done == ());
                    lemma_chain_push(
                        sound_takes::<E>(),
                        *old(endpoint),
                        sent.take(index as int),
                        between,
                        value,
                        *endpoint,
                    );
                    assert(sent.take(index as int).push(value) =~= sent.take(index + 1));
                }
            },
            Err(error) => {
                assert(sound_fails(*old(endpoint), sent, error, *endpoint)) by {
                    assert(chain(
                        sound_takes::<E>(),
                        *old(endpoint),
                        sent.take(index as int),
                        between,
                    ));
                }
                return Err(error);
            },
        }
        index += 1;
    }
    assert(sent.take(words as int) =~= sent);
    Ok(())
}

fn receive_words<E: SoundDmaEndpoint>(
    memory: &mut Ps1Memory,
    endpoint: &mut E,
    base: u32,
    words: u64,
    decrement: bool,
) -> (result: Result<(), EndpointError>)
    requires
        old(memory).wf(),
        old(endpoint).valid(),
        1 <= words <= MAX_RAM_WORDS,
        in_ram(base, words, decrement, RAM_SIZE as int),
    ensures
        final(endpoint).valid(),
        final(memory).wf(),
        match result {
            Ok(_) => received_all(
                old(memory)@,
                *old(endpoint),
                base,
                words,
                decrement,
                final(memory)@,
                *final(endpoint),
            ),
            Err(fault) => receiving_failed(
                old(memory)@,
                *old(endpoint),
                base,
                words,
                decrement,
                fault,
                final(memory)@,
                *final(endpoint),
            ),
        },
{
    let ghost mut received: Seq<u32> = Seq::empty();
    let mut index: u64 = 0;
    while index < words
        invariant
            memory.wf(),
            endpoint.valid(),
            index <= words <= MAX_RAM_WORDS,
            in_ram(base, words, decrement, RAM_SIZE as int),
            received.len() == index,
            memory@ == (MemoryContents {
                ram: incoming(old(memory)@.ram, base, received, decrement),
                ..old(memory)@
            }),
            chain(sound_gives::<E>(), *old(endpoint), received, *endpoint),
        decreases words - index,
    {
        let ghost between = *endpoint;
        let offset: usize = transfer_address(base, index, decrement, words, RAM_SIZE);
        match endpoint.read_word() {
            Ok(value) => {
                write_word(&mut memory.ram, offset, value);
                proof {
                    lemma_chain_push(
                        sound_gives::<E>(),
                        *old(endpoint),
                        received,
                        between,
                        value,
                        *endpoint,
                    );
                    assert(received.push(value).drop_last() =~= received);
                    received = received.push(value);
                }
            },
            Err(error) => {
                assert(receiving_failed(
                    old(memory)@,
                    *old(endpoint),
                    base,
                    words,
                    decrement,
                    error,
                    memory@,
                    *endpoint,
                )) by {
                    assert(chain(sound_gives::<E>(), *old(endpoint), received, between));
                }
                return Err(error);
            },
        }
        index += 1;
    }
    assert(chain(sound_gives::<E>(), *old(endpoint), received, *endpoint));
    Ok(())
}

fn channel_register(address: u32) -> (result: Option<(usize, usize)>)
    ensures
        match result {
            Some((channel, register)) => register_at(address) == Some(
                (channel as int, register as int),
            ) && channel < 7 && register < 3,
            None => register_at(address) is None,
        },
{
    if address < DMA_CHANNEL_START {
        return None;
    }
    let offset: u32 = address - DMA_CHANNEL_START;
    if offset >= 0x70 || offset % 4 != 0 || offset % 16 >= 12 {
        return None;
    }
    Some(((offset / 16) as usize, ((offset % 16) / 4) as usize))
}

fn transfer_words(bcr: u32, sync: u8) -> (result: Result<u64, DmaError>)
    requires
        sync <= 1,
    ensures
        result == if words_of(bcr, sync as int) > MAX_RAM_WORDS {
            Err(DmaError::TransferTooLarge { words: words_of(bcr, sync as int) as u64 })
        } else {
            Ok(words_of(bcr, sync as int) as u64)
        },
        result matches Ok(words) ==> 1 <= words <= MAX_RAM_WORDS,
{
    let words: u64 = programmed_words(bcr, sync);
    if words > MAX_RAM_WORDS {
        return Err(DmaError::TransferTooLarge { words });
    }
    Ok(words)
}

fn validate_ram_range(base: u32, words: u64, decrement: bool, ram_len: usize) -> (result: Result<
    (),
    DmaError,
>)
    requires
        1 <= words <= MAX_RAM_WORDS,
        ram_len == RAM_SIZE,
    ensures
        result == if in_ram(base, words, decrement, ram_len as int) {
            Ok(())
        } else {
            Err(DmaError::RamRange { base, words, decrement })
        },
{
    if !range_fits(base, words, decrement, ram_len) {
        return Err(DmaError::RamRange { base, words, decrement });
    }
    Ok(())
}

proof fn lemma_control_bits(value: u32, flags: u32, flag: u32)
    by (bit_vector)
    ensures
        (value & !CHCR_BUSY) & CHCR_BUSY == 0,
        value & flag == flag && flag & !DICR_CHANNEL_FLAGS == 0 ==> (flags & !(value
            & DICR_CHANNEL_FLAGS)) & flag == 0,
        value & flag == 0 ==> (flags & !(value & DICR_CHANNEL_FLAGS)) & flag == flags & flag,
{
}

/// A channel without a device is never left busy, and a finished transfer never
/// leaves its channel busy, so a program that polls a channel makes progress.
pub proof fn law_channels_do_not_stay_busy(
    controller: DmaController,
    channel: int,
    value: u32,
    words: u64,
    flag: u32,
)
    requires
        0 <= channel < 7,
    ensures
        channel != 0 && channel != 4 ==> controller.channel_written(
            channel,
            2,
            value,
        ).channels@[channel].chcr & CHCR_BUSY == 0,
        controller.finished(channel, words, flag).channels@[channel].chcr & CHCR_BUSY == 0,
{
    lemma_control_bits(value, 0, 0);
    lemma_control_bits(controller.channels@[channel].chcr, 0, 0);
}

/// Writing a one to an interrupt flag clears it and writing a zero keeps it.
pub proof fn law_flags_clear_by_one(controller: DmaController, value: u32, flag: u32)
    requires
        flag & !DICR_CHANNEL_FLAGS == 0,
    ensures
        value & flag == flag ==> controller.dicr_written(value).dicr_flags & flag == 0,
        value & flag == 0 ==> controller.dicr_written(value).dicr_flags & flag
            == controller.dicr_flags & flag,
{
    lemma_control_bits(value, controller.dicr_flags, flag);
}

/// A channel register that was written reads back with its implemented bits, and
/// no other register changes.
pub proof fn law_channel_register_reads_back(
    controller: DmaController,
    channel: int,
    register: int,
    value: u32,
)
    requires
        0 <= channel < 7,
        0 <= register < 3,
    ensures
        controller.channel_written(channel, register, value).channel_value(channel, register)
            == if register == 0 {
            value & RAM_ADDRESS_MASK
        } else if register == 1 {
            value
        } else if channel == 0 || channel == 4 {
            value & CHCR_WRITABLE
        } else {
            value & !CHCR_BUSY
        },
        forall|other: int, slot: int|
            0 <= other < 7 && 0 <= slot < 3 && (other != channel || slot != register)
                ==> #[trigger] controller.channel_written(channel, register, value).channel_value(
                other,
                slot,
            ) == controller.channel_value(other, slot),
{
}

/// A channel 4 transfer that is started at `now` is due four cycles per word later.
pub proof fn law_sound_transfer_timing(controller: DmaController, now: Deadline, queue: Queue)
    requires
        controller.rescheduled(now, queue).2 is Ok,
        controller.rescheduled(now, queue).0.pending is Some,
    ensures
        ({
            let pending = controller.rescheduled(now, queue).0.pending->0;
            &&& pending.deadline.time == now.time + 4 * pending.words
            &&& pending.words == words_of(
                controller.channels@[4].bcr,
                sync_of(controller.channels@[4].chcr),
            )
            &&& controller.rescheduled(now, queue).1.events.contains(
                DueEvent { id: EventId { number: CHANNEL4_EVENT }, deadline: pending.deadline },
            )
        }),
{
    let pending = controller.rescheduled(now, queue).0.pending->0;
    let id = EventId { number: CHANNEL4_EVENT };
    let cleared = queue.without(id);
    let event = DueEvent { id, deadline: pending.deadline };
    let at = not_later(cleared.events, event.deadline) as int;
    lemma_not_later_bound(cleared.events, event.deadline);
    assert(cleared.scheduled(id, pending.deadline).events[at] == event);
}

} // verus!
