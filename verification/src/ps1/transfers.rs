//! What the PS1 DMA registers do, when a transfer is due and what it leaves.

use vstd::prelude::*;

use crate::clock::Deadline;
use crate::ps1::dma::{
    register_at, sound_gives, sound_takes, ChannelRegisters, DmaController, DmaError,
    InterruptSink, SoundDmaEndpoint,
};
use crate::ps1::irq::InterruptSource;
use crate::ps1::memory::MemoryContents;
use crate::scheduler::{DueEvent, Queue};
use crate::trace::chain;
use crate::transfer::{in_ram, incoming, lemma_fields, outgoing, words_of};

verus! {

/// The three registers of channel `channel` are at `0x1f80_1080 + 16 * channel`, four bytes
/// apart: the address, of which bits 2 to 23 are kept, the count and the control register.
/// Channels other than the first and the fifth cannot be started.
pub proof fn law_channel_registers(
    controller: DmaController,
    channel: int,
    value: u32,
    now: Deadline,
    queue: Queue,
)
    requires
        0 <= channel < 7,
    ensures
        ({
            let base = 0x1f80_1080 + 16 * channel;
            let old = controller.channels@[channel];
            let address = controller.written(base as u32, value, now, queue);
            let count = controller.written((base + 4) as u32, value, now, queue);
            &&& register_at((base + 8) as u32) == Some((channel, 2int))
            &&& register_at((base + 12) as u32) is None
            &&& address.0.channels@[channel] == (ChannelRegisters {
                madr: (value % 0x100_0000 - value % 4) as u32,
                ..old
            })
            &&& address.1 == queue
            &&& address.2 is Ok
            &&& count.0.channels@[channel] == (ChannelRegisters { bcr: value, ..old })
            &&& count.1 == queue
            &&& count.2 is Ok
            &&& controller.value_at(base as u32) == Ok::<u32, DmaError>(old.madr)
            &&& controller.value_at((base + 4) as u32) == Ok::<u32, DmaError>(old.bcr)
            &&& controller.value_at((base + 8) as u32) == Ok::<u32, DmaError>(old.chcr)
            &&& forall|other: int|
                0 <= other < 7 && other != channel ==> #[trigger] address.0.channels@[other]
                    == controller.channels@[other] && count.0.channels@[other]
                    == controller.channels@[other]
        }),
{
    lemma_fields(value, 0);
    let base = 0x1f80_1080 + 16 * channel;
    assert(register_at(base as u32) == Some((channel, 0int)));
    assert(register_at((base + 4) as u32) == Some((channel, 1int)));
    assert(register_at((base + 8) as u32) == Some((channel, 2int)));
}

/// The control register keeps the direction, the step and the synchronization, and the
/// start bit in the first and the fifth channel alone.
pub proof fn law_channel_control(controller: DmaController, channel: int, value: u32)
    requires
        0 <= channel < 7,
    ensures
        ({
            let after = controller.channel_written(channel, 2, value).channels@[channel];
            let busy = if channel == 0 || channel == 4 {
                (value / 0x100_0000) % 2
            } else {
                0
            };
            &&& after.madr == controller.channels@[channel].madr
            &&& after.bcr == controller.channels@[channel].bcr
            &&& (after.chcr / 0x100_0000) % 2 == busy
            &&& after.chcr % 4 == value % 4
            &&& (after.chcr / 0x200) % 4 == (value / 0x200) % 4
        }),
{
    lemma_fields(value, 0);
}

/// The enable register is at `0x1f80_10f0` and the interrupt register at `0x1f80_10f4`. The
/// latter keeps bits 0 to 5 and 15 to 23, and ones in bits 24 to 30 clear flags.
pub proof fn law_control_registers(
    controller: DmaController,
    value: u32,
    now: Deadline,
    queue: Queue,
)
    ensures
        controller.value_at(0x1f80_10f0) == Ok::<u32, DmaError>(controller.dpcr),
        controller.written(0x1f80_10f0, value, now, queue).0.dpcr == value,
        controller.value_at(0x1f80_10f4) == Ok::<u32, DmaError>(controller.dicr_value()),
        ({
            let (after, queue_after, result) = controller.written(0x1f80_10f4, value, now, queue);
            &&& result is Ok
            &&& queue_after == queue
            &&& after.dicr_control / 0x8000 == (value % 0x100_0000) / 0x8000
            &&& after.dicr_control % 0x40 == value % 0x40
            &&& after.dicr_flags == controller.dicr_flags & !(value & 0x7f00_0000)
            &&& after.channels == controller.channels
            &&& after.dpcr == controller.dpcr
        }),
{
    lemma_fields(value, 0);
}

/// The interrupt is up when bit 15 forces it, or when bit 23 is set and a channel has both
/// its mask, from bit 16 on, and its flag, from bit 24 on.
pub proof fn law_master_flag(controller: DmaController)
    ensures
        controller.master() <==> (controller.dicr_control / 0x8000) % 2 == 1 || ((
        controller.dicr_control / 0x80_0000) % 2 == 1 && ((controller.dicr_control / 0x1_0000)
            % 0x80) & ((controller.dicr_flags / 0x100_0000) % 0x80) != 0),
{
    lemma_fields(controller.dicr_control, controller.dicr_flags);
}

/// A sound transfer is planned when bit 19 of the enable register and bit 24 of the control
/// register are set, and without blocks also bit 28. Its words take four clocks each.
/// More than all of RAM is refused, and so are the other two synchronization modes.
pub proof fn law_sound_plan(controller: DmaController, now: Deadline, queue: Queue)
    ensures
        ({
            let registers = controller.channels@[4];
            let on = (controller.dpcr / 0x8_0000) % 2 == 1 && (registers.chcr / 0x100_0000) % 2
                == 1;
            let sync = (registers.chcr as int / 0x200) % 4;
            let words = words_of(registers.bcr, sync);
            let (after, queue_after, result) = controller.rescheduled(now, queue);
            &&& !on || (sync == 0 && (registers.chcr / 0x1000_0000) % 2 == 0) ==> result is Ok
                && after.pending is None
            &&& on && sync >= 2 ==> result == Err::<(), DmaError>(
                DmaError::UnsupportedSync { mode: sync as u8 },
            ) && after.pending is None
            &&& on && (sync == 1 || (sync == 0 && (registers.chcr / 0x1000_0000) % 2 == 1))
                && words > 0x8_0000 ==> result == Err::<(), DmaError>(
                DmaError::TransferTooLarge { words: words as u64 },
            ) && after.pending is None
            &&& on && (sync == 1 || (sync == 0 && (registers.chcr / 0x1000_0000) % 2 == 1))
                && words <= 0x8_0000 && now.time + 4 * words <= u64::MAX && result is Ok ==> {
                &&& after.pending is Some
                &&& after.pending->0.words == words
                &&& after.pending->0.deadline.time == now.time + 4 * words
            }
        }),
{
    lemma_fields(controller.channels@[4].chcr, 0);
    lemma_fields(controller.dpcr, 0);
}

/// A picture transfer is planned like a sound one, by bit 3 of the enable register; one
/// that would fill RAM is refused.
pub proof fn law_picture_plan(controller: DmaController)
    ensures
        ({
            let registers = controller.channels@[0];
            let on = (controller.dpcr / 8) % 2 == 1 && (registers.chcr / 0x100_0000) % 2 == 1;
            let sync = (registers.chcr as int / 0x200) % 4;
            let words = words_of(registers.bcr, sync);
            let plan = controller.mdec_plan();
            &&& !on ==> plan == Ok::<Option<u64>, DmaError>(None)
            &&& on && registers.chcr % 2 == 0 ==> plan == Err::<Option<u64>, DmaError>(
                DmaError::MdecDirection,
            )
            &&& on && registers.chcr % 2 == 1 && sync >= 2 ==> plan == Err::<
                Option<u64>,
                DmaError,
            >(DmaError::UnsupportedMdecSync { mode: sync as u8 })
            &&& on && registers.chcr % 2 == 1 && sync == 0 && (registers.chcr / 0x1000_0000) % 2
                == 0 ==> plan == Ok::<Option<u64>, DmaError>(None)
            &&& on && registers.chcr % 2 == 1 && (sync == 1 || (sync == 0 && (registers.chcr
                / 0x1000_0000) % 2 == 1)) && words <= 0x8_0000 ==> plan == Ok::<
                Option<u64>,
                DmaError,
            >(Some(words as u64))
        }),
{
    lemma_fields(controller.channels@[0].chcr, 0);
    lemma_fields(controller.dpcr, 0);
}

/// A finished transfer leaves the address behind its last word, inside 16 MiB, takes back
/// the start and trigger bits, and sets its flag.
pub proof fn law_finished(controller: DmaController, channel: int, words: u64, flag: u32)
    requires
        0 <= channel < 7,
    ensures
        ({
            let old = controller.channels@[channel];
            let after = controller.finished(channel, words, flag);
            let end = if (old.chcr / 2) % 2 == 1 {
                old.madr - 4 * words
            } else {
                old.madr + 4 * words
            };
            &&& after.channels@[channel].madr == (end % 0x1_0000_0000) % 0x100_0000 - (end
                % 0x1_0000_0000) % 4
            &&& after.channels@[channel].bcr == old.bcr
            &&& (after.channels@[channel].chcr / 0x100_0000) % 2 == 0
            &&& (after.channels@[channel].chcr / 0x1000_0000) % 2 == 0
            &&& after.channels@[channel].chcr % 0x100_0000 == old.chcr % 0x100_0000
            &&& after.dicr_flags == controller.dicr_flags | flag
            &&& after.dicr_control == controller.dicr_control
            &&& after.dpcr == controller.dpcr
        }),
{
    let old = controller.channels@[channel];
    lemma_fields(old.chcr, 0);
    let end = if (old.chcr / 2) % 2 == 1 {
        old.madr - 4 * words
    } else {
        old.madr + 4 * words
    };
    lemma_fields((end % 0x1_0000_0000) as u32, 0);
}

/// An event completes a transfer only if its number is `0x0004_0004` and its time that of
/// the pending one. Any other is stale and changes nothing.
pub proof fn law_stale_events<E: SoundDmaEndpoint, S: InterruptSink>(
    controller: DmaController,
    event: DueEvent,
    memory: MemoryContents,
    endpoint: E,
    sink: S,
    result: Result<(), DmaError>,
    after: DmaController,
    memory_after: MemoryContents,
    endpoint_after: E,
    sink_after: S,
)
    requires
        controller.pending is None || event.id.number != 0x0004_0004 || event.deadline.time
            != controller.pending->0.deadline.time,
        controller.completed(
            event,
            memory,
            endpoint,
            sink,
            result,
            after,
            memory_after,
            endpoint_after,
            sink_after,
        ),
    ensures
        result == Err::<(), DmaError>(DmaError::StaleEvent),
        after == controller,
        memory_after == memory,
        endpoint_after == endpoint,
        sink_after == sink,
{
}

/// A transfer that is due goes out of RAM when bit 0 of the control register is set, and
/// into it otherwise, downward when bit 1 is set. All words of it move, in order, or the
/// endpoint failed, and then those before the failure have moved. Only a whole transfer
/// counts as finished. A range that leaves RAM is refused before anything moves.
pub proof fn law_due_transfer<E: SoundDmaEndpoint, S: InterruptSink>(
    controller: DmaController,
    event: DueEvent,
    memory: MemoryContents,
    endpoint: E,
    sink: S,
    result: Result<(), DmaError>,
    after: DmaController,
    memory_after: MemoryContents,
    endpoint_after: E,
    sink_after: S,
)
    requires
        controller.pending is Some,
        event.id.number == 0x0004_0004,
        event.deadline.time == controller.pending->0.deadline.time,
        controller.completed(
            event,
            memory,
            endpoint,
            sink,
            result,
            after,
            memory_after,
            endpoint_after,
            sink_after,
        ),
    ensures
        ({
            let base = controller.channels@[4].madr;
            let control = controller.channels@[4].chcr;
            let words = controller.pending->0.words;
            let downward = (control / 2) % 2 == 1;
            let good = in_ram(base, words, downward, 0x20_0000);
            let outward = control % 2 == 1;
            let idle = DmaController { pending: None, ..controller };
            let gives = sound_gives::<E>();
            let takes = sound_takes::<E>();
            let taken = outgoing(memory.ram, base, words as nat, downward);
            &&& forall|before: E, value: u32, next: E| #[trigger]
                gives(before, value, next) == E::supplied(before, Ok(value), next)
            &&& forall|before: E, value: u32, next: E| #[trigger]
                takes(before, value, next) == E::accepted(before, value, Ok(()), next)
            &&& !good ==> {
                &&& result == Err::<(), DmaError>(
                    DmaError::RamRange { base, words, decrement: downward },
                )
                &&& after == idle && memory_after == memory && endpoint_after == endpoint
                    && sink_after == sink
            }
            &&& good && result is Ok ==> after == idle.finished(4, words, 0x1000_0000)
            &&& good && result is Ok && !idle.master() && after.master() ==> S::requested(
                sink,
                InterruptSource::Dma,
                sink_after,
            )
            &&& !(good && result is Ok && !idle.master() && after.master()) ==> sink_after == sink
            &&& good && result is Err ==> after == idle
            &&& good && outward ==> memory_after == memory
            &&& good && outward && result is Ok ==> chain(takes, endpoint, taken, endpoint_after)
            &&& good && outward && result is Err ==> exists|count: int, between: E|
                #![trigger chain(takes, endpoint, taken.take(count), between)]
                {
                    &&& 0 <= count < words
                    &&& chain(takes, endpoint, taken.take(count), between)
                    &&& result matches Err(DmaError::Endpoint(fault)) && E::accepted(
                        between,
                        taken[count],
                        Err(fault),
                        endpoint_after,
                    )
                }
            &&& good && !outward && result is Ok ==> exists|given: Seq<u32>|
                #![trigger chain(gives, endpoint, given, endpoint_after)]
                {
                    &&& given.len() == words
                    &&& chain(gives, endpoint, given, endpoint_after)
                    &&& memory_after == (MemoryContents {
                        ram: incoming(memory.ram, base, given, downward),
                        ..memory
                    })
                }
            &&& good && !outward && result is Err ==> exists|given: Seq<u32>, between: E|
                #![trigger chain(gives, endpoint, given, between)]
                {
                    &&& given.len() < words
                    &&& chain(gives, endpoint, given, between)
                    &&& result matches Err(DmaError::Endpoint(fault)) && E::supplied(
                        between,
                        Err(fault),
                        endpoint_after,
                    )
                    &&& memory_after == (MemoryContents {
                        ram: incoming(memory.ram, base, given, downward),
                        ..memory
                    })
                }
        }),
{
    lemma_fields(controller.channels@[4].chcr, 0);
}

} // verus!
