//! What the IOP DMA registers do, when a transfer is due and what it leaves.

use vstd::prelude::*;

use crate::clock::Deadline;
use crate::ps2::dma::{
    endpoint_gives, endpoint_takes, register_at, ChannelRegisters, DmaController, DmaDirection,
    DmaError, DmaEvent, DmaObserver, PendingTransfer, SoundDmaChannel, Spu2DmaEndpoint,
};
use crate::ps2::irq::{InterruptSink, InterruptSource};
use crate::ps2::memory::MemoryContents;
use crate::scheduler::{DueEvent, EventId, Queue};
use crate::trace::chain;
use crate::transfer::{in_ram, incoming, lemma_fields, outgoing, words_of};

verus! {

/// Channels 0 to 6 are at `0x1f80_1080` and channels 7 to 12 at `0x1f80_1500`, sixteen bytes
/// apart: the address, of which bits 2 to 23 are kept, the count, the control register and
/// the tag address.
pub proof fn law_channel_registers(controller: DmaController, channel: int, value: u32)
    requires
        0 <= channel < 13,
    ensures
        ({
            let base = if channel < 7 {
                0x1f80_1080 + 16 * channel
            } else {
                0x1f80_1500 + 16 * (channel - 7)
            };
            let old = controller.channels@[channel];
            let written = |register: int|
                controller.channel_written(channel, register, value).channels@[channel];
            &&& register_at(base as u32) == Some((channel, 0int))
            &&& register_at((base + 4) as u32) == Some((channel, 1int))
            &&& register_at((base + 8) as u32) == Some((channel, 2int))
            &&& register_at((base + 12) as u32) == Some((channel, 3int))
            &&& written(0) == (ChannelRegisters {
                madr: (value % 0x100_0000 - value % 4) as u32,
                ..old
            })
            &&& written(1) == (ChannelRegisters { bcr: value, ..old })
            &&& written(2).madr == old.madr && written(2).bcr == old.bcr && written(2).tadr
                == old.tadr
            &&& channel == 4 || channel == 7 ==> written(2).chcr == value
            &&& channel != 4 && channel != 7 ==> (written(2).chcr / 0x100_0000) % 2 == 0
                && written(2).chcr % 0x100_0000 == value % 0x100_0000
            &&& written(3) == (ChannelRegisters { tadr: value, ..old })
            &&& controller.value_at(base as u32) == Ok::<u32, DmaError>(old.madr)
            &&& controller.value_at((base + 4) as u32) == Ok::<u32, DmaError>(old.bcr)
            &&& controller.value_at((base + 8) as u32) == Ok::<u32, DmaError>(old.chcr)
            &&& controller.value_at((base + 12) as u32) == Ok::<u32, DmaError>(old.tadr)
        }),
{
    lemma_fields(value, 0);
}

/// The registers of the unit as a whole.
pub proof fn law_unit_registers(
    controller: DmaController,
    value: u32,
    now: Deadline,
    queue: Queue,
)
    ensures
        controller.value_at(0x1f80_10f0) == Ok::<u32, DmaError>(controller.dpcr1),
        controller.value_at(0x1f80_1570) == Ok::<u32, DmaError>(controller.dpcr2),
        controller.value_at(0x1f80_1578) == Ok::<u32, DmaError>(controller.dmac_enable),
        controller.value_at(0x1f80_1560) == Ok::<u32, DmaError>(controller.extended@[0]),
        controller.value_at(0x1f80_1564) == Ok::<u32, DmaError>(controller.extended@[1]),
        controller.value_at(0x1f80_1568) == Ok::<u32, DmaError>(controller.extended@[2]),
        controller.written(0x1f80_1578, value, now, queue).state == (DmaController {
            dmac_enable: value,
            ..controller
        }),
        controller.written(0x1f80_10f4, value, now, queue).state.dicr1_flags
            == controller.dicr1_flags & !((value & 0xffff_ffff) & 0x7f00_0000),
        controller.written(0x1f80_1574, value, now, queue).state.dicr2_flags
            == controller.dicr2_flags & !((value & 0xffff_ffff) & 0x3f00_0000),
        controller.written(0x1f80_10f4, value, now, queue).state.dpcr1 == controller.dpcr1,
        controller.written(0x1f80_10f4, value, now, queue).state.dicr2_control
            == controller.dicr2_control,
        controller.written(0x1f80_1574, value, now, queue).state.dicr1_control
            == controller.dicr1_control,
{
}

/// The interrupt is up when bit 15 of the first interrupt register forces it, or when its
/// bit 23 is set and a channel of either register has both its mask, from bit 16 on, and
/// its flag, from bit 24 on.
pub proof fn law_master_flag(controller: DmaController)
    ensures
        controller.master() <==> (controller.dicr1_control / 0x8000) % 2 == 1 || ((
        controller.dicr1_control / 0x80_0000) % 2 == 1 && (((controller.dicr1_control / 0x1_0000)
            % 0x80) & ((controller.dicr1_flags / 0x100_0000) % 0x80) != 0 || ((
        controller.dicr2_control / 0x1_0000) % 0x40) & ((controller.dicr2_flags / 0x100_0000)
            % 0x40) != 0)),
{
    lemma_fields(controller.dicr1_control, controller.dicr1_flags);
    lemma_fields(controller.dicr2_control, controller.dicr2_flags);
}

/// A sound channel starts when nothing is pending on it, its enable bit, bit 19 of the
/// first register for channel 4 and bit 3 of the second for channel 7, and bit 24 of its
/// control register are set. It is due at once. The other two synchronization modes and
/// more than all of RAM are refused.
pub proof fn law_plans(controller: DmaController, second: bool, now: Deadline)
    ensures
        ({
            let channel = if second {
                SoundDmaChannel::Core1
            } else {
                SoundDmaChannel::Core0
            };
            let number = if second {
                7int
            } else {
                4
            };
            let core = if second {
                1int
            } else {
                0
            };
            let registers = controller.channels@[number];
            let enabled = if second {
                (controller.dpcr2 / 8) % 2 == 1
            } else {
                (controller.dpcr1 / 0x8_0000) % 2 == 1
            };
            let on = controller.pending@[core] is None && enabled && (registers.chcr
                / 0x100_0000) % 2 == 1;
            let sync = (registers.chcr as int / 0x200) % 4;
            let words = words_of(registers.bcr, sync);
            let plan = controller.planned(channel, now);
            &&& !on ==> plan == Ok::<Option<PendingTransfer>, DmaError>(None)
            &&& on && sync >= 2 ==> plan == Err::<Option<PendingTransfer>, DmaError>(
                DmaError::UnsupportedSync { channel: number as usize, mode: sync as u8 },
            )
            &&& on && sync < 2 && words > 0x8_0000 ==> plan == Err::<
                Option<PendingTransfer>,
                DmaError,
            >(DmaError::TransferTooLarge { words: words as u64 })
            &&& on && sync < 2 && words <= 0x8_0000 ==> plan == Ok::<
                Option<PendingTransfer>,
                DmaError,
            >(
                Some(
                    PendingTransfer {
                        deadline: now,
                        address: registers.madr,
                        words: words as u64,
                        direction: if registers.chcr % 2 == 1 {
                            DmaDirection::FromRam
                        } else {
                            DmaDirection::ToRam
                        },
                        decrement: (registers.chcr / 2) % 2 == 1,
                    },
                ),
            )
        }),
{
    lemma_fields(controller.channels@[4].chcr, 0);
    lemma_fields(controller.channels@[7].chcr, 0);
    lemma_fields(controller.dpcr1, 0);
    lemma_fields(controller.dpcr2, 0);
}

/// A finished transfer leaves the address behind its last word, inside 16 MiB, takes back
/// the start bit, and sets the flag of its channel: bit 28 of the first interrupt register
/// or bit 24 of the second.
pub proof fn law_finished(controller: DmaController, second: bool, pending: PendingTransfer)
    ensures
        ({
            let channel = if second {
                SoundDmaChannel::Core1
            } else {
                SoundDmaChannel::Core0
            };
            let number = if second {
                7int
            } else {
                4
            };
            let old = controller.channels@[number];
            let after = controller.finished(channel, pending);
            let end = if pending.decrement {
                old.madr - 4 * pending.words
            } else {
                old.madr + 4 * pending.words
            };
            &&& after.channels@[number].madr == (end % 0x1_0000_0000) % 0x100_0000 - (end
                % 0x1_0000_0000) % 4
            &&& after.channels@[number].bcr == old.bcr
            &&& (after.channels@[number].chcr / 0x100_0000) % 2 == 0
            &&& after.channels@[number].chcr % 0x100_0000 == old.chcr % 0x100_0000
            &&& after.channels@[number].chcr / 0x200_0000 == old.chcr / 0x200_0000
            &&& after.pending@[if second {
                1
            } else {
                0
            }] is None
            &&& second ==> after.dicr2_flags == controller.dicr2_flags | 0x100_0000
                && after.dicr1_flags == controller.dicr1_flags
            &&& !second ==> after.dicr1_flags == controller.dicr1_flags | 0x1000_0000
                && after.dicr2_flags == controller.dicr2_flags
        }),
{
    let old = controller.channels@[if second {
        7
    } else {
        4
    }];
    lemma_fields(old.chcr, 0);
    let end = if pending.decrement {
        old.madr - 4 * pending.words
    } else {
        old.madr + 4 * pending.words
    };
    lemma_fields((end % 0x1_0000_0000) as u32, 0);
}

/// Writing an enable register starts the sound channel of the first core, then that of the
/// second. A refusal of the first leaves the second alone.
pub proof fn law_enabling_starts_both(
    controller: DmaController,
    value: u32,
    now: Deadline,
    queue: Queue,
    upper: bool,
)
    ensures
        ({
            let (address, enabled) = if upper {
                (0x1f80_1570u32, DmaController { dpcr2: value, ..controller })
            } else {
                (0x1f80_10f0u32, DmaController { dpcr1: value, ..controller })
            };
            let first = enabled.started(SoundDmaChannel::Core0, now, queue);
            let second = first.state.started(SoundDmaChannel::Core1, now, first.queue);
            let written = controller.written(address, value, now, queue);
            &&& first.result is Err ==> written == first
            &&& first.result is Ok ==> written.state == second.state && written.queue
                == second.queue && written.result == second.result && written.events
                == first.events + second.events
        }),
{
}

/// A start makes the transfer pending, puts the event of its channel, `0x0204_0004` or
/// `0x0207_0007`, into the queue at the time of the write and tells of it once.
pub proof fn law_starts(
    controller: DmaController,
    second: bool,
    now: Deadline,
    queue: Queue,
    pending: PendingTransfer,
)
    requires
        queue.has_room(),
        controller.planned(
            if second {
                SoundDmaChannel::Core1
            } else {
                SoundDmaChannel::Core0
            },
            now,
        ) == Ok::<Option<PendingTransfer>, DmaError>(Some(pending)),
    ensures
        ({
            let channel = if second {
                SoundDmaChannel::Core1
            } else {
                SoundDmaChannel::Core0
            };
            let started = controller.started(channel, now, queue);
            let (core, number) = if second {
                (1int, 0x0207_0007u32)
            } else {
                (0int, 0x0204_0004u32)
            };
            &&& started.result is Ok
            &&& started.state.pending@ == controller.pending@.update(core, Some(pending))
            &&& started.state.channels == controller.channels
            &&& started.queue == queue.scheduled(EventId { number }, now)
            &&& started.events == seq![
                DmaEvent::Started {
                    channel,
                    direction: pending.direction,
                    words: pending.words,
                    deadline: now,
                },
            ]
        }),
{
}

/// An event completes the transfer of a core only if its number and its time are those of
/// the pending one. Any other is stale and changes nothing.
pub proof fn law_stale_events<E: Spu2DmaEndpoint, S: InterruptSink, O: DmaObserver>(
    controller: DmaController,
    event: DueEvent,
    memory: MemoryContents,
    endpoint: E,
    sink: S,
    observer: O,
    result: Result<(), DmaError>,
    after: DmaController,
    memory_after: MemoryContents,
    endpoint_after: E,
    sink_after: S,
    observer_after: O,
)
    requires
        controller.pending@[0] is None || event.id.number != 0x0204_0004 || event.deadline.time
            != controller.pending@[0]->0.deadline.time,
        controller.pending@[1] is None || event.id.number != 0x0207_0007 || event.deadline.time
            != controller.pending@[1]->0.deadline.time,
        controller.completed(
            event,
            memory,
            endpoint,
            sink,
            observer,
            result,
            after,
            memory_after,
            endpoint_after,
            sink_after,
            observer_after,
        ),
    ensures
        result == Err::<(), DmaError>(DmaError::StaleEvent { event: event.id.number }),
        after == controller,
        memory_after == memory,
        endpoint_after == endpoint,
        sink_after == sink,
        observer_after == observer,
{
}

/// A transfer that is due moves between RAM and the core that its event names. A whole one
/// counts as finished and is told of; one that the endpoint failed stays pending. A range
/// that leaves RAM is refused before anything moves.
pub proof fn law_due_transfer<E: Spu2DmaEndpoint, S: InterruptSink, O: DmaObserver>(
    controller: DmaController,
    channel: SoundDmaChannel,
    event: DueEvent,
    memory: MemoryContents,
    endpoint: E,
    sink: S,
    observer: O,
    result: Result<(), DmaError>,
    after: DmaController,
    memory_after: MemoryContents,
    endpoint_after: E,
    sink_after: S,
    observer_after: O,
)
    requires
        event.id.number == if channel == SoundDmaChannel::Core1 {
            0x0207_0007u32
        } else {
            0x0204_0004
        },
        ({
            let pending = controller.pending@[if channel == SoundDmaChannel::Core1 {
                1
            } else {
                0
            }];
            pending is Some && event.deadline.time == pending->0.deadline.time
        }),
        controller.completed(
            event,
            memory,
            endpoint,
            sink,
            observer,
            result,
            after,
            memory_after,
            endpoint_after,
            sink_after,
            observer_after,
        ),
    ensures
        ({
            let (core, number) = if channel == SoundDmaChannel::Core1 {
                (1int, 7usize)
            } else {
                (0int, 4usize)
            };
            let pending = controller.pending@[core]->0;
            let base = pending.address;
            let words = pending.words;
            let downward = pending.decrement;
            let good = in_ram(base, words, downward, 0x20_0000);
            &&& !good ==> {
                &&& result == Err::<(), DmaError>(
                    DmaError::RamRange { channel: number, base, words, decrement: downward },
                )
                &&& after == controller && memory_after == memory && endpoint_after == endpoint
                    && sink_after == sink && observer_after == observer
            }
            &&& good && result is Ok ==> after == controller.finished(channel, pending)
                && O::observed(
                observer,
                DmaEvent::Completed { channel, direction: pending.direction, words },
                observer_after,
            )
            &&& good && result is Ok && !controller.master() && after.master() ==> S::requested(
                sink,
                InterruptSource::Dma,
                sink_after,
            )
            &&& !(good && result is Ok && !controller.master() && after.master()) ==> sink_after
                == sink
            &&& good && result is Err ==> after == controller && observer_after == observer
        }),
{
    let pending = controller.pending@[if channel == SoundDmaChannel::Core1 {
        1
    } else {
        0
    }]->0;
    assert(controller.awaiting(event) == Some((channel, pending)));
}

/// A transfer out of RAM hands its words to the endpoint in order, all of them or those
/// before the one that failed, and leaves RAM alone.
pub proof fn law_outward_transfer<E: Spu2DmaEndpoint, S: InterruptSink, O: DmaObserver>(
    controller: DmaController,
    channel: SoundDmaChannel,
    pending: PendingTransfer,
    memory: MemoryContents,
    endpoint: E,
    sink: S,
    observer: O,
    result: Result<(), DmaError>,
    after: DmaController,
    memory_after: MemoryContents,
    endpoint_after: E,
    sink_after: S,
    observer_after: O,
)
    requires
        controller.pending@[if channel == SoundDmaChannel::Core1 {
            1
        } else {
            0
        }] == Some(pending),
        in_ram(pending.address, pending.words, pending.decrement, 0x20_0000),
        pending.direction == DmaDirection::FromRam,
        controller.completed(
            DueEvent {
                id: EventId {
                    number: if channel == SoundDmaChannel::Core1 {
                        0x0207_0007
                    } else {
                        0x0204_0004
                    },
                },
                deadline: pending.deadline,
            },
            memory,
            endpoint,
            sink,
            observer,
            result,
            after,
            memory_after,
            endpoint_after,
            sink_after,
            observer_after,
        ),
    ensures
        ({
            let takes = endpoint_takes::<E>(channel);
            let taken = outgoing(
                memory.ram,
                pending.address,
                pending.words as nat,
                pending.decrement,
            );
            &&& memory_after == memory
            &&& forall|before: E, value: u32, next: E| #[trigger]
                takes(before, value, next) == E::accepted(before, channel, value, Ok(()), next)
            &&& result is Ok ==> chain(takes, endpoint, taken, endpoint_after)
            &&& result is Err ==> exists|count: int, between: E|
                #![trigger chain(takes, endpoint, taken.take(count), between)]
                {
                    &&& 0 <= count < pending.words
                    &&& chain(takes, endpoint, taken.take(count), between)
                    &&& result matches Err(DmaError::Endpoint(fault)) && E::accepted(
                        between,
                        channel,
                        taken[count],
                        Err(fault),
                        endpoint_after,
                    )
                }
        }),
{
}

/// A transfer into RAM puts what the endpoint gives there in order, all of its words or
/// those before the failure.
pub proof fn law_inward_transfer<E: Spu2DmaEndpoint, S: InterruptSink, O: DmaObserver>(
    controller: DmaController,
    channel: SoundDmaChannel,
    pending: PendingTransfer,
    memory: MemoryContents,
    endpoint: E,
    sink: S,
    observer: O,
    result: Result<(), DmaError>,
    after: DmaController,
    memory_after: MemoryContents,
    endpoint_after: E,
    sink_after: S,
    observer_after: O,
)
    requires
        controller.pending@[if channel == SoundDmaChannel::Core1 {
            1
        } else {
            0
        }] == Some(pending),
        in_ram(pending.address, pending.words, pending.decrement, 0x20_0000),
        pending.direction == DmaDirection::ToRam,
        controller.completed(
            DueEvent {
                id: EventId {
                    number: if channel == SoundDmaChannel::Core1 {
                        0x0207_0007
                    } else {
                        0x0204_0004
                    },
                },
                deadline: pending.deadline,
            },
            memory,
            endpoint,
            sink,
            observer,
            result,
            after,
            memory_after,
            endpoint_after,
            sink_after,
            observer_after,
        ),
    ensures
        ({
            let gives = endpoint_gives::<E>(channel);
            &&& forall|before: E, value: u32, next: E| #[trigger]
                gives(before, value, next) == E::supplied(before, channel, Ok(value), next)
            &&& result is Ok ==> exists|given: Seq<u32>|
                #![trigger chain(gives, endpoint, given, endpoint_after)]
                {
                    &&& given.len() == pending.words
                    &&& chain(gives, endpoint, given, endpoint_after)
                    &&& memory_after == (MemoryContents {
                        ram: incoming(memory.ram, pending.address, given, pending.decrement),
                        ..memory
                    })
                }
            &&& result is Err ==> exists|given: Seq<u32>, between: E|
                #![trigger chain(gives, endpoint, given, between)]
                {
                    &&& given.len() < pending.words
                    &&& chain(gives, endpoint, given, between)
                    &&& result matches Err(DmaError::Endpoint(fault)) && E::supplied(
                        between,
                        channel,
                        Err(fault),
                        endpoint_after,
                    )
                    &&& memory_after == (MemoryContents {
                        ram: incoming(memory.ram, pending.address, given, pending.decrement),
                        ..memory
                    })
                }
        }),
{
}

} // verus!
