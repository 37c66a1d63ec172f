//! A queue of future machine events.

use vstd::prelude::*;

use crate::clock::Deadline;

verus! {

/// Identity of a schedulable event.
#[derive(Clone, Copy, Debug, PartialEq, Eq, PartialOrd, Ord, Hash, Structural)]
pub struct EventId {
    pub number: u32,
}

impl EventId {
    /// Constructs an identity.
    pub fn new(number: u32) -> (result: Self)
        ensures
            result.number == number,
    {
        Self { number }
    }

    /// Returns the identity's number.
    pub fn get(self) -> (result: u32)
        ensures
            result == self.number,
    {
        self.number
    }
}

/// An event and the time at which it is due.
#[derive(Clone, Copy, Debug, PartialEq, Eq, Structural)]
pub struct DueEvent {
    /// Event identity.
    pub id: EventId,
    /// Time at which the event is due.
    pub deadline: Deadline,
}

/// Scheduler failure.
#[derive(Clone, Copy, Debug, PartialEq, Eq, Structural)]
pub enum SchedulerError {
    /// Every insertion sequence number has been used.
    SequenceExhausted,
}

/// Instance-owned event queue, ordered by deadline and, among equal deadlines, by
/// insertion.
#[derive(Clone, Debug, PartialEq, Eq)]
pub struct Scheduler {
    pub events: Vec<DueEvent>,
    pub insertions: u64,
}

/// The deadlines never decrease.
pub open spec fn ordered(events: Seq<DueEvent>) -> bool {
    forall|i: int, j: int|
        0 <= i < j < events.len() ==> #[trigger] events[i].deadline.time <= #[trigger]
            events[j].deadline.time
}

/// How many leading events are due no later than `deadline`.
pub open spec fn not_later(events: Seq<DueEvent>, deadline: Deadline) -> nat
    decreases events.len(),
{
    if events.len() == 0 || events[0].deadline.time > deadline.time {
        0
    } else {
        1 + not_later(events.drop_first(), deadline)
    }
}

/// The queue with `event` behind every event that is due no later.
pub open spec fn inserted(events: Seq<DueEvent>, event: DueEvent) -> Seq<DueEvent> {
    events.insert(not_later(events, event.deadline) as int, event)
}

/// The queue without the events that have the identity `id`.
pub open spec fn cancelled(events: Seq<DueEvent>, id: EventId) -> Seq<DueEvent>
    decreases events.len(),
{
    if events.len() == 0 {
        events
    } else if events.last().id == id {
        cancelled(events.drop_last(), id)
    } else {
        cancelled(events.drop_last(), id).push(events.last())
    }
}

proof fn lemma_not_later(events: Seq<DueEvent>, deadline: Deadline, at: int)
    requires
        0 <= at <= events.len(),
        forall|i: int| 0 <= i < at ==> #[trigger] events[i].deadline.time <= deadline.time,
        at < events.len() ==> events[at].deadline.time > deadline.time,
    ensures
        not_later(events, deadline) == at,
    decreases at,
{
    if at > 0 {
        let rest = events.drop_first();
        assert forall|i: int| 0 <= i < at - 1 implies #[trigger] rest[i].deadline.time
            <= deadline.time by {
            assert(rest[i] == events[i + 1]);
        }
        lemma_not_later(rest, deadline, at - 1);
    }
}

/// An insertion point lies in the queue.
pub proof fn lemma_not_later_bound(events: Seq<DueEvent>, deadline: Deadline)
    ensures
        not_later(events, deadline) <= events.len(),
    decreases events.len(),
{
    if events.len() > 0 && events[0].deadline.time <= deadline.time {
        lemma_not_later_bound(events.drop_first(), deadline);
    }
}

proof fn lemma_cancelled(events: Seq<DueEvent>, id: EventId)
    ensures
        cancelled(events, id).len() <= events.len(),
        forall|i: int|
            0 <= i < cancelled(events, id).len() ==> #[trigger] cancelled(events, id)[i].id != id,
        forall|event: DueEvent|
            cancelled(events, id).contains(event) <==> events.contains(event) && event.id != id,
        ordered(events) ==> ordered(cancelled(events, id)),
    decreases events.len(),
{
    if events.len() > 0 {
        let shorter = events.drop_last();
        let last = events.last();
        lemma_cancelled(shorter, id);
        let kept = cancelled(shorter, id);
        assert(events =~= shorter.push(last));
        assert forall|event: DueEvent|
            cancelled(events, id).contains(event) <==> events.contains(event) && event.id
                != id by {
            assert(events.contains(event) <==> shorter.contains(event) || event == last) by {
                if events.contains(event) {
                    let i = choose|i: int| 0 <= i < events.len() && events[i] == event;
                    if i < shorter.len() {
                        assert(shorter[i] == event);
                    }
                }
                if shorter.contains(event) {
                    let i = choose|i: int| 0 <= i < shorter.len() && shorter[i] == event;
                    assert(events[i] == event);
                }
                if event == last {
                    assert(events[events.len() - 1] == event);
                }
            }
            if last.id != id {
                assert(kept.push(last).contains(event) <==> kept.contains(event) || event
                    == last) by {
                    if kept.push(last).contains(event) {
                        let i = choose|i: int|
                            0 <= i < kept.push(last).len() && kept.push(last)[i] == event;
                        if i < kept.len() {
                            assert(kept[i] == event);
                        }
                    }
                    if kept.contains(event) {
                        let i = choose|i: int| 0 <= i < kept.len() && kept[i] == event;
                        assert(kept.push(last)[i] == event);
                    }
                    if event == last {
                        assert(kept.push(last)[kept.len() as int] == event);
                    }
                }
            }
        }
        if ordered(events) {
            assert forall|i: int, j: int| 0 <= i < j < shorter.len() implies #[trigger]
                shorter[i].deadline.time <= #[trigger] shorter[j].deadline.time by {
                assert(events[i].deadline.time <= events[j].deadline.time);
            }
            if last.id != id {
                assert forall|i: int| 0 <= i < kept.len() implies #[trigger] kept[i].deadline.time
                    <= last.deadline.time by {
                    assert(cancelled(shorter, id).contains(kept[i]));
                    assert(shorter.contains(kept[i]));
                    let k = choose|k: int| 0 <= k < shorter.len() && shorter[k] == kept[i];
                    assert(events[k].deadline.time <= events[events.len() - 1].deadline.time);
                }
            }
        }
    }
}

/// The contents of a scheduler.
#[verifier::ext_equal]
pub ghost struct Queue {
    /// Events in the order in which they come out.
    pub events: Seq<DueEvent>,
    /// Insertions so far.
    pub insertions: u64,
}

impl View for Scheduler {
    type V = Queue;

    open spec fn view(&self) -> Queue {
        Queue { events: self.events@, insertions: self.insertions }
    }
}

impl Queue {
    /// Whether an insertion sequence number is left.
    pub open spec fn has_room(self) -> bool {
        self.insertions < u64::MAX
    }

    /// The queue after an insertion.
    pub open spec fn scheduled(self, id: EventId, deadline: Deadline) -> Queue {
        Queue {
            events: inserted(self.events, DueEvent { id, deadline }),
            insertions: (self.insertions + 1) as u64,
        }
    }

    /// The queue after a cancellation.
    pub open spec fn without(self, id: EventId) -> Queue {
        Queue { events: cancelled(self.events, id), ..self }
    }
}

impl Scheduler {
    /// The queue is ordered.
    pub open spec fn wf(self) -> bool {
        ordered(self.events@)
    }

    /// Constructs an empty queue.
    pub fn new() -> (result: Self)
        ensures
            result.wf(),
            result@ == (Queue { events: Seq::empty(), insertions: 0 }),
    {
        Self { events: Vec::new(), insertions: 0 }
    }

    /// Adds an event behind every event that is due no later.
    pub fn schedule(&mut self, id: EventId, deadline: Deadline) -> (result: Result<
        (),
        SchedulerError,
    >)
        requires
            old(self).wf(),
        ensures
            final(self).wf(),
            result == if old(self)@.has_room() {
                Ok(())
            } else {
                Err(SchedulerError::SequenceExhausted)
            },
            final(self)@ == if old(self)@.has_room() {
                old(self)@.scheduled(id, deadline)
            } else {
                old(self)@
            },
    {
        if self.insertions == u64::MAX {
            return Err(SchedulerError::SequenceExhausted);
        }
        let mut at: usize = 0;
        while at < self.events.len() && self.events[at].deadline.time <= deadline.time
            invariant
                at <= self.events@.len(),
                forall|i: int|
                    0 <= i < at ==> #[trigger] self.events@[i].deadline.time <= deadline.time,
            decreases self.events@.len() - at,
        {
            at += 1;
        }
        proof {
            lemma_not_later(self.events@, deadline, at as int);
        }
        self.events.insert(at, DueEvent { id, deadline });
        self.insertions = self.insertions + 1;
        Ok(())
    }

    /// Removes every event with the identity; reports whether there was one.
    pub fn cancel(&mut self, id: EventId) -> (result: bool)
        requires
            old(self).wf(),
        ensures
            final(self).wf(),
            final(self)@ == old(self)@.without(id),
            result <==> exists|i: int|
                0 <= i < old(self).events@.len() && #[trigger] old(self).events@[i].id == id,
    {
        let mut kept: Vec<DueEvent> = Vec::new();
        let mut found = false;
        let mut index: usize = 0;
        while index < self.events.len()
            invariant
                index <= self.events@.len(),
                kept@ == cancelled(self.events@.take(index as int), id),
                found <==> exists|i: int|
                    0 <= i < index && #[trigger] self.events@[i].id == id,
            decreases self.events@.len() - index,
        {
            let event = self.events[index];
            proof {
                let longer = self.events@.take(index + 1);
                assert(longer.drop_last() =~= self.events@.take(index as int));
                assert(longer.last() == event);
            }
            if event.id.number == id.number {
                found = true;
                assert(self.events@[index as int].id == id);
            } else {
                kept.push(event);
            }
            index += 1;
        }
        proof {
            assert(self.events@.take(index as int) =~= self.events@);
            lemma_cancelled(self.events@, id);
        }
        self.events = kept;
        found
    }

    /// Returns the earliest deadline in the queue.
    pub fn next_deadline(&self) -> (result: Option<Deadline>)
        ensures
            result == if self.events@.len() == 0 {
                None
            } else {
                Some(self.events@[0].deadline)
            },
    {
        if self.events.len() == 0 {
            None
        } else {
            Some(self.events[0].deadline)
        }
    }

    /// Removes and returns the first event that is due at `now`.
    pub fn pop_due(&mut self, now: Deadline) -> (result: Option<DueEvent>)
        requires
            old(self).wf(),
        ensures
            final(self).wf(),
            if old(self)@.events.len() > 0 && old(self)@.events[0].deadline.time <= now.time {
                &&& result == Some(old(self)@.events[0])
                &&& final(self)@ == (Queue {
                    events: old(self)@.events.drop_first(),
                    ..old(self)@
                })
            } else {
                &&& result is None
                &&& final(self)@ == old(self)@
            },
            result is None ==> forall|i: int|
                0 <= i < old(self)@.events.len() ==> now.time < #[trigger] old(
                    self,
                )@.events[i].deadline.time,
            result matches Some(event) ==> event.deadline.time <= now.time && forall|i: int|
                0 <= i < old(self)@.events.len() ==> event.deadline.time <= #[trigger] old(
                    self,
                )@.events[i].deadline.time,
    {
        if self.events.len() == 0 || self.events[0].deadline.time > now.time {
            return None;
        }
        let event = self.events.remove(0);
        assert(self.events@ =~= old(self).events@.drop_first());
        Some(event)
    }

    /// Reports whether no event is scheduled.
    pub fn is_empty(&self) -> (result: bool)
        ensures
            result == (self.events@.len() == 0),
    {
        self.events.len() == 0
    }
}

/// Cancelling an identity leaves no event with it and keeps every other event.
pub proof fn law_cancel_is_exact(events: Seq<DueEvent>, id: EventId)
    ensures
        forall|event: DueEvent|
            cancelled(events, id).contains(event) <==> events.contains(event) && event.id != id,
{
    lemma_cancelled(events, id);
}

/// Events that are due at the same time come out in the order in which they went
/// in: an event is placed behind all that are due no later and before all that are
/// due later.
pub proof fn law_equal_deadlines_are_first_in_first_out(events: Seq<DueEvent>, event: DueEvent)
    requires
        ordered(events),
    ensures
        ({
            let at = not_later(events, event.deadline) as int;
            &&& 0 <= at <= events.len()
            &&& forall|i: int|
                0 <= i < at ==> #[trigger] events[i].deadline.time <= event.deadline.time
            &&& forall|i: int|
                at <= i < events.len() ==> #[trigger] events[i].deadline.time
                    > event.deadline.time
            &&& ordered(inserted(events, event))
        }),
    decreases events.len(),
{
    let at = not_later(events, event.deadline) as int;
    if events.len() > 0 && events[0].deadline.time <= event.deadline.time {
        let rest = events.drop_first();
        assert forall|i: int, j: int| 0 <= i < j < rest.len() implies #[trigger]
            rest[i].deadline.time <= #[trigger] rest[j].deadline.time by {
            assert(events[i + 1].deadline.time <= events[j + 1].deadline.time);
        }
        law_equal_deadlines_are_first_in_first_out(rest, event);
        assert forall|i: int| 0 <= i < at implies #[trigger] events[i].deadline.time
            <= event.deadline.time by {
            if i > 0 {
                assert(rest[i - 1] == events[i]);
            }
        }
        assert forall|i: int| at <= i < events.len() implies #[trigger] events[i].deadline.time
            > event.deadline.time by {
            assert(rest[i - 1] == events[i]);
        }
    } else if events.len() > 0 {
        assert forall|i: int| 0 <= i < events.len() implies #[trigger] events[i].deadline.time
            > event.deadline.time by {
            if i > 0 {
                assert(events[0].deadline.time <= events[i].deadline.time);
            }
        }
    }
}

} // verus!
