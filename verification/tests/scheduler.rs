//! Event queue and clock.

use upse_hw::clock::{ClockError, Deadline, Ticks};
use upse_hw::scheduler::{DueEvent, EventId, Scheduler, SchedulerError};

#[test]
fn equal_deadlines_leave_in_insertion_order() {
    let mut scheduler = Scheduler::new();
    for (id, deadline) in [(1, 9), (2, 4), (3, 4), (4, 1), (5, 9)] {
        scheduler
            .schedule(EventId::new(id), Deadline::new(deadline))
            .unwrap();
    }
    assert_eq!(scheduler.next_deadline(), Some(Deadline::new(1)));
    let mut order = Vec::new();
    while let Some(event) = scheduler.pop_due(Deadline::new(9)) {
        order.push(event.id.get());
    }
    assert_eq!(order, [4, 2, 3, 1, 5]);
    assert!(scheduler.is_empty());
}

#[test]
fn only_the_cancelled_event_leaves() {
    let mut scheduler = Scheduler::new();
    for id in [1, 2, 3] {
        scheduler
            .schedule(EventId::new(id), Deadline::new(5))
            .unwrap();
    }
    assert!(scheduler.cancel(EventId::new(2)));
    assert!(!scheduler.cancel(EventId::new(2)));
    assert_eq!(scheduler.pop_due(Deadline::new(4)), None);
    assert_eq!(
        scheduler.pop_due(Deadline::new(5)),
        Some(DueEvent {
            id: EventId::new(1),
            deadline: Deadline::new(5)
        })
    );
    assert_eq!(
        scheduler.pop_due(Deadline::new(5)).map(|event| event.id),
        Some(EventId::new(3))
    );
}

#[test]
fn insertions_run_out() {
    let mut scheduler = Scheduler::new();
    scheduler.insertions = u64::MAX;
    assert_eq!(
        scheduler.schedule(EventId::new(1), Deadline::new(1)),
        Err(SchedulerError::SequenceExhausted)
    );
    assert!(scheduler.is_empty());
}

#[test]
fn deadlines_do_not_wrap() {
    assert_eq!(
        Deadline::new(3).checked_advance(Ticks::new(4)),
        Ok(Deadline::new(7))
    );
    assert_eq!(
        Deadline::new(u64::MAX).checked_advance(Ticks::new(1)),
        Err(ClockError::Overflow)
    );
    assert_eq!(Ticks::new(4).get(), 4);
}
