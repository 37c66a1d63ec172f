//! Machine time.

use vstd::prelude::*;

verus! {

/// A span of machine cycles.
#[derive(Clone, Copy, Debug, PartialEq, Eq, PartialOrd, Ord, Hash, Default, Structural)]
pub struct Ticks {
    pub count: u64,
}

impl Ticks {
    /// Constructs a span.
    pub fn new(count: u64) -> (result: Self)
        ensures
            result.count == count,
    {
        Self { count }
    }

    /// Returns the number of cycles.
    pub fn get(self) -> (result: u64)
        ensures
            result == self.count,
    {
        self.count
    }
}

/// Time arithmetic left the representable range.
#[derive(Clone, Copy, Debug, PartialEq, Eq, Structural)]
pub enum ClockError {
    /// The sum exceeds `u64`.
    Overflow,
}

/// An absolute machine time.
#[derive(Clone, Copy, Debug, PartialEq, Eq, PartialOrd, Ord, Hash, Default, Structural)]
pub struct Deadline {
    pub time: u64,
}

impl Deadline {
    /// Constructs an absolute time.
    pub fn new(time: u64) -> (result: Self)
        ensures
            result.time == time,
    {
        Self { time }
    }

    /// Returns the number of cycles since the start of machine time.
    pub fn get(self) -> (result: u64)
        ensures
            result == self.time,
    {
        self.time
    }

    /// The time `ticks` later.
    pub fn checked_advance(self, ticks: Ticks) -> (result: Result<Deadline, ClockError>)
        ensures
            result == if self.time + ticks.count <= u64::MAX {
                Ok(Deadline { time: (self.time + ticks.count) as u64 })
            } else {
                Err(ClockError::Overflow)
            },
    {
        match self.time.checked_add(ticks.count) {
            Some(time) => Ok(Deadline { time }),
            None => Err(ClockError::Overflow),
        }
    }
}

} // verus!
