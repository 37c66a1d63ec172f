//! The memory and interrupt interface of a processor.

use vstd::prelude::*;

verus! {

/// The type of a failing bus transaction.
#[derive(Clone, Copy, Debug, PartialEq, Eq, Structural)]
pub enum AccessType {
    /// Instruction fetch.
    Instruction,
    /// Data read.
    Load,
    /// Data write.
    Store,
}

/// A machine-supplied bus failure that is not an architectural alignment trap.
#[derive(Clone, Debug, PartialEq, Eq)]
pub struct BusFault {
    pub message: String,
}

impl BusFault {
    /// Constructs a bus diagnostic.
    pub fn new<M: Into<String>>(message: M) -> (result: Self)
        ensures
            call_ensures(<M as Into<String>>::into, (message,), result.message),
    {
        Self { message: message.into() }
    }

    /// Returns the diagnostic text.
    pub fn message(&self) -> (result: &str)
        ensures
            result@ == self.message@,
    {
        self.message.as_str()
    }
}

/// Host-visible interpreter failure.
#[derive(Clone, Debug, PartialEq, Eq)]
pub struct CpuError {
    /// Current instruction address.
    pub pc: u32,
    /// Failing guest address.
    pub address: u32,
    /// Access type.
    pub access: AccessType,
    /// Machine bus diagnostic.
    pub source: BusFault,
}

/// Consumer-owned memory and interrupt interface.
///
/// Each access has a relation that says how it may change the machine and what
/// it may return. A machine that defines none of them promises nothing; what the
/// processor does with an access is stated over these relations.
pub trait Bus: Sized {
    /// A byte read of `address` may return `value` and leave `after`.
    open spec fn byte_read(
        before: Self,
        address: u32,
        value: Result<u8, BusFault>,
        after: Self,
    ) -> bool {
        true
    }

    /// A halfword read of `address` may return `value` and leave `after`.
    open spec fn half_read(
        before: Self,
        address: u32,
        value: Result<u16, BusFault>,
        after: Self,
    ) -> bool {
        true
    }

    /// A word read of `address` may return `value` and leave `after`.
    open spec fn word_read(
        before: Self,
        address: u32,
        value: Result<u32, BusFault>,
        after: Self,
    ) -> bool {
        true
    }

    /// A byte write to `address` may end as `done` and leave `after`.
    open spec fn byte_written(
        before: Self,
        address: u32,
        value: u8,
        done: Result<(), BusFault>,
        after: Self,
    ) -> bool {
        true
    }

    /// A halfword write to `address` may end as `done` and leave `after`.
    open spec fn half_written(
        before: Self,
        address: u32,
        value: u16,
        done: Result<(), BusFault>,
        after: Self,
    ) -> bool {
        true
    }

    /// A word write to `address` may end as `done` and leave `after`.
    open spec fn word_written(
        before: Self,
        address: u32,
        value: u32,
        done: Result<(), BusFault>,
        after: Self,
    ) -> bool {
        true
    }

    /// The interrupt request line may read as `pending`.
    open spec fn line_sampled(self, pending: bool) -> bool {
        true
    }

    /// Reads one byte from a guest virtual address.
    fn read_u8(&mut self, address: u32) -> (result: Result<u8, BusFault>)
        ensures
            Self::byte_read(*old(self), address, result, *final(self)),
    ;

    /// Reads a little-endian halfword from a guest virtual address.
    fn read_u16(&mut self, address: u32) -> (result: Result<u16, BusFault>)
        ensures
            Self::half_read(*old(self), address, result, *final(self)),
    ;

    /// Reads a little-endian word from a guest virtual address.
    fn read_u32(&mut self, address: u32) -> (result: Result<u32, BusFault>)
        ensures
            Self::word_read(*old(self), address, result, *final(self)),
    ;

    /// Writes one byte to a guest virtual address.
    fn write_u8(&mut self, address: u32, value: u8) -> (result: Result<(), BusFault>)
        ensures
            Self::byte_written(*old(self), address, value, result, *final(self)),
    ;

    /// Writes a little-endian halfword to a guest virtual address.
    fn write_u16(&mut self, address: u32, value: u16) -> (result: Result<(), BusFault>)
        ensures
            Self::half_written(*old(self), address, value, result, *final(self)),
    ;

    /// Writes a little-endian word to a guest virtual address.
    fn write_u32(&mut self, address: u32, value: u32) -> (result: Result<(), BusFault>)
        ensures
            Self::word_written(*old(self), address, value, result, *final(self)),
    ;

    /// Reports the machine's external interrupt request line.
    fn interrupt_pending(&self) -> (result: bool)
        ensures
            self.line_sampled(result),
    ;
}

} // verus!
