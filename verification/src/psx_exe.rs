//! Executable images.

use vstd::prelude::*;

verus! {

/// Size of main RAM in bytes.
pub const RAM_SIZE: usize = 0x20_0000;

/// The contents of main RAM after an executable was applied.
#[derive(Clone, Debug, PartialEq, Eq)]
pub struct ExecutableImage {
    pub ram: Vec<u8>,
}

impl ExecutableImage {
    /// Constructs an image from RAM contents.
    pub fn new(ram: Vec<u8>) -> (result: Self)
        ensures
            result.ram@ == ram@,
    {
        Self { ram }
    }

    /// Returns the RAM contents.
    pub fn ram(&self) -> (result: &[u8])
        ensures
            result@ == self.ram@,
    {
        self.ram.as_slice()
    }
}

} // verus!
