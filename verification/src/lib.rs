//! Verified behavioural models of the PlayStation and PlayStation 2 sound hardware.
//!
//! Every device owns its state. A device reads and writes plain values, raises
//! interrupts through a small sink trait, and states in its contract exactly how
//! each operation changes it.

pub mod arrays;
pub mod bits;
pub mod bytes;
pub mod clock;
pub mod ps1;
pub mod ps2;
pub mod psx_exe;
pub mod r3000;
pub mod scheduler;
pub mod spu_common;
pub mod text;
pub mod trace;
pub mod transfer;
