//! A standalone MIPS-I interpreter for R3000-family processors.
//!
//! The consumer owns address translation and physical devices through [`Bus`].
//! The core models one architectural branch slot and one load-delay slot.

pub mod alu;
pub mod bus;
pub mod cpu;
pub mod data;
pub mod exceptions;
pub mod isa;
pub mod laws;
pub mod program;
pub mod trace;
pub mod unaligned;

pub use self::bus::{AccessType, Bus, BusFault, CpuError};
pub use self::cpu::{
    Cop0, Cpu, Exception, LoadDelayMode, ResetProfile, StepEvent, StepOutcome, CAUSE_BD, CAUSE_IP2,
};
pub use self::trace::{TraceRecord, TraceSink};
