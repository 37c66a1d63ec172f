//! Step tracing.

use vstd::prelude::*;

use crate::r3000::bus::{Bus, CpuError};
use crate::r3000::cpu::{Cpu, StepOutcome};

verus! {

/// One trace record.
#[verifier::ext_equal]
#[derive(Clone, Copy, Debug, PartialEq, Eq)]
pub struct TraceRecord {
    /// Step result.
    pub outcome: StepOutcome,
    /// Register state after the step.
    pub registers: [u32; 32],
    /// HI after the step.
    pub hi: u32,
    /// LO after the step.
    pub lo: u32,
}

/// Consumer trace hook.
pub trait TraceSink: Sized {
    /// Observing `record` may leave `after`.
    open spec fn traced(before: Self, record: TraceRecord, after: Self) -> bool {
        true
    }

    /// Observes one completed step.
    fn trace(&mut self, record: TraceRecord)
        ensures
            Self::traced(*old(self), record, *final(self)),
    ;
}

impl Cpu {
    /// Executes one step and synchronously reports its post-state.
    ///
    /// A step that fails is not reported.
    pub fn step_traced<B: Bus, T: TraceSink>(
        &mut self,
        bus: &mut B,
        sink: &mut T,
    ) -> (result: Result<StepOutcome, CpuError>)
        requires
            old(self).wf(),
        ensures
            final(self).wf(),
            old(self).stepped(*old(bus), result, *final(self), *final(bus)),
            match result {
                Ok(outcome) => T::traced(
                    *old(sink),
                    TraceRecord {
                        outcome,
                        registers: final(self).registers,
                        hi: final(self).hi,
                        lo: final(self).lo,
                    },
                    *final(sink),
                ),
                Err(_) => *final(sink) == *old(sink),
            },
    {
        match self.step(bus) {
            Ok(outcome) => {
                sink.trace(
                    TraceRecord { outcome, registers: self.registers, hi: self.hi, lo: self.lo },
                );
                Ok(outcome)
            },
            Err(error) => Err(error),
        }
    }
}

} // verus!
