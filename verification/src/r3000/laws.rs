//! What holds of the processor across instructions.

use vstd::prelude::*;

use crate::bits::wrap32;
use crate::r3000::bus::{Bus, CpuError};
use crate::r3000::cpu::{
    Cop0, Cpu, Exception, Execution, LoadDelayMode, StepOutcome, CAUSE_BD,
};

verus! {

/// A load in the architectural mode leaves its register alone for exactly one
/// instruction: it changes no register that no earlier load was due to change,
/// and after the next instruction the loaded value is there unless that
/// instruction wrote the register itself.
pub proof fn law_load_delay(cpu: Cpu, load: Execution, next: Execution, register: usize, value: u32)
    requires
        cpu.wf(),
        cpu.load_delay_mode == LoadDelayMode::Architectural,
        0 < register < 32,
        load.register_write is None,
        load.delayed_write == Some((register, value)),
        next.wf(),
    ensures
        cpu.retired(load).registers == cpu.landed(),
        next.register_write matches Some(write) ==> write.0 != register ==> cpu.retired(
            load,
        ).completed(next).registers@[register as int] == value,
        next.register_write is None ==> cpu.retired(load).completed(
            next,
        ).registers@[register as int] == value,
{
    let after = cpu.retired(load);
    assert(after.landed()@[register as int] == value);
}

/// A load in the interlocked mode is visible to the next instruction.
pub proof fn law_interlocked_load(cpu: Cpu, load: Execution, register: usize, value: u32)
    requires
        cpu.wf(),
        cpu.load_delay_mode == LoadDelayMode::Interlocked,
        0 < register < 32,
        load.wf(),
        load.delayed_write == Some((register, value)),
    ensures
        cpu.retired(load).registers@[register as int] == value,
        cpu.retired(load).pending_load is None,
{
}

/// The instruction after a branch executes before the target does.
pub proof fn law_branch_delay_slot(cpu: Cpu, branch: Execution, slot: Execution, target: u32)
    requires
        branch.is_branch,
        branch.branch_target == Some(target),
        slot.exception is None,
    ensures
        cpu.retired(branch).pc == cpu.next_pc,
        cpu.retired(branch).delay_branch_pc == Some(cpu.pc),
        cpu.retired(branch).retired(slot).pc == target,
        slot.branch_target is None ==> cpu.retired(branch).retired(slot).next_pc == wrap32(
            target + 4,
        ),
{
}

proof fn lemma_branch_delay_bit(cause: u32, code: u32)
    by (bit_vector)
    ensures
        (((cause & !(0x7c | CAUSE_BD)) | (code << 2u32)) | CAUSE_BD) & CAUSE_BD != 0,
        code <= 12 ==> ((cause & !(0x7c | CAUSE_BD)) | (code << 2u32)) & CAUSE_BD == 0,
{
}

/// An exception in a delay slot reports the branch and sets the branch-delay bit;
/// any other reports the instruction and clears the bit.
pub proof fn law_exception_reports_branch(
    cpu: Cpu,
    exception: Exception,
    pc: u32,
    bad_vaddr: Option<u32>,
)
    ensures
        cpu.delay_branch_pc matches Some(branch_pc) ==> {
            &&& cpu.trapped(exception, pc, bad_vaddr).cop0.epc == branch_pc
            &&& cpu.trapped(exception, pc, bad_vaddr).cop0.cause & CAUSE_BD != 0
        },
        cpu.delay_branch_pc is None ==> {
            &&& cpu.trapped(exception, pc, bad_vaddr).cop0.epc == pc
            &&& cpu.trapped(exception, pc, bad_vaddr).cop0.cause & CAUSE_BD == 0
        },
{
    lemma_branch_delay_bit(cpu.cop0.cause, exception.number());
}

proof fn lemma_mode_stack(status: u32)
    by (bit_vector)
    ensures
        ({
            let pushed = (status & !0x3fu32) | ((status << 2u32) & 0x3f);
            let popped = (pushed & !0x0fu32) | ((pushed >> 2u32) & 0x0f);
            popped & 0x0f == status & 0x0f && pushed & 3 == 0
        }),
{
}

/// Entering an exception disables interrupts and leaves user mode, and returning
/// from it restores the current and previous modes.
pub proof fn law_return_restores_modes(
    cpu: Cpu,
    exception: Exception,
    pc: u32,
    bad_vaddr: Option<u32>,
)
    ensures
        cpu.trapped(exception, pc, bad_vaddr).cop0.status & 3 == 0,
        cpu.trapped(exception, pc, bad_vaddr).cop0.returned().status & 0x0f == cpu.cop0.status
            & 0x0f,
{
    lemma_mode_stack(cpu.cop0.status);
}

/// A step that fails on the bus changes nothing but the sampled interrupt line.
pub proof fn law_bus_failure_is_precise<B: Bus>(
    cpu: Cpu,
    before: B,
    error: CpuError,
    cpu_after: Cpu,
    after: B,
)
    requires
        cpu.stepped(before, Err::<StepOutcome, CpuError>(error), cpu_after, after),
    ensures
        exists|pending: bool| #[trigger] before.line_sampled(pending) && cpu_after == cpu.sampled(
            pending,
        ),
        error.pc == cpu.pc,
{
    let pending = choose|pending: bool| #[trigger]
        before.line_sampled(pending) && cpu.sampled(pending).advanced(
            crate::r3000::cpu::INTERRUPTS,
            before,
            Err::<StepOutcome, CpuError>(error),
            cpu_after,
            after,
        );
    assert(before.line_sampled(pending) && cpu_after == cpu.sampled(pending));
}

/// Reading back a control register gives what was written, except the processor
/// identifier, which is read-only, and the cause register, of which only the
/// software interrupt bits change.
pub proof fn law_control_register_round_trip(cop0: Cop0, index: int, value: u32)
    requires
        cop0.replaced(index, value) is Some,
        index != 13,
    ensures
        cop0.replaced(index, value)->0.register(index) == Some(value),
        forall|other: int| other != index ==> #[trigger] cop0.replaced(index, value)->0.register(
            other,
        ) == cop0.register(other),
{
}

} // verus!
