//! What the address registers of a sound core hold.

use vstd::prelude::*;

use crate::bits::{bit, lemma_bits};
use crate::ps2::sound_core::Core;
use crate::ps2::spu2::{core_written, Spu2Error, Spu2State};

verus! {

/// The unit after `value` was written to the register at `local` of a core.
#[verifier::opaque]
pub open spec fn stored(state: Spu2State, core: int, local: int, value: u16) -> Spu2State {
    state.written((0x1f90_0000 + 0x400 * core + local) as u32, value)
}

/// A core after the upper and then the lower register of the pair at `local` were written.
pub open spec fn pair_written(state: Spu2State, core: int, local: int, high: u16, low: u16) -> Core {
    stored(stored(state, core, local, high), core, local + 2, low).cores@[core]
}

#[verifier::opaque]
spec fn register_taken(state: Core, local: int, value: u16, pair: (u16, u16)) -> Core {
    core_written(state, local as u32, value, pair)
}

proof fn lemma_register(state: Spu2State, core: int, local: int, value: u16)
    requires
        core == 0 || core == 1,
        0x180 <= local < 0x1c0 || 0x2e0 <= local < 0x340,
        local % 2 == 0,
    ensures
        ({
            let offset = 0x400 * core + local;
            let after = stored(state, core, local, value);
            let pair = if local % 4 == 0 {
                (value, state.registers@[offset / 2 + 1])
            } else {
                (state.registers@[offset / 2 - 1], value)
            };
            &&& after.registers@ == state.registers@.update(offset / 2, value)
            &&& after.cores@[core] == register_taken(state.cores@[core], local, value, pair)
        }),
{
    reveal(stored);
    reveal(register_taken);
    let offset = 0x400 * core + local;
    assert(offset % 4 == local % 4);
    let kept = Spu2State {
        registers: crate::arrays::with(state.registers, offset / 2, value),
        ..state
    };
    assert(kept.registers@ =~= state.registers@.update(offset / 2, value));
    if local % 4 == 0 {
        assert((offset / 4) * 2 == offset / 2);
    } else {
        assert((offset / 4) * 2 == offset / 2 - 1);
    }
}

proof fn lemma_pair(state: Spu2State, core: int, local: int, high: u16, low: u16) -> (pair: (
    u16,
    u16,
))
    requires
        core == 0 || core == 1,
        0x180 <= local < 0x1c0 || 0x2e0 <= local < 0x340,
        local % 4 == 0,
    ensures
        pair_written(state, core, local, high, low) == register_taken(
            register_taken(state.cores@[core], local, high, pair),
            local + 2,
            low,
            (high, low),
        ),
{
    let offset = 0x400 * core + local;
    lemma_register(state, core, local, high);
    lemma_register(stored(state, core, local, high), core, local + 2, low);
    assert((offset + 2) / 2 - 1 == offset / 2);
    (high, state.registers@[offset / 2 + 1])
}

proof fn lemma_interrupt_address(state: Core, high: u16, low: u16, pair: (u16, u16))
    ensures
        ({
            let first = register_taken(state, 0x19c, high, pair);
            let after = register_taken(first, 0x19e, low, (high, low));
            after.irq_address == (high as int % 16) * 0x2_0000 + (low as int / 8) * 16
        }),
{
    reveal(register_taken);
}

proof fn lemma_transfer_address(state: Core, high: u16, low: u16, pair: (u16, u16))
    ensures
        ({
            let first = register_taken(state, 0x1a8, high, pair);
            let after = register_taken(first, 0x1aa, low, (high, low));
            after.transfer_address == (high as int % 16) * 0x2_0000 + (low as int / 8) * 16
        }),
{
    reveal(register_taken);
}

proof fn lemma_effect_start(state: Core, high: u16, low: u16, pair: (u16, u16))
    ensures
        ({
            let first = register_taken(state, 0x2e0, high, pair);
            let after = register_taken(first, 0x2e2, low, (high, low));
            &&& after.effect_start == (high as int % 16) * 0x2_0000 + (low as int / 8) * 16
            &&& after.effects.current == (high as int % 16) * 0x2_0000 + (low as int / 8) * 16
        }),
{
    reveal(register_taken);
}

proof fn lemma_effect_end(state: Core, high: u16, low: u16, pair: (u16, u16))
    ensures
        ({
            let first = register_taken(state, 0x33c, high, pair);
            let after = register_taken(first, 0x33e, low, (high, low));
            after.effect_end == (high as int % 16) * 0x2_0000 + 0x1_ffff
        }),
{
    reveal(register_taken);
}

/// The interrupt address, the transfer address and the start of the effects are pairs like
/// the start address of a voice, at `0x19c`, `0x1a8` and `0x2e0`; the effects start over
/// there. The end of the effects, at `0x33c`, is the last byte of the 128 KiB that the
/// upper part names.
pub proof fn law_core_addresses(state: Spu2State, core: int, high: u16, low: u16)
    requires
        core == 0 || core == 1,
    ensures
        ({
            let address = (high as int % 16) * 0x2_0000 + (low as int / 8) * 16;
            &&& pair_written(state, core, 0x19c, high, low).irq_address == address
            &&& pair_written(state, core, 0x1a8, high, low).transfer_address == address
            &&& pair_written(state, core, 0x2e0, high, low).effect_start == address
            &&& pair_written(state, core, 0x2e0, high, low).effects.current == address
            &&& pair_written(state, core, 0x33c, high, low).effect_end == (high as int % 16)
                * 0x2_0000 + 0x1_ffff
        }),
{
    let old = state.cores@[core];
    let interrupt = lemma_pair(state, core, 0x19c, high, low);
    lemma_interrupt_address(old, high, low, interrupt);
    let transfer = lemma_pair(state, core, 0x1a8, high, low);
    lemma_transfer_address(old, high, low, transfer);
    let start = lemma_pair(state, core, 0x2e0, high, low);
    lemma_effect_start(old, high, low, start);
    let end = lemma_pair(state, core, 0x33c, high, low);
    lemma_effect_end(old, high, low, end);
}

/// Tap `index` of the effects is the pair at `0x2e4 + 4 * index`, in sixteen-bit parts of
/// which the lower two bits are dropped. The other taps keep their values.
pub proof fn law_tap_pairs(
    state: Spu2State,
    core: int,
    index: int,
    other: int,
    high: u16,
    low: u16,
)
    requires
        core == 0 || core == 1,
        0 <= index < 22,
        0 <= other < 22,
    ensures
        ({
            let after = pair_written(state, core, 0x2e4 + 4 * index, high, low);
            after.effect_addresses@[other] == if other == index {
                (0x1_0000 * high + low) / 4
            } else {
                state.cores@[core].effect_addresses@[other] as int
            }
        }),
{
    reveal(register_taken);
    lemma_pair(state, core, 0x2e4 + 4 * index, high, low);
    assert((4 * index) / 4 == index && (4 * index + 2) / 4 == index);
    assert((0x1_0000 * high + low) / 4 == high * 0x4000 + low as int / 4);
}

proof fn lemma_voice_register(state: Spu2State, core: int, voice: int, register: int, value: u16)
    requires
        core == 0 || core == 1,
        0 <= voice < 24,
        register == 0 || register == 2 || register == 4 || register == 6,
    ensures
        ({
            let first = 0x200 * core + 0xe0 + 6 * voice;
            let local = 0x1c0 + 12 * voice + register;
            let after = stored(state, core, local, value);
            let registers = state.registers@.update(first + register / 2, value);
            let high = registers[first];
            let low = registers[first + 1];
            let address = (high as int % 16) * 0x2_0000 + (low as int / 8) * 16;
            let old = state.cores@[core].voices@[voice];
            let new = after.cores@[core].voices@[voice];
            &&& after.registers@ == registers
            &&& register < 4 ==> new.start_address == address && new.repeat_address
                == old.repeat_address
            &&& register >= 4 ==> new.repeat_address == address && new.start_address
                == old.start_address
        }),
{
    reveal(stored);
    let local = 12 * voice + register;
    assert(local / 12 == voice && local % 12 == register);
    let offset = 0x400 * core + 0x1c0 + local;
    let start = offset - register;
    let first = 0x200 * core + 0xe0 + 6 * voice;
    assert(start % 4 == 0 && start / 2 == first && (start / 4) * 2 == first);
    assert(offset / 2 == first + register / 2);
    let kept = Spu2State {
        registers: crate::arrays::with(state.registers, offset / 2, value),
        ..state
    };
    assert(kept.registers@ =~= state.registers@.update(offset / 2, value));
}

/// Both registers of a voice's repeat address take the address that the pair of its start
/// address holds.
pub proof fn law_repeat_registers(
    state: Spu2State,
    core: int,
    voice: int,
    high: u16,
    low: u16,
    value: u16,
)
    requires
        core == 0 || core == 1,
        0 <= voice < 24,
    ensures
        ({
            let local = 0x1c0 + 12 * voice;
            let started = stored(stored(state, core, local, high), core, local + 2, low);
            let address = (high as int % 16) * 0x2_0000 + (low as int / 8) * 16;
            let upper = stored(started, core, local + 4, value).cores@[core].voices@[voice];
            let lower = stored(started, core, local + 6, value).cores@[core].voices@[voice];
            &&& upper.repeat_address == address && upper.start_address == address
            &&& lower.repeat_address == address && lower.start_address == address
        }),
{
    let local = 0x1c0 + 12 * voice;
    let once = stored(state, core, local, high);
    let started = stored(once, core, local + 2, low);
    lemma_voice_register(state, core, voice, 0, high);
    lemma_voice_register(once, core, voice, 2, low);
    lemma_voice_register(started, core, voice, 4, value);
    lemma_voice_register(started, core, voice, 6, value);
}

/// The end markers read at `0x340` and `0x342`, and ones that are written there clear them.
/// The status reads at `0x344`.
pub proof fn law_end_markers(state: Spu2State, core: int, value: u16, index: int)
    requires
        core == 0 || core == 1,
        0 <= index < 24,
    ensures
        ({
            let base = 0x1f90_0000 + 0x400 * core;
            let old = state.cores@[core];
            let first = state.written((base + 0x340) as u32, value).cores@[core];
            let last = state.written((base + 0x342) as u32, value).cores@[core];
            &&& state.value_at((base + 0x340) as u32) == Ok::<u16, Spu2Error>(
                (old.endx % 0x1_0000) as u16,
            )
            &&& state.value_at((base + 0x342) as u32) == Ok::<u16, Spu2Error>(
                ((old.endx / 0x1_0000) % 0x100) as u16,
            )
            &&& state.value_at((base + 0x344) as u32) == Ok::<u16, Spu2Error>(old.status)
            &&& bit(first.endx, index) <==> bit(old.endx, index) && !bit(value as u32, index)
            &&& bit(last.endx, index) <==> bit(old.endx, index) && !bit(
                (0x1_0000 * (value % 0x100)) as u32,
                index,
            )
        }),
{
    let old = state.cores@[core];
    let upper = (0x1_0000 * (value % 0x100)) as u32;
    lemma_bits(old.endx, !(value as u32), index, index);
    lemma_bits(value as u32, 0, index, index);
    lemma_bits(old.endx, !upper, index, index);
    lemma_bits(upper, 0, index, index);
}

} // verus!
