//! Integer ADSR phase and rate arithmetic.

use vstd::prelude::*;

use crate::bits::{lemma_adsr_registers, lemma_shr_i32};

verus! {

/// One hardware-style envelope rate field.
#[derive(Clone, Copy, Debug, PartialEq, Eq, Structural)]
pub struct EnvelopeRate {
    /// Five-bit shift controlling step interval and magnitude.
    pub shift: u8,
    /// Base signed step, conventionally from -8 through 7.
    pub step: i8,
}

impl EnvelopeRate {
    /// Constructs a bounded rate field.
    pub fn new(shift: u8, step: i8) -> (result: Self)
        ensures
            result.shift == if shift > 31 {
                31
            } else {
                shift
            },
            result.step == step,
    {
        Self {
            shift: if shift > 31 {
                31
            } else {
                shift
            },
            step,
        }
    }

    /// The step as scaled by a small shift.
    pub open spec fn linear_delta(self) -> int {
        if self.shift < 11 {
            self.step * vstd::arithmetic::power2::pow2((11 - self.shift) as nat)
        } else {
            self.step as int
        }
    }

    /// Rates whose arithmetic stays in range: the interval fits 64 bits and, for
    /// an exponential decrease, the scaled step times any level fits 32 bits.
    pub open spec fn in_range(self, exponential_decrease: bool) -> bool {
        &&& self.shift <= 74
        &&& exponential_decrease ==> -0x1_0000 <= self.linear_delta() <= 0x1_0000
    }

    /// Clocks between two steps.
    pub open spec fn interval_at(self, level: u16, exponential_increase: bool) -> int {
        let base = if self.shift > 11 {
            vstd::arithmetic::power2::pow2((self.shift - 11) as nat) as int
        } else {
            1
        };
        if exponential_increase && level > 0x6000 {
            if base * 4 > u64::MAX {
                u64::MAX as int
            } else {
                base * 4
            }
        } else {
            base
        }
    }

    /// Change of level in one step.
    pub open spec fn delta_at(self, level: u16, exponential_decrease: bool) -> int {
        if exponential_decrease {
            let scaled = (self.linear_delta() * level) / 0x8000;
            if scaled == 0 && level != 0 && self.step < 0 {
                -1
            } else {
                scaled
            }
        } else {
            self.linear_delta()
        }
    }

    fn interval(self, level: u16, exponential_increase: bool) -> (result: u64)
        requires
            self.shift <= 74,
        ensures
            result == self.interval_at(level, exponential_increase),
            result > 0,
    {
        let mut interval: u64 = 1;
        if self.shift > 11 {
            let count: u64 = (self.shift - 11) as u64;
            proof {
                vstd::arithmetic::power2::lemma_pow2_pos(count as nat);
                vstd::arithmetic::power2::lemma2_to64();
                if count < 63 {
                    vstd::arithmetic::power2::lemma_pow2_strictly_increases(count as nat, 63);
                }
                lemma_pow2_63();
                vstd::bits::lemma_u64_shl_is_mul(1, count);
            }
            interval = 1u64 << count;
        }
        if exponential_increase && level > 0x6000 {
            interval = match interval.checked_mul(4) {
                Some(product) => product,
                None => u64::MAX,
            };
        }
        interval
    }

    fn delta(self, level: u16, exponential_decrease: bool) -> (result: i32)
        requires
            level <= 0x7fff,
            self.in_range(exponential_decrease),
        ensures
            result == self.delta_at(level, exponential_decrease),
            -0x4_0000 <= result <= 0x4_0000,
    {
        let mut delta: i32 = i32::from(self.step);
        if self.shift < 11 {
            let count: u32 = (11 - self.shift) as u32;
            proof {
                vstd::arithmetic::power2::lemma_pow2_pos(count as nat);
                vstd::arithmetic::power2::lemma2_to64();
                if count < 11 {
                    vstd::arithmetic::power2::lemma_pow2_strictly_increases(count as nat, 11);
                }
                vstd::bits::lemma_u32_shl_is_mul(1, count);
                assert(-0x4_0000 <= self.step * (1u32 << count) <= 0x4_0000) by (nonlinear_arith)
                    requires
                        -128 <= self.step <= 127,
                        0 <= (1u32 << count) <= 2048,
                ;
            }
            let scale: i32 = (1u32 << count) as i32;
            delta = delta * scale;
        }
        if exponential_decrease {
            proof {
                assert(-0x7fff_0000 <= delta * level <= 0x7fff_0000) by (nonlinear_arith)
                    requires
                        -0x1_0000 <= delta <= 0x1_0000,
                        0 <= level <= 0x7fff,
                ;
                lemma_shr_i32((delta * level) as i32);
            }
            delta = (delta * i32::from(level as i16)) >> 15;
            if delta == 0 && level != 0 && self.step < 0 {
                delta = -1;
            }
        }
        delta
    }
}

proof fn lemma_pow2_63()
    ensures
        vstd::arithmetic::power2::pow2(63) == 0x8000_0000_0000_0000,
{
    vstd::arithmetic::power2::lemma2_to64();
    vstd::arithmetic::power2::lemma_pow2_adds(32, 31);
}

/// Guest-visible ADSR phase.
#[derive(Clone, Copy, Debug, Default, PartialEq, Eq, Structural)]
pub enum EnvelopePhase {
    /// Voice is silent.
    #[default]
    Off,
    /// Rising toward full scale.
    Attack,
    /// Exponentially falling toward sustain level.
    Decay,
    /// Holding or changing according to sustain rate.
    Sustain,
    /// Falling toward silence after key-off.
    Release,
}

/// Decoded hardware envelope configuration.
#[derive(Clone, Copy, Debug, PartialEq, Eq, Structural)]
pub struct EnvelopeConfig {
    /// Attack rate.
    pub attack: EnvelopeRate,
    /// Exponential attack selection.
    pub attack_exponential: bool,
    /// Decay rate.
    pub decay: EnvelopeRate,
    /// Sustain threshold from zero through 0x7fff.
    pub sustain_level: u16,
    /// Sustain rate.
    pub sustain: EnvelopeRate,
    /// Sustain moves downward when set.
    pub sustain_decrease: bool,
    /// Exponential sustain selection.
    pub sustain_exponential: bool,
    /// Release rate.
    pub release: EnvelopeRate,
    /// Exponential release selection.
    pub release_exponential: bool,
}

/// What the two 16-bit ADSR registers encode.
pub open spec fn config_of(low: u16, high: u16) -> EnvelopeConfig {
    EnvelopeConfig {
        attack: EnvelopeRate {
            shift: ((low / 0x400) % 32) as u8,
            step: (7 - (low / 0x100) % 4) as i8,
        },
        attack_exponential: low >= 0x8000,
        decay: EnvelopeRate { shift: ((low / 0x10) % 16) as u8, step: -8i8 },
        sustain_level: if low % 16 == 15 {
            0x7fff
        } else {
            ((low % 16 + 1) * 0x800) as u16
        },
        sustain: EnvelopeRate {
            shift: ((high / 0x100) % 32) as u8,
            step: if (high / 0x4000) % 2 == 1 {
                (-8 + (high / 0x40) % 4) as i8
            } else {
                (7 - (high / 0x40) % 4) as i8
            },
        },
        sustain_decrease: (high / 0x4000) % 2 == 1,
        sustain_exponential: high >= 0x8000,
        release: EnvelopeRate { shift: (high % 32) as u8, step: -8i8 },
        release_exponential: (high / 0x20) % 2 == 1,
    }
}

impl EnvelopeConfig {
    /// Every rate stays in range for the way its phase uses it.
    pub open spec fn in_range(self) -> bool {
        &&& self.attack.in_range(false)
        &&& self.decay.in_range(true)
        &&& self.sustain.in_range(self.sustain_exponential && self.sustain_decrease)
        &&& self.release.in_range(self.release_exponential)
    }

    /// Decodes the two 16-bit PS1 ADSR registers.
    pub fn from_registers(low: u16, high: u16) -> (result: Self)
        ensures
            result == config_of(low, high),
            result.in_range(),
    {
        proof {
            lemma_adsr_registers(low);
            lemma_adsr_registers(high);
        }
        let sustain_decrease = high & 0x4000 != 0;
        let attack_index: i8 = ((low >> 8) & 3) as i8;
        let sustain_index: i8 = ((high >> 6) & 3) as i8;
        let sustain_step: i8 = if sustain_decrease {
            -8 + sustain_index
        } else {
            7 - sustain_index
        };
        let threshold: u32 = (u32::from(low & 0x0f) + 1) * 0x0800;
        let result = Self {
            attack: EnvelopeRate::new(((low >> 10) & 0x1f) as u8, 7 - attack_index),
            attack_exponential: low & 0x8000 != 0,
            decay: EnvelopeRate::new(((low >> 4) & 0x0f) as u8, -8),
            sustain_level: if threshold > 0x7fff {
                0x7fff
            } else {
                threshold as u16
            },
            sustain: EnvelopeRate::new(((high >> 8) & 0x1f) as u8, sustain_step),
            sustain_decrease,
            sustain_exponential: high & 0x8000 != 0,
            release: EnvelopeRate::new((high & 0x1f) as u8, -8),
            release_exponential: high & 0x20 != 0,
        };
        proof {
            lemma_hardware_rate_in_range(result.decay);
            lemma_hardware_rate_in_range(result.sustain);
            lemma_hardware_rate_in_range(result.release);
        }
        result
    }
}

proof fn lemma_hardware_rate_in_range(rate: EnvelopeRate)
    requires
        rate.shift <= 31,
        -8 <= rate.step <= 7,
    ensures
        rate.in_range(true),
{
    vstd::arithmetic::power2::lemma2_to64();
    if rate.shift < 11 {
        let scale = vstd::arithmetic::power2::pow2((11 - rate.shift) as nat);
        if rate.shift > 0 {
            vstd::arithmetic::power2::lemma_pow2_strictly_increases((11 - rate.shift) as nat, 11);
        }
        assert(-0x1_0000 <= rate.step * scale <= 0x1_0000) by (nonlinear_arith)
            requires
                -8 <= rate.step <= 7,
                0 <= scale <= 2048,
        ;
    }
}

/// Stateful integer ADSR envelope.
#[derive(Clone, Copy, Debug, PartialEq, Eq, Structural)]
pub struct Envelope {
    pub level: u16,
    pub phase: EnvelopePhase,
    pub clocks_until_step: u64,
}

impl Default for Envelope {
    fn default() -> (result: Self)
        ensures
            result == Envelope::silent(),
    {
        Self::new()
    }
}

/// `value` limited to a 15-bit level.
pub open spec fn clamp_level(value: int) -> u16 {
    if value < 0 {
        0
    } else if value > 0x7fff {
        0x7fff
    } else {
        value as u16
    }
}

impl Envelope {
    /// The level has fifteen bits.
    pub open spec fn wf(self) -> bool {
        self.level <= 0x7fff
    }

    /// The silent envelope.
    pub open spec fn silent() -> Envelope {
        Envelope { level: 0, phase: EnvelopePhase::Off, clocks_until_step: 0 }
    }

    /// Clocks from one step of the current phase to the next.
    pub open spec fn interval(self, config: EnvelopeConfig) -> int {
        match self.phase {
            EnvelopePhase::Attack => config.attack.interval_at(
                self.level,
                config.attack_exponential,
            ),
            EnvelopePhase::Decay => config.decay.interval_at(self.level, false),
            EnvelopePhase::Sustain => config.sustain.interval_at(
                self.level,
                config.sustain_exponential && !config.sustain_decrease,
            ),
            EnvelopePhase::Release => config.release.interval_at(self.level, false),
            EnvelopePhase::Off => 1,
        }
    }

    /// Change of level in the next step of the current phase.
    pub open spec fn delta(self, config: EnvelopeConfig) -> int {
        match self.phase {
            EnvelopePhase::Attack => config.attack.delta_at(self.level, false),
            EnvelopePhase::Decay => config.decay.delta_at(self.level, true),
            EnvelopePhase::Sustain => config.sustain.delta_at(
                self.level,
                config.sustain_exponential && config.sustain_decrease,
            ),
            EnvelopePhase::Release => config.release.delta_at(
                self.level,
                config.release_exponential,
            ),
            EnvelopePhase::Off => 0,
        }
    }

    /// The envelope after a step: the level moves, and reaching the end of a
    /// phase enters the next one.
    pub open spec fn stepped(self, config: EnvelopeConfig) -> Envelope {
        let level = clamp_level(self.level + self.delta(config));
        let phase = match self.phase {
            EnvelopePhase::Attack if level == 0x7fff => EnvelopePhase::Decay,
            EnvelopePhase::Decay if level <= config.sustain_level => EnvelopePhase::Sustain,
            EnvelopePhase::Release if level == 0 => EnvelopePhase::Off,
            _ => self.phase,
        };
        Envelope { level, phase, clocks_until_step: 0 }
    }

    /// Clocks left until the next step, starting a new interval when none is left.
    pub open spec fn due_in(self, config: EnvelopeConfig) -> int {
        if self.clocks_until_step == 0 {
            self.interval(config)
        } else {
            self.clocks_until_step as int
        }
    }

    /// The envelope after one clock.
    pub open spec fn ticked(self, config: EnvelopeConfig) -> Envelope {
        if self.phase == EnvelopePhase::Off {
            self
        } else if self.due_in(config) <= 1 {
            self.stepped(config)
        } else {
            Envelope { clocks_until_step: (self.due_in(config) - 1) as u64, ..self }
        }
    }

    /// The envelope after `clocks` clocks.
    pub open spec fn after(self, config: EnvelopeConfig, clocks: nat) -> Envelope
        decreases clocks,
    {
        if clocks == 0 {
            self
        } else {
            self.ticked(config).after(config, (clocks - 1) as nat)
        }
    }

    /// Constructs a silent envelope.
    pub fn new() -> (result: Self)
        ensures
            result == Envelope::silent(),
    {
        Self { level: 0, phase: EnvelopePhase::Off, clocks_until_step: 0 }
    }

    /// Returns the current unsigned 15-bit level.
    pub fn level(self) -> (result: u16)
        ensures
            result == self.level,
    {
        self.level
    }

    /// Returns the current phase.
    pub fn phase(self) -> (result: EnvelopePhase)
        ensures
            result == self.phase,
    {
        self.phase
    }

    /// Attack from silence.
    pub open spec fn keyed_on() -> Envelope {
        Envelope { level: 0, phase: EnvelopePhase::Attack, clocks_until_step: 0 }
    }

    /// Starts attack from silence.
    pub fn key_on(&mut self)
        ensures
            *final(self) == Envelope::keyed_on(),
    {
        self.level = 0;
        self.phase = EnvelopePhase::Attack;
        self.clocks_until_step = 0;
    }

    /// Release from the current level; a silent envelope stays silent.
    pub open spec fn keyed_off(self) -> Envelope {
        if self.phase == EnvelopePhase::Off {
            self
        } else {
            Envelope { phase: EnvelopePhase::Release, clocks_until_step: 0, ..self }
        }
    }

    /// Starts release from the current level.
    pub fn key_off(&mut self)
        ensures
            *final(self) == old(self).keyed_off(),
    {
        if self.phase != EnvelopePhase::Off {
            self.phase = EnvelopePhase::Release;
            self.clocks_until_step = 0;
        }
    }

    /// Advances envelope clocks without floating-point or wall-clock state.
    pub fn advance(&mut self, config: &EnvelopeConfig, clocks: u64)
        requires
            old(self).wf(),
            config.in_range(),
        ensures
            final(self).wf(),
            *final(self) == old(self).after(*config, clocks as nat),
    {
        let mut left: u64 = clocks;
        while left != 0 && self.phase != EnvelopePhase::Off
            invariant
                self.wf(),
                config.in_range(),
                old(self).after(*config, clocks as nat) == self.after(*config, left as nat),
            decreases left,
        {
            let ghost before = *self;
            if self.clocks_until_step == 0 {
                self.clocks_until_step = self.current_interval(config);
            }
            let due: u64 = self.clocks_until_step;
            let elapsed: u64 = if left < due {
                left
            } else {
                due
            };
            proof {
                lemma_after_jump(before, *config, elapsed as nat);
                law_advance_is_chunk_independent(
                    before,
                    *config,
                    elapsed as nat,
                    (left - elapsed) as nat,
                );
            }
            left -= elapsed;
            self.clocks_until_step -= elapsed;
            if self.clocks_until_step == 0 {
                self.apply_step(config);
            }
        }
        proof {
            if left != 0 {
                lemma_after_off(*self, *config, left as nat);
            }
        }
    }

    fn current_interval(self, config: &EnvelopeConfig) -> (result: u64)
        requires
            config.in_range(),
        ensures
            result == self.interval(*config),
            result > 0,
    {
        match self.phase {
            EnvelopePhase::Attack => config.attack.interval(self.level, config.attack_exponential),
            EnvelopePhase::Decay => config.decay.interval(self.level, false),
            EnvelopePhase::Sustain => config.sustain.interval(
                self.level,
                config.sustain_exponential && !config.sustain_decrease,
            ),
            EnvelopePhase::Release => config.release.interval(self.level, false),
            EnvelopePhase::Off => 1,
        }
    }

    /// Takes one step of the current phase. A release with a downward rate never stalls
    /// above zero, and ends exactly when it reaches zero.
    pub fn apply_step(&mut self, config: &EnvelopeConfig)
        requires
            old(self).wf(),
            config.in_range(),
        ensures
            final(self).wf(),
            *final(self) == (Envelope {
                clocks_until_step: old(self).clocks_until_step,
                ..old(self).stepped(*config)
            }),
            old(self).phase == EnvelopePhase::Release && config.release.step < 0 ==> {
                &&& old(self).level > 0 ==> final(self).level < old(self).level
                &&& old(self).level == 0 ==> final(self).level == 0
                &&& final(self).phase == if final(self).level == 0 {
                    EnvelopePhase::Off
                } else {
                    EnvelopePhase::Release
                }
            },
    {
        proof {
            if self.phase == EnvelopePhase::Release && config.release.step < 0 {
                law_release_step_descends(*self, *config);
            }
        }
        let delta: i32 = match self.phase {
            EnvelopePhase::Attack => config.attack.delta(self.level, false),
            EnvelopePhase::Decay => config.decay.delta(self.level, true),
            EnvelopePhase::Sustain => config.sustain.delta(
                self.level,
                config.sustain_exponential && config.sustain_decrease,
            ),
            EnvelopePhase::Release => config.release.delta(self.level, config.release_exponential),
            EnvelopePhase::Off => 0,
        };
        let next: i32 = i32::from(self.level as i16) + delta;
        self.level = if next < 0 {
            0
        } else if next > 0x7fff {
            0x7fff
        } else {
            next as u16
        };
        match self.phase {
            EnvelopePhase::Attack => {
                if self.level == 0x7fff {
                    self.phase = EnvelopePhase::Decay;
                }
            },
            EnvelopePhase::Decay => {
                if self.level <= config.sustain_level {
                    self.phase = EnvelopePhase::Sustain;
                }
            },
            EnvelopePhase::Release => {
                if self.level == 0 {
                    self.phase = EnvelopePhase::Off;
                }
            },
            _ => {},
        }
    }
}

/// Up to the next step, clocks only count down; the last of them takes the step.
pub proof fn lemma_after_jump(envelope: Envelope, config: EnvelopeConfig, clocks: nat)
    requires
        envelope.phase != EnvelopePhase::Off,
        1 <= clocks <= envelope.due_in(config) <= u64::MAX,
    ensures
        envelope.after(config, clocks) == if clocks < envelope.due_in(config) {
            Envelope {
                clocks_until_step: (envelope.due_in(config) - clocks) as u64,
                ..envelope
            }
        } else {
            envelope.stepped(config)
        },
    decreases clocks,
{
    let next = envelope.ticked(config);
    assert(envelope.after(config, clocks) == next.after(config, (clocks - 1) as nat));
    if clocks > 1 {
        lemma_after_jump(next, config, (clocks - 1) as nat);
    } else {
        assert(next.after(config, 0) == next);
    }
}

/// A silent envelope does not change with time.
proof fn lemma_after_off(envelope: Envelope, config: EnvelopeConfig, clocks: nat)
    requires
        envelope.phase == EnvelopePhase::Off,
    ensures
        envelope.after(config, clocks) == envelope,
    decreases clocks,
{
    if clocks > 0 {
        lemma_after_off(envelope, config, (clocks - 1) as nat);
    }
}

/// Advancing in two chunks is advancing once by their sum.
pub proof fn law_advance_is_chunk_independent(
    envelope: Envelope,
    config: EnvelopeConfig,
    first: nat,
    second: nat,
)
    ensures
        envelope.after(config, first).after(config, second) == envelope.after(
            config,
            first + second,
        ),
    decreases first,
{
    if first > 0 {
        law_advance_is_chunk_independent(
            envelope.ticked(config),
            config,
            (first - 1) as nat,
            second,
        );
        assert(envelope.after(config, first) == envelope.ticked(config).after(
            config,
            (first - 1) as nat,
        ));
        assert(envelope.after(config, first + second) == envelope.ticked(config).after(
            config,
            (first + second - 1) as nat,
        ));
    }
}

/// A release step with a downward rate never stalls above zero.
pub proof fn law_release_step_descends(envelope: Envelope, config: EnvelopeConfig)
    requires
        envelope.wf(),
        envelope.phase == EnvelopePhase::Release,
        config.release.step < 0,
    ensures
        envelope.level > 0 ==> envelope.stepped(config).level < envelope.level,
        envelope.level == 0 ==> envelope.stepped(config).level == 0,
        envelope.stepped(config).phase == if envelope.stepped(config).level == 0 {
            EnvelopePhase::Off
        } else {
            EnvelopePhase::Release
        },
{
    let rate = config.release;
    if rate.shift < 11 {
        let scale = vstd::arithmetic::power2::pow2((11 - rate.shift) as nat);
        vstd::arithmetic::power2::lemma_pow2_pos((11 - rate.shift) as nat);
        assert(rate.step * scale < 0) by (nonlinear_arith)
            requires
                rate.step < 0,
                scale > 0,
        ;
    }
    let linear = rate.linear_delta();
    let level = envelope.level;
    assert(linear * level <= 0) by (nonlinear_arith)
        requires
            linear < 0,
            level >= 0,
    ;
}

/// A released envelope with a downward rate reaches silence, at the latest when
/// every remaining level has taken one interval.
pub proof fn law_release_reaches_silence(envelope: Envelope, config: EnvelopeConfig, clocks: nat)
    requires
        envelope.wf(),
        envelope.phase == EnvelopePhase::Release,
        config.release.step < 0,
        config.release.shift <= 74,
        envelope.clocks_until_step <= config.release.interval_at(0, false),
        clocks >= (envelope.level + 1) * config.release.interval_at(0, false),
    ensures
        envelope.after(config, clocks).phase == EnvelopePhase::Off,
        envelope.after(config, clocks).level == 0,
    decreases envelope.level,
{
    let interval = config.release.interval_at(0, false);
    if config.release.shift > 11 {
        let count = (config.release.shift - 11) as nat;
        vstd::arithmetic::power2::lemma_pow2_pos(count);
        if count < 63 {
            vstd::arithmetic::power2::lemma_pow2_strictly_increases(count, 63);
        }
        lemma_pow2_63();
    }
    let due = envelope.due_in(config);
    let level = envelope.level as int;
    assert(clocks >= interval && interval > 0) by (nonlinear_arith)
        requires
            clocks >= (level + 1) * interval,
            interval > 0,
            level >= 0,
    ;
    lemma_after_jump(envelope, config, due as nat);
    law_release_step_descends(envelope, config);
    let next = envelope.stepped(config);
    let rest = (clocks - due) as nat;
    law_advance_is_chunk_independent(envelope, config, due as nat, rest);
    if next.phase == EnvelopePhase::Off {
        lemma_after_off(next, config, rest);
    } else {
        let lower = next.level as int;
        assert(rest >= (lower + 1) * interval) by (nonlinear_arith)
            requires
                clocks >= (level + 1) * interval,
                rest == clocks - due,
                due <= interval,
                lower + 1 <= level,
                interval > 0,
        ;
        law_release_reaches_silence(next, config, rest);
    }
}

} // verus!
