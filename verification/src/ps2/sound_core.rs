//! One SPU2 core: its voices, its mixer, and its sound-RAM port.

use vstd::prelude::*;

use crate::arrays::{array_of, lemma_array_is, with};
use crate::bits::signed16;
use crate::bytes::{half_at, read_half, with_half, write_half};
use crate::ps2::effects::{
    law_effects_stay_in_area, normalize_address, normalized, EffectSettings, Effects,
    SOUND_RAM_SIZE,
};
use crate::ps2::voice::Voice;
use crate::spu_common::adpcm::AdpcmError;
use crate::spu_common::effects::changed_inside;
use crate::spu_common::fixed::{clamp16, clamp_i64_to_i16};
use crate::spu_common::mixer::{
    apply_signed_volume, apply_volume, at_signed_volume, at_volume, lemma_endx_end,
    lemma_endx_start, lemma_endx_step, modulated, modulated_pitch, selected,
};
use crate::spu_common::noise::{noise_next, NoiseGenerator};

verus! {

/// Number of independently mixed voices in each core.
pub const VOICES_PER_CORE: usize = 24;

/// Mix input A into the dry left bus.
pub const MMIX_INPUT_A_DRY_LEFT: u16 = 0x001;

/// Mix input A into the dry right bus.
pub const MMIX_INPUT_A_DRY_RIGHT: u16 = 0x002;

/// Mix input B into the dry left bus.
pub const MMIX_INPUT_B_DRY_LEFT: u16 = 0x004;

/// Mix input B into the dry right bus.
pub const MMIX_INPUT_B_DRY_RIGHT: u16 = 0x008;

/// Mix voices into the dry left bus.
pub const MMIX_VOICE_DRY_LEFT: u16 = 0x010;

/// Mix voices into the dry right bus.
pub const MMIX_VOICE_DRY_RIGHT: u16 = 0x020;

/// Mix input A into the effect left bus.
pub const MMIX_INPUT_A_EFFECT_LEFT: u16 = 0x040;

/// Mix input A into the effect right bus.
pub const MMIX_INPUT_A_EFFECT_RIGHT: u16 = 0x080;

/// Mix input B into the effect left bus.
pub const MMIX_INPUT_B_EFFECT_LEFT: u16 = 0x100;

/// Mix input B into the effect right bus.
pub const MMIX_INPUT_B_EFFECT_RIGHT: u16 = 0x200;

/// Mix voices into the effect left bus.
pub const MMIX_VOICE_EFFECT_LEFT: u16 = 0x400;

/// Mix voices into the effect right bus.
pub const MMIX_VOICE_EFFECT_RIGHT: u16 = 0x800;

/// Enables one SPU2 core.
pub const CORE_ATTR_ENABLE: u16 = 0x8000;

/// Enables audible output from one SPU2 core.
pub const CORE_ATTR_UNMUTE: u16 = 0x4000;

/// Enables writes by one core's effect processor.
pub const CORE_ATTR_EFFECT_ENABLE: u16 = 0x80;

/// Enables sound-RAM address interrupts from one core.
pub const CORE_ATTR_IRQ_ENABLE: u16 = 0x40;

/// Enables the external core input path.
pub const CORE_ATTR_EXTERNAL_ENABLE: u16 = 0x1;

/// One signed-integer stereo sample.
#[derive(Clone, Copy, Debug, Default, PartialEq, Eq, Structural)]
pub struct StereoFrame {
    /// Left sample.
    pub left: i16,
    /// Right sample.
    pub right: i16,
}

impl StereoFrame {
    /// Silence.
    pub open spec fn silent() -> StereoFrame {
        StereoFrame { left: 0, right: 0 }
    }

    /// Constructs a stereo frame.
    pub fn new(left: i16, right: i16) -> (result: Self)
        ensures
            result == (StereoFrame { left, right }),
    {
        Self { left, right }
    }
}

/// The two serial/input streams visible to one core for one frame.
#[derive(Clone, Copy, Debug, Default, PartialEq, Eq, Structural)]
pub struct CoreInput {
    /// Input A. Core 1 also receives core 0's output through this path.
    pub input_a: StereoFrame,
    /// Input B.
    pub input_b: StereoFrame,
}

/// A voice of a core that met an undefined ADPCM header.
#[derive(Clone, Copy, Debug, PartialEq, Eq, Structural)]
pub struct VoiceFault {
    /// Voice within the core.
    pub voice: usize,
    /// Sound-RAM block address.
    pub address: usize,
    /// Decoder failure.
    pub source: AdpcmError,
}

/// Registers and voices of one core.
#[verifier::ext_equal]
#[derive(Clone, Copy, Debug, PartialEq, Eq)]
pub struct Core {
    pub voices: [Voice; 24],
    pub pitch_mod_mask: u32,
    pub noise_mask: u32,
    pub voice_dry_left: u32,
    pub voice_dry_right: u32,
    pub voice_effect_left: u32,
    pub voice_effect_right: u32,
    pub mix: u16,
    pub attributes: u16,
    pub endx: u32,
    pub irq_address: u32,
    pub transfer_address: u32,
    pub effect_start: u32,
    pub effect_end: u32,
    pub effect_addresses: [u32; 22],
    pub effect_coefficients: [u16; 10],
    pub master_volume: (u16, u16),
    pub effect_volume: (u16, u16),
    pub input_a_volume: (u16, u16),
    pub input_b_volume: (u16, u16),
    pub effects: Effects,
    pub noise: NoiseGenerator,
    pub irq_request: bool,
    pub status: u16,
}

/// What voices contribute to a frame of a core.
#[verifier::ext_equal]
pub ghost struct CoreMix {
    pub state: Core,
    pub dry_left: int,
    pub dry_right: int,
    pub wet_left: int,
    pub wet_right: int,
    /// Output of the last voice, which may modulate the next.
    pub previous: i16,
    /// The voice that met an undefined block.
    pub failure: Option<VoiceFault>,
}

/// `value` if the mixer routes it, else nothing.
pub open spec fn routed(value: int, mix: u16, route: u16) -> int {
    if mix & route != 0 {
        value
    } else {
        0
    }
}

impl Core {
    /// Every part is valid.
    pub open spec fn wf(self) -> bool {
        &&& forall|i: int| 0 <= i < 24 ==> (#[trigger] self.voices@[i]).wf()
        &&& self.effects.wf()
        &&& self.noise.wf()
    }

    /// Reset state: the effects work area is all of sound RAM.
    pub open spec fn at_reset(self) -> bool {
        &&& self.wf()
        &&& forall|i: int| 0 <= i < 24 ==> (#[trigger] self.voices@[i]).at_reset()
        &&& self.pitch_mod_mask == 0
        &&& self.noise_mask == 0
        &&& self.voice_dry_left == 0
        &&& self.voice_dry_right == 0
        &&& self.voice_effect_left == 0
        &&& self.voice_effect_right == 0
        &&& self.mix == 0
        &&& self.attributes == 0
        &&& self.endx == 0
        &&& self.irq_address == 0
        &&& self.transfer_address == 0
        &&& self.effect_start == 0
        &&& self.effect_end == SOUND_RAM_SIZE - 1
        &&& forall|i: int| 0 <= i < 22 ==> #[trigger] self.effect_addresses@[i] == 0
        &&& forall|i: int| 0 <= i < 10 ==> #[trigger] self.effect_coefficients@[i] == 0
        &&& self.master_volume == (0u16, 0u16)
        &&& self.effect_volume == (0u16, 0u16)
        &&& self.input_a_volume == (0u16, 0u16)
        &&& self.input_b_volume == (0u16, 0u16)
        &&& self.effects == (Effects { current: 0 })
        &&& self.noise == (NoiseGenerator { state: 1 })
        &&& !self.irq_request
        &&& self.status == 0
    }

    /// The state after the voices in `mask` are keyed on.
    #[verifier::opaque]
    pub open spec fn keyed_on(self, mask: u32) -> Core {
        Core {
            voices: array_of(
                Seq::new(
                    24,
                    |i: int|
                        if selected(mask, i) {
                            self.voices@[i].keyed_on()
                        } else {
                            self.voices@[i]
                        },
                ),
            ),
            endx: self.endx & !(mask & 0x00ff_ffff),
            ..self
        }
    }

    /// The state after the voices in `mask` are keyed off.
    #[verifier::opaque]
    pub open spec fn keyed_off(self, mask: u32) -> Core {
        Core {
            voices: array_of(
                Seq::new(
                    24,
                    |i: int|
                        if selected(mask, i) {
                            self.voices@[i].keyed_off()
                        } else {
                            self.voices@[i]
                        },
                ),
            ),
            ..self
        }
    }

    /// The state after sound RAM at `address` was touched: the interrupt is raised if
    /// it is enabled and the address lies in its sixteen-byte unit.
    pub open spec fn touched(self, address: int) -> Core {
        if self.attributes & CORE_ATTR_IRQ_ENABLE != 0 && address / 16 == normalized(
            self.irq_address,
        ) / 16 {
            Core { irq_request: true, ..self }
        } else {
            self
        }
    }

    /// The state after both halves of a block were fetched.
    pub open spec fn block_touched(self, address: int) -> Core {
        self.touched(address).touched((address + 8) % SOUND_RAM_SIZE as int)
    }

    /// The state after a halfword moved through the transfer port.
    pub open spec fn transferred(self) -> Core {
        let address = normalized(self.transfer_address);
        Core {
            transfer_address: ((address + 2) % SOUND_RAM_SIZE as int) as u32,
            ..self.touched(address)
        }
    }

    /// The RAM after a halfword was written through the transfer port.
    pub open spec fn transferred_ram(self, ram: Seq<u8>, value: u16) -> Seq<u8> {
        with_half(ram, normalized(self.transfer_address), value)
    }

    /// The effect unit's registers.
    pub open spec fn settings(self) -> EffectSettings {
        EffectSettings {
            start: self.effect_start,
            end: self.effect_end,
            addresses: self.effect_addresses,
            coefficients: self.effect_coefficients,
        }
    }

    /// The mix before the first voice.
    pub open spec fn unmixed(self) -> CoreMix {
        CoreMix {
            state: self,
            dry_left: 0,
            dry_right: 0,
            wet_left: 0,
            wet_right: 0,
            previous: 0,
            failure: None,
        }
    }

    /// The mix of the first `count` voices.
    pub open spec fn mixed(self, ram: Seq<u8>, count: nat) -> CoreMix
        decreases count,
    {
        if count == 0 {
            self.unmixed()
        } else {
            self.mixed(ram, (count - 1) as nat).with_voice(ram, count - 1)
        }
    }

    /// The wet output and what the effect unit leaves. A disabled unit is silent.
    pub open spec fn effected(self, ram: Seq<u8>, send: (i16, i16)) -> (
        Core,
        Seq<u8>,
        (i16, i16),
    ) {
        if self.attributes & CORE_ATTR_EFFECT_ENABLE != 0 {
            let processed = self.effects.processed(ram, self.settings(), true, send);
            (Core { effects: processed.0, ..self }, processed.1, processed.2)
        } else {
            (self, ram, (0, 0))
        }
    }

    /// The output of a finished mix and a wet signal.
    pub open spec fn output(self, mix: CoreMix, wet: (i16, i16)) -> StereoFrame {
        if self.attributes & CORE_ATTR_UNMUTE == 0 {
            StereoFrame::silent()
        } else {
            let left = mix.dry_left + at_signed_volume(wet.0 as int, self.effect_volume.0);
            let right = mix.dry_right + at_signed_volume(wet.1 as int, self.effect_volume.1);
            StereoFrame {
                left: at_signed_volume(clamp16(left), self.master_volume.0) as i16,
                right: at_signed_volume(clamp16(right), self.master_volume.1) as i16,
            }
        }
    }

    /// The state, the RAM and the stereo sample after one frame. A disabled core is
    /// silent and stands still.
    #[verifier::opaque]
    pub open spec fn framed(self, ram: Seq<u8>, input: CoreInput) -> (
        Core,
        Seq<u8>,
        Result<StereoFrame, VoiceFault>,
    ) {
        if self.attributes & CORE_ATTR_ENABLE == 0 {
            (self, ram, Ok(StereoFrame::silent()))
        } else {
            let voices = self.mixed(ram, 24);
            match voices.failure {
                Some(fault) => (voices.state, ram, Err(fault)),
                None => {
                    let mix = voices.with_inputs(input);
                    let (state, ram_after, wet) = mix.state.effected(
                        ram,
                        (clamp16(mix.wet_left) as i16, clamp16(mix.wet_right) as i16),
                    );
                    (state, ram_after, Ok(state.output(mix, wet)))
                },
            }
        }
    }

    pub fn new() -> (result: Self)
        ensures
            result.at_reset(),
    {
        let voice = Voice::new();
        let voices: [Voice; 24] = [voice;24];
        assert(voices == vstd::array::spec_array_fill_for_copy_type::<Voice, 24>(voice));
        assert(forall|i: int| 0 <= i < 24 ==> #[trigger] voices@[i] == voice);
        Self {
            voices,
            pitch_mod_mask: 0,
            noise_mask: 0,
            voice_dry_left: 0,
            voice_dry_right: 0,
            voice_effect_left: 0,
            voice_effect_right: 0,
            mix: 0,
            attributes: 0,
            endx: 0,
            irq_address: 0,
            transfer_address: 0,
            effect_start: 0,
            effect_end: SOUND_RAM_SIZE as u32 - 1,
            effect_addresses: [0u32;22],
            effect_coefficients: [0u16;10],
            master_volume: (0, 0),
            effect_volume: (0, 0),
            input_a_volume: (0, 0),
            input_b_volume: (0, 0),
            effects: Effects::new(),
            noise: NoiseGenerator { state: 1 },
            irq_request: false,
            status: 0,
        }
    }

    pub fn key_on(&mut self, mask: u32)
        requires
            old(self).wf(),
        ensures
            final(self).wf(),
            *final(self) == old(self).keyed_on(mask),
    {
        let ghost keyed = Seq::new(
            24,
            |i: int|
                if selected(mask, i) {
                    self.voices@[i].keyed_on()
                } else {
                    self.voices@[i]
                },
        );
        let mut index: usize = 0;
        proof {
            lemma_endx_start(self.endx, mask);
        }
        while index < VOICES_PER_CORE
            invariant
                index <= 24,
                self.wf(),
                old(self).wf(),
                keyed == Seq::new(
                    24,
                    |i: int|
                        if selected(mask, i) {
                            old(self).voices@[i].keyed_on()
                        } else {
                            old(self).voices@[i]
                        },
                ),
                *self == (Core { voices: self.voices, endx: self.endx, ..*old(self) }),
                self.endx == old(self).endx & !(mask & !(0xffff_ffffu32 << (index as u32))),
                forall|i: int| 0 <= i < index ==> #[trigger] self.voices@[i] == keyed[i],
                forall|i: int|
                    index <= i < 24 ==> #[trigger] self.voices@[i] == old(self).voices@[i],
            decreases 24 - index,
        {
            let bit: u32 = 1u32 << (index as u32);
            proof {
                lemma_endx_step(old(self).endx, mask, index as u32, (index + 1) as u32);
            }
            if mask & bit != 0 {
                let mut voice: Voice = self.voices[index];
                voice.key_on();
                self.voices[index] = voice;
                self.endx = self.endx & !bit;
            }
            index += 1;
        }
        proof {
            assert(self.voices@ =~= keyed);
            lemma_array_is(self.voices, keyed);
            lemma_endx_end(old(self).endx, mask);
            reveal(Core::keyed_on);
        }
    }

    pub fn key_off(&mut self, mask: u32)
        requires
            old(self).wf(),
        ensures
            final(self).wf(),
            *final(self) == old(self).keyed_off(mask),
    {
        let ghost keyed = Seq::new(
            24,
            |i: int|
                if selected(mask, i) {
                    self.voices@[i].keyed_off()
                } else {
                    self.voices@[i]
                },
        );
        let mut index: usize = 0;
        while index < VOICES_PER_CORE
            invariant
                index <= 24,
                self.wf(),
                old(self).wf(),
                keyed == Seq::new(
                    24,
                    |i: int|
                        if selected(mask, i) {
                            old(self).voices@[i].keyed_off()
                        } else {
                            old(self).voices@[i]
                        },
                ),
                *self == (Core { voices: self.voices, ..*old(self) }),
                forall|i: int| 0 <= i < index ==> #[trigger] self.voices@[i] == keyed[i],
                forall|i: int|
                    index <= i < 24 ==> #[trigger] self.voices@[i] == old(self).voices@[i],
            decreases 24 - index,
        {
            if mask & (1u32 << (index as u32)) != 0 {
                let mut voice: Voice = self.voices[index];
                voice.key_off();
                self.voices[index] = voice;
            }
            index += 1;
        }
        proof {
            assert(self.voices@ =~= keyed);
            lemma_array_is(self.voices, keyed);
            reveal(Core::keyed_off);
        }
    }

    /// Renders one frame of this core.
    pub fn render(&mut self, ram: &mut Vec<u8>, input: CoreInput) -> (result: Result<
        StereoFrame,
        VoiceFault,
    >)
        requires
            old(self).wf(),
            old(ram)@.len() == SOUND_RAM_SIZE,
        ensures
            final(self).wf(),
            final(ram)@.len() == SOUND_RAM_SIZE,
            ({
                let framed = old(self).framed(old(ram)@, input);
                &&& *final(self) == framed.0
                &&& final(ram)@ == framed.1
                &&& result == framed.2
            }),
    {
        proof {
            reveal(Core::framed);
        }
        if self.attributes & CORE_ATTR_ENABLE == 0 {
            return Ok(StereoFrame::new(0, 0));
        }
        let ghost start = *self;
        let mut dry_left: i64 = 0;
        let mut dry_right: i64 = 0;
        let mut wet_left: i64 = 0;
        let mut wet_right: i64 = 0;
        let mut previous: i16 = 0;
        let mut index: usize = 0;
        while index < VOICES_PER_CORE
            invariant
                index <= 24,
                self.wf(),
                ram@.len() == SOUND_RAM_SIZE,
                ram@ == old(ram)@,
                start == *old(self),
                start.attributes & CORE_ATTR_ENABLE != 0,
                -0x8000 * index <= dry_left <= 0x8000 * index,
                -0x8000 * index <= dry_right <= 0x8000 * index,
                -0x8000 * index <= wet_left <= 0x8000 * index,
                -0x8000 * index <= wet_right <= 0x8000 * index,
                start.mixed(ram@, index as nat) == (CoreMix {
                    state: *self,
                    dry_left: dry_left as int,
                    dry_right: dry_right as int,
                    wet_left: wet_left as int,
                    wet_right: wet_right as int,
                    previous,
                    failure: None,
                }),
            decreases 24 - index,
        {
            let ghost before = start.mixed(ram@, index as nat);
            proof {
                assert(start.mixed(ram@, (index + 1) as nat) == before.with_voice(
                    ram@,
                    index as int,
                ));
            }
            match self.mix_voice(ram, index, previous) {
                Ok(sends) => {
                    previous = sends.dry;
                    dry_left += i64::from(sends.dry_left);
                    dry_right += i64::from(sends.dry_right);
                    wet_left += i64::from(sends.wet_left);
                    wet_right += i64::from(sends.wet_right);
                },
                Err(fault) => {
                    proof {
                        reveal(Core::framed);
                        lemma_mix_failure_stays(start, ram@, (index + 1) as nat, 24);
                    }
                    return Err(fault);
                },
            }
            index += 1;
        }
        let ghost voices = start.mixed(ram@, 24);
        let mut scaled = StereoFrame::new(0, 0);
        if self.attributes & CORE_ATTR_EXTERNAL_ENABLE != 0 {
            scaled =
            StereoFrame::new(
                apply_signed_volume(input.input_a.left, self.input_a_volume.0),
                apply_signed_volume(input.input_a.right, self.input_a_volume.1),
            );
        }
        dry_left += i64::from(route(scaled.left, self.mix, MMIX_INPUT_A_DRY_LEFT));
        dry_right += i64::from(route(scaled.right, self.mix, MMIX_INPUT_A_DRY_RIGHT));
        wet_left += i64::from(route(scaled.left, self.mix, MMIX_INPUT_A_EFFECT_LEFT));
        wet_right += i64::from(route(scaled.right, self.mix, MMIX_INPUT_A_EFFECT_RIGHT));
        let left: i16 = apply_signed_volume(input.input_b.left, self.input_b_volume.0);
        let right: i16 = apply_signed_volume(input.input_b.right, self.input_b_volume.1);
        dry_left += i64::from(route(left, self.mix, MMIX_INPUT_B_DRY_LEFT));
        dry_right += i64::from(route(right, self.mix, MMIX_INPUT_B_DRY_RIGHT));
        wet_left += i64::from(route(left, self.mix, MMIX_INPUT_B_EFFECT_LEFT));
        wet_right += i64::from(route(right, self.mix, MMIX_INPUT_B_EFFECT_RIGHT));
        proof {
            let mix = voices.with_inputs(input);
            assert(mix.dry_left == dry_left);
            assert(mix.dry_right == dry_right);
            assert(mix.wet_left == wet_left);
            assert(mix.wet_right == wet_right);
        }
        let wet: (i16, i16) = if self.attributes & CORE_ATTR_EFFECT_ENABLE != 0 {
            let settings = EffectSettings {
                start: self.effect_start,
                end: self.effect_end,
                addresses: self.effect_addresses,
                coefficients: self.effect_coefficients,
            };
            self.effects.process(
                ram,
                &settings,
                true,
                (clamp_i64_to_i16(wet_left), clamp_i64_to_i16(wet_right)),
            )
        } else {
            (0, 0)
        };
        if self.attributes & CORE_ATTR_UNMUTE == 0 {
            return Ok(StereoFrame::new(0, 0));
        }
        dry_left += i64::from(apply_signed_volume(wet.0, self.effect_volume.0));
        dry_right += i64::from(apply_signed_volume(wet.1, self.effect_volume.1));
        Ok(
            StereoFrame::new(
                apply_signed_volume(clamp_i64_to_i16(dry_left), self.master_volume.0),
                apply_signed_volume(clamp_i64_to_i16(dry_right), self.master_volume.1),
            ),
        )
    }

    fn mix_voice(&mut self, ram: &Vec<u8>, index: usize, previous: i16) -> (result: Result<
        VoiceSends,
        VoiceFault,
    >)
        requires
            old(self).wf(),
            ram@.len() == SOUND_RAM_SIZE,
            index < 24,
        ensures
            final(self).wf(),
            forall|mix: CoreMix|
                mix.state == *old(self) && mix.previous == previous && mix.failure is None
                    ==> #[trigger] mix.with_voice(ram@, index as int) == (match result {
                    Ok(sends) => CoreMix {
                        state: *final(self),
                        dry_left: mix.dry_left + sends.dry_left,
                        dry_right: mix.dry_right + sends.dry_right,
                        wet_left: mix.wet_left + sends.wet_left,
                        wet_right: mix.wet_right + sends.wet_right,
                        previous: sends.dry,
                        failure: None,
                    },
                    Err(fault) => CoreMix {
                        state: *final(self),
                        failure: Some(fault),
                        ..mix
                    },
                }),
    {
        proof {
            reveal(CoreMix::with_voice);
        }
        let bit: u32 = 1u32 << (index as u32);
        let mut voice: Voice = self.voices[index];
        let pitch: u16 = if index != 0 && self.pitch_mod_mask & bit != 0 {
            modulated_pitch(voice.pitch, previous)
        } else {
            voice.pitch
        };
        let noise: Option<i16> = if self.noise_mask & bit != 0 {
            Some(self.noise.step())
        } else {
            None
        };
        let outcome = voice.render(ram, pitch, noise);
        self.voices[index] = voice;
        let output = match outcome {
            Ok(output) => output,
            Err((address, source)) => {
                return Err(VoiceFault { voice: index, address, source });
            },
        };
        if let Some(address) = output.fetched {
            self.check_irq_fetch(address);
        }
        if output.loop_end {
            self.endx = self.endx | bit;
        }
        let left: i16 = apply_volume(output.dry, voice.volume_left);
        let right: i16 = apply_volume(output.dry, voice.volume_right);
        Ok(
            VoiceSends {
                dry: output.dry,
                dry_left: if self.voice_dry_left & bit != 0 {
                    route(left, self.mix, MMIX_VOICE_DRY_LEFT)
                } else {
                    0
                },
                dry_right: if self.voice_dry_right & bit != 0 {
                    route(right, self.mix, MMIX_VOICE_DRY_RIGHT)
                } else {
                    0
                },
                wet_left: if self.voice_effect_left & bit != 0 {
                    route(left, self.mix, MMIX_VOICE_EFFECT_LEFT)
                } else {
                    0
                },
                wet_right: if self.voice_effect_right & bit != 0 {
                    route(right, self.mix, MMIX_VOICE_EFFECT_RIGHT)
                } else {
                    0
                },
            },
        )
    }

    /// Writes one halfword through the transfer port.
    pub fn write_transfer_halfword(&mut self, ram: &mut Vec<u8>, value: u16)
        requires
            old(self).wf(),
            old(ram)@.len() == SOUND_RAM_SIZE,
        ensures
            final(self).wf(),
            *final(self) == old(self).transferred(),
            final(ram)@ == old(self).transferred_ram(old(ram)@, value),
    {
        let address: usize = normalize_address(self.transfer_address);
        self.check_irq_address(address);
        write_half(ram, address, value);
        self.transfer_address = ((address + 2) % SOUND_RAM_SIZE) as u32;
    }

    /// Reads one halfword through the transfer port.
    pub fn read_transfer_halfword(&mut self, ram: &Vec<u8>) -> (result: u16)
        requires
            old(self).wf(),
            ram@.len() == SOUND_RAM_SIZE,
        ensures
            final(self).wf(),
            *final(self) == old(self).transferred(),
            result == half_at(ram@, normalized(old(self).transfer_address)),
    {
        let address: usize = normalize_address(self.transfer_address);
        self.check_irq_address(address);
        let value: u16 = read_half(ram.as_slice(), address);
        self.transfer_address = ((address + 2) % SOUND_RAM_SIZE) as u32;
        value
    }

    fn check_irq_fetch(&mut self, address: usize)
        requires
            old(self).wf(),
            address < SOUND_RAM_SIZE,
        ensures
            final(self).wf(),
            *final(self) == old(self).block_touched(address as int),
    {
        self.check_irq_address(address);
        self.check_irq_address((address + 8) % SOUND_RAM_SIZE);
    }

    fn check_irq_address(&mut self, address: usize)
        requires
            old(self).wf(),
        ensures
            final(self).wf(),
            *final(self) == old(self).touched(address as int),
    {
        if self.attributes & CORE_ATTR_IRQ_ENABLE != 0 && address / 16 == normalize_address(
            self.irq_address,
        ) / 16 {
            self.irq_request = true;
        }
    }
}

/// What one voice contributes to the buses of a core.
#[derive(Clone, Copy, Debug, PartialEq, Eq, Structural)]
struct VoiceSends {
    dry: i16,
    dry_left: i16,
    dry_right: i16,
    wet_left: i16,
    wet_right: i16,
}

fn route(value: i16, mix: u16, bit: u16) -> (result: i16)
    ensures
        result == routed(value as int, mix, bit),
{
    if mix & bit != 0 {
        value
    } else {
        0
    }
}

impl CoreMix {
    /// The mix with voice `index` added. Voices after a failure are not run.
    #[verifier::opaque]
    pub open spec fn with_voice(self, ram: Seq<u8>, index: int) -> CoreMix {
        let state = self.state;
        let voice = state.voices@[index];
        let pitch = if index != 0 && selected(state.pitch_mod_mask, index) {
            modulated(voice.pitch, self.previous)
        } else {
            voice.pitch
        };
        let noisy = selected(state.noise_mask, index);
        let noise = if noisy {
            NoiseGenerator { state: noise_next(state.noise.state) }
        } else {
            state.noise
        };
        let (played, outcome) = voice.rendered(
            ram,
            pitch,
            if noisy {
                Some(signed16(noise.state) as i16)
            } else {
                None
            },
        );
        let stepped = Core { noise, voices: with(state.voices, index, played), ..state };
        if self.failure is Some {
            self
        } else {
            match outcome {
                Err((address, source)) => CoreMix {
                    state: stepped,
                    failure: Some(VoiceFault { voice: index as usize, address, source }),
                    ..self
                },
                Ok(output) => {
                    let watched = match output.fetched {
                        Some(address) => stepped.block_touched(address as int),
                        None => stepped,
                    };
                    let after = if output.loop_end {
                        Core { endx: watched.endx | (1u32 << (index as u32)), ..watched }
                    } else {
                        watched
                    };
                    let left = at_volume(output.dry as int, played.volume_left);
                    let right = at_volume(output.dry as int, played.volume_right);
                    let sent = |value: int, mask: u32, bit: u16|
                        if selected(mask, index) {
                            routed(value, state.mix, bit)
                        } else {
                            0
                        };
                    CoreMix {
                        state: after,
                        dry_left: self.dry_left + sent(
                            left,
                            state.voice_dry_left,
                            MMIX_VOICE_DRY_LEFT,
                        ),
                        dry_right: self.dry_right + sent(
                            right,
                            state.voice_dry_right,
                            MMIX_VOICE_DRY_RIGHT,
                        ),
                        wet_left: self.wet_left + sent(
                            left,
                            state.voice_effect_left,
                            MMIX_VOICE_EFFECT_LEFT,
                        ),
                        wet_right: self.wet_right + sent(
                            right,
                            state.voice_effect_right,
                            MMIX_VOICE_EFFECT_RIGHT,
                        ),
                        previous: output.dry,
                        failure: None,
                    }
                },
            }
        }
    }

    /// The mix with the two input streams added; input A needs the external path.
    pub open spec fn with_inputs(self, input: CoreInput) -> CoreMix {
        let state = self.state;
        let external = state.attributes & CORE_ATTR_EXTERNAL_ENABLE != 0;
        let a_left = if external {
            at_signed_volume(input.input_a.left as int, state.input_a_volume.0)
        } else {
            0
        };
        let a_right = if external {
            at_signed_volume(input.input_a.right as int, state.input_a_volume.1)
        } else {
            0
        };
        let b_left = at_signed_volume(input.input_b.left as int, state.input_b_volume.0);
        let b_right = at_signed_volume(input.input_b.right as int, state.input_b_volume.1);
        CoreMix {
            dry_left: self.dry_left + routed(a_left, state.mix, MMIX_INPUT_A_DRY_LEFT) + routed(
                b_left,
                state.mix,
                MMIX_INPUT_B_DRY_LEFT,
            ),
            dry_right: self.dry_right + routed(a_right, state.mix, MMIX_INPUT_A_DRY_RIGHT)
                + routed(b_right, state.mix, MMIX_INPUT_B_DRY_RIGHT),
            wet_left: self.wet_left + routed(a_left, state.mix, MMIX_INPUT_A_EFFECT_LEFT)
                + routed(b_left, state.mix, MMIX_INPUT_B_EFFECT_LEFT),
            wet_right: self.wet_right + routed(a_right, state.mix, MMIX_INPUT_A_EFFECT_RIGHT)
                + routed(b_right, state.mix, MMIX_INPUT_B_EFFECT_RIGHT),
            ..self
        }
    }
}

proof fn lemma_mix_failure_stays(state: Core, ram: Seq<u8>, early: nat, late: nat)
    requires
        early <= late,
        state.mixed(ram, early).failure is Some,
    ensures
        state.mixed(ram, late) == state.mixed(ram, early),
    decreases late - early,
{
    reveal(CoreMix::with_voice);
    if early < late {
        lemma_mix_failure_stays(state, ram, early, (late - 1) as nat);
    }
}

/// The parts of a core that voices do not change.
pub open spec fn same_settings(left: Core, right: Core) -> bool {
    &&& left.attributes == right.attributes
    &&& left.effects == right.effects
    &&& left.settings() == right.settings()
}

proof fn lemma_mixing_keeps_settings(state: Core, ram: Seq<u8>, count: nat)
    ensures
        same_settings(state.mixed(ram, count).state, state),
    decreases count,
{
    reveal(CoreMix::with_voice);
    if count > 0 {
        lemma_mixing_keeps_settings(state, ram, (count - 1) as nat);
    }
}

/// A frame of a core changes sound RAM only inside the core's effects work area, and
/// not at all while the core or its effect unit is disabled.
pub proof fn law_frame_changes_only_effect_area(state: Core, ram: Seq<u8>, input: CoreInput)
    requires
        state.wf(),
        ram.len() == SOUND_RAM_SIZE,
    ensures
        state.attributes & CORE_ATTR_EFFECT_ENABLE == 0 || state.attributes & CORE_ATTR_ENABLE == 0
            || state.settings().is_empty() ==> state.framed(ram, input).1 == ram,
        !state.settings().is_empty() ==> changed_inside(
            state.effects.area(state.settings()),
            ram,
            state.framed(ram, input).1,
        ),
{
    reveal(Core::framed);
    lemma_mixing_keeps_settings(state, ram, 24);
    let mix = state.mixed(ram, 24).with_inputs(input);
    law_effects_stay_in_area(
        state.effects,
        ram,
        state.settings(),
        true,
        (clamp16(mix.wet_left) as i16, clamp16(mix.wet_right) as i16),
    );
}

/// The interrupt of a core is raised only by an access to its address while it is
/// enabled.
pub proof fn law_interrupt_needs_its_address(state: Core, address: int)
    ensures
        state.touched(address).irq_request && !state.irq_request ==> address / 16 == normalized(
            state.irq_address,
        ) / 16 && state.attributes & CORE_ATTR_IRQ_ENABLE != 0,
        state.irq_request ==> state.touched(address).irq_request,
{
}

/// A disabled core is silent and stands still.
pub proof fn law_disabled_core_stands_still(state: Core, ram: Seq<u8>, input: CoreInput)
    requires
        state.attributes & CORE_ATTR_ENABLE == 0,
    ensures
        state.framed(ram, input) == (
            state,
            ram,
            Ok::<StereoFrame, VoiceFault>(StereoFrame::silent()),
        ),
{
    reveal(Core::framed);
}

} // verus!
