//! Standalone, instance-owned PS1 sound processing unit.

use vstd::prelude::*;

use crate::arrays::{array_of, lemma_array_is, with};
use crate::bits::signed16;
use crate::bytes::{
    halves, high_half, join_halves, low_half, read_half, with_bytes, with_half, word_of,
    write_bytes, write_half, zeroed,
};
use crate::ps1::dma::{EndpointError, SoundDmaEndpoint};
use crate::ps1::irq::{InterruptController, InterruptSource};
use crate::ps1::reverb::{law_reverb_stays_in_area, work_area, Reverb};
use crate::ps1::voice::Voice;
use crate::spu_common::adpcm::AdpcmError;
use crate::spu_common::effects::changed_inside;
use crate::spu_common::fixed::{clamp16, clamp_i64_to_i16};
use crate::spu_common::mixer::{
    apply_signed_volume, apply_volume, at_signed_volume, at_volume, lemma_endx_end,
    lemma_endx_start, lemma_endx_step, modulated, modulated_pitch, selected,
};
use crate::spu_common::noise::{noise_next, NoiseGenerator};

pub use crate::ps1::reverb::SOUND_RAM_SIZE;

verus! {

/// Number of independently mixed hardware voices.
pub const VOICE_COUNT: usize = 24;

/// Native integer output rate.
pub const SAMPLE_RATE: u32 = 44_100;

/// First SPU register address.
pub const SPU_BASE: u32 = 0x1f80_1c00;

/// Final SPU register address, inclusive.
pub const SPU_END: u32 = 0x1f80_1dff;

/// First address after the voice registers.
pub const VOICE_REGISTER_END: u32 = 0x1f80_1d80;

/// Left main volume.
pub const MAIN_VOLUME_LEFT: u32 = 0x1f80_1d80;

/// Right main volume.
pub const MAIN_VOLUME_RIGHT: u32 = 0x1f80_1d82;

/// Left reverb output volume.
pub const REVERB_VOLUME_LEFT: u32 = 0x1f80_1d84;

/// Right reverb output volume.
pub const REVERB_VOLUME_RIGHT: u32 = 0x1f80_1d86;

/// Key-on bits of voices 0 to 15.
pub const KEY_ON_LOW: u32 = 0x1f80_1d88;

/// Key-on bits of voices 16 to 23.
pub const KEY_ON_HIGH: u32 = 0x1f80_1d8a;

/// Key-off bits of voices 0 to 15.
pub const KEY_OFF_LOW: u32 = 0x1f80_1d8c;

/// Key-off bits of voices 16 to 23.
pub const KEY_OFF_HIGH: u32 = 0x1f80_1d8e;

/// Pitch modulation bits of voices 0 to 15.
pub const PITCH_MOD_LOW: u32 = 0x1f80_1d90;

/// Pitch modulation bits of voices 16 to 23.
pub const PITCH_MOD_HIGH: u32 = 0x1f80_1d92;

/// Noise bits of voices 0 to 15.
pub const NOISE_LOW: u32 = 0x1f80_1d94;

/// Noise bits of voices 16 to 23.
pub const NOISE_HIGH: u32 = 0x1f80_1d96;

/// Reverb send bits of voices 0 to 15.
pub const REVERB_ON_LOW: u32 = 0x1f80_1d98;

/// Reverb send bits of voices 16 to 23.
pub const REVERB_ON_HIGH: u32 = 0x1f80_1d9a;

/// End-of-sample bits of voices 0 to 15.
pub const ENDX_LOW: u32 = 0x1f80_1d9c;

/// End-of-sample bits of voices 16 to 23.
pub const ENDX_HIGH: u32 = 0x1f80_1d9e;

/// A register without modeled function.
pub const UNKNOWN_DA0: u32 = 0x1f80_1da0;

/// Reverb work area base.
pub const REVERB_BASE: u32 = 0x1f80_1da2;

/// Interrupt address.
pub const IRQ_ADDRESS: u32 = 0x1f80_1da4;

/// Transfer address.
pub const TRANSFER_ADDRESS: u32 = 0x1f80_1da6;

/// Transfer data port.
pub const TRANSFER_FIFO: u32 = 0x1f80_1da8;

/// Control register.
pub const CONTROL: u32 = 0x1f80_1daa;

/// Transfer control register.
pub const TRANSFER_CONTROL: u32 = 0x1f80_1dac;

/// Status register.
pub const STATUS: u32 = 0x1f80_1dae;

/// Left CD volume.
pub const CD_VOLUME_LEFT: u32 = 0x1f80_1db0;

/// Right CD volume.
pub const CD_VOLUME_RIGHT: u32 = 0x1f80_1db2;

/// Left external volume.
pub const EXTERNAL_VOLUME_LEFT: u32 = 0x1f80_1db4;

/// Right external volume.
pub const EXTERNAL_VOLUME_RIGHT: u32 = 0x1f80_1db6;

/// Current left main volume.
pub const CURRENT_MAIN_VOLUME_LEFT: u32 = 0x1f80_1db8;

/// Current right main volume.
pub const CURRENT_MAIN_VOLUME_RIGHT: u32 = 0x1f80_1dba;

/// A register without modeled function.
pub const UNKNOWN_DBC: u32 = 0x1f80_1dbc;

/// A register without modeled function.
pub const UNKNOWN_DBE: u32 = 0x1f80_1dbe;

/// First reverb register.
pub const REVERB_REGISTERS_START: u32 = 0x1f80_1dc0;

/// Master enable bit in the control register.
pub const CONTROL_ENABLE: u16 = 0x8000;

/// Reverb write enable bit in the control register.
pub const CONTROL_REVERB_ENABLE: u16 = 0x80;

/// Interrupt enable bit in the control register.
pub const CONTROL_IRQ_ENABLE: u16 = 0x40;

/// Interrupt bit in the status register.
pub const STATUS_IRQ: u16 = 0x40;

/// Typed interrupt output consumed by the standalone SPU.
pub trait InterruptSink: Sized {
    /// Taking a request from `source` may leave `after`.
    open spec fn requested(before: Self, source: InterruptSource, after: Self) -> bool {
        true
    }

    /// Latches or records an SPU interrupt request.
    fn request(&mut self, source: InterruptSource)
        ensures
            Self::requested(*old(self), source, *final(self)),
    ;
}

impl InterruptSink for InterruptController {
    open spec fn requested(before: Self, source: InterruptSource, after: Self) -> bool {
        after == InterruptController::requested(before, source)
    }

    fn request(&mut self, source: InterruptSource) {
        InterruptController::request(self, source);
    }
}

/// Invalid register, buffer, RAM, or ADPCM operation.
#[derive(Clone, Copy, Debug, PartialEq, Eq, Structural)]
pub enum SpuError {
    /// Address is not a modeled 16-bit SPU register.
    InvalidRegister {
        /// Physical register address.
        address: u32,
    },
    /// Sound-RAM host access left the 512 KiB allocation.
    RamRange {
        /// Byte offset in sound RAM.
        offset: usize,
        /// Requested byte count.
        size: usize,
    },
    /// Interleaved stereo output length does not equal twice the frame count.
    OutputSize {
        /// Required scalar sample count.
        expected: usize,
        /// Supplied scalar sample count.
        actual: usize,
    },
    /// One voice encountered an undefined ADPCM block header.
    Adpcm {
        /// Voice index from zero through 23.
        voice: usize,
        /// Byte address of the block.
        address: usize,
        /// Decoder diagnostic.
        source: AdpcmError,
    },
}

/// Registers and voices of the SPU.
#[verifier::ext_equal]
#[derive(Clone, Copy, Debug, PartialEq, Eq)]
pub struct SpuState {
    pub voices: [Voice; 24],
    pub main_volume_left: u16,
    pub main_volume_right: u16,
    pub reverb_volume_left: u16,
    pub reverb_volume_right: u16,
    pub pitch_mod_mask: u32,
    pub noise_mask: u32,
    pub reverb_mask: u32,
    pub endx: u32,
    pub unknown_da0: u16,
    pub reverb_base: u16,
    pub irq_address: u16,
    pub transfer_address: usize,
    pub control: u16,
    pub transfer_control: u16,
    pub status: u16,
    pub cd_volume_left: u16,
    pub cd_volume_right: u16,
    pub external_volume_left: u16,
    pub external_volume_right: u16,
    pub unknown_dbc: u16,
    pub unknown_dbe: u16,
    pub reverb_registers: [u16; 32],
    pub reverb: Reverb,
    pub irq_request: bool,
    pub noise: NoiseGenerator,
}

/// Standalone 24-voice PS1 SPU.
#[derive(Clone, Debug, PartialEq, Eq)]
pub struct Spu {
    pub ram: Vec<u8>,
    pub state: SpuState,
}

/// `target` with its low half replaced.
pub open spec fn with_low(target: u32, value: u16) -> u32 {
    word_of(value, high_half(target))
}

/// `target` with its high half replaced.
pub open spec fn with_high(target: u32, value: u16) -> u32 {
    word_of(low_half(target), value)
}

/// A 16-bit register address of the SPU.
pub open spec fn is_register(address: u32) -> bool {
    SPU_BASE <= address <= SPU_END && address % 2 == 0
}

/// What voices contribute to a frame.
#[verifier::ext_equal]
pub ghost struct Mix {
    pub state: SpuState,
    pub left: int,
    pub right: int,
    pub reverb_left: int,
    pub reverb_right: int,
    /// Output of the last voice, which may modulate the next.
    pub previous: i16,
    /// The voice that met an undefined block.
    pub failure: Option<SpuError>,
}

/// What a number of frames produce.
#[verifier::ext_equal]
pub ghost struct Rendering {
    pub state: SpuState,
    pub ram: Seq<u8>,
    /// Interleaved samples of the frames that were completed.
    pub samples: Seq<i16>,
    pub failure: Option<SpuError>,
}

impl SpuState {
    /// Every part is valid.
    pub open spec fn wf(self) -> bool {
        &&& forall|i: int| 0 <= i < 24 ==> (#[trigger] self.voices@[i]).wf()
        &&& self.transfer_address < SOUND_RAM_SIZE
        &&& self.transfer_address % 2 == 0
        &&& self.reverb.wf()
        &&& self.noise.wf()
    }

    /// Reset state.
    pub open spec fn at_reset(self) -> bool {
        &&& self.wf()
        &&& forall|i: int| 0 <= i < 24 ==> (#[trigger] self.voices@[i]).at_reset()
        &&& self.main_volume_left == 0
        &&& self.main_volume_right == 0
        &&& self.reverb_volume_left == 0
        &&& self.reverb_volume_right == 0
        &&& self.pitch_mod_mask == 0
        &&& self.noise_mask == 0
        &&& self.reverb_mask == 0
        &&& self.endx == 0
        &&& self.unknown_da0 == 0
        &&& self.reverb_base == 0
        &&& self.irq_address == 0
        &&& self.transfer_address == 0
        &&& self.control == 0
        &&& self.transfer_control == 0
        &&& self.status == 0
        &&& self.cd_volume_left == 0
        &&& self.cd_volume_right == 0
        &&& self.external_volume_left == 0
        &&& self.external_volume_right == 0
        &&& self.unknown_dbc == 0
        &&& self.unknown_dbe == 0
        &&& forall|i: int| 0 <= i < 32 ==> #[trigger] self.reverb_registers@[i] == 0
        &&& self.reverb.at_reset()
        &&& !self.irq_request
        &&& self.noise == (NoiseGenerator { state: 1 })
    }

    /// The state after sound RAM at `address` was touched: the interrupt is raised
    /// if it is enabled and the address lies in its eight-byte unit.
    pub open spec fn touched(self, address: int) -> SpuState {
        if self.control & CONTROL_IRQ_ENABLE != 0 && address / 8 == self.irq_address {
            SpuState { status: self.status | STATUS_IRQ, irq_request: true, ..self }
        } else {
            self
        }
    }

    /// The state after both halves of a block were fetched.
    pub open spec fn block_touched(self, address: int) -> SpuState {
        self.touched(address).touched((address + 8) % SOUND_RAM_SIZE as int)
    }

    /// A voice register.
    pub open spec fn voice_value(self, address: u32) -> u16 {
        let voice = self.voices@[(address - SPU_BASE) / 16];
        match (address - SPU_BASE) as u32 % 16 {
            0 => voice.volume_left,
            2 => voice.volume_right,
            4 => voice.pitch,
            6 => voice.start_address,
            8 => voice.adsr_low,
            10 => voice.adsr_high,
            12 => voice.envelope.level,
            _ => voice.repeat_address,
        }
    }

    /// What a register reads as.
    pub open spec fn value_at(self, address: u32) -> Result<u16, SpuError> {
        if !is_register(address) {
            Err(SpuError::InvalidRegister { address })
        } else if address < VOICE_REGISTER_END {
            Ok(self.voice_value(address))
        } else if address >= REVERB_REGISTERS_START {
            Ok(self.reverb_registers@[(address - REVERB_REGISTERS_START) / 2])
        } else {
            match address {
                MAIN_VOLUME_LEFT | CURRENT_MAIN_VOLUME_LEFT => Ok(self.main_volume_left),
                MAIN_VOLUME_RIGHT | CURRENT_MAIN_VOLUME_RIGHT => Ok(self.main_volume_right),
                REVERB_VOLUME_LEFT => Ok(self.reverb_volume_left),
                REVERB_VOLUME_RIGHT => Ok(self.reverb_volume_right),
                PITCH_MOD_LOW => Ok(low_half(self.pitch_mod_mask)),
                PITCH_MOD_HIGH => Ok(high_half(self.pitch_mod_mask)),
                NOISE_LOW => Ok(low_half(self.noise_mask)),
                NOISE_HIGH => Ok(high_half(self.noise_mask)),
                REVERB_ON_LOW => Ok(low_half(self.reverb_mask)),
                REVERB_ON_HIGH => Ok(high_half(self.reverb_mask)),
                ENDX_LOW => Ok(low_half(self.endx)),
                ENDX_HIGH => Ok(high_half(self.endx)),
                UNKNOWN_DA0 => Ok(self.unknown_da0),
                REVERB_BASE => Ok(self.reverb_base),
                IRQ_ADDRESS => Ok(self.irq_address),
                TRANSFER_ADDRESS => Ok((self.transfer_address as int / 8) as u16),
                CONTROL => Ok(self.control),
                TRANSFER_CONTROL => Ok(self.transfer_control),
                STATUS => Ok(self.status),
                CD_VOLUME_LEFT => Ok(self.cd_volume_left),
                CD_VOLUME_RIGHT => Ok(self.cd_volume_right),
                EXTERNAL_VOLUME_LEFT => Ok(self.external_volume_left),
                EXTERNAL_VOLUME_RIGHT => Ok(self.external_volume_right),
                UNKNOWN_DBC => Ok(self.unknown_dbc),
                UNKNOWN_DBE => Ok(self.unknown_dbe),
                _ => Err(SpuError::InvalidRegister { address }),
            }
        }
    }

    /// The voice state after a write of one of its registers.
    pub open spec fn voice_written(voice: Voice, register: u32, value: u16) -> Voice {
        match register {
            0 => Voice { volume_left: value, ..voice },
            2 => Voice { volume_right: value, ..voice },
            4 => Voice {
                pitch: if value > 0x3fff {
                    0x3fff
                } else {
                    value
                },
                ..voice
            },
            6 => Voice { start_address: value, ..voice },
            8 => Voice { adsr_low: value, ..voice },
            10 => Voice { adsr_high: value, ..voice },
            12 => voice,
            _ => Voice { repeat_address: value, ..voice },
        }
    }

    /// The state after the voices in `mask` are keyed on.
    #[verifier::opaque]
    pub open spec fn keyed_on(self, mask: u32) -> SpuState {
        SpuState {
            voices: array_of(
                Seq::new(
                    24,
                    |i: int|
                        if selected(mask, i) {
                            self.voices@[i].keyed_on()
                        } else {
                            self.voices@[i]
                        },
                ),
            ),
            endx: self.endx & !(mask & 0x00ff_ffff),
            ..self
        }
    }

    /// The state after the voices in `mask` are keyed off.
    #[verifier::opaque]
    pub open spec fn keyed_off(self, mask: u32) -> SpuState {
        SpuState {
            voices: array_of(
                Seq::new(
                    24,
                    |i: int|
                        if selected(mask, i) {
                            self.voices@[i].keyed_off()
                        } else {
                            self.voices@[i]
                        },
                ),
            ),
            ..self
        }
    }

    /// The state after a control write: disabling the interrupt acknowledges it.
    pub open spec fn controlled(self, value: u16) -> SpuState {
        if value & CONTROL_IRQ_ENABLE == 0 {
            SpuState {
                control: value,
                status: self.status & !STATUS_IRQ,
                irq_request: false,
                ..self
            }
        } else {
            SpuState { control: value, ..self }
        }
    }

    /// The state after a halfword moved through the transfer port.
    pub open spec fn transferred(self) -> SpuState {
        SpuState {
            transfer_address: ((self.transfer_address + 2) % SOUND_RAM_SIZE as int) as usize,
            ..self.touched(self.transfer_address as int)
        }
    }

    /// The state after a register write.
    pub open spec fn written(self, address: u32, value: u16) -> SpuState {
        if !is_register(address) {
            self
        } else if address < VOICE_REGISTER_END {
            let index = (address - SPU_BASE) / 16;
            SpuState {
                voices: with(
                    self.voices,
                    index,
                    SpuState::voice_written(
                        self.voices@[index],
                        (address - SPU_BASE) as u32 % 16,
                        value,
                    ),
                ),
                ..self
            }
        } else if address >= REVERB_REGISTERS_START {
            SpuState {
                reverb_registers: with(
                    self.reverb_registers,
                    (address - REVERB_REGISTERS_START) / 2,
                    value,
                ),
                ..self
            }
        } else {
            match address {
                MAIN_VOLUME_LEFT => SpuState { main_volume_left: value, ..self },
                MAIN_VOLUME_RIGHT => SpuState { main_volume_right: value, ..self },
                REVERB_VOLUME_LEFT => SpuState { reverb_volume_left: value, ..self },
                REVERB_VOLUME_RIGHT => SpuState { reverb_volume_right: value, ..self },
                KEY_ON_LOW => self.keyed_on(value as u32),
                KEY_ON_HIGH => self.keyed_on((value * 0x1_0000) as u32),
                KEY_OFF_LOW => self.keyed_off(value as u32),
                KEY_OFF_HIGH => self.keyed_off((value * 0x1_0000) as u32),
                PITCH_MOD_LOW => SpuState {
                    pitch_mod_mask: with_low(self.pitch_mod_mask, value),
                    ..self
                },
                PITCH_MOD_HIGH => SpuState {
                    pitch_mod_mask: with_high(self.pitch_mod_mask, value),
                    ..self
                },
                NOISE_LOW => SpuState { noise_mask: with_low(self.noise_mask, value), ..self },
                NOISE_HIGH => SpuState { noise_mask: with_high(self.noise_mask, value), ..self },
                REVERB_ON_LOW => SpuState {
                    reverb_mask: with_low(self.reverb_mask, value),
                    ..self
                },
                REVERB_ON_HIGH => SpuState {
                    reverb_mask: with_high(self.reverb_mask, value),
                    ..self
                },
                ENDX_LOW => SpuState { endx: self.endx & !(value as u32), ..self },
                ENDX_HIGH => SpuState { endx: self.endx & !((value * 0x1_0000) as u32), ..self },
                UNKNOWN_DA0 => SpuState { unknown_da0: value, ..self },
                REVERB_BASE => SpuState {
                    reverb_base: value,
                    reverb: Reverb { current_address: (value * 8) as usize, ..self.reverb },
                    ..self
                },
                IRQ_ADDRESS => SpuState { irq_address: value, ..self },
                TRANSFER_ADDRESS => SpuState { transfer_address: (value * 8) as usize, ..self },
                TRANSFER_FIFO => self.transferred(),
                CONTROL => self.controlled(value),
                TRANSFER_CONTROL => SpuState { transfer_control: value, ..self },
                CD_VOLUME_LEFT => SpuState { cd_volume_left: value, ..self },
                CD_VOLUME_RIGHT => SpuState { cd_volume_right: value, ..self },
                EXTERNAL_VOLUME_LEFT => SpuState { external_volume_left: value, ..self },
                EXTERNAL_VOLUME_RIGHT => SpuState { external_volume_right: value, ..self },
                UNKNOWN_DBC => SpuState { unknown_dbc: value, ..self },
                UNKNOWN_DBE => SpuState { unknown_dbe: value, ..self },
                _ => self,
            }
        }
    }

    /// The mix before the first voice.
    pub open spec fn unmixed(self) -> Mix {
        Mix {
            state: self,
            left: 0,
            right: 0,
            reverb_left: 0,
            reverb_right: 0,
            previous: 0,
            failure: None,
        }
    }

    /// The mix of the first `count` voices.
    pub open spec fn mixed(self, ram: Seq<u8>, count: nat) -> Mix
        decreases count,
    {
        if count == 0 {
            self.unmixed()
        } else {
            self.mixed(ram, (count - 1) as nat).with_voice(ram, count - 1)
        }
    }

    /// The state after the reverb took the sends of a mix, its RAM, and its output.
    pub open spec fn reverberated(self, ram: Seq<u8>, send: (i16, i16)) -> (
        SpuState,
        Seq<u8>,
        (i16, i16),
    ) {
        let processed = self.reverb.processed(
            ram,
            self.reverb_base,
            self.reverb_registers,
            self.control & CONTROL_REVERB_ENABLE != 0,
            send,
        );
        (SpuState { reverb: processed.0, ..self }, processed.1, processed.2)
    }

    /// The state, the RAM and the stereo sample after one frame.
    #[verifier::opaque]
    pub open spec fn framed(self, ram: Seq<u8>) -> (
        SpuState,
        Seq<u8>,
        Result<(i16, i16), SpuError>,
    ) {
        if self.control & CONTROL_ENABLE == 0 {
            (self, ram, Ok((0, 0)))
        } else {
            let mix = self.mixed(ram, 24);
            match mix.failure {
                Some(error) => (mix.state, ram, Err(error)),
                None => {
                    let (state, ram_after, wet) = mix.state.reverberated(
                        ram,
                        (clamp16(mix.reverb_left) as i16, clamp16(mix.reverb_right) as i16),
                    );
                    (state, ram_after, Ok(state.output(mix, wet)))
                },
            }
        }
    }

    /// The stereo sample of a mix and a wet signal.
    pub open spec fn output(self, mix: Mix, wet: (i16, i16)) -> (i16, i16) {
        let left = mix.left + at_signed_volume(wet.0 as int, self.reverb_volume_left);
        let right = mix.right + at_signed_volume(wet.1 as int, self.reverb_volume_right);
        (
            at_volume(clamp16(left), self.main_volume_left) as i16,
            at_volume(clamp16(right), self.main_volume_right) as i16,
        )
    }

    /// What `count` frames produce; a frame that fails is the last.
    pub open spec fn rendering(self, ram: Seq<u8>, count: nat) -> Rendering
        decreases count,
    {
        if count == 0 {
            Rendering { state: self, ram, samples: Seq::empty(), failure: None }
        } else {
            self.rendering(ram, (count - 1) as nat).next()
        }
    }
}

impl Mix {
    /// The mix with voice `index` added. Voices after a failure are not run.
    #[verifier::opaque]
    pub open spec fn with_voice(self, ram: Seq<u8>, index: int) -> Mix {
        let state = self.state;
        let voice = state.voices@[index];
        let pitch = if index != 0 && selected(state.pitch_mod_mask, index) {
            modulated(voice.pitch, self.previous)
        } else {
            voice.pitch
        };
        let noisy = selected(state.noise_mask, index);
        let noise = if noisy {
            NoiseGenerator { state: noise_next(state.noise.state) }
        } else {
            state.noise
        };
        let (played, outcome) = voice.rendered(
            ram,
            pitch,
            if noisy {
                Some(signed16(noise.state) as i16)
            } else {
                None
            },
        );
        let stepped = SpuState { noise, voices: with(state.voices, index, played), ..state };
        if self.failure is Some {
            self
        } else {
            match outcome {
                Err((address, source)) => Mix {
                    state: stepped,
                    failure: Some(SpuError::Adpcm { voice: index as usize, address, source }),
                    ..self
                },
                Ok(output) => {
                    let watched = match output.fetched {
                        Some(address) => stepped.block_touched(address as int),
                        None => stepped,
                    };
                    let after = if output.loop_end {
                        SpuState { endx: watched.endx | (1u32 << (index as u32)), ..watched }
                    } else {
                        watched
                    };
                    let left = at_volume(output.dry as int, played.volume_left);
                    let right = at_volume(output.dry as int, played.volume_right);
                    let sends = selected(state.reverb_mask, index);
                    Mix {
                        state: after,
                        left: self.left + left,
                        right: self.right + right,
                        reverb_left: self.reverb_left + if sends {
                            left
                        } else {
                            0
                        },
                        reverb_right: self.reverb_right + if sends {
                            right
                        } else {
                            0
                        },
                        previous: output.dry,
                        failure: None,
                    }
                },
            }
        }
    }
}

impl Rendering {
    /// What one frame more produces.
    pub open spec fn next(self) -> Rendering {
        let (state, ram, frame) = self.state.framed(self.ram);
        if self.failure is Some {
            self
        } else {
            match frame {
                Ok((left, right)) => Rendering {
                    state,
                    ram,
                    samples: self.samples.push(left).push(right),
                    failure: None,
                },
                Err(error) => Rendering { state, ram, failure: Some(error), ..self },
            }
        }
    }
}

impl Default for Spu {
    fn default() -> (result: Self)
        ensures
            result.wf(),
            result.state.at_reset(),
            result.ram@ == Seq::new(SOUND_RAM_SIZE as nat, |i: int| 0u8),
    {
        Self::new()
    }
}

impl Spu {
    /// Sound RAM has its full size and the state is valid.
    pub open spec fn wf(self) -> bool {
        self.ram@.len() == SOUND_RAM_SIZE && self.state.wf()
    }

    /// Constructs reset sound RAM, registers, and voices.
    pub fn new() -> (result: Self)
        ensures
            result.wf(),
            result.state.at_reset(),
            result.ram@ == Seq::new(SOUND_RAM_SIZE as nat, |i: int| 0u8),
    {
        let voice = Voice::new();
        let voices: [Voice; 24] = [voice;24];
        assert(voices == vstd::array::spec_array_fill_for_copy_type::<Voice, 24>(voice));
        assert(forall|i: int| 0 <= i < 24 ==> #[trigger] voices@[i] == voice);
        Self {
            ram: zeroed(SOUND_RAM_SIZE),
            state: SpuState {
                voices,
                main_volume_left: 0,
                main_volume_right: 0,
                reverb_volume_left: 0,
                reverb_volume_right: 0,
                pitch_mod_mask: 0,
                noise_mask: 0,
                reverb_mask: 0,
                endx: 0,
                unknown_da0: 0,
                reverb_base: 0,
                irq_address: 0,
                transfer_address: 0,
                control: 0,
                transfer_control: 0,
                status: 0,
                cd_volume_left: 0,
                cd_volume_right: 0,
                external_volume_left: 0,
                external_volume_right: 0,
                unknown_dbc: 0,
                unknown_dbe: 0,
                reverb_registers: [0u16;32],
                reverb: Reverb::new(),
                irq_request: false,
                noise: NoiseGenerator { state: 1 },
            },
        }
    }

    /// Returns immutable sound RAM for diagnostics.
    pub fn ram(&self) -> (result: &[u8])
        ensures
            result@ == self.ram@,
    {
        self.ram.as_slice()
    }

    /// Loads a synthetic or locally supplied sound-RAM range without register side effects.
    ///
    /// A range that leaves sound RAM is an error and loads nothing.
    pub fn load_ram(&mut self, offset: usize, bytes: &[u8]) -> (result: Result<(), SpuError>)
        requires
            old(self).wf(),
        ensures
            final(self).wf(),
            final(self).state == old(self).state,
            result == if offset + bytes@.len() <= SOUND_RAM_SIZE {
                Ok(())
            } else {
                Err(SpuError::RamRange { offset, size: bytes@.len() as usize })
            },
            final(self).ram@ == if offset + bytes@.len() <= SOUND_RAM_SIZE {
                with_bytes(old(self).ram@, offset as int, bytes@)
            } else {
                old(self).ram@
            },
    {
        let size: usize = bytes.len();
        if offset > SOUND_RAM_SIZE || size > SOUND_RAM_SIZE - offset {
            return Err(SpuError::RamRange { offset, size });
        }
        write_bytes(&mut self.ram, offset, bytes);
        Ok(())
    }

    /// Reads one 16-bit SPU register.
    ///
    /// Odd and unmodeled addresses are an error.
    pub fn read_register(&self, address: u32) -> (result: Result<u16, SpuError>)
        requires
            self.wf(),
        ensures
            result == self.state.value_at(address),
    {
        if let Err(error) = ensure_register(address) {
            return Err(error);
        }
        let state = &self.state;
        if address < VOICE_REGISTER_END {
            let (index, register) = decode_voice_register(address);
            let voice = &state.voices[index];
            return Ok(
                match register {
                    0 => voice.volume_left,
                    2 => voice.volume_right,
                    4 => voice.pitch,
                    6 => voice.start_address,
                    8 => voice.adsr_low,
                    10 => voice.adsr_high,
                    12 => voice.envelope.level(),
                    _ => voice.repeat_address,
                },
            );
        }
        if address >= REVERB_REGISTERS_START {
            return Ok(state.reverb_registers[reverb_index(address)]);
        }
        match address {
            MAIN_VOLUME_LEFT | CURRENT_MAIN_VOLUME_LEFT => Ok(state.main_volume_left),
            MAIN_VOLUME_RIGHT | CURRENT_MAIN_VOLUME_RIGHT => Ok(state.main_volume_right),
            REVERB_VOLUME_LEFT => Ok(state.reverb_volume_left),
            REVERB_VOLUME_RIGHT => Ok(state.reverb_volume_right),
            PITCH_MOD_LOW => Ok(halves(state.pitch_mod_mask).0),
            PITCH_MOD_HIGH => Ok(halves(state.pitch_mod_mask).1),
            NOISE_LOW => Ok(halves(state.noise_mask).0),
            NOISE_HIGH => Ok(halves(state.noise_mask).1),
            REVERB_ON_LOW => Ok(halves(state.reverb_mask).0),
            REVERB_ON_HIGH => Ok(halves(state.reverb_mask).1),
            ENDX_LOW => Ok(halves(state.endx).0),
            ENDX_HIGH => Ok(halves(state.endx).1),
            UNKNOWN_DA0 => Ok(state.unknown_da0),
            REVERB_BASE => Ok(state.reverb_base),
            IRQ_ADDRESS => Ok(state.irq_address),
            TRANSFER_ADDRESS => Ok((state.transfer_address / 8) as u16),
            CONTROL => Ok(state.control),
            TRANSFER_CONTROL => Ok(state.transfer_control),
            STATUS => Ok(state.status),
            CD_VOLUME_LEFT => Ok(state.cd_volume_left),
            CD_VOLUME_RIGHT => Ok(state.cd_volume_right),
            EXTERNAL_VOLUME_LEFT => Ok(state.external_volume_left),
            EXTERNAL_VOLUME_RIGHT => Ok(state.external_volume_right),
            UNKNOWN_DBC => Ok(state.unknown_dbc),
            UNKNOWN_DBE => Ok(state.unknown_dbe),
            _ => Err(SpuError::InvalidRegister { address }),
        }
    }

    /// Writes one 16-bit SPU register.
    ///
    /// Odd and unmodeled addresses are an error.
    #[verifier::rlimit(60)]
    pub fn write_register(&mut self, address: u32, value: u16) -> (result: Result<(), SpuError>)
        requires
            old(self).wf(),
        ensures
            final(self).wf(),
            result == if is_register(address) {
                Ok(())
            } else {
                Err(SpuError::InvalidRegister { address })
            },
            final(self).state == old(self).state.written(address, value),
            final(self).ram@ == if address == TRANSFER_FIFO {
                with_half(old(self).ram@, old(self).state.transfer_address as int, value)
            } else {
                old(self).ram@
            },
    {
        if let Err(error) = ensure_register(address) {
            return Err(error);
        }
        if address < VOICE_REGISTER_END {
            self.write_voice_register(address, value);
            return Ok(());
        }
        if address >= REVERB_REGISTERS_START {
            self.state.reverb_registers[reverb_index(address)] = value;
            return Ok(());
        }
        let high: u32 = u32::from(value) * 0x1_0000;
        match address {
            MAIN_VOLUME_LEFT => {
                self.state.main_volume_left = value;
            },
            MAIN_VOLUME_RIGHT => {
                self.state.main_volume_right = value;
            },
            REVERB_VOLUME_LEFT => {
                self.state.reverb_volume_left = value;
            },
            REVERB_VOLUME_RIGHT => {
                self.state.reverb_volume_right = value;
            },
            KEY_ON_LOW => self.key_on(u32::from(value)),
            KEY_ON_HIGH => self.key_on(high),
            KEY_OFF_LOW => self.key_off(u32::from(value)),
            KEY_OFF_HIGH => self.key_off(high),
            PITCH_MOD_LOW => {
                self.state.pitch_mod_mask = set_low_half(self.state.pitch_mod_mask, value);
            },
            PITCH_MOD_HIGH => {
                self.state.pitch_mod_mask = set_high_half(self.state.pitch_mod_mask, value);
            },
            NOISE_LOW => {
                self.state.noise_mask = set_low_half(self.state.noise_mask, value);
            },
            NOISE_HIGH => {
                self.state.noise_mask = set_high_half(self.state.noise_mask, value);
            },
            REVERB_ON_LOW => {
                self.state.reverb_mask = set_low_half(self.state.reverb_mask, value);
            },
            REVERB_ON_HIGH => {
                self.state.reverb_mask = set_high_half(self.state.reverb_mask, value);
            },
            ENDX_LOW => {
                self.state.endx = self.state.endx & !u32::from(value);
            },
            ENDX_HIGH => {
                self.state.endx = self.state.endx & !high;
            },
            UNKNOWN_DA0 => {
                self.state.unknown_da0 = value;
            },
            REVERB_BASE => {
                self.state.reverb_base = value;
                self.state.reverb.set_base(value);
            },
            IRQ_ADDRESS => {
                self.state.irq_address = value;
            },
            TRANSFER_ADDRESS => {
                self.state.transfer_address = value as usize * 8;
            },
            TRANSFER_FIFO => self.write_transfer_halfword(value),
            CONTROL => {
                self.state.control = value;
                if value & CONTROL_IRQ_ENABLE == 0 {
                    self.state.status = self.state.status & !STATUS_IRQ;
                    self.state.irq_request = false;
                }
            },
            TRANSFER_CONTROL => {
                self.state.transfer_control = value;
            },
            CD_VOLUME_LEFT => {
                self.state.cd_volume_left = value;
            },
            CD_VOLUME_RIGHT => {
                self.state.cd_volume_right = value;
            },
            EXTERNAL_VOLUME_LEFT => {
                self.state.external_volume_left = value;
            },
            EXTERNAL_VOLUME_RIGHT => {
                self.state.external_volume_right = value;
            },
            UNKNOWN_DBC => {
                self.state.unknown_dbc = value;
            },
            UNKNOWN_DBE => {
                self.state.unknown_dbe = value;
            },
            _ => {},
        }
        Ok(())
    }

    fn write_voice_register(&mut self, address: u32, value: u16)
        requires
            old(self).wf(),
            is_register(address),
            address < VOICE_REGISTER_END,
        ensures
            final(self).wf(),
            final(self).state == old(self).state.written(address, value),
            final(self).ram@ == old(self).ram@,
    {
        let (index, register) = decode_voice_register(address);
        let mut voice: Voice = self.state.voices[index];
        match register {
            0 => {
                voice.volume_left = value;
            },
            2 => {
                voice.volume_right = value;
            },
            4 => {
                voice.pitch = if value > 0x3fff {
                    0x3fff
                } else {
                    value
                };
            },
            6 => {
                voice.start_address = value;
            },
            8 => {
                voice.adsr_low = value;
            },
            10 => {
                voice.adsr_high = value;
            },
            12 => {},
            _ => {
                voice.repeat_address = value;
            },
        }
        self.state.voices[index] = voice;
    }

    /// Delivers one latched SPU interrupt request to a machine sink.
    pub fn drain_irq<S: InterruptSink>(&mut self, sink: &mut S) -> (result: bool)
        requires
            old(self).wf(),
        ensures
            final(self).wf(),
            result == old(self).state.irq_request,
            final(self).ram@ == old(self).ram@,
            final(self).state == (SpuState { irq_request: false, ..old(self).state }),
            if old(self).state.irq_request {
                S::requested(*old(sink), InterruptSource::Spu, *final(sink))
            } else {
                *final(sink) == *old(sink)
            },
    {
        if !self.state.irq_request {
            return false;
        }
        self.state.irq_request = false;
        sink.request(InterruptSource::Spu);
        true
    }

    /// Renders interleaved signed 16-bit stereo frames at [`SAMPLE_RATE`].
    ///
    /// A buffer that does not hold exactly the frames is an error and nothing is
    /// rendered. An undefined voice block header ends rendering at its frame.
    pub fn render(&mut self, frames: usize, output: &mut [i16]) -> (result: Result<(), SpuError>)
        requires
            old(self).wf(),
        ensures
            final(self).wf(),
            if frames * 2 != old(output)@.len() {
                &&& result == Err::<(), SpuError>(
                    SpuError::OutputSize {
                        expected: if frames * 2 > usize::MAX {
                            usize::MAX
                        } else {
                            (frames * 2) as usize
                        },
                        actual: old(output)@.len() as usize,
                    },
                )
                &&& final(self).state == old(self).state
                &&& final(self).ram@ == old(self).ram@
                &&& final(output)@ == old(output)@
            } else {
                let rendering = old(self).state.rendering(old(self).ram@, frames as nat);
                &&& result == match rendering.failure {
                    None => Ok::<(), SpuError>(()),
                    Some(error) => Err(error),
                }
                &&& final(self).state == rendering.state
                &&& final(self).ram@ == rendering.ram
                &&& final(output)@ == rendering.samples + old(output)@.skip(
                    rendering.samples.len() as int,
                )
            },
    {
        let actual: usize = output.len();
        let expected: usize = match frames.checked_mul(2) {
            Some(expected) => expected,
            None => {
                return Err(SpuError::OutputSize { expected: usize::MAX, actual });
            },
        };
        if actual != expected {
            return Err(SpuError::OutputSize { expected, actual });
        }
        let ghost start = self.state;
        let ghost ram_start = self.ram@;
        let mut frame: usize = 0;
        proof {
            assert(output@ =~= start.rendering(ram_start, 0).samples + old(output)@.skip(0));
        }
        while frame < frames
            invariant
                frame <= frames,
                self.wf(),
                frames * 2 == expected,
                output@.len() == frames * 2,
                old(output)@.len() == frames * 2,
                start == old(self).state,
                ram_start == old(self).ram@,
                ({
                    let rendering = start.rendering(ram_start, frame as nat);
                    &&& rendering.failure is None
                    &&& rendering.state == self.state
                    &&& rendering.ram == self.ram@
                    &&& rendering.samples.len() == frame * 2
                    &&& output@ == rendering.samples + old(output)@.skip(frame * 2)
                }),
            decreases frames - frame,
        {
            let ghost before = start.rendering(ram_start, frame as nat);
            proof {
                assert(start.rendering(ram_start, (frame + 1) as nat) == before.next());
            }
            match self.render_frame() {
                Ok((left, right)) => {
                    output[frame * 2] = left;
                    output[frame * 2 + 1] = right;
                    proof {
                        assert(output@ =~= before.samples.push(left).push(right) + old(
                            output,
                        )@.skip((frame + 1) * 2));
                    }
                },
                Err(error) => {
                    proof {
                        lemma_failure_stays(
                            start,
                            ram_start,
                            (frame + 1) as nat,
                            frames as nat,
                        );
                    }
                    return Err(error);
                },
            }
            frame += 1;
        }
        Ok(())
    }

    fn render_frame(&mut self) -> (result: Result<(i16, i16), SpuError>)
        requires
            old(self).wf(),
        ensures
            final(self).wf(),
            ({
                let framed = old(self).state.framed(old(self).ram@);
                &&& final(self).state == framed.0
                &&& final(self).ram@ == framed.1
                &&& result == framed.2
            }),
    {
        proof {
            reveal(SpuState::framed);
        }
        if self.state.control & CONTROL_ENABLE == 0 {
            return Ok((0, 0));
        }
        let ghost start = self.state;
        let mut left: i64 = 0;
        let mut right: i64 = 0;
        let mut reverb_left: i64 = 0;
        let mut reverb_right: i64 = 0;
        let mut previous: i16 = 0;
        let mut index: usize = 0;
        while index < VOICE_COUNT
            invariant
                index <= 24,
                self.wf(),
                self.ram@ == old(self).ram@,
                start == old(self).state,
                start.control & CONTROL_ENABLE != 0,
                -0x8000 * index <= left <= 0x8000 * index,
                -0x8000 * index <= right <= 0x8000 * index,
                -0x8000 * index <= reverb_left <= 0x8000 * index,
                -0x8000 * index <= reverb_right <= 0x8000 * index,
                start.mixed(self.ram@, index as nat) == (Mix {
                    state: self.state,
                    left: left as int,
                    right: right as int,
                    reverb_left: reverb_left as int,
                    reverb_right: reverb_right as int,
                    previous,
                    failure: None,
                }),
            decreases 24 - index,
        {
            let ghost before = start.mixed(self.ram@, index as nat);
            proof {
                assert(start.mixed(self.ram@, (index + 1) as nat) == before.with_voice(
                    self.ram@,
                    index as int,
                ));
            }
            match self.mix_voice(index, previous) {
                Ok((dry, voice_left, voice_right, sends)) => {
                    previous = dry;
                    left += i64::from(voice_left);
                    right += i64::from(voice_right);
                    if sends {
                        reverb_left += i64::from(voice_left);
                        reverb_right += i64::from(voice_right);
                    }
                },
                Err(error) => {
                    proof {
                        reveal(SpuState::framed);
                        lemma_mix_failure_stays(start, self.ram@, (index + 1) as nat, 24);
                    }
                    return Err(error);
                },
            }
            index += 1;
        }
        let ghost mix = start.mixed(self.ram@, 24);
        let writes_enabled = self.state.control & CONTROL_REVERB_ENABLE != 0;
        let send = (clamp_i64_to_i16(reverb_left), clamp_i64_to_i16(reverb_right));
        let wet = self.state.reverb.process(
            &mut self.ram,
            self.state.reverb_base,
            &self.state.reverb_registers,
            writes_enabled,
            send,
        );
        left += i64::from(apply_signed_volume(wet.0, self.state.reverb_volume_left));
        right += i64::from(apply_signed_volume(wet.1, self.state.reverb_volume_right));
        Ok(
            (
                apply_volume(clamp_i64_to_i16(left), self.state.main_volume_left),
                apply_volume(clamp_i64_to_i16(right), self.state.main_volume_right),
            ),
        )
    }

    /// Runs one voice for a frame: its dry output, its stereo contribution, and
    /// whether it goes to the reverb.
    fn mix_voice(&mut self, index: usize, previous: i16) -> (result: Result<
        (i16, i16, i16, bool),
        SpuError,
    >)
        requires
            old(self).wf(),
            index < 24,
        ensures
            final(self).wf(),
            final(self).ram@ == old(self).ram@,
            forall|mix: Mix|
                mix.state == old(self).state && mix.previous == previous && mix.failure is None
                    ==> #[trigger] mix.with_voice(old(self).ram@, index as int) == (match result {
                    Ok((dry, left, right, sends)) => Mix {
                        state: final(self).state,
                        left: mix.left + left,
                        right: mix.right + right,
                        reverb_left: mix.reverb_left + if sends {
                            left as int
                        } else {
                            0
                        },
                        reverb_right: mix.reverb_right + if sends {
                            right as int
                        } else {
                            0
                        },
                        previous: dry,
                        failure: None,
                    },
                    Err(error) => Mix {
                        state: final(self).state,
                        failure: Some(error),
                        ..mix
                    },
                }),
    {
        proof {
            reveal(Mix::with_voice);
        }
        let bit: u32 = 1u32 << (index as u32);
        let mut voice: Voice = self.state.voices[index];
        let pitch: u16 = if index != 0 && self.state.pitch_mod_mask & bit != 0 {
            modulated_pitch(voice.pitch, previous)
        } else {
            voice.pitch
        };
        let noise: Option<i16> = if self.state.noise_mask & bit != 0 {
            Some(self.state.noise.step())
        } else {
            None
        };
        let outcome = voice.render(&self.ram, pitch, noise);
        self.state.voices[index] = voice;
        let output = match outcome {
            Ok(output) => output,
            Err((address, source)) => {
                return Err(SpuError::Adpcm { voice: index, address, source });
            },
        };
        if let Some(address) = output.fetched {
            self.check_irq_fetch(address);
        }
        if output.loop_end {
            self.state.endx = self.state.endx | bit;
        }
        let left: i16 = apply_volume(output.dry, voice.volume_left);
        let right: i16 = apply_volume(output.dry, voice.volume_right);
        Ok((output.dry, left, right, self.state.reverb_mask & bit != 0))
    }

    fn key_on(&mut self, mask: u32)
        requires
            old(self).wf(),
        ensures
            final(self).wf(),
            final(self).state == old(self).state.keyed_on(mask),
            final(self).ram@ == old(self).ram@,
    {
        let ghost keyed = Seq::new(
            24,
            |i: int|
                if selected(mask, i) {
                    self.state.voices@[i].keyed_on()
                } else {
                    self.state.voices@[i]
                },
        );
        let mut index: usize = 0;
        proof {
            lemma_endx_start(self.state.endx, mask);
        }
        while index < VOICE_COUNT
            invariant
                index <= 24,
                self.wf(),
                self.ram@ == old(self).ram@,
                old(self).wf(),
                keyed == Seq::new(
                    24,
                    |i: int|
                        if selected(mask, i) {
                            old(self).state.voices@[i].keyed_on()
                        } else {
                            old(self).state.voices@[i]
                        },
                ),
                self.state == (SpuState {
                    voices: self.state.voices,
                    endx: self.state.endx,
                    ..old(self).state
                }),
                self.state.endx == old(self).state.endx & !(mask & !(0xffff_ffffu32
                    << (index as u32))),
                forall|i: int| 0 <= i < index ==> #[trigger] self.state.voices@[i] == keyed[i],
                forall|i: int|
                    index <= i < 24 ==> #[trigger] self.state.voices@[i]
                        == old(self).state.voices@[i],
            decreases 24 - index,
        {
            let bit: u32 = 1u32 << (index as u32);
            proof {
                lemma_endx_step(old(self).state.endx, mask, index as u32, (index + 1) as u32);
            }
            if mask & bit != 0 {
                let mut voice: Voice = self.state.voices[index];
                voice.key_on();
                self.state.voices[index] = voice;
                self.state.endx = self.state.endx & !bit;
            }
            index += 1;
        }
        proof {
            assert(self.state.voices@ =~= keyed);
            lemma_array_is(self.state.voices, keyed);
            lemma_endx_end(old(self).state.endx, mask);
            reveal(SpuState::keyed_on);
        }
    }

    fn key_off(&mut self, mask: u32)
        requires
            old(self).wf(),
        ensures
            final(self).wf(),
            final(self).state == old(self).state.keyed_off(mask),
            final(self).ram@ == old(self).ram@,
    {
        let ghost keyed = Seq::new(
            24,
            |i: int|
                if selected(mask, i) {
                    self.state.voices@[i].keyed_off()
                } else {
                    self.state.voices@[i]
                },
        );
        let mut index: usize = 0;
        while index < VOICE_COUNT
            invariant
                index <= 24,
                self.wf(),
                self.ram@ == old(self).ram@,
                old(self).wf(),
                keyed == Seq::new(
                    24,
                    |i: int|
                        if selected(mask, i) {
                            old(self).state.voices@[i].keyed_off()
                        } else {
                            old(self).state.voices@[i]
                        },
                ),
                self.state == (SpuState { voices: self.state.voices, ..old(self).state }),
                forall|i: int| 0 <= i < index ==> #[trigger] self.state.voices@[i] == keyed[i],
                forall|i: int|
                    index <= i < 24 ==> #[trigger] self.state.voices@[i]
                        == old(self).state.voices@[i],
            decreases 24 - index,
        {
            if mask & (1u32 << (index as u32)) != 0 {
                let mut voice: Voice = self.state.voices[index];
                voice.key_off();
                self.state.voices[index] = voice;
            }
            index += 1;
        }
        proof {
            assert(self.state.voices@ =~= keyed);
            lemma_array_is(self.state.voices, keyed);
            reveal(SpuState::keyed_off);
        }
    }

    fn write_transfer_halfword(&mut self, value: u16)
        requires
            old(self).wf(),
        ensures
            final(self).wf(),
            final(self).state == old(self).state.transferred(),
            final(self).ram@ == with_half(
                old(self).ram@,
                old(self).state.transfer_address as int,
                value,
            ),
    {
        let address: usize = self.state.transfer_address;
        self.check_irq_address(address);
        write_half(&mut self.ram, address, value);
        self.state.transfer_address = (address + 2) % SOUND_RAM_SIZE;
    }

    fn read_transfer_halfword(&mut self) -> (result: u16)
        requires
            old(self).wf(),
        ensures
            final(self).wf(),
            final(self).state == old(self).state.transferred(),
            final(self).ram@ == old(self).ram@,
            result == crate::bytes::half_at(
                old(self).ram@,
                old(self).state.transfer_address as int,
            ),
    {
        let address: usize = self.state.transfer_address;
        self.check_irq_address(address);
        let value: u16 = read_half(self.ram.as_slice(), address);
        self.state.transfer_address = (address + 2) % SOUND_RAM_SIZE;
        value
    }

    fn check_irq_fetch(&mut self, address: usize)
        requires
            old(self).wf(),
            address < SOUND_RAM_SIZE,
        ensures
            final(self).wf(),
            final(self).state == old(self).state.block_touched(address as int),
            final(self).ram@ == old(self).ram@,
    {
        self.check_irq_address(address);
        self.check_irq_address((address + 8) % SOUND_RAM_SIZE);
    }

    fn check_irq_address(&mut self, address: usize)
        requires
            old(self).wf(),
            address < SOUND_RAM_SIZE,
        ensures
            final(self).wf(),
            final(self).state == old(self).state.touched(address as int),
            final(self).ram@ == old(self).ram@,
    {
        if self.state.control & CONTROL_IRQ_ENABLE != 0 && address / 8
            == self.state.irq_address as usize {
            self.state.status = self.state.status | STATUS_IRQ;
            self.state.irq_request = true;
        }
    }
}

fn ensure_register(address: u32) -> (result: Result<(), SpuError>)
    ensures
        result == if is_register(address) {
            Ok(())
        } else {
            Err(SpuError::InvalidRegister { address })
        },
{
    if address < SPU_BASE || address > SPU_END || address % 2 != 0 {
        return Err(SpuError::InvalidRegister { address });
    }
    Ok(())
}

fn decode_voice_register(address: u32) -> (result: (usize, u32))
    requires
        is_register(address),
        address < VOICE_REGISTER_END,
    ensures
        result.0 == (address - SPU_BASE) / 16,
        result.0 < 24,
        result.1 == (address - SPU_BASE) as u32 % 16,
{
    let relative: u32 = address - SPU_BASE;
    ((relative / 16) as usize, relative % 16)
}

fn reverb_index(address: u32) -> (result: usize)
    requires
        is_register(address),
        address >= REVERB_REGISTERS_START,
    ensures
        result == (address - REVERB_REGISTERS_START) / 2,
        result < 32,
{
    ((address - REVERB_REGISTERS_START) / 2) as usize
}

fn set_low_half(target: u32, value: u16) -> (result: u32)
    ensures
        result == with_low(target, value),
{
    join_halves(value, halves(target).1)
}

fn set_high_half(target: u32, value: u16) -> (result: u32)
    ensures
        result == with_high(target, value),
{
    join_halves(halves(target).0, value)
}

proof fn lemma_mix_failure_stays(state: SpuState, ram: Seq<u8>, early: nat, late: nat)
    requires
        early <= late,
        state.mixed(ram, early).failure is Some,
    ensures
        state.mixed(ram, late) == state.mixed(ram, early),
    decreases late - early,
{
    reveal(Mix::with_voice);
    if early < late {
        lemma_mix_failure_stays(state, ram, early, (late - 1) as nat);
    }
}

proof fn lemma_failure_stays(state: SpuState, ram: Seq<u8>, early: nat, late: nat)
    requires
        early <= late,
        state.rendering(ram, early).failure is Some,
    ensures
        state.rendering(ram, late) == state.rendering(ram, early),
    decreases late - early,
{
    if early < late {
        lemma_failure_stays(state, ram, early, (late - 1) as nat);
    }
}

impl SoundDmaEndpoint for Spu {
    open spec fn valid(self) -> bool {
        self.wf()
    }

    open spec fn accepted(
        before: Self,
        value: u32,
        result: Result<(), EndpointError>,
        after: Self,
    ) -> bool {
        let first = before.state.transfer_address as int;
        let second = before.state.transferred().transfer_address as int;
        &&& result == Ok::<(), EndpointError>(())
        &&& after.state == before.state.transferred().transferred()
        &&& after.ram@ == with_half(
            with_half(before.ram@, first, low_half(value)),
            second,
            high_half(value),
        )
    }

    open spec fn supplied(before: Self, result: Result<u32, EndpointError>, after: Self) -> bool {
        let first = before.state.transfer_address as int;
        let second = before.state.transferred().transfer_address as int;
        &&& result == Ok::<u32, EndpointError>(
            word_of(
                crate::bytes::half_at(before.ram@, first),
                crate::bytes::half_at(before.ram@, second),
            ),
        )
        &&& after.state == before.state.transferred().transferred()
        &&& after.ram@ == before.ram@
    }

    fn write_word(&mut self, value: u32) -> (result: Result<(), EndpointError>) {
        let (low, high) = halves(value);
        self.write_transfer_halfword(low);
        self.write_transfer_halfword(high);
        Ok(())
    }

    fn read_word(&mut self) -> (result: Result<u32, EndpointError>) {
        let low: u16 = self.read_transfer_halfword();
        let high: u16 = self.read_transfer_halfword();
        Ok(join_halves(low, high))
    }
}

/// Rendering in two chunks is rendering once: the samples join and the second
/// chunk goes on where the first one ended.
pub proof fn law_render_is_chunk_independent(
    state: SpuState,
    ram: Seq<u8>,
    first: nat,
    second: nat,
)
    requires
        state.rendering(ram, first).failure is None,
    ensures
        ({
            let begun = state.rendering(ram, first);
            let rest = begun.state.rendering(begun.ram, second);
            state.rendering(ram, first + second) == (Rendering {
                state: rest.state,
                ram: rest.ram,
                samples: begun.samples + rest.samples,
                failure: rest.failure,
            })
        }),
    decreases second,
{
    let begun = state.rendering(ram, first);
    if second == 0 {
        assert(begun.samples + Seq::<i16>::empty() =~= begun.samples);
    } else {
        let shorter = (second - 1) as nat;
        law_render_is_chunk_independent(state, ram, first, shorter);
        let rest = begun.state.rendering(begun.ram, shorter);
        let whole = state.rendering(ram, first + shorter);
        assert(state.rendering(ram, first + second) == whole.next());
        assert(begun.state.rendering(begun.ram, second) == rest.next());
        let (next_state, next_ram, frame) = rest.state.framed(rest.ram);
        if rest.failure is None {
            if let Ok((left, right)) = frame {
                assert((begun.samples + rest.samples).push(left).push(right) =~= begun.samples
                    + rest.samples.push(left).push(right));
            }
        }
    }
}

/// Registers that hold what is written to them.
pub open spec fn is_plain(address: u32) -> bool {
    is_register(address) && if address < VOICE_REGISTER_END {
        (address - SPU_BASE) % 16 != 12 && (address - SPU_BASE) % 16 != 4
    } else {
        match address {
            KEY_ON_LOW | KEY_ON_HIGH | KEY_OFF_LOW | KEY_OFF_HIGH | ENDX_LOW | ENDX_HIGH
            | TRANSFER_FIFO | STATUS | CURRENT_MAIN_VOLUME_LEFT | CURRENT_MAIN_VOLUME_RIGHT =>
                false,
            _ => true,
        }
    }
}

/// A plain register reads back as it was written.
#[verifier::rlimit(60)]
pub proof fn law_plain_register_reads_back(state: SpuState, address: u32, value: u16)
    requires
        is_plain(address),
    ensures
        state.written(address, value).value_at(address) == Ok::<u16, SpuError>(value),
{
}

/// A word that is moved through the transfer port is read back from the same
/// place, also where the address wraps around the end of sound RAM.
pub proof fn law_transfer_reads_back(
    before: Spu,
    value: u32,
    written: Spu,
    rewound: Spu,
    result: Result<u32, EndpointError>,
    after: Spu,
)
    requires
        before.wf(),
        Spu::accepted(before, value, Ok(()), written),
        rewound.ram@ == written.ram@,
        rewound.state.transfer_address == before.state.transfer_address,
        Spu::supplied(rewound, result, after),
    ensures
        result == Ok::<u32, EndpointError>(value),
{
    let first = before.state.transfer_address as int;
    let second = before.state.transferred().transfer_address as int;
    let once = with_half(before.ram@, first, low_half(value));
    crate::bytes::law_half_round_trip(before.ram@, first, low_half(value));
    crate::bytes::law_half_round_trip(once, second, high_half(value));
    assert(crate::bytes::half_at(written.ram@, first) == low_half(value));
}

/// The parts of the state that voices do not change.
pub open spec fn same_settings(left: SpuState, right: SpuState) -> bool {
    &&& left.control == right.control
    &&& left.reverb == right.reverb
    &&& left.reverb_base == right.reverb_base
    &&& left.reverb_registers == right.reverb_registers
}

proof fn lemma_mixing_keeps_settings(state: SpuState, ram: Seq<u8>, count: nat)
    ensures
        same_settings(state.mixed(ram, count).state, state),
    decreases count,
{
    reveal(Mix::with_voice);
    if count > 0 {
        lemma_mixing_keeps_settings(state, ram, (count - 1) as nat);
    }
}

/// A frame changes sound RAM only inside the reverb work area, and not at all
/// while reverb writes are disabled or the unit is switched off.
pub proof fn law_frame_changes_only_reverb_area(state: SpuState, ram: Seq<u8>)
    requires
        state.wf(),
        ram.len() == SOUND_RAM_SIZE,
    ensures
        changed_inside(
            work_area(state.reverb.current_address, state.reverb_base),
            ram,
            state.framed(ram).1,
        ),
        state.control & CONTROL_REVERB_ENABLE == 0 || state.control & CONTROL_ENABLE == 0
            ==> state.framed(ram).1 == ram,
{
    reveal(SpuState::framed);
    let mix = state.mixed(ram, 24);
    lemma_mixing_keeps_settings(state, ram, 24);
    law_reverb_stays_in_area(
        state.reverb,
        ram,
        state.reverb_base,
        state.reverb_registers,
        state.control & CONTROL_REVERB_ENABLE != 0,
        (clamp16(mix.reverb_left) as i16, clamp16(mix.reverb_right) as i16),
    );
}

/// The interrupt is raised only by an access to its address while it is enabled,
/// and disabling it acknowledges it.
pub proof fn law_interrupt_needs_its_address(state: SpuState, address: int, value: u16)
    ensures
        state.touched(address).irq_request && !state.irq_request ==> address / 8
            == state.irq_address && state.control & CONTROL_IRQ_ENABLE != 0,
        value & CONTROL_IRQ_ENABLE == 0 ==> !state.controlled(value).irq_request,
{
}

} // verus!
