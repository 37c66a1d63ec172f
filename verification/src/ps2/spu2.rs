//! Standalone, instance-owned PS2 sound processing unit.

use vstd::prelude::*;

use crate::arrays::with;
use crate::bits::{from_i16, unsigned16};
use crate::bytes::{
    half_at, halves, high_half, join_halves, law_half_round_trip, low_half, with_bytes, word_of,
    write_bytes, zeroed,
};
use crate::ps2::dma::{
    register_fault, EndpointError, SoundDmaChannel, Spu2DmaEndpoint, Spu2MmioEndpoint,
};
use crate::ps2::effects::{normalized, Effects};
use crate::ps2::irq::{InterruptSink, InterruptSource};
use crate::ps2::sound_core::{Core, VoiceFault};
use crate::ps2::voice::Voice;
use crate::spu_common::adpcm::AdpcmError;
use crate::spu_common::fixed::{clamp16, clamp_i16};
use crate::spu_common::mixer::{direct_level, direct_volume};
use crate::text::{
    address_text, decimal_text, hex_text, push_address, push_decimal, push_hex, push_short_address,
    short_address_text,
};

pub use crate::ps2::effects::SOUND_RAM_SIZE;
pub use crate::ps2::sound_core::{
    CoreInput, StereoFrame, CORE_ATTR_EFFECT_ENABLE, CORE_ATTR_ENABLE, CORE_ATTR_EXTERNAL_ENABLE,
    CORE_ATTR_IRQ_ENABLE, CORE_ATTR_UNMUTE, MMIX_INPUT_A_DRY_LEFT, MMIX_INPUT_A_DRY_RIGHT,
    MMIX_INPUT_A_EFFECT_LEFT, MMIX_INPUT_A_EFFECT_RIGHT, MMIX_INPUT_B_DRY_LEFT,
    MMIX_INPUT_B_DRY_RIGHT, MMIX_INPUT_B_EFFECT_LEFT, MMIX_INPUT_B_EFFECT_RIGHT,
    MMIX_VOICE_DRY_LEFT, MMIX_VOICE_DRY_RIGHT, MMIX_VOICE_EFFECT_LEFT, MMIX_VOICE_EFFECT_RIGHT,
    VOICES_PER_CORE,
};

verus! {

/// Number of hardware cores.
pub const CORE_COUNT: usize = 2;

/// Native signed-integer output rate.
pub const SAMPLE_RATE: u32 = 48_000;

/// First physical SPU2 register address.
pub const SPU2_BASE: u32 = 0x1f90_0000;

/// Final physical SPU2 register address, inclusive.
pub const SPU2_END: u32 = 0x1f90_07ff;

/// Bytes of registers of a core.
pub const CORE_STRIDE: u32 = 0x400;

/// First offset after the voice parameter registers of a core.
pub const VOICE_PARAMETER_END: u32 = 0x180;

/// Bytes of parameter registers of a voice.
pub const VOICE_STRIDE: u32 = 0x10;

/// First voice address register of a core.
pub const VOICE_ADDRESS_BASE: u32 = 0x1c0;

/// Bytes of address registers of a voice.
pub const VOICE_ADDRESS_STRIDE: u32 = 0x0c;

/// First offset after the voice address registers of a core.
pub const VOICE_ADDRESS_END: u32 = 0x2e0;

/// First primary-output register.
pub const PRIMARY_BASE: u32 = 0x760;

/// Bytes of primary-output registers of a core.
pub const PRIMARY_STRIDE: u32 = 0x28;

/// Interrupt information register.
pub const IRQ_INFO: u32 = 0x7c2;

/// Pitch modulation of voices 0 to 15.
pub const PMON_HIGH: u32 = 0x180;

/// Pitch modulation of voices 16 to 23.
pub const PMON_LOW: u32 = 0x182;

/// Noise of voices 0 to 15.
pub const NON_HIGH: u32 = 0x184;

/// Noise of voices 16 to 23.
pub const NON_LOW: u32 = 0x186;

/// Dry left mix of voices 0 to 15.
pub const VMIXL_HIGH: u32 = 0x188;

/// Dry left mix of voices 16 to 23.
pub const VMIXL_LOW: u32 = 0x18a;

/// Effect left mix of voices 0 to 15.
pub const VMIXEL_HIGH: u32 = 0x18c;

/// Effect left mix of voices 16 to 23.
pub const VMIXEL_LOW: u32 = 0x18e;

/// Dry right mix of voices 0 to 15.
pub const VMIXR_HIGH: u32 = 0x190;

/// Dry right mix of voices 16 to 23.
pub const VMIXR_LOW: u32 = 0x192;

/// Effect right mix of voices 0 to 15.
pub const VMIXER_HIGH: u32 = 0x194;

/// Effect right mix of voices 16 to 23.
pub const VMIXER_LOW: u32 = 0x196;

/// Mixer routes.
pub const MMIX: u32 = 0x198;

/// Core attributes.
pub const CORE_ATTR: u32 = 0x19a;

/// Interrupt address, high part.
pub const IRQA_HIGH: u32 = 0x19c;

/// Interrupt address, low part.
pub const IRQA_LOW: u32 = 0x19e;

/// Key-on of voices 0 to 15.
pub const KEY_ON_HIGH: u32 = 0x1a0;

/// Key-on of voices 16 to 23.
pub const KEY_ON_LOW: u32 = 0x1a2;

/// Key-off of voices 0 to 15.
pub const KEY_OFF_HIGH: u32 = 0x1a4;

/// Key-off of voices 16 to 23.
pub const KEY_OFF_LOW: u32 = 0x1a6;

/// Transfer start address, high part.
pub const TSA_HIGH: u32 = 0x1a8;

/// Transfer start address, low part.
pub const TSA_LOW: u32 = 0x1aa;

/// Transfer data port.
pub const TRANSFER_DATA: u32 = 0x1ac;

/// Effects work area start, high part.
pub const EFFECT_START_HIGH: u32 = 0x2e0;

/// Effects work area start, low part.
pub const EFFECT_START_LOW: u32 = 0x2e2;

/// First effect tap register.
pub const EFFECT_ADDRESS_FIRST: u32 = 0x2e4;

/// Last effect tap register.
pub const EFFECT_ADDRESS_LAST: u32 = 0x33a;

/// Effects work area end, high part.
pub const EFFECT_END_HIGH: u32 = 0x33c;

/// Effects work area end, low part.
pub const EFFECT_END_LOW: u32 = 0x33e;

/// End markers of voices 0 to 15.
pub const ENDX_HIGH: u32 = 0x340;

/// End markers of voices 16 to 23.
pub const ENDX_LOW: u32 = 0x342;

/// Core status.
pub const STATUS: u32 = 0x344;

/// First effect coefficient among the primary-output registers of a core.
pub const COEFFICIENT_FIRST: u32 = 0x14;

/// Interrupt information bit of core 0.
pub const IRQ_INFO_CORE0: u16 = 0x4;

/// Interrupt information bit of core 1.
pub const IRQ_INFO_CORE1: u16 = 0x8;

/// Per-core and final output from one time-driven SPU2 step.
#[derive(Clone, Copy, Debug, Default, PartialEq, Eq)]
pub struct RenderedFrame {
    /// Output produced independently by cores 0 and 1.
    pub cores: [StereoFrame; 2],
    /// Hardware final output, taken after core 0 is routed through core 1.
    pub final_output: StereoFrame,
}

/// Invalid register, buffer, RAM, or ADPCM operation.
#[derive(Clone, Copy, Debug, PartialEq, Eq, Structural)]
pub enum Spu2Error {
    /// Address is not an aligned SPU2 register.
    InvalidRegister {
        /// Physical register address.
        address: u32,
    },
    /// Host access left the shared 2 MiB sound RAM.
    RamRange {
        /// First byte offset.
        offset: usize,
        /// Byte count.
        size: usize,
    },
    /// Interleaved stereo output length does not match the requested frames.
    OutputSize {
        /// Required sample count.
        expected: usize,
        /// Supplied sample count.
        actual: usize,
    },
    /// Per-frame input length does not match the requested frames.
    InputSize {
        /// Required frame count.
        expected: usize,
        /// Supplied frame count.
        actual: usize,
    },
    /// A voice encountered an undefined ADPCM header.
    Adpcm {
        /// Sound core.
        core: usize,
        /// Voice within the core.
        voice: usize,
        /// Sound-RAM block address.
        address: usize,
        /// Decoder failure.
        source: AdpcmError,
    },
}

/// The text of a decoder failure.
pub open spec fn adpcm_text(error: AdpcmError) -> Seq<char> {
    match error {
        AdpcmError::InvalidShift { shift } => "invalid PlayStation ADPCM shift "@ + decimal_text(
            shift as nat,
        ),
        AdpcmError::InvalidFilter { filter } => "invalid PlayStation ADPCM filter "@
            + decimal_text(filter as nat),
    }
}

impl Spu2Error {
    /// The diagnostic text.
    pub open spec fn text(self) -> Seq<char> {
        match self {
            Spu2Error::InvalidRegister { address } => "invalid SPU2 register address "@
                + address_text(address),
            Spu2Error::RamRange { offset, size } => "SPU2 sound-RAM range "@ + hex_text(
                offset as nat,
            ) + "..+"@ + hex_text(size as nat) + " is out of bounds"@,
            Spu2Error::OutputSize { expected, actual } => "SPU2 output has "@ + decimal_text(
                actual as nat,
            ) + " samples, expected "@ + decimal_text(expected as nat),
            Spu2Error::InputSize { expected, actual } => "SPU2 input has "@ + decimal_text(
                actual as nat,
            ) + " frames, expected "@ + decimal_text(expected as nat),
            Spu2Error::Adpcm { core, voice, address, source } => "SPU2 core "@ + decimal_text(
                core as nat,
            ) + " voice "@ + decimal_text(voice as nat) + " ADPCM failure at "@
                + short_address_text(address as nat) + ": "@ + adpcm_text(source),
        }
    }

    /// Returns the diagnostic text.
    pub fn message(&self) -> (result: String)
        ensures
            result@ == self.text(),
    {
        match self {
            Spu2Error::InvalidRegister { address } => {
                let mut text = String::from_str("invalid SPU2 register address ");
                push_address(&mut text, *address);
                text
            },
            Spu2Error::RamRange { offset, size } => {
                let mut text = String::from_str("SPU2 sound-RAM range ");
                push_hex(&mut text, *offset as u64);
                text.append("..+");
                push_hex(&mut text, *size as u64);
                text.append(" is out of bounds");
                text
            },
            Spu2Error::OutputSize { expected, actual } => {
                let mut text = String::from_str("SPU2 output has ");
                push_decimal(&mut text, *actual as u64);
                text.append(" samples, expected ");
                push_decimal(&mut text, *expected as u64);
                text
            },
            Spu2Error::InputSize { expected, actual } => {
                let mut text = String::from_str("SPU2 input has ");
                push_decimal(&mut text, *actual as u64);
                text.append(" frames, expected ");
                push_decimal(&mut text, *expected as u64);
                text
            },
            Spu2Error::Adpcm { core: core_index, voice, address, source } => {
                let mut text = String::from_str("SPU2 core ");
                push_decimal(&mut text, *core_index as u64);
                text.append(" voice ");
                push_decimal(&mut text, *voice as u64);
                text.append(" ADPCM failure at ");
                push_short_address(&mut text, *address as u64);
                text.append(": ");
                let ghost before = text@;
                match source {
                    AdpcmError::InvalidShift { shift } => {
                        text.append("invalid PlayStation ADPCM shift ");
                        push_decimal(&mut text, *shift as u64);
                    },
                    AdpcmError::InvalidFilter { filter } => {
                        text.append("invalid PlayStation ADPCM filter ");
                        push_decimal(&mut text, *filter as u64);
                    },
                }
                assert(text@ =~= before + adpcm_text(*source));
                text
            },
        }
    }
}

/// Registers and cores of the SPU2.
#[verifier::ext_equal]
#[derive(Clone, Copy, Debug, PartialEq, Eq)]
pub struct Spu2State {
    pub cores: [Core; 2],
    pub registers: [u16; 1024],
    pub irq_info: u16,
}

/// Standalone two-core SPU2.
#[derive(Clone, Debug, PartialEq, Eq)]
pub struct Spu2 {
    pub ram: Vec<u8>,
    pub state: Spu2State,
}

/// An aligned register address.
pub open spec fn is_register(address: u32) -> bool {
    SPU2_BASE <= address <= SPU2_END && address % 2 == 0
}

/// The core and the core-local offset of a register offset.
pub open spec fn core_register(offset: int) -> Option<(int, int)> {
    if offset < CORE_STRIDE {
        Some((0, offset))
    } else if offset < PRIMARY_BASE {
        Some((1, offset - CORE_STRIDE))
    } else {
        None
    }
}

/// The core and the local offset of a primary-output register offset.
pub open spec fn primary_register(offset: int) -> Option<(int, int)> {
    if PRIMARY_BASE <= offset < PRIMARY_BASE + PRIMARY_STRIDE {
        Some((0, offset - PRIMARY_BASE))
    } else if PRIMARY_BASE + PRIMARY_STRIDE <= offset < PRIMARY_BASE + 2 * PRIMARY_STRIDE {
        Some((1, offset - PRIMARY_BASE - PRIMARY_STRIDE))
    } else {
        None
    }
}

/// The voice and the local offset of a voice address register.
pub open spec fn voice_address_register(local: int) -> Option<(int, int)> {
    if VOICE_ADDRESS_BASE <= local < VOICE_ADDRESS_END {
        Some(((local - VOICE_ADDRESS_BASE) / 12, (local - VOICE_ADDRESS_BASE) % 12))
    } else {
        None
    }
}

/// The byte address of an address register pair, in sixteen-byte units.
pub open spec fn sound_address(high: u16, low: u16) -> u32 {
    ((high % 16) * 0x2_0000 + (low / 8) * 16) as u32
}

/// The tap register of a register pair.
pub open spec fn effect_offset(high: u16, low: u16) -> u32 {
    (high * 0x4000 + low / 4) as u32
}

/// The last byte of the effects work area that an end register selects.
pub open spec fn effect_end(high: u16) -> u32 {
    ((high % 16) * 0x2_0000 + 0x1_ffff) as u32
}

/// One part of an address as its register pair holds it.
pub open spec fn address_part(address: u32, high: bool) -> u16 {
    if high {
        (address / 0x2_0000) as u16
    } else {
        (((address / 16) % 0x2000) * 8) as u16
    }
}

/// A voice mask with the bits of voices 0 to 15 replaced.
pub open spec fn with_high_switches(mask: u32, value: u16) -> u32 {
    (((mask / 0x1_0000) % 0x100) * 0x1_0000 + value) as u32
}

/// A voice mask with the bits of voices 16 to 23 replaced.
pub open spec fn with_low_switches(mask: u32, value: u16) -> u32 {
    (mask % 0x1_0000 + (value % 0x100) * 0x1_0000) as u32
}

/// The bits of voices 16 to 23 in a mask.
pub open spec fn low_switches(value: u16) -> u32 {
    ((value % 0x100) * 0x1_0000) as u32
}

/// The interrupt information bit of a core.
pub open spec fn irq_bit(index: int) -> u16 {
    if index == 0 {
        IRQ_INFO_CORE0
    } else {
        IRQ_INFO_CORE1
    }
}

/// A voice parameter register as it reads.
pub open spec fn voice_parameter(voice: Voice, register: int) -> u16 {
    if register == 0 {
        voice.volume_left
    } else if register == 2 {
        voice.volume_right
    } else if register == 4 {
        voice.pitch
    } else if register == 6 {
        voice.adsr_low
    } else if register == 8 {
        voice.adsr_high
    } else if register == 10 {
        voice.envelope.level
    } else if register == 12 {
        unsigned16(direct_volume(voice.volume_left))
    } else {
        unsigned16(direct_volume(voice.volume_right))
    }
}

/// A voice address register as it reads.
pub open spec fn voice_address_value(voice: Voice, register: int) -> u16 {
    if register < 4 {
        address_part(voice.start_address, register == 0)
    } else if register < 8 {
        address_part(voice.repeat_address, register == 4)
    } else {
        address_part(voice.current_address as u32, register == 8)
    }
}

/// A voice after a write of one of its parameter registers.
pub open spec fn voice_parameter_written(voice: Voice, register: int, value: u16) -> Voice {
    if register == 0 {
        Voice { volume_left: value, ..voice }
    } else if register == 2 {
        Voice { volume_right: value, ..voice }
    } else if register == 4 {
        Voice {
            pitch: if value > 0x3fff {
                0x3fff
            } else {
                value
            },
            ..voice
        }
    } else if register == 6 {
        Voice { adsr_low: value, ..voice }
    } else if register == 8 {
        Voice { adsr_high: value, ..voice }
    } else {
        voice
    }
}

/// A core with one voice replaced.
pub open spec fn with_core_voice(state: Core, index: int, voice: Voice) -> Core {
    Core { voices: with(state.voices, index, voice), ..state }
}

/// A core after a write of one of its own registers; `pair` is the high and the low
/// part of the register pair that the register belongs to.
pub open spec fn core_written(state: Core, local: u32, value: u16, pair: (u16, u16)) -> Core {
    match local {
        PMON_HIGH => Core {
            pitch_mod_mask: with_high_switches(state.pitch_mod_mask, value),
            ..state
        },
        PMON_LOW => Core {
            pitch_mod_mask: with_low_switches(state.pitch_mod_mask, value),
            ..state
        },
        NON_HIGH => Core { noise_mask: with_high_switches(state.noise_mask, value), ..state },
        NON_LOW => Core { noise_mask: with_low_switches(state.noise_mask, value), ..state },
        VMIXL_HIGH => Core {
            voice_dry_left: with_high_switches(state.voice_dry_left, value),
            ..state
        },
        VMIXL_LOW => Core {
            voice_dry_left: with_low_switches(state.voice_dry_left, value),
            ..state
        },
        VMIXEL_HIGH => Core {
            voice_effect_left: with_high_switches(state.voice_effect_left, value),
            ..state
        },
        VMIXEL_LOW => Core {
            voice_effect_left: with_low_switches(state.voice_effect_left, value),
            ..state
        },
        VMIXR_HIGH => Core {
            voice_dry_right: with_high_switches(state.voice_dry_right, value),
            ..state
        },
        VMIXR_LOW => Core {
            voice_dry_right: with_low_switches(state.voice_dry_right, value),
            ..state
        },
        VMIXER_HIGH => Core {
            voice_effect_right: with_high_switches(state.voice_effect_right, value),
            ..state
        },
        VMIXER_LOW => Core {
            voice_effect_right: with_low_switches(state.voice_effect_right, value),
            ..state
        },
        MMIX => Core { mix: value & 0x0fff, ..state },
        CORE_ATTR => Core {
            attributes: value,
            irq_request: state.irq_request && value & CORE_ATTR_IRQ_ENABLE != 0,
            ..state
        },
        IRQA_HIGH | IRQA_LOW => Core { irq_address: sound_address(pair.0, pair.1), ..state },
        KEY_ON_HIGH => state.keyed_on(value as u32),
        KEY_ON_LOW => state.keyed_on(low_switches(value)),
        KEY_OFF_HIGH => state.keyed_off(value as u32),
        KEY_OFF_LOW => state.keyed_off(low_switches(value)),
        TSA_HIGH | TSA_LOW => Core { transfer_address: sound_address(pair.0, pair.1), ..state },
        TRANSFER_DATA => state.transferred(),
        EFFECT_START_HIGH | EFFECT_START_LOW => Core {
            effect_start: sound_address(pair.0, pair.1),
            effects: Effects { current: normalized(sound_address(pair.0, pair.1)) as usize },
            ..state
        },
        EFFECT_END_HIGH | EFFECT_END_LOW => Core { effect_end: effect_end(pair.0), ..state },
        ENDX_HIGH => Core { endx: state.endx & !(value as u32), ..state },
        ENDX_LOW => Core { endx: state.endx & !low_switches(value), ..state },
        _ => if EFFECT_ADDRESS_FIRST <= local <= EFFECT_ADDRESS_LAST {
            Core {
                effect_addresses: with(
                    state.effect_addresses,
                    (local - EFFECT_ADDRESS_FIRST) / 4,
                    effect_offset(pair.0, pair.1),
                ),
                ..state
            }
        } else {
            state
        },
    }
}

/// A core after a write of one of its primary-output registers.
pub open spec fn primary_written(state: Core, local: u32, value: u16) -> Core {
    match local {
        0x00 => Core { master_volume: (value, state.master_volume.1), ..state },
        0x02 => Core { master_volume: (state.master_volume.0, value), ..state },
        0x04 => Core { effect_volume: (value, state.effect_volume.1), ..state },
        0x06 => Core { effect_volume: (state.effect_volume.0, value), ..state },
        0x08 => Core { input_a_volume: (value, state.input_a_volume.1), ..state },
        0x0a => Core { input_a_volume: (state.input_a_volume.0, value), ..state },
        0x0c => Core { input_b_volume: (value, state.input_b_volume.1), ..state },
        0x0e => Core { input_b_volume: (state.input_b_volume.0, value), ..state },
        _ => if local >= COEFFICIENT_FIRST {
            Core {
                effect_coefficients: with(
                    state.effect_coefficients,
                    (local - COEFFICIENT_FIRST) / 2,
                    value,
                ),
                ..state
            }
        } else {
            state
        },
    }
}

/// What a number of frames produce.
#[verifier::ext_equal]
pub ghost struct Rendering {
    pub state: Spu2State,
    pub ram: Seq<u8>,
    /// Interleaved samples of the frames that were completed.
    pub samples: Seq<i16>,
    pub failure: Option<Spu2Error>,
}

/// The failure of a voice of a core.
pub open spec fn core_error(index: int, fault: VoiceFault) -> Spu2Error {
    Spu2Error::Adpcm {
        core: index as usize,
        voice: fault.voice,
        address: fault.address,
        source: fault.source,
    }
}

/// The input of core 1 with the output of core 0 on its input A.
pub open spec fn chained_input(input: CoreInput, output: StereoFrame) -> CoreInput {
    CoreInput {
        input_a: StereoFrame {
            left: clamp16(input.input_a.left + output.left) as i16,
            right: clamp16(input.input_a.right + output.right) as i16,
        },
        ..input
    }
}

/// No input.
pub open spec fn silence() -> [CoreInput; 2] {
    [
        CoreInput { input_a: StereoFrame::silent(), input_b: StereoFrame::silent() },
        CoreInput { input_a: StereoFrame::silent(), input_b: StereoFrame::silent() },
    ]
}

impl Spu2State {
    /// Both cores are valid.
    pub open spec fn wf(self) -> bool {
        self.cores@[0].wf() && self.cores@[1].wf()
    }

    /// Reset state.
    pub open spec fn at_reset(self) -> bool {
        &&& self.cores@[0].at_reset()
        &&& self.cores@[1].at_reset()
        &&& forall|i: int| 0 <= i < 1024 ==> #[trigger] self.registers@[i] == 0
        &&& self.irq_info == 0
    }

    /// The state with one core replaced.
    pub open spec fn with_core(self, index: int, state: Core) -> Spu2State {
        Spu2State { cores: with(self.cores, index, state), ..self }
    }

    /// What a register reads as.
    pub open spec fn value_at(self, address: u32) -> Result<u16, Spu2Error> {
        let offset = address - SPU2_BASE;
        let raw = self.registers@[offset / 2];
        if !is_register(address) {
            Err(Spu2Error::InvalidRegister { address })
        } else if offset == IRQ_INFO {
            Ok(self.irq_info)
        } else {
            match core_register(offset) {
                None => Ok(raw),
                Some((index, local)) => Ok(self.core_value(self.cores@[index], local, raw)),
            }
        }
    }

    /// What a core register reads as; `raw` is what was last written there.
    pub open spec fn core_value(self, state: Core, local: int, raw: u16) -> u16 {
        if local < VOICE_PARAMETER_END {
            voice_parameter(state.voices@[local / 16], local % 16)
        } else {
            match voice_address_register(local) {
                Some((voice, register)) => voice_address_value(state.voices@[voice], register),
                None => if local == ENDX_HIGH {
                    low_half(state.endx)
                } else if local == ENDX_LOW {
                    (high_half(state.endx) % 0x100) as u16
                } else if local == STATUS {
                    state.status
                } else {
                    raw
                },
            }
        }
    }

    /// The register pair that the register at `offset` belongs to.
    pub open spec fn pair_at(self, offset: int) -> (u16, u16) {
        let first = (offset / 4) * 2;
        (self.registers@[first], self.registers@[first + 1])
    }

    /// The state after a register write; a location without function keeps its value.
    pub open spec fn written(self, address: u32, value: u16) -> Spu2State {
        if !is_register(address) {
            self
        } else {
            let offset = address - SPU2_BASE;
            let kept = Spu2State { registers: with(self.registers, offset / 2, value), ..self };
            if offset == IRQ_INFO {
                Spu2State { irq_info: self.irq_info & value, ..kept }
            } else {
                match core_register(offset) {
                    Some((index, local)) => kept.core_register_written(
                        index,
                        local as u32,
                        offset,
                        value,
                    ),
                    None => match primary_register(offset) {
                        Some((index, local)) => kept.with_core(
                            index,
                            primary_written(self.cores@[index], local as u32, value),
                        ),
                        None => kept,
                    },
                }
            }
        }
    }

    /// The state after a core register took a value that its location already holds.
    /// A voice's repeat address follows the register pair of its start address.
    pub open spec fn core_register_written(
        self,
        index: int,
        local: u32,
        offset: int,
        value: u16,
    ) -> Spu2State {
        let state = self.cores@[index];
        if local < VOICE_PARAMETER_END {
            let voice = local as int / 16;
            self.with_core(
                index,
                with_core_voice(
                    state,
                    voice,
                    voice_parameter_written(state.voices@[voice], local as int % 16, value),
                ),
            )
        } else {
            match voice_address_register(local as int) {
                Some((voice, register)) => {
                    let pair = self.pair_at(offset - register);
                    let address = sound_address(pair.0, pair.1);
                    let before = state.voices@[voice];
                    self.with_core(
                        index,
                        with_core_voice(
                            state,
                            voice,
                            if register < 4 {
                                Voice { start_address: address, ..before }
                            } else if register < 8 {
                                Voice { repeat_address: address, ..before }
                            } else {
                                before
                            },
                        ),
                    )
                },
                None => {
                    let after = self.with_core(
                        index,
                        core_written(state, local, value, self.pair_at(offset)),
                    );
                    if local == CORE_ATTR && value & CORE_ATTR_IRQ_ENABLE == 0 {
                        Spu2State { irq_info: self.irq_info & !irq_bit(index), ..after }
                    } else {
                        after
                    }
                },
            }
        }
    }

    /// The RAM after a register write: only the transfer port of a core writes there.
    pub open spec fn written_ram(self, ram: Seq<u8>, address: u32, value: u16) -> Seq<u8> {
        match core_register(address - SPU2_BASE) {
            Some((index, local)) => if is_register(address) && local == TRANSFER_DATA {
                self.cores@[index].transferred_ram(ram, value)
            } else {
                ram
            },
            None => ram,
        }
    }

    /// The state with pending interrupts shown in the information register.
    pub open spec fn refreshed(self) -> Spu2State {
        let first = if self.cores@[0].irq_request {
            self.irq_info | IRQ_INFO_CORE0
        } else {
            self.irq_info
        };
        Spu2State {
            irq_info: if self.cores@[1].irq_request {
                first | IRQ_INFO_CORE1
            } else {
                first
            },
            ..self
        }
    }

    /// The state, the RAM and the outcome after one frame. Core 0's output goes to
    /// core 1, whose output is final.
    #[verifier::opaque]
    pub open spec fn framed(self, ram: Seq<u8>, inputs: [CoreInput; 2]) -> (
        Spu2State,
        Seq<u8>,
        Result<(StereoFrame, StereoFrame), Spu2Error>,
    ) {
        let (core0, ram0, output0) = self.cores@[0].framed(ram, inputs@[0]);
        let first = self.with_core(0, core0);
        match output0 {
            Err(fault) => (first, ram0, Err(core_error(0, fault))),
            Ok(frame0) => {
                let (core1, ram1, output1) = self.cores@[1].framed(
                    ram0,
                    chained_input(inputs@[1], frame0),
                );
                let second = first.with_core(1, core1);
                match output1 {
                    Err(fault) => (second, ram1, Err(core_error(1, fault))),
                    Ok(frame1) => (second.refreshed(), ram1, Ok((frame0, frame1))),
                }
            },
        }
    }

    /// What frames with the given inputs produce; a frame that fails is the last.
    pub open spec fn rendering(self, ram: Seq<u8>, inputs: Seq<[CoreInput; 2]>) -> Rendering
        decreases inputs.len(),
    {
        if inputs.len() == 0 {
            Rendering { state: self, ram, samples: Seq::empty(), failure: None }
        } else {
            self.rendering(ram, inputs.drop_last()).next(inputs.last())
        }
    }

    /// The state after interrupts are delivered.
    pub open spec fn drained(self) -> Spu2State {
        self.with_core(0, Core { irq_request: false, ..self.cores@[0] }).with_core(
            1,
            Core { irq_request: false, ..self.cores@[1] },
        )
    }
}

impl Rendering {
    /// What one frame more produces.
    pub open spec fn next(self, inputs: [CoreInput; 2]) -> Rendering {
        let (state, ram, frame) = self.state.framed(self.ram, inputs);
        if self.failure is Some {
            self
        } else {
            match frame {
                Ok((_, output)) => Rendering {
                    state,
                    ram,
                    samples: self.samples.push(output.left).push(output.right),
                    failure: None,
                },
                Err(error) => Rendering { state, ram, failure: Some(error), ..self },
            }
        }
    }
}

impl Default for Spu2 {
    fn default() -> (result: Self)
        ensures
            result.wf(),
            result.state.at_reset(),
            result.ram@ == Seq::new(SOUND_RAM_SIZE as nat, |i: int| 0u8),
    {
        Self::new()
    }
}

impl Spu2 {
    /// Sound RAM has its full size and the state is valid.
    pub open spec fn wf(self) -> bool {
        self.ram@.len() == SOUND_RAM_SIZE && self.state.wf()
    }

    /// Constructs reset sound RAM, registers, cores, and voices.
    pub fn new() -> (result: Self)
        ensures
            result.wf(),
            result.state.at_reset(),
            result.ram@ == Seq::new(SOUND_RAM_SIZE as nat, |i: int| 0u8),
    {
        Self {
            ram: zeroed(SOUND_RAM_SIZE),
            state: Spu2State {
                cores: [Core::new(), Core::new()],
                registers: [0u16;1024],
                irq_info: 0,
            },
        }
    }

    /// Returns immutable shared sound RAM for diagnostics.
    pub fn ram(&self) -> (result: &[u8])
        ensures
            result@ == self.ram@,
    {
        self.ram.as_slice()
    }

    /// Loads a synthetic or locally supplied sound-RAM range without MMIO side effects.
    ///
    /// A range that leaves sound RAM is an error and loads nothing.
    pub fn load_ram(&mut self, offset: usize, bytes: &[u8]) -> (result: Result<(), Spu2Error>)
        requires
            old(self).wf(),
        ensures
            final(self).wf(),
            final(self).state == old(self).state,
            result == if offset + bytes@.len() <= SOUND_RAM_SIZE {
                Ok(())
            } else {
                Err(Spu2Error::RamRange { offset, size: bytes@.len() as usize })
            },
            final(self).ram@ == if offset + bytes@.len() <= SOUND_RAM_SIZE {
                with_bytes(old(self).ram@, offset as int, bytes@)
            } else {
                old(self).ram@
            },
    {
        let size: usize = bytes.len();
        if offset > SOUND_RAM_SIZE || size > SOUND_RAM_SIZE - offset {
            return Err(Spu2Error::RamRange { offset, size });
        }
        write_bytes(&mut self.ram, offset, bytes);
        Ok(())
    }

    /// Reads one aligned 16-bit register.
    pub fn read_register(&self, address: u32) -> (result: Result<u16, Spu2Error>)
        requires
            self.wf(),
        ensures
            result == self.state.value_at(address),
    {
        let (offset, index) = match decode_register(address) {
            Ok(decoded) => decoded,
            Err(error) => {
                return Err(error);
            },
        };
        if offset == IRQ_INFO {
            return Ok(self.state.irq_info);
        }
        let raw: u16 = self.state.registers[index];
        let (core_index, local) = match decode_core_register(offset) {
            Some(decoded) => decoded,
            None => {
                return Ok(raw);
            },
        };
        let state = &self.state.cores[core_index];
        if local < VOICE_PARAMETER_END {
            let voice = &state.voices[(local / 16) as usize];
            return Ok(
                match local % 16 {
                    0 => voice.volume_left,
                    2 => voice.volume_right,
                    4 => voice.pitch,
                    6 => voice.adsr_low,
                    8 => voice.adsr_high,
                    10 => voice.envelope.level(),
                    12 => from_i16(direct_level(voice.volume_left)),
                    _ => from_i16(direct_level(voice.volume_right)),
                },
            );
        }
        if let Some((voice, register)) = decode_voice_address(local) {
            let voice = &state.voices[voice];
            return Ok(
                match register {
                    0 | 2 => address_half(voice.start_address, register == 0),
                    4 | 6 => address_half(voice.repeat_address, register == 4),
                    _ => address_half(voice.current_address as u32, register == 8),
                },
            );
        }
        Ok(
            match local {
                ENDX_HIGH => halves(state.endx).0,
                ENDX_LOW => halves(state.endx).1 % 0x100,
                STATUS => state.status,
                _ => raw,
            },
        )
    }

    /// Writes one aligned 16-bit register and applies its hardware side effects.
    ///
    /// Unknown aligned locations in the physical SPU2 window remain readable,
    /// allowing module drivers to probe revision-specific state safely.
    pub fn write_register(&mut self, address: u32, value: u16) -> (result: Result<(), Spu2Error>)
        requires
            old(self).wf(),
        ensures
            final(self).wf(),
            result == if is_register(address) {
                Ok(())
            } else {
                Err(Spu2Error::InvalidRegister { address })
            },
            final(self).state == old(self).state.written(address, value),
            final(self).ram@ == old(self).state.written_ram(old(self).ram@, address, value),
    {
        let (offset, index) = match decode_register(address) {
            Ok(decoded) => decoded,
            Err(error) => {
                return Err(error);
            },
        };
        self.state.registers[index] = value;
        if offset == IRQ_INFO {
            self.state.irq_info = self.state.irq_info & value;
            return Ok(());
        }
        if let Some((core_index, local)) = decode_core_register(offset) {
            if local < VOICE_PARAMETER_END {
                self.write_voice_parameter(core_index, local, offset, value);
            } else if let Some((voice, register)) = decode_voice_address(local) {
                self.write_voice_address(core_index, voice, register, local, offset, value);
            } else {
                self.write_core_register(core_index, local, offset, value);
            }
            return Ok(());
        }
        if let Some((core_index, local)) = decode_primary_register(offset) {
            let mut state: Core = self.state.cores[core_index];
            write_primary_register(&mut state, local, value);
            self.state.cores[core_index] = state;
        }
        Ok(())
    }

    fn write_voice_parameter(&mut self, core_index: usize, local: u32, offset: u32, value: u16)
        requires
            old(self).wf(),
            core_index < 2,
            local < VOICE_PARAMETER_END,
            local % 2 == 0,
        ensures
            final(self).wf(),
            final(self).ram@ == old(self).ram@,
            final(self).state == old(self).state.core_register_written(
                core_index as int,
                local,
                offset as int,
                value,
            ),
    {
        let mut state: Core = self.state.cores[core_index];
        let index: usize = (local / 16) as usize;
        let mut voice: Voice = state.voices[index];
        match local % 16 {
            0 => {
                voice.volume_left = value;
            },
            2 => {
                voice.volume_right = value;
            },
            4 => {
                voice.pitch = if value > 0x3fff {
                    0x3fff
                } else {
                    value
                };
            },
            6 => {
                voice.adsr_low = value;
            },
            8 => {
                voice.adsr_high = value;
            },
            _ => {},
        }
        state.voices[index] = voice;
        self.state.cores[core_index] = state;
    }

    fn write_voice_address(
        &mut self,
        core_index: usize,
        voice_index: usize,
        register: u32,
        local: u32,
        offset: u32,
        value: u16,
    )
        requires
            old(self).wf(),
            core_index < 2,
            offset < 0x800,
            offset % 2 == 0,
            offset == local + core_index * 0x400,
            voice_address_register(local as int) == Some((voice_index as int, register as int)),
        ensures
            final(self).wf(),
            final(self).ram@ == old(self).ram@,
            final(self).state == old(self).state.core_register_written(
                core_index as int,
                local,
                offset as int,
                value,
            ),
    {
        let pair: usize = ((offset - register) / 2) as usize;
        let address: u32 = decode_sound_address(
            self.state.registers[pair],
            self.state.registers[pair + 1],
        );
        let mut state: Core = self.state.cores[core_index];
        let mut voice: Voice = state.voices[voice_index];
        if register < 4 {
            voice.start_address = address;
        } else if register < 8 {
            voice.repeat_address = address;
        }
        state.voices[voice_index] = voice;
        self.state.cores[core_index] = state;
    }

    fn write_core_register(&mut self, core_index: usize, local: u32, offset: u32, value: u16)
        requires
            old(self).wf(),
            core_index < 2,
            offset < 0x800,
            offset % 2 == 0,
            offset == local + core_index * 0x400,
            local >= VOICE_PARAMETER_END,
            voice_address_register(local as int) is None,
        ensures
            final(self).wf(),
            final(self).ram@ == if local == TRANSFER_DATA {
                old(self).state.cores@[core_index as int].transferred_ram(old(self).ram@, value)
            } else {
                old(self).ram@
            },
            final(self).state == old(self).state.core_register_written(
                core_index as int,
                local,
                offset as int,
                value,
            ),
    {
        let first: usize = (offset / 4) as usize * 2;
        let pair: (u16, u16) = (self.state.registers[first], self.state.registers[first + 1]);
        let mut state: Core = self.state.cores[core_index];
        write_core(&mut state, &mut self.ram, local, value, pair);
        self.state.cores[core_index] = state;
        if local == CORE_ATTR && value & CORE_ATTR_IRQ_ENABLE == 0 {
            let bit: u16 = if core_index == 0 {
                IRQ_INFO_CORE0
            } else {
                IRQ_INFO_CORE1
            };
            self.state.irq_info = self.state.irq_info & !bit;
        }
    }

    /// Renders one native-rate frame, retaining both core outputs for tests and tooling.
    ///
    /// An undefined block header of an active voice is an error.
    pub fn render_frame(&mut self, inputs: [CoreInput; 2]) -> (result: Result<
        RenderedFrame,
        Spu2Error,
    >)
        requires
            old(self).wf(),
        ensures
            final(self).wf(),
            ({
                let framed = old(self).state.framed(old(self).ram@, inputs);
                &&& final(self).state == framed.0
                &&& final(self).ram@ == framed.1
                &&& match result {
                    Ok(frame) => {
                        &&& framed.2 == Ok::<(StereoFrame, StereoFrame), Spu2Error>(
                            (frame.cores@[0], frame.cores@[1]),
                        )
                        &&& frame.final_output == frame.cores@[1]
                    },
                    Err(error) => framed.2 == Err::<(StereoFrame, StereoFrame), Spu2Error>(error),
                }
            }),
    {
        proof {
            reveal(Spu2State::framed);
        }
        let mut first: Core = self.state.cores[0];
        let outcome = first.render(&mut self.ram, inputs[0]);
        self.state.cores[0] = first;
        let frame0 = match outcome {
            Ok(frame) => frame,
            Err(fault) => {
                return Err(fault_error(0, fault));
            },
        };
        let chained = CoreInput {
            input_a: StereoFrame::new(
                clamp_i16(i32::from(inputs[1].input_a.left) + i32::from(frame0.left)),
                clamp_i16(i32::from(inputs[1].input_a.right) + i32::from(frame0.right)),
            ),
            input_b: inputs[1].input_b,
        };
        let mut second: Core = self.state.cores[1];
        let outcome = second.render(&mut self.ram, chained);
        self.state.cores[1] = second;
        let frame1 = match outcome {
            Ok(frame) => frame,
            Err(fault) => {
                return Err(fault_error(1, fault));
            },
        };
        self.refresh_irq_info();
        Ok(RenderedFrame { cores: [frame0, frame1], final_output: frame1 })
    }

    /// Renders silent-input, interleaved signed 16-bit stereo frames at 48 kHz.
    ///
    /// A buffer that does not hold exactly the frames is an error and nothing is
    /// rendered. An undefined voice block header ends rendering at its frame.
    pub fn render(&mut self, frames: usize, output: &mut [i16]) -> (result: Result<(), Spu2Error>)
        requires
            old(self).wf(),
        ensures
            final(self).wf(),
            old(self).rendered(
                Seq::new(frames as nat, |i: int| silence()),
                old(output)@,
                result,
                *final(self),
                final(output)@,
            ),
    {
        let actual: usize = output.len();
        let expected: usize = match frames.checked_mul(2) {
            Some(expected) => expected,
            None => {
                return Err(Spu2Error::OutputSize { expected: usize::MAX, actual });
            },
        };
        if actual != expected {
            return Err(Spu2Error::OutputSize { expected, actual });
        }
        let ghost inputs = Seq::new(frames as nat, |i: int| silence());
        let ghost start = self.state;
        let ghost ram_start = self.ram@;
        let mut frame: usize = 0;
        proof {
            assert(inputs.take(0) =~= Seq::empty());
            assert(output@ =~= start.rendering(ram_start, inputs.take(0)).samples + old(
                output,
            )@.skip(0));
        }
        while frame < frames
            invariant
                frame <= frames,
                self.wf(),
                frames * 2 == expected,
                output@.len() == frames * 2,
                old(output)@.len() == frames * 2,
                start == old(self).state,
                ram_start == old(self).ram@,
                inputs == Seq::new(frames as nat, |i: int| silence()),
                start.in_progress(ram_start, inputs, frame as int, *self, old(output)@, output@),
            decreases frames - frame,
        {
            let still = StereoFrame { left: 0, right: 0 };
            let silent: [CoreInput; 2] = [
                CoreInput { input_a: still, input_b: still },
                CoreInput { input_a: still, input_b: still },
            ];
            assert(silent == inputs[frame as int]) by {
                assert(silent@ =~= silence()@);
                assert(silent =~= silence());
            }
            if let Err(error) = self.render_next(
                silent,
                frame,
                output,
                Ghost(inputs),
                Ghost(start),
                Ghost(ram_start),
                Ghost(old(output)@),
            ) {
                return Err(error);
            }
            frame += 1;
        }
        assert(inputs.take(frames as int) =~= inputs);
        Ok(())
    }

    /// Renders time-aligned input frames to interleaved signed 16-bit stereo output.
    ///
    /// A buffer that does not hold exactly the frames is an error and nothing is
    /// rendered. An undefined voice block header ends rendering at its frame.
    pub fn render_with_inputs(&mut self, inputs: &[[CoreInput; 2]], output: &mut [i16]) -> (result:
        Result<(), Spu2Error>)
        requires
            old(self).wf(),
        ensures
            final(self).wf(),
            old(self).rendered(inputs@, old(output)@, result, *final(self), final(output)@),
    {
        let frames: usize = inputs.len();
        let actual: usize = output.len();
        let expected: usize = match frames.checked_mul(2) {
            Some(expected) => expected,
            None => {
                return Err(Spu2Error::OutputSize { expected: usize::MAX, actual });
            },
        };
        if actual != expected {
            return Err(Spu2Error::OutputSize { expected, actual });
        }
        let ghost start = self.state;
        let ghost ram_start = self.ram@;
        let mut frame: usize = 0;
        proof {
            assert(inputs@.take(0) =~= Seq::empty());
            assert(output@ =~= start.rendering(ram_start, inputs@.take(0)).samples + old(
                output,
            )@.skip(0));
        }
        while frame < frames
            invariant
                frame <= frames,
                frames == inputs@.len(),
                self.wf(),
                frames * 2 == expected,
                output@.len() == frames * 2,
                old(output)@.len() == frames * 2,
                start == old(self).state,
                ram_start == old(self).ram@,
                start.in_progress(ram_start, inputs@, frame as int, *self, old(output)@, output@),
            decreases frames - frame,
        {
            if let Err(error) = self.render_next(
                inputs[frame],
                frame,
                output,
                Ghost(inputs@),
                Ghost(start),
                Ghost(ram_start),
                Ghost(old(output)@),
            ) {
                return Err(error);
            }
            frame += 1;
        }
        assert(inputs@.take(frames as int) =~= inputs@);
        Ok(())
    }

    /// Renders frame `frame` into its place.
    fn render_next(
        &mut self,
        input: [CoreInput; 2],
        frame: usize,
        output: &mut [i16],
        Ghost(inputs): Ghost<Seq<[CoreInput; 2]>>,
        Ghost(start): Ghost<Spu2State>,
        Ghost(ram_start): Ghost<Seq<u8>>,
        Ghost(output_start): Ghost<Seq<i16>>,
    ) -> (result: Result<(), Spu2Error>)
        requires
            old(self).wf(),
            frame < inputs.len(),
            inputs[frame as int] == input,
            inputs.len() * 2 <= usize::MAX,
            old(output)@.len() == inputs.len() * 2,
            output_start.len() == inputs.len() * 2,
            start.in_progress(
                ram_start,
                inputs,
                frame as int,
                *old(self),
                output_start,
                old(output)@,
            ),
        ensures
            final(self).wf(),
            final(output)@.len() == old(output)@.len(),
            match result {
                Ok(_) => start.in_progress(
                    ram_start,
                    inputs,
                    frame + 1,
                    *final(self),
                    output_start,
                    final(output)@,
                ),
                Err(error) => {
                    let rendering = start.rendering(ram_start, inputs);
                    &&& rendering.failure == Some(error)
                    &&& rendering.state == final(self).state
                    &&& rendering.ram == final(self).ram@
                    &&& final(output)@ == rendering.samples + output_start.skip(
                        rendering.samples.len() as int,
                    )
                },
            },
    {
        let ghost before = start.rendering(ram_start, inputs.take(frame as int));
        proof {
            let longer = inputs.take(frame + 1);
            assert(longer.drop_last() =~= inputs.take(frame as int));
            assert(longer.last() == input);
        }
        match self.render_frame(input) {
            Ok(rendered) => {
                output[frame * 2] = rendered.final_output.left;
                output[frame * 2 + 1] = rendered.final_output.right;
                proof {
                    assert(output@ =~= before.samples.push(rendered.final_output.left).push(
                        rendered.final_output.right,
                    ) + output_start.skip((frame + 1) * 2));
                }
                Ok(())
            },
            Err(error) => {
                proof {
                    lemma_failure_stays(start, ram_start, inputs, frame + 1);
                }
                Err(error)
            },
        }
    }

    /// Delivers one coalesced SPU2 address interrupt to the IOP interrupt sink.
    pub fn drain_irq<S: InterruptSink>(&mut self, sink: &mut S) -> (result: bool)
        requires
            old(self).wf(),
        ensures
            final(self).wf(),
            result == (old(self).state.cores@[0].irq_request
                || old(self).state.cores@[1].irq_request),
            final(self).ram@ == old(self).ram@,
            final(self).state == old(self).state.drained(),
            if result {
                S::requested(*old(sink), InterruptSource::Spu2, *final(sink))
            } else {
                *final(sink) == *old(sink)
            },
    {
        let mut first: Core = self.state.cores[0];
        let mut second: Core = self.state.cores[1];
        let requested = first.irq_request || second.irq_request;
        first.irq_request = false;
        second.irq_request = false;
        self.state.cores[0] = first;
        self.state.cores[1] = second;
        if requested {
            sink.request(InterruptSource::Spu2);
        }
        requested
    }

    fn refresh_irq_info(&mut self)
        requires
            old(self).wf(),
        ensures
            final(self).wf(),
            final(self).ram@ == old(self).ram@,
            final(self).state == old(self).state.refreshed(),
    {
        if self.state.cores[0].irq_request {
            self.state.irq_info = self.state.irq_info | IRQ_INFO_CORE0;
        }
        if self.state.cores[1].irq_request {
            self.state.irq_info = self.state.irq_info | IRQ_INFO_CORE1;
        }
    }
}

impl Spu2 {
    /// Rendering frames with the given inputs may end as `result`.
    pub open spec fn rendered(
        self,
        inputs: Seq<[CoreInput; 2]>,
        output: Seq<i16>,
        result: Result<(), Spu2Error>,
        after: Spu2,
        output_after: Seq<i16>,
    ) -> bool {
        if inputs.len() * 2 != output.len() {
            &&& result == Err::<(), Spu2Error>(
                Spu2Error::OutputSize {
                    expected: if inputs.len() * 2 > usize::MAX {
                        usize::MAX
                    } else {
                        (inputs.len() * 2) as usize
                    },
                    actual: output.len() as usize,
                },
            )
            &&& after.state == self.state
            &&& after.ram@ == self.ram@
            &&& output_after == output
        } else {
            let rendering = self.state.rendering(self.ram@, inputs);
            &&& result == match rendering.failure {
                None => Ok::<(), Spu2Error>(()),
                Some(error) => Err(error),
            }
            &&& after.state == rendering.state
            &&& after.ram@ == rendering.ram
            &&& output_after == rendering.samples + output.skip(rendering.samples.len() as int)
        }
    }
}

impl Spu2State {
    /// The first `count` frames were rendered without failure, and `output` begins
    /// with their samples.
    pub open spec fn in_progress(
        self,
        ram: Seq<u8>,
        inputs: Seq<[CoreInput; 2]>,
        count: int,
        now: Spu2,
        output_start: Seq<i16>,
        output: Seq<i16>,
    ) -> bool {
        let rendering = self.rendering(ram, inputs.take(count));
        &&& rendering.failure is None
        &&& rendering.state == now.state
        &&& rendering.ram == now.ram@
        &&& rendering.samples.len() == count * 2
        &&& output == rendering.samples + output_start.skip(count * 2)
    }
}

proof fn lemma_failure_stays(
    state: Spu2State,
    ram: Seq<u8>,
    inputs: Seq<[CoreInput; 2]>,
    early: int,
)
    requires
        0 <= early <= inputs.len(),
        state.rendering(ram, inputs.take(early)).failure is Some,
    ensures
        state.rendering(ram, inputs) == state.rendering(ram, inputs.take(early)),
    decreases inputs.len() - early,
{
    if early == inputs.len() {
        assert(inputs.take(early) =~= inputs);
    } else {
        let longer = inputs.take(early + 1);
        assert(longer.drop_last() =~= inputs.take(early));
        assert(state.rendering(ram, longer) == state.rendering(ram, inputs.take(early)).next(
            longer.last(),
        ));
        lemma_failure_stays(state, ram, inputs, early + 1);
    }
}

fn fault_error(index: usize, fault: VoiceFault) -> (result: Spu2Error)
    ensures
        result == core_error(index as int, fault),
{
    Spu2Error::Adpcm {
        core: index,
        voice: fault.voice,
        address: fault.address,
        source: fault.source,
    }
}

/// Applies a write of one of a core's own registers.
fn write_core(state: &mut Core, ram: &mut Vec<u8>, local: u32, value: u16, pair: (u16, u16))
    requires
        old(state).wf(),
        old(ram)@.len() == SOUND_RAM_SIZE,
        local % 2 == 0,
    ensures
        final(state).wf(),
        final(ram)@.len() == SOUND_RAM_SIZE,
        *final(state) == core_written(*old(state), local, value, pair),
        final(ram)@ == if local == TRANSFER_DATA {
            old(state).transferred_ram(old(ram)@, value)
        } else {
            old(ram)@
        },
{
    let low: u32 = u32::from(value % 0x100) * 0x1_0000;
    match local {
        PMON_HIGH => {
            state.pitch_mod_mask = set_high_switch_half(state.pitch_mod_mask, value);
        },
        PMON_LOW => {
            state.pitch_mod_mask = set_low_switch_half(state.pitch_mod_mask, value);
        },
        NON_HIGH => {
            state.noise_mask = set_high_switch_half(state.noise_mask, value);
        },
        NON_LOW => {
            state.noise_mask = set_low_switch_half(state.noise_mask, value);
        },
        VMIXL_HIGH => {
            state.voice_dry_left = set_high_switch_half(state.voice_dry_left, value);
        },
        VMIXL_LOW => {
            state.voice_dry_left = set_low_switch_half(state.voice_dry_left, value);
        },
        VMIXEL_HIGH => {
            state.voice_effect_left = set_high_switch_half(state.voice_effect_left, value);
        },
        VMIXEL_LOW => {
            state.voice_effect_left = set_low_switch_half(state.voice_effect_left, value);
        },
        VMIXR_HIGH => {
            state.voice_dry_right = set_high_switch_half(state.voice_dry_right, value);
        },
        VMIXR_LOW => {
            state.voice_dry_right = set_low_switch_half(state.voice_dry_right, value);
        },
        VMIXER_HIGH => {
            state.voice_effect_right = set_high_switch_half(state.voice_effect_right, value);
        },
        VMIXER_LOW => {
            state.voice_effect_right = set_low_switch_half(state.voice_effect_right, value);
        },
        MMIX => {
            state.mix = value & 0x0fff;
        },
        CORE_ATTR => {
            state.attributes = value;
            if value & CORE_ATTR_IRQ_ENABLE == 0 {
                state.irq_request = false;
            }
        },
        IRQA_HIGH | IRQA_LOW => {
            state.irq_address = decode_sound_address(pair.0, pair.1);
        },
        KEY_ON_HIGH => state.key_on(u32::from(value)),
        KEY_ON_LOW => state.key_on(low),
        KEY_OFF_HIGH => state.key_off(u32::from(value)),
        KEY_OFF_LOW => state.key_off(low),
        TSA_HIGH | TSA_LOW => {
            state.transfer_address = decode_sound_address(pair.0, pair.1);
        },
        TRANSFER_DATA => state.write_transfer_halfword(ram, value),
        EFFECT_START_HIGH | EFFECT_START_LOW => {
            state.effect_start = decode_sound_address(pair.0, pair.1);
            state.effects.set_start(state.effect_start);
        },
        EFFECT_END_HIGH | EFFECT_END_LOW => {
            state.effect_end = decode_effect_end(pair.0);
        },
        ENDX_HIGH => {
            state.endx = state.endx & !u32::from(value);
        },
        ENDX_LOW => {
            state.endx = state.endx & !low;
        },
        _ => {
            if EFFECT_ADDRESS_FIRST <= local && local <= EFFECT_ADDRESS_LAST {
                let index: usize = ((local - EFFECT_ADDRESS_FIRST) / 4) as usize;
                state.effect_addresses[index] = decode_effect_offset(pair.0, pair.1);
            }
        },
    }
}

/// Applies a write of one of a core's primary-output registers.
fn write_primary_register(state: &mut Core, local: u32, value: u16)
    requires
        old(state).wf(),
        local % 2 == 0,
        local < PRIMARY_STRIDE,
    ensures
        final(state).wf(),
        *final(state) == primary_written(*old(state), local, value),
{
    match local {
        0x00 => {
            state.master_volume.0 = value;
        },
        0x02 => {
            state.master_volume.1 = value;
        },
        0x04 => {
            state.effect_volume.0 = value;
        },
        0x06 => {
            state.effect_volume.1 = value;
        },
        0x08 => {
            state.input_a_volume.0 = value;
        },
        0x0a => {
            state.input_a_volume.1 = value;
        },
        0x0c => {
            state.input_b_volume.0 = value;
        },
        0x0e => {
            state.input_b_volume.1 = value;
        },
        _ => {
            if local >= COEFFICIENT_FIRST {
                let index: usize = ((local - COEFFICIENT_FIRST) / 2) as usize;
                state.effect_coefficients[index] = value;
            }
        },
    }
}

fn decode_register(address: u32) -> (result: Result<(u32, usize), Spu2Error>)
    ensures
        match result {
            Ok((offset, index)) => {
                &&& is_register(address)
                &&& offset == address - SPU2_BASE
                &&& offset % 2 == 0
                &&& offset < 0x800
                &&& index == offset / 2
                &&& index < 1024
            },
            Err(error) => !is_register(address) && error == (Spu2Error::InvalidRegister {
                address,
            }),
        },
{
    if address < SPU2_BASE || address > SPU2_END || address % 2 != 0 {
        return Err(Spu2Error::InvalidRegister { address });
    }
    let offset: u32 = address - SPU2_BASE;
    Ok((offset, (offset / 2) as usize))
}

fn decode_core_register(offset: u32) -> (result: Option<(usize, u32)>)
    requires
        offset < 0x800,
    ensures
        match result {
            Some((index, local)) => {
                &&& core_register(offset as int) == Some((index as int, local as int))
                &&& index < 2
                &&& offset == local + index * 0x400
                &&& local < 0x400
            },
            None => core_register(offset as int) is None,
        },
{
    if offset < CORE_STRIDE {
        Some((0, offset))
    } else if offset < PRIMARY_BASE {
        Some((1, offset - CORE_STRIDE))
    } else {
        None
    }
}

fn decode_primary_register(offset: u32) -> (result: Option<(usize, u32)>)
    requires
        offset < 0x800,
        offset % 2 == 0,
    ensures
        match result {
            Some((index, local)) => {
                &&& primary_register(offset as int) == Some((index as int, local as int))
                &&& index < 2
                &&& local < PRIMARY_STRIDE
                &&& local % 2 == 0
            },
            None => primary_register(offset as int) is None,
        },
{
    if PRIMARY_BASE <= offset && offset < PRIMARY_BASE + PRIMARY_STRIDE {
        Some((0, offset - PRIMARY_BASE))
    } else if PRIMARY_BASE + PRIMARY_STRIDE <= offset && offset < PRIMARY_BASE + 2
        * PRIMARY_STRIDE {
        Some((1, offset - PRIMARY_BASE - PRIMARY_STRIDE))
    } else {
        None
    }
}

fn decode_voice_address(local: u32) -> (result: Option<(usize, u32)>)
    requires
        local % 2 == 0,
    ensures
        match result {
            Some((voice, register)) => {
                &&& voice_address_register(local as int) == Some((voice as int, register as int))
                &&& voice < 24
                &&& register < 12
                &&& register % 2 == 0
            },
            None => voice_address_register(local as int) is None,
        },
{
    if local < VOICE_ADDRESS_BASE || local >= VOICE_ADDRESS_END {
        return None;
    }
    let relative: u32 = local - VOICE_ADDRESS_BASE;
    Some(((relative / 12) as usize, relative % 12))
}

fn decode_sound_address(high: u16, low: u16) -> (result: u32)
    ensures
        result == sound_address(high, low),
{
    u32::from(high % 16) * 0x2_0000 + u32::from(low / 8) * 16
}

fn decode_effect_offset(high: u16, low: u16) -> (result: u32)
    ensures
        result == effect_offset(high, low),
{
    u32::from(high) * 0x4000 + u32::from(low / 4)
}

fn decode_effect_end(high: u16) -> (result: u32)
    ensures
        result == effect_end(high),
{
    u32::from(high % 16) * 0x2_0000 + 0x1_ffff
}

fn address_half(address: u32, high: bool) -> (result: u16)
    ensures
        result == address_part(address, high),
{
    if high {
        (address / 0x2_0000) as u16
    } else {
        ((address / 16) % 0x2000 * 8) as u16
    }
}

fn set_high_switch_half(mask: u32, value: u16) -> (result: u32)
    ensures
        result == with_high_switches(mask, value),
{
    ((mask / 0x1_0000) % 0x100) * 0x1_0000 + u32::from(value)
}

fn set_low_switch_half(mask: u32, value: u16) -> (result: u32)
    ensures
        result == with_low_switches(mask, value),
{
    mask % 0x1_0000 + u32::from(value % 0x100) * 0x1_0000
}

impl Spu2DmaEndpoint for Spu2 {
    open spec fn valid(self) -> bool {
        self.wf()
    }

    open spec fn accepted(
        before: Self,
        channel: SoundDmaChannel,
        value: u32,
        result: Result<(), EndpointError>,
        after: Self,
    ) -> bool {
        let index = channel.core_number();
        let state = before.state.cores@[index];
        let once = state.transferred_ram(before.ram@, low_half(value));
        &&& result is Ok
        &&& after.state == before.state.with_core(
            index,
            state.transferred().transferred(),
        ).refreshed()
        &&& after.ram@ == state.transferred().transferred_ram(once, high_half(value))
    }

    open spec fn supplied(
        before: Self,
        channel: SoundDmaChannel,
        result: Result<u32, EndpointError>,
        after: Self,
    ) -> bool {
        let index = channel.core_number();
        let state = before.state.cores@[index];
        &&& result == Ok::<u32, EndpointError>(
            word_of(
                half_at(before.ram@, normalized(state.transfer_address)),
                half_at(before.ram@, normalized(state.transferred().transfer_address)),
            ),
        )
        &&& after.state == before.state.with_core(
            index,
            state.transferred().transferred(),
        ).refreshed()
        &&& after.ram@ == before.ram@
    }

    fn write_word(&mut self, channel: SoundDmaChannel, value: u32) -> (result: Result<
        (),
        EndpointError,
    >) {
        let index: usize = core_of(channel);
        let (low, high) = halves(value);
        let mut state: Core = self.state.cores[index];
        state.write_transfer_halfword(&mut self.ram, low);
        state.write_transfer_halfword(&mut self.ram, high);
        self.state.cores[index] = state;
        self.refresh_irq_info();
        Ok(())
    }

    fn read_word(&mut self, channel: SoundDmaChannel) -> (result: Result<u32, EndpointError>) {
        let index: usize = core_of(channel);
        let mut state: Core = self.state.cores[index];
        let low: u16 = state.read_transfer_halfword(&self.ram);
        let high: u16 = state.read_transfer_halfword(&self.ram);
        self.state.cores[index] = state;
        self.refresh_irq_info();
        Ok(join_halves(low, high))
    }
}

fn core_of(channel: SoundDmaChannel) -> (result: usize)
    ensures
        result == channel.core_number(),
        result < 2,
{
    match channel {
        SoundDmaChannel::Core0 => 0,
        SoundDmaChannel::Core1 => 1,
    }
}

impl Spu2MmioEndpoint for Spu2 {
    open spec fn ready(self) -> bool {
        self.wf()
    }

    open spec fn register_read(
        before: Self,
        address: u32,
        result: Result<u16, EndpointError>,
        after: Self,
    ) -> bool {
        &&& after.state == before.state
        &&& after.ram@ == before.ram@
        &&& match before.state.value_at(address) {
            Ok(value) => result == Ok::<u16, EndpointError>(value),
            Err(_) => result matches Err(error) && error.message@ == register_fault(address),
        }
    }

    open spec fn register_written(
        before: Self,
        address: u32,
        value: u16,
        result: Result<(), EndpointError>,
        after: Self,
    ) -> bool {
        &&& after.state == before.state.written(address, value)
        &&& after.ram@ == before.state.written_ram(before.ram@, address, value)
        &&& if is_register(address) {
            result is Ok
        } else {
            result matches Err(error) && error.message@ == register_fault(address)
        }
    }

    fn read_register(&mut self, address: u32) -> (result: Result<u16, EndpointError>) {
        match Spu2::read_register(self, address) {
            Ok(value) => Ok(value),
            Err(error) => Err(EndpointError { message: error.message() }),
        }
    }

    fn write_register(&mut self, address: u32, value: u16) -> (result: Result<(), EndpointError>) {
        match Spu2::write_register(self, address, value) {
            Ok(_) => Ok(()),
            Err(error) => Err(EndpointError { message: error.message() }),
        }
    }
}

/// Rendering in two chunks is rendering once: the samples join and the second chunk
/// goes on where the first one ended.
pub proof fn law_render_is_chunk_independent(
    state: Spu2State,
    ram: Seq<u8>,
    first: Seq<[CoreInput; 2]>,
    second: Seq<[CoreInput; 2]>,
)
    requires
        state.rendering(ram, first).failure is None,
    ensures
        ({
            let begun = state.rendering(ram, first);
            let rest = begun.state.rendering(begun.ram, second);
            state.rendering(ram, first + second) == (Rendering {
                state: rest.state,
                ram: rest.ram,
                samples: begun.samples + rest.samples,
                failure: rest.failure,
            })
        }),
    decreases second.len(),
{
    let begun = state.rendering(ram, first);
    if second.len() == 0 {
        assert(first + second =~= first);
        assert(begun.samples + Seq::<i16>::empty() =~= begun.samples);
    } else {
        let shorter = second.drop_last();
        law_render_is_chunk_independent(state, ram, first, shorter);
        let rest = begun.state.rendering(begun.ram, shorter);
        let whole = state.rendering(ram, first + shorter);
        assert((first + second).drop_last() =~= first + shorter);
        assert(state.rendering(ram, first + second) == whole.next(second.last()));
        let frame = rest.state.framed(rest.ram, second.last()).2;
        if rest.failure is None {
            if let Ok((_, output)) = frame {
                assert((begun.samples + rest.samples).push(output.left).push(output.right)
                    =~= begun.samples + rest.samples.push(output.left).push(output.right));
            }
        }
    }
}

/// Locations that hold what is written to them: those without function, and those
/// whose function is not to be read back in another form.
pub open spec fn is_plain(address: u32) -> bool {
    let offset = address - SPU2_BASE;
    is_register(address) && offset != IRQ_INFO && match core_register(offset) {
        Some((_, local)) => if local < VOICE_PARAMETER_END {
            local % 16 < 10 && local % 16 != 4
        } else {
            voice_address_register(local) is None && local != ENDX_HIGH && local != ENDX_LOW
                && local != STATUS
        },
        None => true,
    }
}

/// A plain location reads back as it was written, whether or not it has a function.
pub proof fn law_plain_register_reads_back(state: Spu2State, address: u32, value: u16)
    requires
        is_plain(address),
    ensures
        state.written(address, value).value_at(address) == Ok::<u16, Spu2Error>(value),
{
    let offset = address - SPU2_BASE;
    if let Some((index, local)) = core_register(offset) {
        let kept = Spu2State { registers: with(state.registers, offset / 2, value), ..state };
        assert(state.written(address, value) == kept.core_register_written(
            index,
            local as u32,
            offset,
            value,
        ));
        assert(kept.registers@[offset / 2] == value);
        if local < VOICE_PARAMETER_END {
            let voice = local / 16;
            let before = state.cores@[index].voices@[voice];
            let after = voice_parameter_written(before, local % 16, value);
            assert(voice_parameter(after, local % 16) == value);
        }
    }
}

/// The offset of the register pair that holds a voice's start address.
pub open spec fn start_pair(index: int, voice: int) -> int {
    index * CORE_STRIDE + VOICE_ADDRESS_BASE + voice * VOICE_ADDRESS_STRIDE
}

proof fn lemma_start_pair(index: int, voice: int, register: int)
    requires
        0 <= index < 2,
        0 <= voice < 24,
        register == 0 || register == 2,
    ensures
        ({
            let offset = start_pair(index, voice) + register;
            let local = VOICE_ADDRESS_BASE + voice * VOICE_ADDRESS_STRIDE + register;
            &&& is_register((SPU2_BASE + offset) as u32)
            &&& offset < PRIMARY_BASE
            &&& core_register(offset) == Some((index, local))
            &&& VOICE_PARAMETER_END <= local < 0x400
            &&& voice_address_register(local) == Some((voice, register))
            &&& offset / 2 == start_pair(index, voice) / 2 + register / 2
            &&& (start_pair(index, voice) / 4) * 2 == start_pair(index, voice) / 2
            &&& 0 <= offset / 2 < 1024
        }),
{
}

proof fn lemma_start_written(state: Spu2State, index: int, voice: int, register: int, value: u16)
    requires
        0 <= index < 2,
        0 <= voice < 24,
        register == 0 || register == 2,
    ensures
        ({
            let pair = start_pair(index, voice);
            let after = state.written((SPU2_BASE + pair + register) as u32, value);
            &&& after.registers == with(state.registers, pair / 2 + register / 2, value)
            &&& after.cores@[index].voices@[voice].start_address == sound_address(
                after.registers@[pair / 2],
                after.registers@[pair / 2 + 1],
            )
        }),
{
    lemma_start_pair(index, voice, register);
}

proof fn lemma_start_value(state: Spu2State, index: int, voice: int, register: int)
    requires
        0 <= index < 2,
        0 <= voice < 24,
        register == 0 || register == 2,
    ensures
        state.value_at((SPU2_BASE + start_pair(index, voice) + register) as u32) == Ok::<
            u16,
            Spu2Error,
        >(address_part(state.cores@[index].voices@[voice].start_address, register == 0)),
{
    lemma_start_pair(index, voice, register);
}

/// A voice's start address that is written as a register pair reads back in units of
/// sixteen bytes, and is where the voice starts when it is keyed on.
pub proof fn law_start_address_reads_back(
    state: Spu2State,
    index: int,
    voice: int,
    high: u16,
    low: u16,
)
    requires
        0 <= index < 2,
        0 <= voice < 24,
    ensures
        ({
            let address = (SPU2_BASE + start_pair(index, voice)) as u32;
            let after = state.written(address, high).written((address + 2) as u32, low);
            let set = after.cores@[index].voices@[voice];
            &&& set.start_address == (high % 16) * 0x2_0000 + (low / 8) * 16
            &&& set.keyed_on().current_address == set.start_address
            &&& after.value_at(address) == Ok::<u16, Spu2Error>((high % 16) as u16)
            &&& after.value_at((address + 2) as u32) == Ok::<u16, Spu2Error>(((low / 8) * 8) as u16)
        }),
{
    let pair = start_pair(index, voice);
    let address = (SPU2_BASE + pair) as u32;
    let once = state.written(address, high);
    let twice = once.written((address + 2) as u32, low);
    lemma_start_pair(index, voice, 0);
    lemma_start_pair(index, voice, 2);
    lemma_start_written(state, index, voice, 0, high);
    lemma_start_written(once, index, voice, 2, low);
    assert(once.registers@[pair / 2] == high);
    assert(twice.registers@[pair / 2] == high);
    assert(twice.registers@[pair / 2 + 1] == low);
    lemma_start_value(twice, index, voice, 0);
    lemma_start_value(twice, index, voice, 2);
}

/// A word that is moved through the transfer port of a core is read back from the
/// same place, also where the address wraps around the end of sound RAM.
pub proof fn law_transfer_reads_back(
    before: Spu2,
    channel: SoundDmaChannel,
    value: u32,
    written: Spu2,
    rewound: Spu2,
    result: Result<u32, EndpointError>,
    after: Spu2,
)
    requires
        before.wf(),
        Spu2::accepted(before, channel, value, Ok(()), written),
        rewound.ram@ == written.ram@,
        rewound.state.cores@[channel.core_number()].transfer_address
            == before.state.cores@[channel.core_number()].transfer_address,
        Spu2::supplied(rewound, channel, result, after),
    ensures
        result == Ok::<u32, EndpointError>(value),
{
    let state = before.state.cores@[channel.core_number()];
    let first = normalized(state.transfer_address);
    let second = normalized(state.transferred().transfer_address);
    let once = state.transferred_ram(before.ram@, low_half(value));
    law_half_round_trip(before.ram@, first, low_half(value));
    law_half_round_trip(once, second, high_half(value));
    assert(half_at(written.ram@, first) == low_half(value));
}

/// A register write reaches at most the core that its address selects.
pub proof fn law_cores_are_independent(state: Spu2State, address: u32, value: u16)
    requires
        is_register(address),
    ensures
        ({
            let offset = address - SPU2_BASE;
            let after = state.written(address, value);
            &&& CORE_STRIDE <= offset < PRIMARY_BASE || PRIMARY_BASE + PRIMARY_STRIDE <= offset
                ==> after.cores@[0] == state.cores@[0]
            &&& offset < CORE_STRIDE || PRIMARY_BASE <= offset < PRIMARY_BASE + PRIMARY_STRIDE
                || PRIMARY_BASE + 2 * PRIMARY_STRIDE <= offset ==> after.cores@[1]
                == state.cores@[1]
        }),
{
}

/// Disabling a core's interrupt acknowledges it, and delivering interrupts leaves none
/// pending.
pub proof fn law_interrupts_are_acknowledged(state: Spu2State, index: int, value: u16)
    requires
        0 <= index < 2,
        value & CORE_ATTR_IRQ_ENABLE == 0,
    ensures
        ({
            let address = (SPU2_BASE + index * CORE_STRIDE + CORE_ATTR) as u32;
            let after = state.written(address, value);
            &&& !after.cores@[index].irq_request
            &&& after.irq_info == state.irq_info & !irq_bit(index)
        }),
        !state.drained().cores@[0].irq_request,
        !state.drained().cores@[1].irq_request,
{
}

} // verus!
