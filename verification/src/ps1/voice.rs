//! One PS1 SPU voice: ADPCM playback, interpolation, and envelope.

use vstd::prelude::*;

use crate::ps1::reverb::SOUND_RAM_SIZE;
use crate::spu_common::adpcm::{
    block_decoded, block_history, decode_block, AdpcmFlags, AdpcmHistory,
};
use crate::spu_common::adsr::{config_of, Envelope, EnvelopeConfig, EnvelopePhase};
use crate::spu_common::fixed::clamp16;
use crate::spu_common::interpolation::{gaussian_sum, GaussianInterpolator};
use crate::spu_common::mixer::{
    apply_level, at_level, block_at, read_block, BlockFault, VoiceOutput,
};
use crate::spu_common::pitch::{pitch_total, PitchCounter};

verus! {

/// Samples in a decoded block.
pub const BLOCK_SAMPLES: usize = 28;

/// State of one hardware voice.
#[verifier::ext_equal]
#[derive(Clone, Copy, Debug, PartialEq, Eq)]
pub struct Voice {
    pub volume_left: u16,
    pub volume_right: u16,
    pub pitch: u16,
    pub start_address: u16,
    pub adsr_low: u16,
    pub adsr_high: u16,
    pub repeat_address: u16,
    pub current_address: usize,
    pub current_block_address: usize,
    pub envelope: Envelope,
    pub history: AdpcmHistory,
    pub pitch_counter: PitchCounter,
    pub decoded: [i16; 28],
    pub decoded_flags: AdpcmFlags,
    pub sample_index: usize,
    pub decoded_valid: bool,
    pub active: bool,
}

/// How playback stands after some samples.
#[verifier::ext_equal]
pub ghost struct Playback {
    pub voice: Voice,
    pub fetched: Option<usize>,
    pub loop_end: bool,
    /// The voice ran out of blocks.
    pub stopped: bool,
    pub fault: Option<BlockFault>,
}

impl Voice {
    /// Addresses are in sound RAM, the sample index is in the block, and the
    /// envelope and the pitch counter are valid.
    pub open spec fn wf(self) -> bool {
        &&& self.current_address < SOUND_RAM_SIZE
        &&& self.current_block_address < SOUND_RAM_SIZE
        &&& self.sample_index < 28
        &&& self.envelope.wf()
        &&& self.pitch_counter.wf()
    }

    /// Reset state.
    pub open spec fn at_reset(self) -> bool {
        &&& self.volume_left == 0
        &&& self.volume_right == 0
        &&& self.pitch == 0
        &&& self.start_address == 0
        &&& self.adsr_low == 0
        &&& self.adsr_high == 0
        &&& self.repeat_address == 0
        &&& self.current_address == 0
        &&& self.current_block_address == 0
        &&& self.envelope == Envelope::silent()
        &&& self.history == (AdpcmHistory { previous: 0, previous2: 0 })
        &&& self.pitch_counter == (PitchCounter { phase: 0 })
        &&& forall|i: int| 0 <= i < 28 ==> #[trigger] self.decoded@[i] == 0
        &&& self.decoded_flags == (AdpcmFlags { end: false, repeat: false, loop_start: false })
        &&& self.sample_index == 0
        &&& !self.decoded_valid
        &&& !self.active
    }

    /// The state after key-on: playback restarts at the start address.
    pub open spec fn keyed_on(self) -> Voice {
        Voice {
            current_address: (self.start_address * 8) as usize,
            current_block_address: (self.start_address * 8) as usize,
            envelope: Envelope::keyed_on(),
            history: AdpcmHistory { previous: 0, previous2: 0 },
            pitch_counter: PitchCounter { phase: 0 },
            sample_index: 0,
            decoded_valid: false,
            active: true,
            ..self
        }
    }

    /// The state after key-off: the envelope releases.
    pub open spec fn keyed_off(self) -> Voice {
        Voice { envelope: self.envelope.keyed_off(), ..self }
    }

    /// The state after the block at the current address was decoded. A block with
    /// an undefined header changes nothing.
    pub open spec fn fetched(self, ram: Seq<u8>) -> Voice {
        let address = self.current_address as int;
        let block = block_at(ram, address);
        match block_decoded(block, self.history) {
            Ok(decoded) => Voice {
                history: block_history(block, self.history),
                decoded: decoded.samples,
                decoded_flags: decoded.flags,
                current_block_address: self.current_address,
                repeat_address: if decoded.flags.loop_start {
                    (address / 8) as u16
                } else {
                    self.repeat_address
                },
                sample_index: 0,
                decoded_valid: true,
                ..self
            },
            Err(_) => self,
        }
    }

    /// Why the block at the current address cannot be decoded, if it cannot.
    pub open spec fn fetch_fault(self, ram: Seq<u8>) -> Option<BlockFault> {
        match block_decoded(block_at(ram, self.current_address as int), self.history) {
            Ok(_) => None,
            Err(error) => Some((self.current_address, error)),
        }
    }

    /// Whether the block that was played out is the last one.
    pub open spec fn ends(self) -> bool {
        self.decoded_flags.end && !self.decoded_flags.repeat
    }

    /// The state after a block was played out: the voice stops, repeats, or goes on
    /// with the next block.
    pub open spec fn block_finished(self) -> Voice {
        let idle = Voice { decoded_valid: false, sample_index: 0, ..self };
        if self.ends() {
            Voice { envelope: Envelope::silent(), active: false, ..idle }
        } else if self.decoded_flags.end {
            Voice { current_address: (self.repeat_address * 8) as usize, ..idle }
        } else {
            Voice {
                current_address: ((self.current_block_address + 16) % SOUND_RAM_SIZE as int)
                    as usize,
                ..idle
            }
        }
    }

    /// The sample `relative` to the current one, kept inside the block.
    pub open spec fn neighbour(self, relative: int) -> i16 {
        let index = self.sample_index + relative;
        self.decoded@[if index < 0 {
            0
        } else if index > 27 {
            27
        } else {
            index
        }]
    }

    /// The four samples around the playback position.
    pub open spec fn window(self) -> Seq<i16> {
        seq![self.neighbour(-1), self.neighbour(0), self.neighbour(1), self.neighbour(2)]
    }

    /// The interpolated sample at the playback position.
    pub open spec fn interpolated(self) -> i16 {
        clamp16(gaussian_sum(self.window(), (self.pitch_counter.phase / 16) as u8)) as i16
    }

    /// The state after the envelope took one clock; a voice whose envelope ran out
    /// is no longer active.
    pub open spec fn enveloped(self) -> Voice {
        let envelope = self.envelope.after(config_of(self.adsr_low, self.adsr_high), 1);
        Voice {
            envelope,
            active: self.active && envelope.phase != EnvelopePhase::Off,
            ..self
        }
    }

    /// `sample` at the level of the envelope.
    pub open spec fn scaled(self, sample: i16) -> i16 {
        at_level(sample, self.envelope.level)
    }

    /// Playback after `count` source samples.
    pub open spec fn played(self, ram: Seq<u8>, count: nat, fetched: Option<usize>) -> Playback
        decreases count,
    {
        if count == 0 {
            Playback { voice: self, fetched, loop_end: false, stopped: false, fault: None }
        } else {
            self.played(ram, (count - 1) as nat, fetched).next(ram)
        }
    }

    /// The state before the first sample of this output sample is used, with the
    /// first block decoded.
    pub open spec fn primed(self, ram: Seq<u8>) -> Voice {
        if self.decoded_valid {
            self
        } else {
            self.fetched(ram)
        }
    }

    /// The state and the outcome for one output sample.
    pub open spec fn rendered(self, ram: Seq<u8>, pitch: u16, noise: Option<i16>) -> (
        Voice,
        Result<VoiceOutput, BlockFault>,
    ) {
        if !self.active {
            (self, Ok(VoiceOutput { dry: 0, fetched: None, loop_end: false }))
        } else {
            match noise {
                Some(sample) => (
                    self.enveloped(),
                    Ok(
                        VoiceOutput {
                            dry: self.enveloped().scaled(sample),
                            fetched: None,
                            loop_end: false,
                        },
                    ),
                ),
                None => if !self.decoded_valid && self.fetch_fault(ram) is Some {
                    (self, Err(self.fetch_fault(ram)->0))
                } else {
                    self.primed(ram).rendered_block(
                        ram,
                        pitch,
                        if self.decoded_valid {
                            None
                        } else {
                            Some(self.current_address)
                        },
                    )
                },
            }
        }
    }

    /// The state and the outcome for one output sample of a voice with a decoded
    /// block.
    pub open spec fn rendered_block(self, ram: Seq<u8>, pitch: u16, fetched: Option<usize>) -> (
        Voice,
        Result<VoiceOutput, BlockFault>,
    ) {
        let sample = self.interpolated();
        let advanced = Voice { pitch_counter: self.pitch_counter.advanced(pitch), ..self };
        let count = pitch_total(self.pitch_counter.phase, pitch) / 0x1000;
        let playback = advanced.played(ram, count as nat, fetched);
        match playback.fault {
            Some(fault) => (playback.voice, Err(fault)),
            None => {
                let voice = playback.voice.enveloped();
                (
                    voice,
                    Ok(
                        VoiceOutput {
                            dry: voice.scaled(sample),
                            fetched: playback.fetched,
                            loop_end: playback.loop_end,
                        },
                    ),
                )
            },
        }
    }

    pub fn new() -> (result: Self)
        ensures
            result.at_reset(),
            result.wf(),
    {
        Self {
            volume_left: 0,
            volume_right: 0,
            pitch: 0,
            start_address: 0,
            adsr_low: 0,
            adsr_high: 0,
            repeat_address: 0,
            current_address: 0,
            current_block_address: 0,
            envelope: Envelope::new(),
            history: AdpcmHistory { previous: 0, previous2: 0 },
            pitch_counter: PitchCounter { phase: 0 },
            decoded: [0i16;28],
            decoded_flags: AdpcmFlags { end: false, repeat: false, loop_start: false },
            sample_index: 0,
            decoded_valid: false,
            active: false,
        }
    }

    pub fn key_on(&mut self)
        requires
            old(self).wf(),
        ensures
            *final(self) == old(self).keyed_on(),
            final(self).wf(),
    {
        self.current_address = self.start_address as usize * 8;
        self.current_block_address = self.current_address;
        self.envelope.key_on();
        self.history = AdpcmHistory { previous: 0, previous2: 0 };
        self.pitch_counter.reset();
        self.sample_index = 0;
        self.decoded_valid = false;
        self.active = true;
    }

    pub fn key_off(&mut self)
        requires
            old(self).wf(),
        ensures
            *final(self) == old(self).keyed_off(),
            final(self).wf(),
    {
        self.envelope.key_off();
    }

    /// Renders one output sample.
    pub fn render(&mut self, ram: &Vec<u8>, effective_pitch: u16, noise: Option<i16>) -> (result:
        Result<VoiceOutput, BlockFault>)
        requires
            old(self).wf(),
            ram@.len() == SOUND_RAM_SIZE,
        ensures
            final(self).wf(),
            ({
                let rendered = old(self).rendered(ram@, effective_pitch, noise);
                &&& *final(self) == rendered.0
                &&& result == rendered.1
            }),
            result matches Ok(output) ==> output.fetched matches Some(address) ==> address
                < SOUND_RAM_SIZE,
    {
        if !self.active {
            return Ok(VoiceOutput { dry: 0, fetched: None, loop_end: false });
        }
        if let Some(sample) = noise {
            return Ok(
                VoiceOutput { dry: self.apply_envelope(sample), fetched: None, loop_end: false },
            );
        }
        let mut fetched: Option<usize> = None;
        if !self.decoded_valid {
            match self.decode_current(ram) {
                Ok(address) => {
                    fetched = Some(address);
                },
                Err(fault) => {
                    return Err(fault);
                },
            }
        }
        self.render_block(ram, effective_pitch, fetched)
    }

    fn render_block(
        &mut self,
        ram: &Vec<u8>,
        effective_pitch: u16,
        first_fetch: Option<usize>,
    ) -> (result: Result<VoiceOutput, BlockFault>)
        requires
            old(self).wf(),
            ram@.len() == SOUND_RAM_SIZE,
            first_fetch matches Some(address) ==> address < SOUND_RAM_SIZE,
        ensures
            final(self).wf(),
            ({
                let rendered = old(self).rendered_block(ram@, effective_pitch, first_fetch);
                &&& *final(self) == rendered.0
                &&& result == rendered.1
            }),
            result matches Ok(output) ==> output.fetched matches Some(address) ==> address
                < SOUND_RAM_SIZE,
    {
        let phase: u8 = (self.pitch_counter.phase() / 16) as u8;
        let samples = self.interpolation_window();
        let sample: i16 = GaussianInterpolator::interpolate(samples, phase);
        proof {
            assert(samples@ =~= self.window());
        }
        let step = self.pitch_counter.advance(effective_pitch);
        let ghost advanced = *self;
        let mut fetched: Option<usize> = first_fetch;
        let mut loop_end = false;
        let mut stopped = false;
        let mut index: u32 = 0;
        while index < step.whole_samples
            invariant
                self.wf(),
                ram@.len() == SOUND_RAM_SIZE,
                index <= step.whole_samples,
                fetched matches Some(address) ==> address < SOUND_RAM_SIZE,
                advanced == (Voice {
                    pitch_counter: old(self).pitch_counter.advanced(effective_pitch),
                    ..*old(self)
                }),
                step.whole_samples == pitch_total(
                    old(self).pitch_counter.phase,
                    effective_pitch,
                ) / 0x1000,
                advanced.played(ram@, index as nat, first_fetch) == (Playback {
                    voice: *self,
                    fetched,
                    loop_end,
                    stopped,
                    fault: None,
                }),
            decreases step.whole_samples - index,
        {
            proof {
                assert(advanced.played(ram@, (index + 1) as nat, first_fetch) == advanced.played(
                    ram@,
                    index as nat,
                    first_fetch,
                ).next(ram@));
            }
            if !stopped {
                self.sample_index = self.sample_index + 1;
                if self.sample_index == BLOCK_SAMPLES {
                    loop_end = loop_end || self.decoded_flags.end;
                    stopped = self.finish_block();
                    if !stopped {
                        match self.decode_current(ram) {
                            Ok(address) => {
                                fetched = Some(address);
                            },
                            Err(fault) => {
                                proof {
                                    lemma_fault_stays(
                                        advanced,
                                        ram@,
                                        (index + 1) as nat,
                                        step.whole_samples as nat,
                                        first_fetch,
                                    );
                                }
                                return Err(fault);
                            },
                        }
                    }
                }
            }
            index += 1;
        }
        Ok(VoiceOutput { dry: self.apply_envelope(sample), fetched, loop_end })
    }

    fn apply_envelope(&mut self, sample: i16) -> (result: i16)
        requires
            old(self).wf(),
        ensures
            *final(self) == old(self).enveloped(),
            final(self).wf(),
            result == final(self).scaled(sample),
    {
        let config = EnvelopeConfig::from_registers(self.adsr_low, self.adsr_high);
        self.envelope.advance(&config, 1);
        if self.envelope.phase() == EnvelopePhase::Off {
            self.active = false;
        }
        apply_level(sample, self.envelope.level())
    }

    fn sample_at(&self, ahead: usize) -> (result: i16)
        requires
            self.wf(),
            ahead <= 3,
        ensures
            result == self.neighbour(ahead - 1),
    {
        let shifted: usize = self.sample_index + ahead;
        let index: usize = if shifted == 0 {
            0
        } else if shifted - 1 > 27 {
            27
        } else {
            shifted - 1
        };
        self.decoded[index]
    }

    fn interpolation_window(&self) -> (result: [i16; 4])
        requires
            self.wf(),
        ensures
            result@ == self.window(),
    {
        let window = [self.sample_at(0), self.sample_at(1), self.sample_at(2), self.sample_at(3)];
        assert(window@ =~= self.window());
        window
    }

    fn decode_current(&mut self, ram: &Vec<u8>) -> (result: Result<usize, BlockFault>)
        requires
            old(self).wf(),
            ram@.len() == SOUND_RAM_SIZE,
        ensures
            final(self).wf(),
            *final(self) == old(self).fetched(ram@),
            match result {
                Ok(address) => {
                    &&& address == old(self).current_address
                    &&& old(self).fetch_fault(ram@) is None
                },
                Err(fault) => old(self).fetch_fault(ram@) == Some(fault),
            },
    {
        let address: usize = self.current_address;
        let block = read_block(ram, address);
        match decode_block(&block, &mut self.history) {
            Ok(decoded) => {
                self.decoded = decoded.samples;
                self.decoded_flags = decoded.flags;
                self.current_block_address = address;
                if decoded.flags.loop_start {
                    self.repeat_address = (address / 8) as u16;
                }
                self.sample_index = 0;
                self.decoded_valid = true;
                Ok(address)
            },
            Err(error) => Err((address, error)),
        }
    }

    fn finish_block(&mut self) -> (result: bool)
        requires
            old(self).current_block_address < SOUND_RAM_SIZE,
            old(self).current_address < SOUND_RAM_SIZE,
            old(self).envelope.wf(),
            old(self).pitch_counter.wf(),
        ensures
            *final(self) == old(self).block_finished(),
            result == old(self).ends(),
            final(self).wf(),
    {
        let flags = self.decoded_flags;
        self.decoded_valid = false;
        self.sample_index = 0;
        if flags.end {
            if flags.repeat {
                self.current_address = self.repeat_address as usize * 8;
            } else {
                self.envelope = Envelope::new();
                self.active = false;
                return true;
            }
        } else {
            self.current_address = (self.current_block_address + 16) % SOUND_RAM_SIZE;
        }
        false
    }
}

impl Playback {
    /// Playback one source sample later. A voice that stopped or met a fault stays.
    pub open spec fn next(self, ram: Seq<u8>) -> Playback {
        let moved = Voice {
            sample_index: (self.voice.sample_index + 1) as usize,
            ..self.voice
        };
        if self.stopped || self.fault is Some {
            self
        } else if moved.sample_index != 28 {
            Playback { voice: moved, ..self }
        } else {
            let finished = moved.block_finished();
            let ended = Playback { loop_end: self.loop_end || moved.decoded_flags.end, ..self };
            if moved.ends() {
                Playback { voice: finished, stopped: true, ..ended }
            } else {
                match finished.fetch_fault(ram) {
                    Some(fault) => Playback { voice: finished, fault: Some(fault), ..ended },
                    None => Playback {
                        voice: finished.fetched(ram),
                        fetched: Some(finished.current_address),
                        ..ended
                    },
                }
            }
        }
    }
}

/// A fault ends playback.
proof fn lemma_fault_stays(
    voice: Voice,
    ram: Seq<u8>,
    early: nat,
    late: nat,
    fetched: Option<usize>,
)
    requires
        early <= late,
        voice.played(ram, early, fetched).fault is Some,
    ensures
        voice.played(ram, late, fetched) == voice.played(ram, early, fetched),
    decreases late - early,
{
    if early < late {
        lemma_fault_stays(voice, ram, early, (late - 1) as nat, fetched);
    }
}

} // verus!
