//! One SPU2 voice: ADPCM playback with look-ahead, interpolation, and envelope.

use vstd::prelude::*;

use crate::ps2::effects::{normalize_address, normalized, SOUND_RAM_SIZE};
use crate::spu_common::adpcm::{
    block_decoded, block_history, decode_block, AdpcmFlags, AdpcmHistory, DecodedBlock,
};
use crate::spu_common::adsr::{config_of, Envelope, EnvelopeConfig, EnvelopePhase};
use crate::spu_common::fixed::clamp16;
use crate::spu_common::interpolation::{gaussian_sum, GaussianInterpolator};
use crate::spu_common::mixer::{
    apply_level, at_level, block_at, read_block, BlockFault, VoiceOutput,
};
use crate::spu_common::pitch::{pitch_total, PitchCounter};

verus! {

/// Samples in a decoded block.
pub const BLOCK_SAMPLES: usize = 28;

/// The next block, decoded ahead for interpolation across the block boundary.
#[verifier::ext_equal]
#[derive(Clone, Copy, Debug, PartialEq, Eq)]
pub struct PreparedBlock {
    pub address: usize,
    pub decoded: DecodedBlock,
    pub history_before: AdpcmHistory,
}

/// State of one hardware voice.
#[verifier::ext_equal]
#[derive(Clone, Copy, Debug, PartialEq, Eq)]
pub struct Voice {
    pub volume_left: u16,
    pub volume_right: u16,
    pub pitch: u16,
    pub adsr_low: u16,
    pub adsr_high: u16,
    pub start_address: u32,
    pub repeat_address: u32,
    pub current_address: usize,
    pub current_block_address: usize,
    pub decoded: [i16; 28],
    pub decoded_flags: AdpcmFlags,
    pub decoded_valid: bool,
    pub prepared: Option<PreparedBlock>,
    pub sample_index: usize,
    pub previous_sample: i16,
    pub history: AdpcmHistory,
    pub envelope: Envelope,
    pub pitch_counter: PitchCounter,
    pub active: bool,
}

/// How playback stands after some samples.
#[verifier::ext_equal]
pub ghost struct Playback {
    pub voice: Voice,
    pub fetched: Option<usize>,
    pub loop_end: bool,
    /// The voice ran out of blocks.
    pub stopped: bool,
    pub fault: Option<BlockFault>,
}

impl Voice {
    /// Addresses are in sound RAM, the sample index is in the block, and the envelope
    /// and the pitch counter are valid.
    pub open spec fn wf(self) -> bool {
        &&& self.current_address < SOUND_RAM_SIZE
        &&& self.current_block_address < SOUND_RAM_SIZE
        &&& self.sample_index < 28
        &&& self.envelope.wf()
        &&& self.pitch_counter.wf()
        &&& self.prepared matches Some(prepared) ==> prepared.address < SOUND_RAM_SIZE
    }

    /// Reset state.
    pub open spec fn at_reset(self) -> bool {
        &&& self.volume_left == 0
        &&& self.volume_right == 0
        &&& self.pitch == 0
        &&& self.adsr_low == 0
        &&& self.adsr_high == 0
        &&& self.start_address == 0
        &&& self.repeat_address == 0
        &&& self.current_address == 0
        &&& self.current_block_address == 0
        &&& forall|i: int| 0 <= i < 28 ==> #[trigger] self.decoded@[i] == 0
        &&& self.decoded_flags == (AdpcmFlags { end: false, repeat: false, loop_start: false })
        &&& !self.decoded_valid
        &&& self.prepared is None
        &&& self.sample_index == 0
        &&& self.previous_sample == 0
        &&& self.history == (AdpcmHistory { previous: 0, previous2: 0 })
        &&& self.envelope == Envelope::silent()
        &&& self.pitch_counter == (PitchCounter { phase: 0 })
        &&& !self.active
    }

    /// The state after key-on: playback restarts at the start address.
    pub open spec fn keyed_on(self) -> Voice {
        Voice {
            current_address: normalized(self.start_address) as usize,
            current_block_address: normalized(self.start_address) as usize,
            decoded_valid: false,
            prepared: None,
            sample_index: 0,
            previous_sample: 0,
            history: AdpcmHistory { previous: 0, previous2: 0 },
            envelope: Envelope::keyed_on(),
            pitch_counter: PitchCounter { phase: 0 },
            active: true,
            ..self
        }
    }

    /// The state after key-off: the envelope releases.
    pub open spec fn keyed_off(self) -> Voice {
        Voice { envelope: self.envelope.keyed_off(), ..self }
    }

    /// The state with a decoded block under the playback position.
    pub open spec fn installed(self, address: usize, decoded: DecodedBlock) -> Voice {
        Voice {
            decoded: decoded.samples,
            decoded_flags: decoded.flags,
            current_block_address: address,
            current_address: address,
            repeat_address: if decoded.flags.loop_start {
                address as u32
            } else {
                self.repeat_address
            },
            sample_index: 0,
            decoded_valid: true,
            ..self
        }
    }

    /// The state after the block at the current address was decoded. A block with an
    /// undefined header changes nothing.
    pub open spec fn fetched(self, ram: Seq<u8>) -> Voice {
        let block = block_at(ram, self.current_address as int);
        match block_decoded(block, self.history) {
            Ok(decoded) => Voice { history: block_history(block, self.history), ..self }.installed(
                self.current_address,
                decoded,
            ),
            Err(_) => self,
        }
    }

    /// Why the block at `address` cannot be decoded, if it cannot.
    pub open spec fn fault_at(self, ram: Seq<u8>, address: usize) -> Option<BlockFault> {
        match block_decoded(block_at(ram, address as int), self.history) {
            Ok(_) => None,
            Err(error) => Some((address, error)),
        }
    }

    /// Whether the block that is played is the last one.
    pub open spec fn ends(self) -> bool {
        self.decoded_flags.end && !self.decoded_flags.repeat
    }

    /// The address of the block after the one that is played.
    pub open spec fn next_address(self) -> usize {
        if self.decoded_flags.end {
            normalized(self.repeat_address) as usize
        } else {
            ((self.current_block_address + 16) % SOUND_RAM_SIZE as int) as usize
        }
    }

    /// Whether the next block has to be decoded ahead: interpolation reaches past the
    /// end of this one, and there is a next one that is not decoded yet.
    pub open spec fn looks_ahead(self) -> bool {
        self.sample_index + 2 >= 28 && self.prepared is None && !self.ends()
    }

    /// The state with the next block decoded ahead.
    pub open spec fn looked_ahead(self, ram: Seq<u8>) -> Voice {
        let block = block_at(ram, self.next_address() as int);
        match block_decoded(block, self.history) {
            Ok(decoded) => Voice {
                history: block_history(block, self.history),
                prepared: Some(
                    PreparedBlock {
                        address: self.next_address(),
                        decoded,
                        history_before: self.history,
                    },
                ),
                ..self
            },
            Err(_) => self,
        }
    }

    /// The state after a block was played out: the voice stops, or goes on with the
    /// next block. A block that was decoded ahead is used if it is that one; otherwise
    /// its effect on the decoder is taken back.
    pub open spec fn block_finished(self) -> Voice {
        let idle = Voice {
            previous_sample: self.decoded@[27],
            decoded_valid: false,
            sample_index: 0,
            ..self
        };
        if self.ends() {
            Voice { envelope: Envelope::silent(), active: false, prepared: None, ..idle }
        } else {
            let next = Voice { current_address: self.next_address(), prepared: None, ..idle };
            match self.prepared {
                None => next,
                Some(prepared) => if prepared.address == self.next_address() {
                    next.installed(prepared.address, prepared.decoded)
                } else {
                    Voice { history: prepared.history_before, ..next }
                },
            }
        }
    }

    /// The sample `relative` to the current one: the last sample of the block before,
    /// of this block, or of the block that was decoded ahead.
    pub open spec fn neighbour(self, relative: int) -> i16 {
        let index = self.sample_index + relative;
        if index < 0 {
            self.previous_sample
        } else if index < 28 {
            self.decoded@[index]
        } else {
            match self.prepared {
                Some(prepared) => prepared.decoded.samples@[index - 28],
                None => self.decoded@[27],
            }
        }
    }

    /// The four samples around the playback position.
    pub open spec fn window(self) -> Seq<i16> {
        seq![self.neighbour(-1), self.neighbour(0), self.neighbour(1), self.neighbour(2)]
    }

    /// The interpolated sample at the playback position.
    pub open spec fn interpolated(self) -> i16 {
        clamp16(gaussian_sum(self.window(), (self.pitch_counter.phase / 16) as u8)) as i16
    }

    /// The state after the envelope took one clock; a voice whose envelope ran out is
    /// no longer active.
    pub open spec fn enveloped(self) -> Voice {
        let envelope = self.envelope.after(config_of(self.adsr_low, self.adsr_high), 1);
        Voice {
            envelope,
            active: self.active && envelope.phase != EnvelopePhase::Off,
            ..self
        }
    }

    /// Playback after `count` source samples.
    pub open spec fn played(self, ram: Seq<u8>, count: nat, fetched: Option<usize>) -> Playback
        decreases count,
    {
        if count == 0 {
            Playback { voice: self, fetched, loop_end: false, stopped: false, fault: None }
        } else {
            self.played(ram, (count - 1) as nat, fetched).next(ram)
        }
    }

    /// The state and the outcome for one output sample.
    pub open spec fn rendered(self, ram: Seq<u8>, pitch: u16, noise: Option<i16>) -> (
        Voice,
        Result<VoiceOutput, BlockFault>,
    ) {
        if !self.active {
            (self, Ok(VoiceOutput { dry: 0, fetched: None, loop_end: false }))
        } else {
            match noise {
                Some(sample) => (
                    self.enveloped(),
                    Ok(
                        VoiceOutput {
                            dry: at_level(sample, self.enveloped().envelope.level),
                            fetched: None,
                            loop_end: false,
                        },
                    ),
                ),
                None => if self.decoded_valid {
                    self.rendered_ahead(ram, pitch, None)
                } else {
                    match self.fault_at(ram, self.current_address) {
                        Some(fault) => (self, Err(fault)),
                        None => self.fetched(ram).rendered_ahead(
                            ram,
                            pitch,
                            Some(self.current_address),
                        ),
                    }
                },
            }
        }
    }

    /// The state and the outcome for one output sample of a voice with a decoded block,
    /// before the next block is decoded ahead.
    pub open spec fn rendered_ahead(self, ram: Seq<u8>, pitch: u16, fetched: Option<usize>) -> (
        Voice,
        Result<VoiceOutput, BlockFault>,
    ) {
        if !self.looks_ahead() {
            self.rendered_block(ram, pitch, fetched)
        } else {
            match self.fault_at(ram, self.next_address()) {
                Some(fault) => (self, Err(fault)),
                None => self.looked_ahead(ram).rendered_block(
                    ram,
                    pitch,
                    Some(self.next_address()),
                ),
            }
        }
    }

    /// The state and the outcome for one output sample of a voice with all blocks that
    /// interpolation needs.
    pub open spec fn rendered_block(self, ram: Seq<u8>, pitch: u16, fetched: Option<usize>) -> (
        Voice,
        Result<VoiceOutput, BlockFault>,
    ) {
        let sample = self.interpolated();
        let advanced = Voice { pitch_counter: self.pitch_counter.advanced(pitch), ..self };
        let count = pitch_total(self.pitch_counter.phase, pitch) / 0x1000;
        let playback = advanced.played(ram, count as nat, fetched);
        match playback.fault {
            Some(fault) => (playback.voice, Err(fault)),
            None => {
                let voice = playback.voice.enveloped();
                (
                    voice,
                    Ok(
                        VoiceOutput {
                            dry: at_level(sample, voice.envelope.level),
                            fetched: playback.fetched,
                            loop_end: playback.loop_end,
                        },
                    ),
                )
            },
        }
    }

    pub fn new() -> (result: Self)
        ensures
            result.at_reset(),
            result.wf(),
    {
        Self {
            volume_left: 0,
            volume_right: 0,
            pitch: 0,
            adsr_low: 0,
            adsr_high: 0,
            start_address: 0,
            repeat_address: 0,
            current_address: 0,
            current_block_address: 0,
            decoded: [0i16;28],
            decoded_flags: AdpcmFlags { end: false, repeat: false, loop_start: false },
            decoded_valid: false,
            prepared: None,
            sample_index: 0,
            previous_sample: 0,
            history: AdpcmHistory { previous: 0, previous2: 0 },
            envelope: Envelope::new(),
            pitch_counter: PitchCounter { phase: 0 },
            active: false,
        }
    }

    pub fn key_on(&mut self)
        requires
            old(self).wf(),
        ensures
            *final(self) == old(self).keyed_on(),
            final(self).wf(),
    {
        self.current_address = normalize_address(self.start_address);
        self.current_block_address = self.current_address;
        self.decoded_valid = false;
        self.prepared = None;
        self.sample_index = 0;
        self.previous_sample = 0;
        self.history = AdpcmHistory { previous: 0, previous2: 0 };
        self.envelope.key_on();
        self.pitch_counter.reset();
        self.active = true;
    }

    pub fn key_off(&mut self)
        requires
            old(self).wf(),
        ensures
            *final(self) == old(self).keyed_off(),
            final(self).wf(),
    {
        self.envelope.key_off();
    }

    /// Renders one output sample.
    pub fn render(&mut self, ram: &Vec<u8>, effective_pitch: u16, noise: Option<i16>) -> (result:
        Result<VoiceOutput, BlockFault>)
        requires
            old(self).wf(),
            ram@.len() == SOUND_RAM_SIZE,
        ensures
            final(self).wf(),
            ({
                let rendered = old(self).rendered(ram@, effective_pitch, noise);
                &&& *final(self) == rendered.0
                &&& result == rendered.1
            }),
            result matches Ok(output) ==> output.fetched matches Some(address) ==> address
                < SOUND_RAM_SIZE,
    {
        if !self.active {
            return Ok(VoiceOutput { dry: 0, fetched: None, loop_end: false });
        }
        if let Some(sample) = noise {
            return Ok(
                VoiceOutput { dry: self.apply_envelope(sample), fetched: None, loop_end: false },
            );
        }
        let mut fetched: Option<usize> = None;
        if !self.decoded_valid {
            match self.decode_current(ram) {
                Ok(address) => {
                    fetched = Some(address);
                },
                Err(fault) => {
                    return Err(fault);
                },
            }
        }
        if self.sample_index + 2 >= BLOCK_SAMPLES {
            match self.prepare_next(ram) {
                Ok(Some(address)) => {
                    fetched = Some(address);
                },
                Ok(None) => {},
                Err(fault) => {
                    return Err(fault);
                },
            }
        }
        self.render_block(ram, effective_pitch, fetched)
    }

    fn render_block(
        &mut self,
        ram: &Vec<u8>,
        effective_pitch: u16,
        first_fetch: Option<usize>,
    ) -> (result: Result<VoiceOutput, BlockFault>)
        requires
            old(self).wf(),
            ram@.len() == SOUND_RAM_SIZE,
            first_fetch matches Some(address) ==> address < SOUND_RAM_SIZE,
        ensures
            final(self).wf(),
            ({
                let rendered = old(self).rendered_block(ram@, effective_pitch, first_fetch);
                &&& *final(self) == rendered.0
                &&& result == rendered.1
            }),
            result matches Ok(output) ==> output.fetched matches Some(address) ==> address
                < SOUND_RAM_SIZE,
    {
        let phase: u8 = (self.pitch_counter.phase() / 16) as u8;
        let samples = self.interpolation_window();
        let sample: i16 = GaussianInterpolator::interpolate(samples, phase);
        proof {
            assert(samples@ =~= self.window());
        }
        let step = self.pitch_counter.advance(effective_pitch);
        let ghost advanced = *self;
        let mut fetched: Option<usize> = first_fetch;
        let mut loop_end = false;
        let mut stopped = false;
        let mut index: u32 = 0;
        while index < step.whole_samples
            invariant
                self.wf(),
                ram@.len() == SOUND_RAM_SIZE,
                index <= step.whole_samples,
                fetched matches Some(address) ==> address < SOUND_RAM_SIZE,
                advanced == (Voice {
                    pitch_counter: old(self).pitch_counter.advanced(effective_pitch),
                    ..*old(self)
                }),
                step.whole_samples == pitch_total(
                    old(self).pitch_counter.phase,
                    effective_pitch,
                ) / 0x1000,
                advanced.played(ram@, index as nat, first_fetch) == (Playback {
                    voice: *self,
                    fetched,
                    loop_end,
                    stopped,
                    fault: None,
                }),
            decreases step.whole_samples - index,
        {
            proof {
                assert(advanced.played(ram@, (index + 1) as nat, first_fetch) == advanced.played(
                    ram@,
                    index as nat,
                    first_fetch,
                ).next(ram@));
            }
            if !stopped {
                self.sample_index = self.sample_index + 1;
                if self.sample_index == BLOCK_SAMPLES {
                    loop_end = loop_end || self.decoded_flags.end;
                    stopped = self.finish_block();
                    if !stopped && !self.decoded_valid {
                        match self.decode_current(ram) {
                            Ok(address) => {
                                fetched = Some(address);
                            },
                            Err(fault) => {
                                proof {
                                    lemma_fault_stays(
                                        advanced,
                                        ram@,
                                        (index + 1) as nat,
                                        step.whole_samples as nat,
                                        first_fetch,
                                    );
                                }
                                return Err(fault);
                            },
                        }
                    }
                }
            }
            index += 1;
        }
        Ok(VoiceOutput { dry: self.apply_envelope(sample), fetched, loop_end })
    }

    fn apply_envelope(&mut self, sample: i16) -> (result: i16)
        requires
            old(self).wf(),
        ensures
            *final(self) == old(self).enveloped(),
            final(self).wf(),
            result == at_level(sample, final(self).envelope.level),
    {
        let config = EnvelopeConfig::from_registers(self.adsr_low, self.adsr_high);
        self.envelope.advance(&config, 1);
        if self.envelope.phase() == EnvelopePhase::Off {
            self.active = false;
        }
        apply_level(sample, self.envelope.level())
    }

    fn sample_at(&self, ahead: usize) -> (result: i16)
        requires
            self.wf(),
            ahead <= 3,
        ensures
            result == self.neighbour(ahead - 1),
    {
        let shifted: usize = self.sample_index + ahead;
        if shifted == 0 {
            return self.previous_sample;
        }
        if shifted <= BLOCK_SAMPLES {
            return self.decoded[shifted - 1];
        }
        match &self.prepared {
            Some(prepared) => prepared.decoded.samples[shifted - 1 - BLOCK_SAMPLES],
            None => self.decoded[BLOCK_SAMPLES - 1],
        }
    }

    fn interpolation_window(&self) -> (result: [i16; 4])
        requires
            self.wf(),
        ensures
            result@ == self.window(),
    {
        let window = [self.sample_at(0), self.sample_at(1), self.sample_at(2), self.sample_at(3)];
        assert(window@ =~= self.window());
        window
    }

    fn decode_current(&mut self, ram: &Vec<u8>) -> (result: Result<usize, BlockFault>)
        requires
            old(self).wf(),
            ram@.len() == SOUND_RAM_SIZE,
        ensures
            final(self).wf(),
            *final(self) == old(self).fetched(ram@),
            match result {
                Ok(address) => {
                    &&& address == old(self).current_address
                    &&& old(self).fault_at(ram@, address) is None
                },
                Err(fault) => old(self).fault_at(ram@, old(self).current_address) == Some(fault),
            },
    {
        let address: usize = self.current_address;
        let block = read_block(ram, address);
        match decode_block(&block, &mut self.history) {
            Ok(decoded) => {
                self.install_block(address, decoded);
                Ok(address)
            },
            Err(error) => Err((address, error)),
        }
    }

    fn prepare_next(&mut self, ram: &Vec<u8>) -> (result: Result<Option<usize>, BlockFault>)
        requires
            old(self).wf(),
            old(self).sample_index + 2 >= 28,
            ram@.len() == SOUND_RAM_SIZE,
        ensures
            final(self).wf(),
            *final(self) == if old(self).looks_ahead() {
                old(self).looked_ahead(ram@)
            } else {
                *old(self)
            },
            match result {
                Ok(Some(address)) => {
                    &&& old(self).looks_ahead()
                    &&& address == old(self).next_address()
                    &&& address < SOUND_RAM_SIZE
                    &&& old(self).fault_at(ram@, address) is None
                },
                Ok(None) => !old(self).looks_ahead(),
                Err(fault) => {
                    &&& old(self).looks_ahead()
                    &&& old(self).fault_at(ram@, old(self).next_address()) == Some(fault)
                },
            },
    {
        if let Some(_) = &self.prepared {
            return Ok(None);
        }
        let address: usize = match self.next_block_address() {
            Some(address) => address,
            None => {
                return Ok(None);
            },
        };
        let history_before = self.history;
        let block = read_block(ram, address);
        match decode_block(&block, &mut self.history) {
            Ok(decoded) => {
                self.prepared = Some(PreparedBlock { address, decoded, history_before });
                Ok(Some(address))
            },
            Err(error) => Err((address, error)),
        }
    }

    fn next_block_address(&self) -> (result: Option<usize>)
        requires
            self.current_block_address < SOUND_RAM_SIZE,
        ensures
            match result {
                Some(address) => !self.ends() && address == self.next_address() && address
                    < SOUND_RAM_SIZE,
                None => self.ends(),
            },
    {
        if self.decoded_flags.end {
            if self.decoded_flags.repeat {
                Some(normalize_address(self.repeat_address))
            } else {
                None
            }
        } else {
            Some((self.current_block_address + 16) % SOUND_RAM_SIZE)
        }
    }

    fn install_block(&mut self, address: usize, decoded: DecodedBlock)
        requires
            address < SOUND_RAM_SIZE,
        ensures
            *final(self) == old(self).installed(address, decoded),
    {
        self.decoded = decoded.samples;
        self.decoded_flags = decoded.flags;
        self.current_block_address = address;
        self.current_address = address;
        if decoded.flags.loop_start {
            self.repeat_address = address as u32;
        }
        self.sample_index = 0;
        self.decoded_valid = true;
    }

    fn finish_block(&mut self) -> (result: bool)
        requires
            old(self).current_block_address < SOUND_RAM_SIZE,
            old(self).current_address < SOUND_RAM_SIZE,
            old(self).envelope.wf(),
            old(self).pitch_counter.wf(),
            old(self).prepared matches Some(prepared) ==> prepared.address < SOUND_RAM_SIZE,
        ensures
            *final(self) == old(self).block_finished(),
            result == old(self).ends(),
            final(self).wf(),
    {
        let next = self.next_block_address();
        self.previous_sample = self.decoded[BLOCK_SAMPLES - 1];
        self.decoded_valid = false;
        self.sample_index = 0;
        let next_address: usize = match next {
            Some(address) => address,
            None => {
                self.envelope = Envelope::new();
                self.active = false;
                self.prepared = None;
                return true;
            },
        };
        self.current_address = next_address;
        let prepared = self.prepared;
        self.prepared = None;
        if let Some(prepared) = prepared {
            if prepared.address == next_address {
                self.install_block(prepared.address, prepared.decoded);
            } else {
                self.history = prepared.history_before;
            }
        }
        false
    }
}

impl Playback {
    /// Playback one source sample later. A voice that stopped or met a fault stays.
    pub open spec fn next(self, ram: Seq<u8>) -> Playback {
        let moved = Voice {
            sample_index: (self.voice.sample_index + 1) as usize,
            ..self.voice
        };
        if self.stopped || self.fault is Some {
            self
        } else if moved.sample_index != 28 {
            Playback { voice: moved, ..self }
        } else {
            let finished = moved.block_finished();
            let ended = Playback {
                voice: finished,
                loop_end: self.loop_end || moved.decoded_flags.end,
                ..self
            };
            if moved.ends() {
                Playback { stopped: true, ..ended }
            } else if finished.decoded_valid {
                ended
            } else {
                match finished.fault_at(ram, finished.current_address) {
                    Some(fault) => Playback { fault: Some(fault), ..ended },
                    None => Playback {
                        voice: finished.fetched(ram),
                        fetched: Some(finished.current_address),
                        ..ended
                    },
                }
            }
        }
    }
}

/// A fault ends playback.
proof fn lemma_fault_stays(
    voice: Voice,
    ram: Seq<u8>,
    early: nat,
    late: nat,
    fetched: Option<usize>,
)
    requires
        early <= late,
        voice.played(ram, early, fetched).fault is Some,
    ensures
        voice.played(ram, late, fetched) == voice.played(ram, early, fetched),
    decreases late - early,
{
    if early < late {
        lemma_fault_stays(voice, ram, early, (late - 1) as nat, fetched);
    }
}

} // verus!
