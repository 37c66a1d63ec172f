//! How a PS1 voice walks through sound RAM and what it puts out.

use vstd::prelude::*;

use crate::ps1::voice::{Playback, Voice};
use crate::spu_common::adpcm::{block_decoded, block_history, AdpcmHistory, DecodedBlock};
use crate::spu_common::adsr::{config_of, EnvelopePhase};
use crate::spu_common::fixed::clamp16;
use crate::spu_common::interpolation::gaussian_sum;
use crate::spu_common::laws::{
    is_floor, is_saturated, law_block_header, law_envelope_volume, law_pitch_moves_the_position,
};
use crate::spu_common::mixer::block_at;

verus! {

/// The sixteen bytes of sound RAM from `address` on, round its end.
pub open spec fn bytes_at(ram: Seq<u8>, address: int) -> Seq<u8> {
    Seq::new(16, |i: int| ram[(address + i) % 0x8_0000])
}

/// The predictor after `count` consecutive blocks from `address` on.
pub open spec fn history_after(
    ram: Seq<u8>,
    address: int,
    history: AdpcmHistory,
    count: nat,
) -> AdpcmHistory
    decreases count,
{
    if count == 0 {
        history
    } else {
        let before = history_after(ram, address, history, (count - 1) as nat);
        match block_decoded(bytes_at(ram, address + 16 * (count - 1)), before) {
            Ok(decoded) => AdpcmHistory {
                previous: decoded.samples@[27],
                previous2: decoded.samples@[26],
            },
            Err(_) => before,
        }
    }
}

/// Block `index` of the consecutive ones from `address` on, decoded after those before it.
pub open spec fn block_of(
    ram: Seq<u8>,
    address: int,
    history: AdpcmHistory,
    index: nat,
) -> DecodedBlock {
    block_decoded(
        bytes_at(ram, address + 16 * index),
        history_after(ram, address, history, index),
    )->Ok_0
}

/// The first `count` blocks from `address` on decode.
pub open spec fn are_blocks(
    ram: Seq<u8>,
    address: int,
    history: AdpcmHistory,
    count: nat,
) -> bool {
    forall|i: nat|
        i < count ==> block_decoded(
            #[trigger] bytes_at(ram, address + 16 * i),
            history_after(ram, address, history, i),
        ) is Ok
}

/// None of the first `count` blocks from `address` on has the end flag.
pub open spec fn run_on(ram: Seq<u8>, address: int, count: nat) -> bool {
    forall|i: nat| i < count ==> #[trigger] bytes_at(ram, address + 16 * i)[1] % 2 == 0
}

proof fn lemma_bytes(ram: Seq<u8>, address: int)
    requires
        ram.len() == 0x8_0000,
    ensures
        block_at(ram, address % 0x8_0000) == bytes_at(ram, address),
{
    assert forall|i: int| 0 <= i < 16 implies block_at(ram, address % 0x8_0000)[i]
        == #[trigger] bytes_at(ram, address)[i] by {
        vstd::arithmetic::div_mod::lemma_add_mod_noop_right(i, address, 0x8_0000);
    }
    assert(block_at(ram, address % 0x8_0000) =~= bytes_at(ram, address));
}

/// Playback of consecutive blocks stands at a sample of a block.
spec fn is_at(
    playback: Playback,
    ram: Seq<u8>,
    address: int,
    history: AdpcmHistory,
    index: nat,
    offset: nat,
) -> bool {
    &&& playback.fault is None
    &&& !playback.stopped
    &&& playback.voice.decoded_valid
    &&& playback.voice.sample_index == offset
    &&& playback.voice.current_block_address == (address + 16 * index) % 0x8_0000
    &&& playback.voice.decoded == block_of(ram, address, history, index).samples
    &&& playback.voice.decoded_flags == block_of(ram, address, history, index).flags
    &&& playback.voice.history == history_after(ram, address, history, index + 1)
}

proof fn lemma_cross(
    playback: Playback,
    ram: Seq<u8>,
    address: int,
    history: AdpcmHistory,
    index: nat,
)
    requires
        ram.len() == 0x8_0000,
        are_blocks(ram, address, history, index + 2),
        run_on(ram, address, index + 1),
        is_at(playback, ram, address, history, index, 27),
    ensures
        is_at(playback.next(ram), ram, address, history, index + 1, 0),
{
    let here = address + 16 * index;
    let there = address + 16 * (index + 1);
    let before = history_after(ram, address, history, index);
    let after = history_after(ram, address, history, index + 1);
    assert(bytes_at(ram, here)[1] % 2 == 0);
    assert(block_decoded(bytes_at(ram, here), before) is Ok);
    assert(block_decoded(bytes_at(ram, there), after) is Ok);
    law_block_header(bytes_at(ram, here), before);
    law_block_header(bytes_at(ram, there), after);
    lemma_bytes(ram, there);
    vstd::arithmetic::div_mod::lemma_add_mod_noop_right(16, here, 0x8_0000);
    assert((here % 0x8_0000 + 16) % 0x8_0000 == there % 0x8_0000);
    assert(history_after(ram, address, history, index + 2) == block_history(
        bytes_at(ram, there),
        after,
    ));
}

proof fn lemma_walk(
    voice: Voice,
    ram: Seq<u8>,
    address: int,
    history: AdpcmHistory,
    index: nat,
    offset: nat,
    fetched: Option<usize>,
)
    requires
        ram.len() == 0x8_0000,
        offset < 28,
        are_blocks(ram, address, history, index + 1),
        run_on(ram, address, index),
        is_at(voice.played(ram, 0, fetched), ram, address, history, 0, 0),
    ensures
        is_at(
            voice.played(ram, 28 * index + offset, fetched),
            ram,
            address,
            history,
            index,
            offset,
        ),
    decreases index, offset,
{
    let count = 28 * index + offset;
    if count > 0 {
        assert(voice.played(ram, count, fetched) == voice.played(
            ram,
            (count - 1) as nat,
            fetched,
        ).next(ram));
    }
    if offset > 0 {
        lemma_walk(voice, ram, address, history, index, (offset - 1) as nat, fetched);
    } else if index > 0 {
        let earlier = (index - 1) as nat;
        lemma_walk(voice, ram, address, history, earlier, 27, fetched);
        lemma_cross(voice.played(ram, (count - 1) as nat, fetched), ram, address, history, earlier);
    }
}

/// Playback is gapless: as long as no block has the end flag, a voice plays the blocks of
/// sound RAM sixteen bytes apart, each of its 28 samples once and in order, with the
/// predictor carried on from block to block. Interpolation sees the sample before and the
/// two after, inside the block.
pub proof fn law_playback_is_gapless(
    voice: Voice,
    ram: Seq<u8>,
    blocks: nat,
    offset: nat,
    fetched: Option<usize>,
)
    requires
        ram.len() == 0x8_0000,
        offset < 28,
        are_blocks(
            ram,
            voice.start_address * 8,
            AdpcmHistory { previous: 0, previous2: 0 },
            blocks + 1,
        ),
        run_on(ram, voice.start_address * 8, blocks),
    ensures
        ({
            let first = voice.keyed_on().primed(ram);
            let playback = first.played(ram, 28 * blocks + offset, fetched);
            let samples = block_of(
                ram,
                voice.start_address * 8,
                AdpcmHistory { previous: 0, previous2: 0 },
                blocks,
            ).samples@;
            &&& playback.fault is None
            &&& !playback.stopped
            &&& playback.voice.window()[1] == samples[offset as int]
            &&& playback.voice.window()[0] == samples[if offset == 0 {
                0
            } else {
                offset - 1
            }]
            &&& playback.voice.window()[2] == samples[if offset == 27 {
                27
            } else {
                offset as int + 1
            }]
            &&& playback.voice.window()[3] == samples[if offset >= 26 {
                27
            } else {
                offset as int + 2
            }]
            &&& playback.voice.current_block_address == (voice.start_address * 8 + 16 * blocks)
                % 0x8_0000
        }),
{
    let address = voice.start_address * 8;
    let history = AdpcmHistory { previous: 0, previous2: 0 };
    let first = voice.keyed_on().primed(ram);
    lemma_bytes(ram, address);
    assert(address + 16 * 0nat == address);
    assert(block_decoded(bytes_at(ram, address + 16 * 0nat), history) is Ok);
    law_block_header(bytes_at(ram, address), history);
    assert(history_after(ram, address, history, 0) == history);
    assert(history_after(ram, address, history, 1) == block_history(
        bytes_at(ram, address),
        history,
    ));
    assert(is_at(first.played(ram, 0, fetched), ram, address, history, 0, 0));
    lemma_walk(first, ram, address, history, blocks, offset, fetched);
}

/// The block after one that is played out without the end flag is the one sixteen bytes
/// further on, wherever playback stands.
pub proof fn law_next_block_follows(voice: Voice, ram: Seq<u8>, fetched: Option<usize>)
    requires
        voice.wf(),
        ram.len() == 0x8_0000,
        voice.sample_index == 27,
        !voice.decoded_flags.end,
        block_decoded(
            bytes_at(ram, voice.current_block_address + 16),
            voice.history,
        ) is Ok,
    ensures
        ({
            let playback = voice.played(ram, 1, fetched);
            let decoded = block_decoded(
                bytes_at(ram, voice.current_block_address + 16),
                voice.history,
            )->Ok_0;
            let address = (voice.current_block_address + 16) % 0x8_0000;
            &&& playback.fault is None
            &&& !playback.stopped
            &&& !playback.loop_end
            &&& playback.fetched == Some(address as usize)
            &&& playback.voice.current_block_address == address
            &&& playback.voice.sample_index == 0
            &&& playback.voice.decoded@ == decoded.samples@
            &&& playback.voice.decoded_flags == decoded.flags
            &&& playback.voice.active == voice.active
            &&& playback.voice.envelope == voice.envelope
        }),
{
    reveal_with_fuel(Voice::played, 2);
    lemma_bytes(ram, voice.current_block_address + 16);
}

/// After a block with the end and repeat flags the voice goes on at the repeat address,
/// which counts in eight bytes, and the end is reported.
pub proof fn law_loop_continues_at_the_repeat_address(
    voice: Voice,
    ram: Seq<u8>,
    fetched: Option<usize>,
)
    requires
        voice.wf(),
        ram.len() == 0x8_0000,
        voice.sample_index == 27,
        voice.decoded_flags.end,
        voice.decoded_flags.repeat,
        block_decoded(bytes_at(ram, voice.repeat_address * 8), voice.history) is Ok,
    ensures
        ({
            let playback = voice.played(ram, 1, fetched);
            let decoded = block_decoded(
                bytes_at(ram, voice.repeat_address * 8),
                voice.history,
            )->Ok_0;
            &&& playback.fault is None
            &&& !playback.stopped
            &&& playback.loop_end
            &&& playback.fetched == Some((voice.repeat_address * 8) as usize)
            &&& playback.voice.current_block_address == voice.repeat_address * 8
            &&& playback.voice.sample_index == 0
            &&& playback.voice.decoded@ == decoded.samples@
            &&& playback.voice.decoded_flags == decoded.flags
            &&& playback.voice.active == voice.active
            &&& playback.voice.envelope == voice.envelope
        }),
{
    reveal_with_fuel(Voice::played, 2);
    lemma_bytes(ram, voice.repeat_address * 8);
}

/// After a block with the end flag alone the voice is silent, and stays so.
pub proof fn law_last_block_silences(
    voice: Voice,
    ram: Seq<u8>,
    fetched: Option<usize>,
    pitch: u16,
    noise: Option<i16>,
)
    requires
        voice.wf(),
        voice.sample_index == 27,
        voice.decoded_flags.end,
        !voice.decoded_flags.repeat,
    ensures
        ({
            let playback = voice.played(ram, 1, fetched);
            &&& playback.stopped
            &&& playback.loop_end
            &&& playback.fault is None
            &&& playback.fetched == fetched
            &&& !playback.voice.active
            &&& playback.voice.envelope.level == 0
            &&& playback.voice.envelope.phase == EnvelopePhase::Off
            &&& playback.voice.rendered(ram, pitch, noise).0 == playback.voice
            &&& playback.voice.rendered(ram, pitch, noise).1 is Ok
            &&& playback.voice.rendered(ram, pitch, noise).1->Ok_0.dry == 0
        }),
{
    reveal_with_fuel(Voice::played, 2);
}

/// A block with the loop-start flag becomes the one that loops go back to; another leaves
/// the repeat address alone. A block that does not decode leaves all alone.
pub proof fn law_loop_start_is_kept(voice: Voice, ram: Seq<u8>)
    requires
        voice.wf(),
        ram.len() == 0x8_0000,
    ensures
        ({
            let fetched = voice.fetched(ram);
            match block_decoded(bytes_at(ram, voice.current_address as int), voice.history) {
                Ok(decoded) => {
                    &&& decoded.flags.loop_start ==> fetched.repeat_address * 8
                        <= voice.current_address < fetched.repeat_address * 8 + 8
                    &&& !decoded.flags.loop_start ==> fetched.repeat_address
                        == voice.repeat_address
                    &&& fetched.start_address == voice.start_address
                },
                Err(_) => fetched == voice,
            }
        }),
{
    lemma_bytes(ram, voice.current_address as int);
}

/// `voice` with other registers that playback does not read.
pub open spec fn with_registers(
    voice: Voice,
    start: u16,
    pitch: u16,
    left: u16,
    right: u16,
) -> Voice {
    Voice { start_address: start, pitch, volume_left: left, volume_right: right, ..voice }
}

proof fn lemma_played_alike(
    voice: Voice,
    ram: Seq<u8>,
    count: nat,
    fetched: Option<usize>,
    start: u16,
    pitch: u16,
    left: u16,
    right: u16,
)
    ensures
        with_registers(voice, start, pitch, left, right).played(ram, count, fetched) == (Playback {
            voice: with_registers(
                voice.played(ram, count, fetched).voice,
                start,
                pitch,
                left,
                right,
            ),
            ..voice.played(ram, count, fetched)
        }),
    decreases count,
{
    if count > 0 {
        lemma_played_alike(voice, ram, (count - 1) as nat, fetched, start, pitch, left, right);
    }
}

proof fn lemma_block_alike(
    voice: Voice,
    ram: Seq<u8>,
    effective_pitch: u16,
    fetched: Option<usize>,
    start: u16,
    pitch: u16,
    left: u16,
    right: u16,
)
    ensures
        ({
            let other = with_registers(voice, start, pitch, left, right);
            let (after, output) = voice.rendered_block(ram, effective_pitch, fetched);
            other.rendered_block(ram, effective_pitch, fetched) == (
                with_registers(after, start, pitch, left, right),
                output,
            )
        }),
{
    let advanced = Voice {
        pitch_counter: voice.pitch_counter.advanced(effective_pitch),
        ..voice
    };
    let count = crate::spu_common::pitch::pitch_total(voice.pitch_counter.phase, effective_pitch)
        / 0x1000;
    lemma_played_alike(advanced, ram, count as nat, fetched, start, pitch, left, right);
    let other = with_registers(voice, start, pitch, left, right);
    assert(other.window() =~= voice.window());
}

/// After key-on nothing depends on the start address any more, nor on the volume and pitch
/// registers: voices that differ only there render the same.
pub proof fn law_start_address_counts_at_key_on_only(
    voice: Voice,
    ram: Seq<u8>,
    effective_pitch: u16,
    noise: Option<i16>,
    start: u16,
    pitch: u16,
    left: u16,
    right: u16,
)
    ensures
        ({
            let other = with_registers(voice, start, pitch, left, right);
            &&& other.rendered(ram, effective_pitch, noise).1 == voice.rendered(
                ram,
                effective_pitch,
                noise,
            ).1
            &&& other.rendered(ram, effective_pitch, noise).0 == with_registers(
                voice.rendered(ram, effective_pitch, noise).0,
                start,
                pitch,
                left,
                right,
            )
        }),
{
    let fetched = if voice.decoded_valid {
        None
    } else {
        Some(voice.current_address)
    };
    lemma_block_alike(
        voice.primed(ram),
        ram,
        effective_pitch,
        fetched,
        start,
        pitch,
        left,
        right,
    );
}

/// Key-on forgets how the voice played before: it starts at the start address, which
/// counts in eight bytes, with an empty predictor, from silence.
pub proof fn law_key_on_starts_over(voice: Voice)
    ensures
        ({
            let on = voice.keyed_on();
            &&& on.current_address == voice.start_address * 8
            &&& on.history.previous == 0
            &&& on.history.previous2 == 0
            &&& on.pitch_counter.phase == 0
            &&& on.sample_index == 0
            &&& !on.decoded_valid
            &&& on.active
            &&& on.envelope.level == 0
            &&& on.envelope.phase == EnvelopePhase::Attack
            &&& on.repeat_address == voice.repeat_address
            &&& on == Voice {
                current_address: on.current_address,
                current_block_address: on.current_block_address,
                history: on.history,
                pitch_counter: on.pitch_counter,
                sample_index: on.sample_index,
                decoded_valid: on.decoded_valid,
                active: on.active,
                envelope: on.envelope,
                ..voice
            }
        }),
{
}

/// One output sample is the interpolation at the position before it, at the level of the
/// envelope after its next clock. Inside a block the position moves by the pitch.
pub proof fn law_output_sample(
    voice: Voice,
    ram: Seq<u8>,
    pitch: u16,
    product: int,
)
    requires
        voice.wf(),
        voice.active,
        voice.decoded_valid,
        voice.sample_index < 24,
        is_floor(
            clamp16(
                gaussian_sum(voice.window(), (voice.pitch_counter.phase / 16) as u8),
            ) * voice.envelope.after(config_of(voice.adsr_low, voice.adsr_high), 1).level,
            0x8000,
            product,
        ),
        voice.envelope.after(config_of(voice.adsr_low, voice.adsr_high), 1).level <= 0x7fff,
    ensures
        ({
            let (next, output) = voice.rendered(ram, pitch, None);
            &&& output is Ok
            &&& is_saturated(product, output->Ok_0.dry as int)
            &&& output->Ok_0.fetched is None
            &&& !output->Ok_0.loop_end
            &&& 0x1000 * next.sample_index + next.pitch_counter.phase == 0x1000
                * voice.sample_index + voice.pitch_counter.phase + if pitch > 0x3fff {
                0x3fff
            } else {
                pitch as int
            }
            &&& next.pitch_counter.phase < 0x1000
            &&& next.envelope == voice.envelope.after(
                config_of(voice.adsr_low, voice.adsr_high),
                1,
            )
            &&& next.decoded == voice.decoded
            &&& next.active <==> next.envelope.phase != EnvelopePhase::Off
        }),
{
    law_pitch_moves_the_position(voice.pitch_counter.phase, pitch);
    let advanced = Voice { pitch_counter: voice.pitch_counter.advanced(pitch), ..voice };
    let count = crate::spu_common::pitch::pitch_total(voice.pitch_counter.phase, pitch) / 0x1000;
    lemma_inside(advanced, ram, count as nat);
    let sample = clamp16(gaussian_sum(voice.window(), (voice.pitch_counter.phase / 16) as u8));
    law_envelope_volume(
        sample as i16,
        voice.envelope.after(config_of(voice.adsr_low, voice.adsr_high), 1).level,
        product,
    );
}

proof fn lemma_inside(voice: Voice, ram: Seq<u8>, count: nat)
    requires
        voice.sample_index + count < 28,
    ensures
        voice.played(ram, count, None) == (Playback {
            voice: Voice { sample_index: (voice.sample_index + count) as usize, ..voice },
            fetched: None,
            loop_end: false,
            stopped: false,
            fault: None,
        }),
    decreases count,
{
    if count > 0 {
        lemma_inside(voice, ram, (count - 1) as nat);
    }
}

/// Noise takes the place of the decoded sample and leaves the position alone.
pub proof fn law_noise_output(
    voice: Voice,
    ram: Seq<u8>,
    pitch: u16,
    noise: i16,
    product: int,
)
    requires
        voice.wf(),
        voice.active,
        voice.envelope.after(config_of(voice.adsr_low, voice.adsr_high), 1).level <= 0x7fff,
        is_floor(
            noise * voice.envelope.after(config_of(voice.adsr_low, voice.adsr_high), 1).level,
            0x8000,
            product,
        ),
    ensures
        ({
            let (next, output) = voice.rendered(ram, pitch, Some(noise));
            &&& output is Ok
            &&& is_saturated(product, output->Ok_0.dry as int)
            &&& output->Ok_0.fetched is None
            &&& !output->Ok_0.loop_end
            &&& next.sample_index == voice.sample_index
            &&& next.pitch_counter == voice.pitch_counter
            &&& next.current_address == voice.current_address
            &&& next.decoded_valid == voice.decoded_valid
            &&& next.envelope == voice.envelope.after(
                config_of(voice.adsr_low, voice.adsr_high),
                1,
            )
        }),
{
    law_envelope_volume(
        noise,
        voice.envelope.after(config_of(voice.adsr_low, voice.adsr_high), 1).level,
        product,
    );
}

/// A voice whose block does not decode reports the address of the block and what is wrong
/// with it, and stays as it was.
pub proof fn law_undefined_block_is_reported(voice: Voice, ram: Seq<u8>, pitch: u16)
    requires
        voice.wf(),
        ram.len() == 0x8_0000,
        voice.active,
        !voice.decoded_valid,
        block_decoded(bytes_at(ram, voice.current_address as int), voice.history) is Err,
    ensures
        ({
            let (after, output) = voice.rendered(ram, pitch, None);
            &&& after == voice
            &&& output is Err
            &&& output->Err_0 == (
                voice.current_address,
                block_decoded(
                    bytes_at(ram, voice.current_address as int),
                    voice.history,
                )->Err_0,
            )
        }),
{
    lemma_bytes(ram, voice.current_address as int);
}

/// Key-off releases the envelope and changes nothing else.
pub proof fn law_key_off_releases(voice: Voice)
    ensures
        voice.keyed_off().envelope.level == voice.envelope.level,
        voice.envelope.phase != EnvelopePhase::Off ==> voice.keyed_off().envelope.phase
            == EnvelopePhase::Release,
        voice.keyed_off() == (Voice { envelope: voice.keyed_off().envelope, ..voice }),
{
}

} // verus!
