//! What holds of the audio output over several frames and several pieces of output.
use crate::audio::{
    can_play, can_repeat, is_memory_of, low_bytes, millis_before, playback, repeated, AudioFrame,
    OutputCall, OutputProgress,
};
use crate::format::SampleFormat;
use vstd::prelude::*;

verus! {

/// The sound of all frames, one after the other.
pub open spec fn stream(frames: Seq<AudioFrame>, unit: nat) -> Seq<u8>
    decreases frames.len(),
{
    if frames.len() == 0 {
        Seq::empty()
    } else {
        frames[0].sound(unit) + stream(frames.drop_first(), unit)
    }
}

/// Whether `frames` can be played from byte `offset` of the first one on.
pub open spec fn in_step(frames: Seq<AudioFrame>, unit: nat, offset: nat) -> bool {
    &&& forall|i: int| 0 <= i < frames.len() ==> (#[trigger] frames[i]).is_whole(unit)
    &&& if frames.len() > 0 {
        offset <= frames[0].total(unit)
    } else {
        offset == 0
    }
}

/// Frames that are all whole can be played, however much room there is.
pub proof fn law_whole_frames_can_be_played(
    frames: Seq<AudioFrame>,
    unit: nat,
    offset: nat,
    room: nat,
)
    requires
        in_step(frames, unit, offset),
    ensures
        can_play(frames, unit, offset, room),
    decreases frames.len(),
{
    if room > 0 && frames.len() > 0 {
        assert(frames[0].is_whole(unit));
        let left = frames[0].total(unit) - offset;
        if left <= room {
            law_whole_frames_can_be_played(frames.drop_first(), unit, 0, (room - left) as nat);
        }
    }
}

/// What goes to the device is the sound of the queued frames, from where the playing goes on, and
/// in the order of the queue: as much as there is room for. The queue runs dry exactly if it holds
/// less.
pub proof fn law_output_is_the_stream(
    frames: Seq<AudioFrame>,
    unit: nat,
    rate: nat,
    offset: nat,
    room: nat,
)
    requires
        in_step(frames, unit, offset),
    ensures
        ({
            let played = playback(frames, unit, rate, offset, room);
            let rest = stream(frames, unit).skip(offset as int);
            &&& played.starved == (rest.len() < room)
            &&& played.bytes == if played.starved {
                rest
            } else {
                rest.take(room as int)
            }
            &&& played.consumed <= frames.len()
        }),
    decreases frames.len(),
{
    let played = playback(frames, unit, rate, offset, room);
    let rest = stream(frames, unit).skip(offset as int);
    if frames.len() == 0 {
        assert(rest =~= Seq::<u8>::empty());
    } else {
        let sound = frames[0].sound(unit).skip(offset as int);
        assert(rest =~= sound + stream(frames.drop_first(), unit));
        if room == 0 {
            assert(rest.take(0) =~= Seq::<u8>::empty());
        } else if sound.len() > room {
            assert(rest.take(room as int) =~= sound.take(room as int));
        } else {
            let later = stream(frames.drop_first(), unit);
            let left = (room - sound.len()) as nat;
            law_output_is_the_stream(frames.drop_first(), unit, rate, 0, left);
            assert(later.skip(0) =~= later);
            if !played.starved {
                assert(rest.take(room as int) =~= sound + later.take(left as int));
            }
        }
    }
}

/// After a piece of output the queue can be played on from where that stopped, also once more
/// whole frames have been queued. A frame that is left in the middle has sound left.
pub proof fn law_output_stays_in_step(
    frames: Seq<AudioFrame>,
    more: Seq<AudioFrame>,
    unit: nat,
    rate: nat,
    offset: nat,
    room: nat,
)
    requires
        in_step(frames, unit, offset),
        forall|i: int| 0 <= i < more.len() ==> (#[trigger] more[i]).is_whole(unit),
    ensures
        ({
            let played = playback(frames, unit, rate, offset, room);
            let left = frames.skip(played.consumed as int);
            &&& played.consumed <= frames.len()
            &&& in_step(left, unit, played.offset)
            &&& in_step(left + more, unit, played.offset)
            &&& played.offset > 0 && (room > 0 || offset < frames[0].total(unit)) ==> left.len()
                > 0 && played.offset < left[0].total(unit)
        }),
    decreases frames.len(),
{
    let played = playback(frames, unit, rate, offset, room);
    if room == 0 || frames.len() == 0 {
        assert(frames.skip(0) =~= frames);
    } else {
        let sound = frames[0].sound(unit).skip(offset as int);
        if sound.len() > room {
            assert(frames.skip(0) =~= frames);
        } else {
            let left = (room - sound.len()) as nat;
            law_output_stays_in_step(frames.drop_first(), more, unit, rate, 0, left);
            assert(frames.drop_first().skip(played.consumed - 1) =~= frames.skip(
                played.consumed as int,
            ));
        }
    }
}

/// Two pieces of output in a row play what one piece of their joint size would, unless the first
/// one stays within a frame that was already begun.
pub proof fn law_outputs_join(
    frames: Seq<AudioFrame>,
    unit: nat,
    rate: nat,
    offset: nat,
    room: nat,
    next_room: nat,
)
    requires
        in_step(frames, unit, offset),
        offset == 0 || room == 0 || frames.len() == 0 || playback(
            frames,
            unit,
            rate,
            offset,
            room,
        ).consumed > 0,
    ensures
        ({
            let first = playback(frames, unit, rate, offset, room);
            let second = playback(
                frames.skip(first.consumed as int),
                unit,
                rate,
                first.offset,
                next_room,
            );
            let both = playback(frames, unit, rate, offset, room + next_room);
            both.bytes == first.bytes + second.bytes
        }),
    decreases frames.len(),
{
    let first = playback(frames, unit, rate, offset, room);
    let left = frames.skip(first.consumed as int);
    let second = playback(left, unit, rate, first.offset, next_room);
    let both = playback(frames, unit, rate, offset, room + next_room);
    if room == 0 || frames.len() == 0 {
        assert(left =~= frames);
        assert(first.bytes + second.bytes =~= both.bytes);
    } else {
        let sound = frames[0].sound(unit).skip(offset as int);
        law_output_is_the_stream(frames, unit, rate, offset, room + next_room);
        law_output_is_the_stream(frames, unit, rate, offset, room);
        law_output_stays_in_step(frames, Seq::empty(), unit, rate, offset, room);
        law_output_is_the_stream(left, unit, rate, first.offset, next_room);
        let rest = stream(frames, unit).skip(offset as int);
        assert(rest =~= sound + stream(frames.drop_first(), unit));
        if sound.len() > room {
            assert(left =~= frames);
            assert(stream(frames, unit).skip(room as int) =~= rest.skip(room as int));
            assert(first.bytes + second.bytes =~= both.bytes);
        } else {
            let later = frames.drop_first();
            let later_room = (room - sound.len()) as nat;
            law_outputs_join(later, unit, rate, 0, later_room, next_room);
            assert(later.skip(first.consumed - 1) =~= left);
            assert(first.bytes + second.bytes =~= both.bytes);
        }
    }
}

/// Whether all of the frames' sounds are made of pieces of `width` bytes.
pub open spec fn is_aligned(frames: Seq<AudioFrame>, unit: nat, width: nat) -> bool {
    forall|i: int| 0 <= i < frames.len() ==> (#[trigger] frames[i]).total(unit) % width == 0
}

/// Frames whose samples take a whole number of pieces of `width` bytes are made of these.
pub proof fn law_whole_units_are_aligned(frames: Seq<AudioFrame>, unit: nat, width: nat)
    requires
        width > 0,
        unit % width == 0,
    ensures
        is_aligned(frames, unit, width),
{
    assert forall|i: int| 0 <= i < frames.len() implies (#[trigger] frames[i]).total(unit) % width
        == 0 by {
        let samples = frames[i].samples as int;
        vstd::arithmetic::div_mod::lemma_mul_mod_noop_right(samples, unit as int, width as int);
        vstd::arithmetic::div_mod::lemma_small_mod(0, width);
    }
}

/// What lies between two positions at whole pieces is made of these.
proof fn lemma_aligned_difference(a: int, b: int, width: int)
    requires
        width == 1 || width == 2 || width == 4 || width == 8,
        a % width == 0,
        b % width == 0,
    ensures
        (a - b) % width == 0,
{
}

/// Where frames, positions and room are made of whole samples of the device, what is played is
/// too, so that the rest can be filled with silence.
pub proof fn law_output_keeps_whole_samples(
    frames: Seq<AudioFrame>,
    unit: nat,
    rate: nat,
    offset: nat,
    room: nat,
    silence: Seq<u8>,
)
    requires
        in_step(frames, unit, offset),
        silence.len() == 1 || silence.len() == 2 || silence.len() == 4 || silence.len() == 8,
        is_aligned(frames, unit, silence.len()),
        offset % silence.len() == 0,
        room % silence.len() == 0,
    ensures
        ({
            let played = playback(frames, unit, rate, offset, room);
            &&& played.offset % silence.len() == 0
            &&& played.bytes.len() <= room
            &&& can_repeat(silence, (room - played.bytes.len()) as nat)
        }),
    decreases frames.len(),
{
    if room == 0 || frames.len() == 0 {
    } else {
        let sound = frames[0].sound(unit).skip(offset as int);
        let width = silence.len() as int;
        assert(frames[0].is_whole(unit));
        assert(frames[0].total(unit) % silence.len() == 0);
        lemma_aligned_difference(frames[0].total(unit) as int, offset as int, width);
        if sound.len() > room {
            lemma_aligned_difference(room as int, room as int, width);
        } else {
            let left = (room - sound.len()) as nat;
            lemma_aligned_difference(room as int, sound.len() as int, width);
            law_output_keeps_whole_samples(frames.drop_first(), unit, rate, 0, left, silence);
        }
    }
}

/// Silence is made of zero bytes in all formats whose range is not unsigned.
pub proof fn law_silence_is_zero(format: SampleFormat, bytes: Seq<u8>)
    requires
        is_memory_of(bytes, format.silence(), format.width()),
        format.silence() == 0,
    ensures
        bytes == Seq::new(format.width(), |i: int| 0u8),
{
    reveal_with_fuel(low_bytes, 9);
    assert(bytes =~= Seq::new(format.width(), |i: int| 0u8));
}

/// The time told for a position within a frame is the frame's timestamp and the playing time of the
/// whole samples before it, in milliseconds rounded down.
pub proof fn law_position_is_told_by_playing_time(
    frame: AudioFrame,
    unit: nat,
    rate: nat,
    offset: nat,
    samples: nat,
)
    requires
        unit > 0,
        rate > 0,
        samples * unit <= offset < (samples + 1) * unit,
    ensures
        match (frame.pts, frame.pts_at(offset, unit, rate)) {
            (Some(pts), Some(told)) => (told - pts) * rate <= samples * 1000 < (told - pts + 1)
                * rate,
            (None, None) => true,
            _ => false,
        },
{
    let rest = offset - samples * unit;
    assert(offset == samples * unit + rest && 0 <= rest < unit) by (nonlinear_arith)
        requires
            rest == offset - samples * unit,
            samples * unit <= offset < (samples + 1) * unit,
    ;
    vstd::arithmetic::div_mod::lemma_fundamental_div_mod_converse(
        offset as int,
        unit as int,
        samples as int,
        rest,
    );
    let millis = millis_before(offset, unit, rate);
    if offset == 0 {
        assert(samples == 0) by (nonlinear_arith)
            requires
                samples * unit <= 0,
                unit > 0,
        ;
    } else {
        vstd::arithmetic::div_mod::lemma_fundamental_div_mod((samples * 1000) as int, rate as int);
    }
    assert(millis * rate <= samples * 1000 < (millis + 1) * rate) by (nonlinear_arith)
        requires
            rate > 0,
            ({
                ||| samples == 0 && millis == 0
                ||| {
                    &&& samples * 1000 == rate * millis + (samples * 1000) % rate
                    &&& 0 <= (samples * 1000) % rate < rate
                }
            }),
    ;
}

/// A position one second's worth of samples further on is told exactly 1000 milliseconds later, at
/// every sample rate.
pub proof fn law_second_of_samples_takes_a_second(
    frame: AudioFrame,
    unit: nat,
    rate: nat,
    offset: nat,
)
    requires
        unit > 0,
        rate > 0,
    ensures
        match (frame.pts_at(offset, unit, rate), frame.pts_at(offset + rate * unit, unit, rate)) {
            (Some(told), Some(later)) => later == told + 1000,
            (None, None) => frame.pts is None,
            _ => false,
        },
{
    let samples = offset / unit;
    vstd::arithmetic::div_mod::lemma_fundamental_div_mod(offset as int, unit as int);
    assert(samples * unit <= offset < (samples + 1) * unit) by (nonlinear_arith)
        requires
            offset == unit * samples + offset as int % unit as int,
            0 <= offset as int % (unit as int) < unit,
    ;
    assert((samples + rate) * unit <= offset + rate * unit < (samples + rate + 1) * unit)
        by (nonlinear_arith)
        requires
            samples * unit <= offset < (samples + 1) * unit,
    ;
    law_position_is_told_by_playing_time(frame, unit, rate, offset, samples);
    law_position_is_told_by_playing_time(
        frame,
        unit,
        rate,
        offset + rate * unit,
        samples + rate,
    );
    if let Some(pts) = frame.pts {
        let sooner = frame.pts_at(offset, unit, rate)->0 - pts;
        let later = frame.pts_at(offset + rate * unit, unit, rate)->0 - pts;
        assert(later == sooner + 1000) by (nonlinear_arith)
            requires
                rate > 0,
                sooner * rate <= samples * 1000 < (sooner + 1) * rate,
                later * rate <= (samples + rate) * 1000 < (later + 1) * rate,
        ;
    }
}

/// The timestamp that an output tells is that of its first byte: of the frame that it begins in,
/// and of the position there.
pub proof fn law_output_tells_the_time_of_its_first_byte(
    call: OutputCall,
    after: OutputCall,
    res: Option<(Option<i64>, bool)>,
    samples: nat,
)
    requires
        call.leads_to(after, res),
        call.progress.filled < call.output.len(),
        call.progress.pts is None,
        call.queue@.len() > 0,
        call.queue@[0].pts is Some,
        call.player.bytes_per_sample > 0,
        call.player.sample_rate > 0,
        samples * call.player.bytes_per_sample <= call.player.offset_into_current_slot < (samples
            + 1) * call.player.bytes_per_sample,
    ensures
        after.progress.pts is Some,
        ({
            let passed = after.progress.pts->0 - call.queue@[0].pts->0;
            passed * call.player.sample_rate <= samples * 1000 < (passed + 1)
                * call.player.sample_rate
        }),
        call.player.offset_into_current_slot == 0 ==> after.progress.pts == call.queue@[0].pts,
{
    law_position_is_told_by_playing_time(
        call.queue@[0],
        call.player.unit(),
        call.player.rate(),
        call.player.offset(),
        samples,
    );
}

/// Where the first frames have no timestamp, that of the first one after them is told, if the
/// output comes to it; if no frame has one, none is told.
pub proof fn law_first_timestamp_is_told(
    frames: Seq<AudioFrame>,
    unit: nat,
    rate: nat,
    offset: nat,
    room: nat,
    k: int,
)
    requires
        in_step(frames, unit, offset),
        0 <= k <= frames.len(),
        forall|i: int| 0 <= i < k ==> (#[trigger] frames[i]).pts is None,
    ensures
        ({
            let told = playback(frames, unit, rate, offset, room).pts;
            let before = stream(frames.take(k), unit).len();
            &&& k == frames.len() ==> told is None
            &&& 0 < k < frames.len() && before - offset < room ==> told == (match frames[k].pts {
                Some(pts) => Some(pts as int),
                None => told,
            })
            &&& k > 0 && before - offset >= room ==> told is None
        }),
    decreases frames.len(),
{
    if k > 0 && room > 0 {
        let later = frames.drop_first();
        let sound = frames[0].sound(unit).skip(offset as int);
        assert(frames[0].is_whole(unit));
        assert(frames.take(k)[0] == frames[0]);
        assert(frames.take(k).drop_first() =~= later.take(k - 1));
        assert forall|i: int| 0 <= i < k - 1 implies (#[trigger] later[i]).pts is None by {
            assert(frames[i + 1].pts is None);
        }
        assert forall|i: int| 0 <= i < later.len() implies (#[trigger] later[i]).is_whole(
            unit,
        ) by {
            assert(frames[i + 1].is_whole(unit));
        }
        if sound.len() <= room {
            let left = (room - sound.len()) as nat;
            law_first_timestamp_is_told(later, unit, rate, 0, left, k - 1);
            reveal_with_fuel(playback, 3);
            reveal_with_fuel(stream, 3);
        }
    }
}

/// The playing goes on where it stopped: behind what was played of the frame that did not fit. A
/// frame that was already begun, and still does not fit, goes on behind as many bytes as were
/// played of it last. All frames are used up if the queue ran dry.
pub proof fn law_output_goes_on_where_it_stopped(
    frames: Seq<AudioFrame>,
    unit: nat,
    rate: nat,
    offset: nat,
    room: nat,
)
    requires
        in_step(frames, unit, offset),
    ensures
        ({
            let played = playback(frames, unit, rate, offset, room);
            let used = stream(frames.take(played.consumed as int), unit).len();
            &&& played.consumed <= frames.len()
            &&& room == 0 || frames.len() == 0 ==> played.consumed == 0 && played.offset == offset
            &&& played.starved && frames.len() > 0 ==> played.consumed == frames.len()
                && played.offset == 0
            &&& !played.starved && room > 0 ==> if played.consumed == 0 {
                played.offset == room && room < frames[0].total(unit) - offset
            } else {
                played.offset == room - (used - offset)
            }
        }),
    decreases frames.len(),
{
    let played = playback(frames, unit, rate, offset, room);
    if room > 0 && frames.len() > 0 {
        let later = frames.drop_first();
        let sound = frames[0].sound(unit).skip(offset as int);
        assert(frames[0].is_whole(unit));
        assert forall|i: int| 0 <= i < later.len() implies (#[trigger] later[i]).is_whole(
            unit,
        ) by {
            assert(frames[i + 1].is_whole(unit));
        }
        if sound.len() <= room {
            let left = (room - sound.len()) as nat;
            law_output_goes_on_where_it_stopped(later, unit, rate, 0, left);
            let taken = frames.take(played.consumed as int);
            assert(taken[0] == frames[0]);
            assert(taken.drop_first() =~= later.take(played.consumed - 1));
            assert(later.take(0) =~= Seq::<AudioFrame>::empty());
        }
    }
}

/// What an output does to its buffer: behind what was filled before comes the sound of the queued
/// frames, as much as there is room for. If that is less, the rest is silence once no more frames
/// can come, with the word that the audio has ended; until then it is left alone, and there is no
/// answer yet.
pub proof fn law_output_fills_the_buffer(
    call: OutputCall,
    after: OutputCall,
    res: Option<(Option<i64>, bool)>,
)
    requires
        call.leads_to(after, res),
        call.progress.filled <= call.output.len(),
        in_step(
            call.queue@,
            call.player.bytes_per_sample as nat,
            call.player.offset_into_current_slot as nat,
        ),
    ensures
        ({
            let filled = call.progress.filled as int;
            let len = call.output.len() as int;
            let sound = stream(call.queue@, call.player.bytes_per_sample as nat).skip(
                call.player.offset_into_current_slot as int,
            );
            let silence = call.player.equilibrium@;
            &&& after.output.len() == len || silence.len() == 0
            &&& forall|j: int| 0 <= j < filled ==> #[trigger] after.output[j] == call.output[j]
            &&& forall|j: int|
                filled <= j < len && j < filled + sound.len() ==> #[trigger] after.output[j]
                    == sound[j - filled]
            &&& if filled + sound.len() >= len {
                &&& res == Some((after.progress.pts, false))
                &&& after.progress.filled == len
            } else {
                &&& after.progress.filled == filled + sound.len()
                &&& after.queue@.len() == 0
                &&& if call.queue.inner.writer_closed {
                    &&& res == Some((after.progress.pts, true))
                    &&& forall|j: int|
                        filled + sound.len() <= j < len ==> #[trigger] after.output[j] == silence[(j
                            - filled - sound.len()) % silence.len() as int]
                } else {
                    &&& res is None
                    &&& forall|j: int|
                        filled + sound.len() <= j < len ==> #[trigger] after.output[j]
                            == call.output[j]
                }
            }
        }),
{
    let frames = call.queue@;
    let unit = call.player.unit();
    let rate = call.player.rate();
    let offset = call.player.offset();
    law_output_is_the_stream(frames, unit, rate, offset, call.room());
    law_output_goes_on_where_it_stopped(frames, unit, rate, offset, call.room());
    lemma_stream_has_first_frame(frames, unit);
}

/// The sound of all frames begins with that of the first.
proof fn lemma_stream_has_first_frame(frames: Seq<AudioFrame>, unit: nat)
    requires
        forall|i: int| 0 <= i < frames.len() ==> (#[trigger] frames[i]).is_whole(unit),
    ensures
        frames.len() > 0 ==> stream(frames, unit).len() >= frames[0].total(unit),
{
    if frames.len() > 0 {
        assert(frames[0].is_whole(unit));
    }
}

/// What an output leaves behind: the frames that were used up are gone, the writer of the queue is
/// to be woken exactly if there are any, or was before, and neither the rest of the player nor the
/// closed sides of the queue change. A timestamp that is known stays.
pub proof fn law_output_leaves_the_rest(
    call: OutputCall,
    after: OutputCall,
    res: Option<(Option<i64>, bool)>,
)
    requires
        call.leads_to(after, res),
        call.progress.filled <= call.output.len(),
        in_step(
            call.queue@,
            call.player.bytes_per_sample as nat,
            call.player.offset_into_current_slot as nat,
        ),
    ensures
        ({
            let gone = call.queue@.len() - after.queue@.len();
            &&& 0 <= gone <= call.queue@.len()
            &&& after.queue@ == call.queue@.skip(gone)
            &&& after.progress.wake_writer <==> call.progress.wake_writer || gone > 0
        }),
        after.queue.inner.buffer == call.queue.inner.buffer,
        after.queue.inner.write_offset == call.queue.inner.write_offset,
        after.queue.inner.reader_closed == call.queue.inner.reader_closed,
        after.queue.inner.writer_closed == call.queue.inner.writer_closed,
        after.queue.debug_name == call.queue.debug_name,
        after.player.bytes_per_sample == call.player.bytes_per_sample,
        after.player.equilibrium == call.player.equilibrium,
        after.player.sample_rate == call.player.sample_rate,
        after.progress.started == call.progress.started,
        call.progress.pts is Some ==> after.progress.pts == call.progress.pts,
        call.progress.pts is None && (forall|i: int|
            0 <= i < call.queue@.len() ==> (#[trigger] call.queue@[i]).pts is None)
            ==> after.progress.pts is None,
        res matches Some((pts, _)) ==> pts == after.progress.pts,
{
    law_output_goes_on_where_it_stopped(
        call.queue@,
        call.player.unit(),
        call.player.rate(),
        call.player.offset(),
        call.room(),
    );
    call.queue.inner.lemma_after_reads(call.played().consumed);
    if forall|i: int| 0 <= i < call.queue@.len() ==> (#[trigger] call.queue@[i]).pts is None {
        law_first_timestamp_is_told(
            call.queue@,
            call.player.unit(),
            call.player.rate(),
            call.player.offset(),
            call.room(),
            call.queue@.len() as int,
        );
    }
}

/// Silence goes on in whole units: one unit more begins with that unit.
pub proof fn law_silence_goes_on(unit: Seq<u8>, room: nat)
    requires
        unit.len() > 0,
    ensures
        repeated(unit, room).len() == room,
        repeated(unit, unit.len()) == unit,
        repeated(unit, unit.len() + room) == unit + repeated(unit, room),
{
    let len = unit.len();
    assert forall|i: int| 0 <= i < len implies repeated(unit, len)[i] == unit[i] by {
        vstd::arithmetic::div_mod::lemma_small_mod(i as nat, len);
    }
    assert(repeated(unit, len) =~= unit);
    assert forall|i: int| 0 <= i < len + room implies repeated(unit, len + room)[i] == (unit
        + repeated(unit, room))[i] by {
        if i >= len {
            vstd::arithmetic::div_mod::lemma_mod_sub_multiples_vanish(i, len as int);
        } else {
            vstd::arithmetic::div_mod::lemma_small_mod(i as nat, len);
        }
    }
    assert(repeated(unit, unit.len() + room) =~= unit + repeated(unit, room));
}

/// Silence is the middle of a format's range: half of what its bits can tell where no sample is
/// negative, and zero elsewhere.
pub proof fn law_silence_is_the_middle(format: SampleFormat)
    ensures
        match format {
            SampleFormat::U8 => 2 * format.silence() == 0x100,
            SampleFormat::U16 => 2 * format.silence() == 0x1_0000,
            SampleFormat::U32 => 2 * format.silence() == 0x1_0000_0000,
            SampleFormat::U64 => 2 * format.silence() == 0x1_0000_0000_0000_0000,
            _ => format.silence() == 0,
        },
{
}

/// The last bytes of a number tell it, if it is small enough for them.
pub proof fn law_bytes_tell_the_number(value: nat, width: nat)
    ensures
        low_bytes(value, width).len() == width,
        width > 0 ==> {
            &&& low_bytes(value, width)[0] == value % 256
            &&& low_bytes(value, width).drop_first() == low_bytes(value / 256, (width - 1) as nat)
        },
    decreases width,
{
    if width > 0 {
        law_bytes_tell_the_number(value / 256, (width - 1) as nat);
        assert(low_bytes(value, width).drop_first() =~= low_bytes(
            value / 256,
            (width - 1) as nat,
        ));
    }
}

/// An output that is begun keeps what was filled and told before.
pub proof fn law_begun_output_keeps_its_progress(progress: OutputProgress)
    ensures
        progress.begun().started,
        progress.begun().filled == progress.filled,
        progress.begun().pts == progress.pts,
        progress.begun().wake_writer == progress.wake_writer,
{
}

/// The sound of a frame is all of its samples, from the first byte of its data on, each as wide as
/// one sample of all channels.
pub proof fn law_sound_is_all_samples(frame: AudioFrame, unit: nat)
    requires
        frame.samples * unit <= frame.data@.len(),
    ensures
        frame.is_whole(unit),
        frame.total(unit) == frame.samples * unit,
        frame.sound(unit).len() == frame.samples * unit,
        forall|i: int|
            0 <= i < frame.samples * unit ==> #[trigger] frame.sound(unit)[i] == frame.data@[i],
{
}

/// The sound of a queue is that of its frames, one after the other, without anything between.
pub proof fn law_stream_joins(frames: Seq<AudioFrame>, more: Seq<AudioFrame>, unit: nat)
    ensures
        stream(frames + more, unit) == stream(frames, unit) + stream(more, unit),
        frames.len() == 1 ==> stream(frames, unit) == frames[0].sound(unit),
    decreases frames.len(),
{
    reveal_with_fuel(stream, 2);
    if frames.len() == 0 {
        assert(frames + more =~= more);
        assert(stream(frames, unit) + stream(more, unit) =~= stream(more, unit));
    } else {
        law_stream_joins(frames.drop_first(), more, unit);
        assert((frames + more).drop_first() =~= frames.drop_first() + more);
        assert(stream(frames + more, unit) =~= stream(frames, unit) + stream(more, unit));
    }
    if frames.len() == 1 {
        assert(stream(frames, unit) =~= frames[0].sound(unit));
    }
}

} // verus!
