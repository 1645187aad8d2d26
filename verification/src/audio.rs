//! Bringing queued audio frames to a sound device.
use crate::format::SampleFormat;
use crate::ringbuf::RingBuf;
use crate::sync::SynchronizationInfo;
use vstd::prelude::*;

pub mod laws;

verus! {

/// The last `width` bytes of `value`, least significant first.
pub open spec fn low_bytes(value: nat, width: nat) -> Seq<u8>
    decreases width,
{
    if width == 0 {
        Seq::empty()
    } else {
        seq![(value % 256) as u8] + low_bytes(value / 256, (width - 1) as nat)
    }
}

/// Whether `bytes` is how a machine keeps the number `value` of `width` bytes in its memory: least
/// or most significant byte first.
pub open spec fn is_memory_of(bytes: Seq<u8>, value: nat, width: nat) -> bool {
    bytes == low_bytes(value, width) || bytes == low_bytes(value, width).reverse()
}

/// Whether `bytemuck::bytes_of` can give `bytes` for the number `value` of `width` bytes, on one
/// machine or another.
pub uninterp spec fn may_be_kept_as(value: nat, width: nat, bytes: Seq<u8>) -> bool;

/// Calls `bytemuck::bytes_of` on a number of one byte: the byte itself.
#[verifier::external_body]
fn bytes_of_u8(value: u8) -> (bytes: Vec<u8>)
    ensures
        is_memory_of(bytes@, value as nat, 1),
        may_be_kept_as(value as nat, 1, bytes@),
{
    bytemuck::bytes_of(&value).to_vec()
}

/// Calls `bytemuck::bytes_of` on a number of two bytes: these bytes in the machine's order.
#[verifier::external_body]
fn bytes_of_u16(value: u16) -> (bytes: Vec<u8>)
    ensures
        is_memory_of(bytes@, value as nat, 2),
        may_be_kept_as(value as nat, 2, bytes@),
{
    bytemuck::bytes_of(&value).to_vec()
}

/// Calls `bytemuck::bytes_of` on a number of four bytes: these bytes in the machine's order.
#[verifier::external_body]
fn bytes_of_u32(value: u32) -> (bytes: Vec<u8>)
    ensures
        is_memory_of(bytes@, value as nat, 4),
        may_be_kept_as(value as nat, 4, bytes@),
{
    bytemuck::bytes_of(&value).to_vec()
}

/// Calls `bytemuck::bytes_of` on a number of eight bytes: these bytes in the machine's order.
#[verifier::external_body]
fn bytes_of_u64(value: u64) -> (bytes: Vec<u8>)
    ensures
        is_memory_of(bytes@, value as nat, 8),
        may_be_kept_as(value as nat, 8, bytes@),
{
    bytemuck::bytes_of(&value).to_vec()
}

impl SampleFormat {
    /// The bit pattern of the sample that stands for silence: the middle of an unsigned range, and
    /// zero elsewhere.
    pub open spec fn silence(self) -> nat {
        match self {
            SampleFormat::U8 => 0x80,
            SampleFormat::U16 => 0x8000,
            SampleFormat::U32 => 0x8000_0000,
            SampleFormat::U64 => 0x8000_0000_0000_0000,
            _ => 0,
        }
    }

    /// The bit pattern of the sample that stands for silence.
    pub fn silence_bits(self) -> (bits: u64)
        ensures
            bits == self.silence(),
    {
        match self {
            SampleFormat::U8 => 0x80,
            SampleFormat::U16 => 0x8000,
            SampleFormat::U32 => 0x8000_0000,
            SampleFormat::U64 => 0x8000_0000_0000_0000,
            _ => 0,
        }
    }
}

/// The bytes of a sample that stands for silence, as the machine keeps them.
pub fn equilibrium(format: SampleFormat) -> (bytes: Vec<u8>)
    ensures
        is_memory_of(bytes@, format.silence(), format.width()),
        may_be_kept_as(format.silence(), format.width(), bytes@),
        bytes@.len() == format.width(),
{
    proof {
        reveal_with_fuel(low_bytes, 9);
    }
    let bits: u64 = format.silence_bits();
    match format {
        SampleFormat::I8 | SampleFormat::U8 => bytes_of_u8(bits as u8),
        SampleFormat::I16 | SampleFormat::U16 => bytes_of_u16(bits as u16),
        SampleFormat::I32 | SampleFormat::U32 | SampleFormat::F32 => bytes_of_u32(bits as u32),
        SampleFormat::I64 | SampleFormat::U64 | SampleFormat::F64 => bytes_of_u64(bits),
    }
}

/// Repeats the `N` bytes of `input` over all of `output`.
fn repeat_chunks<const N: usize>(input: &[u8], output: &mut [u8])
    requires
        N > 0,
        input@.len() == N,
        old(output)@.len() % N as nat == 0,
    ensures
        final(output)@ == Seq::new(
            old(output)@.len(),
            |i: int| input@[i % input@.len() as int],
        ),
{
    let len: usize = output.len();
    let mut at: usize = 0;
    while at < len
        invariant
            N > 0,
            input@.len() == N,
            output@.len() == len,
            old(output)@.len() == len,
            at <= len,
            forall|i: int| 0 <= i < at ==> output@[i] == #[trigger] input@[i % N as int],
        decreases len - at,
    {
        output[at] = input[at % N];
        at += 1;
    }
    assert(output@ =~= Seq::new(old(output)@.len(), |i: int| input@[i % input@.len() as int]));
}

/// Whether `unit` can be repeated to fill `room` bytes.
pub open spec fn can_repeat(unit: Seq<u8>, room: nat) -> bool {
    &&& unit.len() == 1 || unit.len() == 2 || unit.len() == 4 || unit.len() == 8
    &&& room % unit.len() == 0
}

/// `room` bytes of `unit`, over and over.
pub open spec fn repeated(unit: Seq<u8>, room: nat) -> Seq<u8> {
    Seq::new(room, |i: int| unit[i % unit.len() as int])
}

/// Repeats `input` over all of `output`.
pub fn repeat_to_fill(input: &[u8], output: &mut [u8])
    requires
        can_repeat(input@, old(output)@.len()),
    ensures
        final(output)@ == repeated(input@, old(output)@.len()),
{
    match input.len() {
        1 => repeat_chunks::<1>(input, output),
        2 => repeat_chunks::<2>(input, output),
        4 => repeat_chunks::<4>(input, output),
        _ => repeat_chunks::<8>(input, output),
    }
}

/// A frame of packed samples.
pub struct AudioFrame {
    /// When it is to be heard, in milliseconds.
    pub pts: Option<i64>,
    /// How many samples it holds of each channel.
    pub samples: usize,
    /// The samples, and maybe more room.
    pub data: Vec<u8>,
}

impl AudioFrame {
    /// The bytes that the samples take, `unit` for each of all channels.
    pub open spec fn total(self, unit: nat) -> nat {
        self.samples as nat * unit
    }

    /// Whether the data holds the samples.
    pub open spec fn is_whole(self, unit: nat) -> bool {
        self.total(unit) <= self.data.len()
    }

    /// The bytes of the samples.
    pub open spec fn sound(self, unit: nat) -> Seq<u8> {
        self.data@.take(self.total(unit) as int)
    }
}

/// What becomes of a queue when some room is filled from it.
pub ghost struct Playback {
    /// The bytes that go to the device.
    pub bytes: Seq<u8>,
    /// How many frames are used up.
    pub consumed: nat,
    /// Where in the next frame the playing goes on.
    pub offset: nat,
    /// The timestamp of the first byte, if a frame that was touched has one.
    pub pts: Option<int>,
    /// Whether the queue ran dry before the room was full.
    pub starved: bool,
}

/// The milliseconds that lie before byte `offset` of a frame.
pub open spec fn millis_before(offset: nat, unit: nat, rate: nat) -> nat {
    if offset == 0 {
        0
    } else {
        (offset / unit) * 1000 / rate
    }
}

impl AudioFrame {
    /// When byte `offset` is to be heard.
    pub open spec fn pts_at(self, offset: nat, unit: nat, rate: nat) -> Option<int> {
        match self.pts {
            Some(pts) => Some(pts + millis_before(offset, unit, rate)),
            None => None,
        }
    }

    /// Whether that can be told in the numbers at hand.
    pub open spec fn pts_fits(self, offset: nat, unit: nat, rate: nat) -> bool {
        match self.pts {
            Some(pts) => offset != 0 ==> {
                &&& rate > 0
                &&& (offset / unit) * 1000 <= i64::MAX
                &&& pts + millis_before(offset, unit, rate) <= i64::MAX
            },
            None => true,
        }
    }
}

/// What becomes of `frames` when `room` bytes are filled from byte `offset` of the first frame on.
///
/// A frame that does not fit stays, and its rest is played from byte `room` on.
pub open spec fn playback(
    frames: Seq<AudioFrame>,
    unit: nat,
    rate: nat,
    offset: nat,
    room: nat,
) -> Playback
    decreases frames.len(),
{
    if room == 0 || frames.len() == 0 {
        Playback { bytes: Seq::empty(), consumed: 0, offset, pts: None, starved: room > 0 }
    } else {
        let sound = frames[0].sound(unit).skip(offset as int);
        let pts = frames[0].pts_at(offset, unit, rate);
        if sound.len() > room {
            Playback { bytes: sound.take(room as int), consumed: 0, offset: room, pts, starved: false }
        } else {
            let rest = playback(
                frames.drop_first(),
                unit,
                rate,
                0,
                (room - sound.len()) as nat,
            );
            Playback {
                bytes: sound + rest.bytes,
                consumed: rest.consumed + 1,
                offset: rest.offset,
                pts: if pts is Some {
                    pts
                } else {
                    rest.pts
                },
                starved: rest.starved,
            }
        }
    }
}

/// Whether `room` bytes can be filled from byte `offset` of the first frame on: each frame that is
/// come to is whole. Those behind do not matter.
pub open spec fn can_play(frames: Seq<AudioFrame>, unit: nat, offset: nat, room: nat) -> bool
    decreases frames.len(),
{
    room > 0 && frames.len() > 0 ==> {
        let total = frames[0].total(unit);
        &&& frames[0].is_whole(unit)
        &&& offset <= total
        &&& total - offset <= room ==> can_play(
            frames.drop_first(),
            unit,
            0,
            (room - (total - offset)) as nat,
        )
    }
}

/// How far a piece of output has come that may have to wait for more frames.
#[derive(PartialEq, Eq, Structural, Debug, Clone, Copy)]
pub struct OutputProgress {
    /// How many bytes of the output are filled.
    pub filled: usize,
    /// The timestamp of the first byte, once it is known.
    pub pts: Option<i64>,
    /// Whether frames were used up, so that the writer of the queue is to be woken.
    pub wake_writer: bool,
    /// Whether the video played when the output was begun.
    pub started: bool,
}

impl OutputProgress {
    /// The timestamp, or else `other`.
    pub open spec fn pts_or(self, other: Option<int>) -> Option<int> {
        match self.pts {
            Some(pts) => Some(pts as int),
            None => other,
        }
    }

    /// The same, begun while the video plays.
    pub open spec fn begun(self) -> OutputProgress {
        OutputProgress { started: true, ..self }
    }

    /// Nothing is filled yet.
    pub fn new() -> (progress: Self)
        ensures
            progress.filled == 0,
            progress.pts is None,
            !progress.wake_writer,
            !progress.started,
    {
        OutputProgress { filled: 0, pts: None, wake_writer: false, started: false }
    }
}

/// Plays the frames of a queue.
pub struct AudioPlayer {
    /// Where in the first frame of the queue the playing goes on.
    pub offset_into_current_slot: usize,
    /// The bytes that one sample of all channels takes.
    pub bytes_per_sample: usize,
    /// The bytes of silence.
    pub equilibrium: Vec<u8>,
    /// How many samples make a second.
    pub sample_rate: u32,
}

impl AudioPlayer {
    /// Where in the first frame the playing goes on.
    pub open spec fn offset(self) -> nat {
        self.offset_into_current_slot as nat
    }

    pub open spec fn unit(self) -> nat {
        self.bytes_per_sample as nat
    }

    pub open spec fn rate(self) -> nat {
        self.sample_rate as nat
    }

    /// What becomes of `frames` when `room` bytes are filled.
    pub open spec fn playback(self, frames: Seq<AudioFrame>, room: nat) -> Playback {
        playback(frames, self.unit(), self.rate(), self.offset(), room)
    }

    /// Whether `room` bytes can be filled with `frames` from where the playing goes on.
    pub open spec fn can_play(self, frames: Seq<AudioFrame>, room: nat) -> bool {
        can_play(frames, self.unit(), self.offset(), room)
    }

    pub fn new(sample_rate: u32, bytes_per_sample: usize, equilibrium: Vec<u8>) -> (player: Self)
        ensures
            player == (AudioPlayer {
                offset_into_current_slot: 0,
                bytes_per_sample,
                equilibrium,
                sample_rate,
            }),
    {
        AudioPlayer { offset_into_current_slot: 0, bytes_per_sample, equilibrium, sample_rate }
    }

    /// Fills all of `output_buffer` with silence.
    pub fn fill_with_silence(&self, output_buffer: &mut [u8])
        requires
            can_repeat(self.equilibrium@, old(output_buffer)@.len()),
        ensures
            final(output_buffer)@ == repeated(self.equilibrium@, old(output_buffer)@.len()),
    {
        repeat_to_fill(self.equilibrium.as_slice(), output_buffer);
    }

    /// Plays as much of `frame` as there is room for. Tells whether the frame is used up.
    fn play_frame(
        &mut self,
        frame: &AudioFrame,
        output_buffer: &mut [u8],
        progress: &mut OutputProgress,
    ) -> (used_up: bool)
        requires
            frame.is_whole(old(self).unit()),
            old(self).offset() <= frame.total(old(self).unit()),
            old(progress).filled < old(output_buffer)@.len(),
            old(progress).pts is None ==> frame.pts_fits(
                old(self).offset(),
                old(self).unit(),
                old(self).rate(),
            ),
        ensures
            ({
                let sound = frame.sound(old(self).unit()).skip(old(self).offset() as int);
                let room = old(output_buffer)@.len() - old(progress).filled;
                let played = if used_up {
                    sound
                } else {
                    sound.take(room)
                };
                &&& used_up == (sound.len() <= room)
                &&& *final(self) == (AudioPlayer {
                    offset_into_current_slot: if used_up {
                        0
                    } else {
                        room as usize
                    },
                    ..*old(self)
                })
                &&& final(output_buffer)@ == old(output_buffer)@.take(old(progress).filled as int)
                    + played + old(output_buffer)@.skip(old(progress).filled + played.len())
                &&& final(progress).filled == old(progress).filled + played.len()
                &&& final(progress).pts_or(None) == old(progress).pts_or(
                    frame.pts_at(old(self).offset(), old(self).unit(), old(self).rate()),
                )
                &&& final(progress).wake_writer == (old(progress).wake_writer || used_up)
                &&& final(progress).started == old(progress).started
            }),
    {
        let offset: usize = self.offset_into_current_slot;
        if progress.pts.is_none() {
            progress.pts = frame.pts;
            if let Some(pts) = frame.pts {
                if offset != 0 {
                    let samples: usize = offset / self.bytes_per_sample;
                    let millis: i64 = (samples as i64) * 1000 / self.sample_rate as i64;
                    progress.pts = Some(pts + millis);
                }
            }
        }
        let total: usize = frame.samples * self.bytes_per_sample;
        let room: usize = output_buffer.len() - progress.filled;
        let used_up = total - offset <= room;
        let count: usize = if used_up {
            total - offset
        } else {
            room
        };
        copy_bytes(&frame.data, offset, output_buffer, progress.filled, count);
        progress.filled = progress.filled + count;
        if used_up {
            self.offset_into_current_slot = 0;
            progress.wake_writer = true;
        } else {
            self.offset_into_current_slot = room;
        }
        used_up
    }
}

/// All that a piece of output works on.
pub ghost struct OutputCall {
    pub player: AudioPlayer,
    pub queue: RingBuf<AudioFrame>,
    pub output: Seq<u8>,
    pub progress: OutputProgress,
}

/// All that a piece of output works on.
pub open spec fn output_call(
    player: AudioPlayer,
    queue: RingBuf<AudioFrame>,
    output: Seq<u8>,
    progress: OutputProgress,
) -> OutputCall {
    OutputCall { player, queue, output, progress }
}

impl OutputCall {
    /// How many bytes are left to fill.
    pub open spec fn room(self) -> nat {
        (self.output.len() - self.progress.filled) as nat
    }

    /// What becomes of the queue.
    pub open spec fn played(self) -> Playback {
        self.player.playback(self.queue@, self.room())
    }

    /// Whether the call ends with `after` and `res`: the bytes played follow those that were
    /// filled before, and what lies behind them is silence at the end of the audio, and left alone
    /// while more frames can come.
    pub open spec fn leads_to(self, after: OutputCall, res: Option<(Option<i64>, bool)>) -> bool {
        let played = self.played();
        let done = self.output.take(self.progress.filled as int) + played.bytes;
        &&& after.player == AudioPlayer {
            offset_into_current_slot: played.offset as usize,
            ..self.player
        }
        &&& after.queue == self.queue.with_inner(self.queue.inner.after_reads(played.consumed))
        &&& after.queue@ == self.queue@.skip(played.consumed as int)
        &&& after.progress.started == self.progress.started
        &&& after.progress.pts_or(None) == self.progress.pts_or(played.pts)
        &&& after.progress.wake_writer == (self.progress.wake_writer || played.consumed > 0)
        &&& after.progress.filled == self.progress.filled + played.bytes.len()
        &&& if !played.starved {
            &&& res == Some((after.progress.pts, false))
            &&& after.output == done
        } else if self.queue.inner.writer_closed {
            &&& res == Some((after.progress.pts, true))
            &&& after.output == done + repeated(
                self.player.equilibrium@,
                (self.room() - played.bytes.len()) as nat,
            )
        } else {
            &&& res is None
            &&& after.output == done + self.output.skip(done.len() as int)
        }
    }
}

impl AudioPlayer {
    /// Whether `len` bytes of output can be filled, or filled further: the frames that are come to
    /// are whole, the timestamp can be told, and silence fits if the audio ends.
    pub open spec fn can_output(
        self,
        queue: RingBuf<AudioFrame>,
        len: nat,
        progress: OutputProgress,
    ) -> bool {
        let room = (len - progress.filled) as nat;
        let played = self.playback(queue@, room);
        &&& queue.wf()
        &&& room > 0 && queue.readable() ==> queue.capacity() > 0
        &&& progress.filled <= len
        &&& self.can_play(queue@, room)
        &&& progress.pts is None && queue@.len() > 0 && room > 0 ==> queue@[0].pts_fits(
            self.offset(),
            self.unit(),
            self.rate(),
        )
        &&& played.starved && queue.inner.writer_closed ==> can_repeat(
            self.equilibrium@,
            (room - played.bytes.len()) as nat,
        )
    }

    /// Answers a request of the device for audio, as the commonly known clock says: with what the
    /// queue holds if the video plays, and with silence if it stands still. The clock then follows
    /// what is heard, which is `delay_millis` later.
    ///
    /// `false` means that the queue ran dry and its writer is still at work: wait to be woken as the
    /// reader, and call again with the same `progress`.
    pub fn play_audio(
        &mut self,
        sync: &mut SynchronizationInfo,
        queue: &mut RingBuf<AudioFrame>,
        data_out: &mut [u8],
        progress: &mut OutputProgress,
        delay_millis: u128,
    ) -> (finished: bool)
        requires
            old(progress).started || old(sync).is_playing ==> {
                let call = output_call(*old(self), *old(queue), old(data_out)@, *old(progress));
                &&& old(self).can_output(*old(queue), old(data_out)@.len(), *old(progress))
                &&& match old(progress).pts_or(call.played().pts) {
                    Some(pts) => i64::MIN <= pts - delay_millis as i64 <= i64::MAX,
                    None => true,
                }
            },
            !old(progress).started && !old(sync).is_playing ==> can_repeat(
                old(self).equilibrium@,
                old(data_out)@.len(),
            ),
        ensures
            old(progress).started || old(sync).is_playing ==> {
                let call = output_call(
                    *old(self),
                    *old(queue),
                    old(data_out)@,
                    old(progress).begun(),
                );
                let after = output_call(
                    *final(self),
                    *final(queue),
                    final(data_out)@,
                    *final(progress),
                );
                let pts = final(progress).pts;
                if finished {
                    exists|done: bool, elapsed: u64|
                        call.leads_to(after, Some((pts, done))) && #[trigger] final(sync).heard(
                            *old(sync),
                            pts,
                            delay_millis,
                            done,
                            elapsed,
                        )
                } else {
                    call.leads_to(after, None) && *final(sync) == *old(sync)
                }
            },
            !old(progress).started && !old(sync).is_playing ==> {
                &&& finished
                &&& final(data_out)@ == repeated(old(self).equilibrium@, old(data_out)@.len())
                &&& *final(self) == *old(self)
                &&& *final(sync) == *old(sync)
                &&& *final(queue) == *old(queue)
                &&& *final(progress) == *old(progress)
            },
    {
        if !progress.started && !sync.is_playing {
            self.fill_with_silence(data_out);
            return true;
        }
        progress.started = true;
        match self.output(queue, data_out, progress) {
            Some((pts, done)) => {
                sync.audio_output(pts, delay_millis, done);
                true
            },
            None => false,
        }
    }

    /// Fills `output_buffer` with what the queue holds.
    ///
    /// The result is the timestamp of the first byte and whether the audio came to its end, in
    /// which case the rest is silence. `None` means that the queue ran dry and its writer is still
    /// at work: wait to be woken as the reader, and call again with the same `progress`.
    #[verifier::rlimit(40)]
    pub fn output(
        &mut self,
        queue: &mut RingBuf<AudioFrame>,
        output_buffer: &mut [u8],
        progress: &mut OutputProgress,
    ) -> (res: Option<(Option<i64>, bool)>)
        requires
            old(self).can_output(*old(queue), old(output_buffer)@.len(), *old(progress)),
        ensures
            output_call(
                *old(self),
                *old(queue),
                old(output_buffer)@,
                *old(progress),
            ).leads_to(
                output_call(*final(self), *final(queue), final(output_buffer)@, *final(progress)),
                res,
            ),
    {
        let len: usize = output_buffer.len();
        let ghost room = (len - progress.filled) as nat;
        let ghost played = self.playback(queue@, room);
        let ghost mut consumed: nat = 0;
        assert(queue@.skip(0) =~= queue@);
        while progress.filled < len
            invariant
                queue.wf(),
                progress.filled < len && queue.readable() ==> queue.capacity() > 0,
                *queue == old(queue).with_inner(old(queue).inner.after_reads(consumed)),
                consumed <= old(queue)@.len(),
                queue@ == old(queue)@.skip(consumed as int),
                *self == (AudioPlayer {
                    offset_into_current_slot: self.offset_into_current_slot,
                    ..*old(self)
                }),
                self.can_play(queue@, (len - progress.filled) as nat),
                output_buffer@.len() == len,
                len == old(output_buffer)@.len(),
                old(progress).filled <= progress.filled <= len,
                room == len - old(progress).filled,
                played == old(self).playback(old(queue)@, room),
                progress.pts is None && queue@.len() > 0 && progress.filled < len
                    ==> queue@[0].pts_fits(self.offset(), self.unit(), self.rate()),
                played.starved && old(queue).inner.writer_closed ==> can_repeat(
                    old(self).equilibrium@,
                    (room - played.bytes.len()) as nat,
                ),
                progress.wake_writer == (old(progress).wake_writer || consumed > 0),
                progress.started == old(progress).started,
                ({
                    let rest = self.playback(queue@, (len - progress.filled) as nat);
                    &&& played.bytes == output_buffer@.subrange(
                        old(progress).filled as int,
                        progress.filled as int,
                    ) + rest.bytes
                    &&& played.consumed == consumed + rest.consumed
                    &&& played.offset == rest.offset
                    &&& played.starved == rest.starved
                    &&& old(progress).pts_or(played.pts) == progress.pts_or(rest.pts)
                }),
                output_buffer@.take(old(progress).filled as int) == old(output_buffer)@.take(
                    old(progress).filled as int,
                ),
                output_buffer@.skip(progress.filled as int) == old(output_buffer)@.skip(
                    progress.filled as int,
                ),
            decreases len - progress.filled, queue@.len(),
        {
            let ghost filled = progress.filled as int;
            let ghost output = output_buffer@;
            proof {
                old(queue).inner.lemma_after_reads(consumed);
            }
            match queue.read() {
                Some(Ok(slot)) => {
                    let used_up = self.play_frame(slot.deref(), output_buffer, progress);
                    assert(output_buffer@.skip(progress.filled as int) =~= output.skip(
                        filled,
                    ).skip(progress.filled - filled));
                    assert(old(output_buffer)@.skip(progress.filled as int) =~= old(
                        output_buffer,
                    )@.skip(filled).skip(progress.filled - filled));
                    if used_up {
                        let _ = slot.finish();
                        proof {
                            consumed = consumed + 1;
                        }
                    } else {
                        slot.do_not_consume();
                    }
                },
                Some(Err(_)) => {
                    assert(queue@.len() == 0);
                    assert(played.bytes =~= output.subrange(old(progress).filled as int, filled));
                    assert(output.take(filled) =~= output.take(old(progress).filled as int)
                        + played.bytes);
                    let (_, rest) = output_buffer.split_at_mut(progress.filled);
                    self.fill_with_silence(rest);
                    assert(output_buffer@ =~= output.take(filled) + repeated(
                        self.equilibrium@,
                        (len - filled) as nat,
                    ));
                    return Some((progress.pts, true));
                },
                None => {
                    assert(queue@.len() == 0);
                    assert(played.bytes =~= output.subrange(old(progress).filled as int, filled));
                    assert(output =~= output.take(old(progress).filled as int) + played.bytes
                        + old(output_buffer)@.skip(filled));
                    return None;
                },
            }
        }
        assert(output_buffer@ =~= old(output_buffer)@.take(old(progress).filled as int)
            + played.bytes);
        Some((progress.pts, false))
    }
}

/// Copies `count` bytes of `source` from `from` on to `target` from `at` on.
fn copy_bytes(source: &Vec<u8>, from: usize, target: &mut [u8], at: usize, count: usize)
    requires
        from + count <= source@.len(),
        at + count <= old(target)@.len(),
    ensures
        final(target)@ == old(target)@.take(at as int) + source@.subrange(
            from as int,
            from + count,
        ) + old(target)@.skip(at + count),
{
    let mut done: usize = 0;
    let total: usize = source.len();
    let len: usize = target.len();
    while done < count
        invariant
            done <= count,
            total == source@.len(),
            len == target@.len(),
            from + count <= total,
            at + count <= len,
            target@ == old(target)@.take(at as int) + source@.subrange(from as int, from + done)
                + old(target)@.skip(at + done),
            old(target)@.len() == len,
        decreases count - done,
    {
        let ghost before = target@;
        target[at + done] = source[from + done];
        assert(target@ =~= old(target)@.take(at as int) + source@.subrange(
            from as int,
            from + done + 1,
        ) + old(target)@.skip(at + done + 1));
        done += 1;
    }
}

} // verus!
