//! The rules of the decoder thread: which packets it decodes, and how decoded frames come into
//! their queue.
//!
//! The decoder itself, and the waiting for room in a queue, belong to the thread that runs these
//! rules: it performs the action that it is given and reports what came of it.
use crate::ringbuf::AcquireError;
use vstd::prelude::*;

verus! {

/// Why the decoder or the file gave nothing.
#[derive(PartialEq, Eq, Structural, Debug, Clone, Copy)]
pub enum DecodeError {
    /// There is nothing more.
    Eof,
    /// Something failed, with this error code.
    Code(i32),
}

/// What came of asking the decoder for a frame.
#[derive(PartialEq, Eq, Structural, Debug, Clone, Copy)]
pub enum Received {
    /// A frame.
    Frame,
    /// None yet: the decoder wants another packet first.
    Again,
    /// An error.
    Failed(DecodeError),
}

/// What the thread reports to the pump.
#[derive(PartialEq, Eq, Debug, Clone, Copy)]
pub enum PumpEvent {
    /// The decoder was asked for a frame.
    Received(Received),
    /// A slot of the queue was asked for.
    Acquired(Result<(), AcquireError>),
}

/// What becomes of the slot that the thread holds.
#[derive(PartialEq, Eq, Structural, Debug, Clone, Copy)]
pub enum SlotFate {
    /// Nothing: it holds none, or goes on holding it.
    Keep,
    /// The temporary frame is processed into it, and it is let go of.
    Process,
    /// It is let go of.
    Consume,
    /// It is given back as not consumed.
    DoNotConsume,
}

/// What the thread does next.
#[derive(PartialEq, Eq, Debug, Clone, Copy)]
pub enum PumpStep {
    /// It asks the decoder for a frame.
    Receive,
    /// It asks for a slot of the queue, and waits if there is none.
    Acquire,
    /// It is done: with so many frames, or with an error.
    Finish(Result<usize, DecodeError>),
}

/// Moves frames from a decoder to a queue until the decoder has none left.
///
/// Frames that have to be processed are decoded into a temporary frame first, and processed into
/// a slot once there is one, so that the queue is held for the processing alone. Others are
/// decoded into a slot directly.
#[derive(PartialEq, Eq, Debug, Clone, Copy)]
pub struct DecoderPump {
    /// Whether frames are decoded into a slot directly.
    pub direct: bool,
    /// How many frames the decoder gave.
    pub count: usize,
    /// What the thread does.
    pub step: PumpStep,
}

impl DecoderPump {
    /// Whether `event` is what the pump waits for.
    pub open spec fn awaits(self, event: PumpEvent) -> bool {
        match self.step {
            PumpStep::Receive => event is Received && self.count < usize::MAX,
            PumpStep::Acquire => event is Acquired,
            PumpStep::Finish(_) => false,
        }
    }

    /// The pump with its step replaced.
    pub open spec fn at(self, step: PumpStep) -> DecoderPump {
        DecoderPump { step, ..self }
    }

    /// The pump with one frame more.
    pub open spec fn counted(self) -> DecoderPump {
        DecoderPump { count: (self.count + 1) as usize, ..self }
    }

    /// What the pump becomes by `event`, and what becomes of the slot that is held.
    pub open spec fn after(self, event: PumpEvent) -> (DecoderPump, SlotFate) {
        match event {
            PumpEvent::Received(Received::Frame) => if self.direct {
                (self.counted().at(PumpStep::Acquire), SlotFate::Consume)
            } else {
                (self.counted().at(PumpStep::Acquire), SlotFate::Keep)
            },
            PumpEvent::Received(Received::Again) => if self.direct {
                (self.at(PumpStep::Finish(Ok(self.count))), SlotFate::DoNotConsume)
            } else {
                (self.at(PumpStep::Finish(Ok(self.count))), SlotFate::Keep)
            },
            PumpEvent::Received(Received::Failed(error)) => if self.direct {
                (self.at(PumpStep::Finish(Err(error))), SlotFate::Consume)
            } else {
                (self.at(PumpStep::Finish(Err(error))), SlotFate::Keep)
            },
            PumpEvent::Acquired(Ok(())) => if self.direct {
                (self.at(PumpStep::Receive), SlotFate::Keep)
            } else {
                (self.at(PumpStep::Receive), SlotFate::Process)
            },
            PumpEvent::Acquired(Err(_)) => (
                self.at(PumpStep::Finish(Err(DecodeError::Eof))),
                SlotFate::Keep,
            ),
        }
    }

    /// A pump that begins: with a slot if frames go there directly, else with the decoder.
    pub fn new(direct: bool) -> (pump: Self)
        ensures
            pump == Self::begun(direct),
    {
        let step = if direct {
            PumpStep::Acquire
        } else {
            PumpStep::Receive
        };
        DecoderPump { direct, count: 0, step }
    }

    /// A pump that begins.
    pub open spec fn begun(direct: bool) -> DecoderPump {
        DecoderPump {
            direct,
            count: 0,
            step: if direct {
                PumpStep::Acquire
            } else {
                PumpStep::Receive
            },
        }
    }

    /// Takes note of `event`, and says what becomes of the slot that is held. What to do next is
    /// in `step`.
    pub fn pump_decoder(&mut self, event: PumpEvent) -> (fate: SlotFate)
        requires
            old(self).awaits(event),
        ensures
            (*final(self), fate) == old(self).after(event),
    {
        match event {
            PumpEvent::Received(Received::Frame) => {
                self.count = self.count + 1;
                self.step = PumpStep::Acquire;
                if self.direct {
                    SlotFate::Consume
                } else {
                    SlotFate::Keep
                }
            },
            PumpEvent::Received(Received::Again) => {
                self.step = PumpStep::Finish(Ok(self.count));
                if self.direct {
                    SlotFate::DoNotConsume
                } else {
                    SlotFate::Keep
                }
            },
            PumpEvent::Received(Received::Failed(error)) => {
                self.step = PumpStep::Finish(Err(error));
                if self.direct {
                    SlotFate::Consume
                } else {
                    SlotFate::Keep
                }
            },
            PumpEvent::Acquired(Ok(())) => {
                self.step = PumpStep::Receive;
                if self.direct {
                    SlotFate::Keep
                } else {
                    SlotFate::Process
                }
            },
            PumpEvent::Acquired(Err(_)) => {
                self.step = PumpStep::Finish(Err(DecodeError::Eof));
                SlotFate::Keep
            },
        }
    }
}

/// How many frames wait in a video queue at most.
pub const VIDEO_QUEUE_LEN: usize = 40;

/// How many frames wait in an audio queue at most.
pub const AUDIO_QUEUE_LEN: usize = 320;

/// How many samples an audio frame has room for.
pub const AUDIO_FRAME_SAMPLES: usize = 16384;

/// The decoder to use for a video, if it has to be a certain one: the built-in decoder for VP9 does
/// not know transparency.
pub fn forced_video_decoder(is_vp9: bool) -> (name: Option<&'static str>)
    ensures
        is_vp9 ==> (name matches Some(name) && name@ == "libvpx-vp9"@),
        !is_vp9 ==> name is None,
{
    if is_vp9 {
        Some("libvpx-vp9")
    } else {
        None
    }
}

/// What the thread does with what it read from the file.
#[derive(PartialEq, Eq, Structural, Debug, Clone, Copy)]
pub enum PacketAction {
    /// It decodes the packet as video, as audio, as both or not at all.
    Decode { video: bool, audio: bool },
    /// It goes back to the start of the file.
    Rewind,
    /// It gives up, with this error code.
    Fail(i32),
}

/// The state of the decoder thread.
#[derive(PartialEq, Eq, Debug, Clone, Copy)]
pub struct VideoDecodeThread {
    /// The stream of the file that is decoded as video.
    pub video_stream: Option<usize>,
    /// The stream of the file that is decoded as audio.
    pub audio_stream: Option<usize>,
    /// How many more video frames than audio frames were decoded since the start of the file.
    pub av_offset: i64,
}

impl VideoDecodeThread {
    /// A thread that begins to read the file.
    pub fn new(video_stream: Option<usize>, audio_stream: Option<usize>) -> (thread: Self)
        ensures
            thread == (VideoDecodeThread { video_stream, audio_stream, av_offset: 0 }),
    {
        VideoDecodeThread { video_stream, audio_stream, av_offset: 0 }
    }

    /// Decides what to do with a packet of the given stream, or without one. The end of the file is
    /// followed by its start.
    pub fn on_packet(&mut self, packet: Result<usize, DecodeError>) -> (action: PacketAction)
        ensures
            match packet {
                Ok(stream) => {
                    &&& action == PacketAction::Decode {
                        video: old(self).video_stream == Some(stream),
                        audio: old(self).audio_stream == Some(stream),
                    }
                    &&& *final(self) == *old(self)
                },
                Err(DecodeError::Eof) => {
                    &&& action == PacketAction::Rewind
                    &&& *final(self) == (VideoDecodeThread { av_offset: 0, ..*old(self) })
                },
                Err(DecodeError::Code(code)) => {
                    &&& action == PacketAction::Fail(code)
                    &&& *final(self) == *old(self)
                },
            },
    {
        match packet {
            Ok(stream) => {
                let video = match self.video_stream {
                    Some(video_stream) => video_stream == stream,
                    None => false,
                };
                let audio = match self.audio_stream {
                    Some(audio_stream) => audio_stream == stream,
                    None => false,
                };
                PacketAction::Decode { video, audio }
            },
            Err(DecodeError::Eof) => {
                self.av_offset = 0;
                PacketAction::Rewind
            },
            Err(DecodeError::Code(code)) => PacketAction::Fail(code),
        }
    }

    /// Takes note of how many frames a video packet gave. Tells whether that is worth a message,
    /// or which error the thread gives up with.
    pub fn on_video(&mut self, decoded: Result<usize, DecodeError>) -> (res: Result<
        bool,
        DecodeError,
    >)
        requires
            decoded matches Ok(count) ==> old(self).av_offset + count <= i64::MAX && count
                <= i64::MAX,
        ensures
            match decoded {
                Ok(count) => {
                    &&& res == Ok::<bool, DecodeError>(count != 1)
                    &&& *final(self) == (VideoDecodeThread {
                        av_offset: (old(self).av_offset + count) as i64,
                        ..*old(self)
                    })
                },
                Err(error) => {
                    &&& res == Err::<bool, DecodeError>(error)
                    &&& *final(self) == *old(self)
                },
            },
    {
        match decoded {
            Ok(count) => {
                self.av_offset = self.av_offset + count as i64;
                Ok(count != 1)
            },
            Err(error) => Err(error),
        }
    }

    /// Takes note of how many frames an audio packet gave. Tells whether that is worth a message,
    /// or which error the thread gives up with. That nobody listens any more is no error.
    pub fn on_audio(&mut self, decoded: Result<usize, DecodeError>) -> (res: Result<
        bool,
        DecodeError,
    >)
        requires
            decoded matches Ok(count) ==> old(self).av_offset - count >= i64::MIN && count
                <= i64::MAX,
        ensures
            match decoded {
                Ok(count) => {
                    &&& res == Ok::<bool, DecodeError>(count != 1)
                    &&& *final(self) == (VideoDecodeThread {
                        av_offset: (old(self).av_offset - count) as i64,
                        ..*old(self)
                    })
                },
                Err(DecodeError::Eof) => {
                    &&& res == Ok::<bool, DecodeError>(false)
                    &&& *final(self) == *old(self)
                },
                Err(error) => {
                    &&& res == Err::<bool, DecodeError>(error)
                    &&& *final(self) == *old(self)
                },
            },
    {
        match decoded {
            Ok(count) => {
                self.av_offset = self.av_offset - count as i64;
                Ok(count != 1)
            },
            Err(DecodeError::Eof) => Ok(false),
            Err(error) => Err(error),
        }
    }
}

/// Whether the pump waits for each of `events` in turn.
pub open spec fn is_run(direct: bool, events: Seq<PumpEvent>) -> bool
    decreases events.len(),
{
    events.len() > 0 ==> {
        &&& is_run(direct, events.drop_last())
        &&& pump_after(direct, events.drop_last()).awaits(events.last())
    }
}

/// The pump after `events`.
pub open spec fn pump_after(direct: bool, events: Seq<PumpEvent>) -> DecoderPump
    decreases events.len(),
{
    if events.len() == 0 {
        DecoderPump::begun(direct)
    } else {
        pump_after(direct, events.drop_last()).after(events.last()).0
    }
}

/// How many slots were handed to the reader of the queue.
pub open spec fn delivered(direct: bool, events: Seq<PumpEvent>) -> nat
    decreases events.len(),
{
    if events.len() == 0 {
        0
    } else {
        let fate = pump_after(direct, events.drop_last()).after(events.last()).1;
        delivered(direct, events.drop_last()) + if fate == SlotFate::Process || fate
            == SlotFate::Consume {
            1nat
        } else {
            0nat
        }
    }
}

/// How many frames the decoder gave.
pub open spec fn decoded(events: Seq<PumpEvent>) -> nat {
    events.filter(|event: PumpEvent| event == PumpEvent::Received(Received::Frame)).len()
}

/// The pump counts the frames that the decoder gave, and all of these are in the queue when it
/// finishes without an error.
pub proof fn law_all_frames_are_delivered(direct: bool, events: Seq<PumpEvent>)
    requires
        is_run(direct, events),
    ensures
        pump_after(direct, events).direct == direct,
        pump_after(direct, events).count == decoded(events),
        match pump_after(direct, events).step {
            PumpStep::Finish(Ok(count)) => {
                &&& count == decoded(events)
                &&& delivered(direct, events) == decoded(events)
            },
            PumpStep::Finish(Err(_)) => true,
            PumpStep::Receive => delivered(direct, events) == decoded(events),
            PumpStep::Acquire => delivered(direct, events) + (if direct {
                0nat
            } else {
                1nat
            }) == decoded(events),
        },
    decreases events.len(),
{
    reveal(Seq::filter);
    if events.len() > 0 {
        law_all_frames_are_delivered(direct, events.drop_last());
    }
}

/// A pump that processes frames holds a slot for the processing alone: it never gives one back,
/// and hands none out that was not filled.
pub proof fn law_processed_slots_are_filled(pump: DecoderPump, event: PumpEvent)
    requires
        !pump.direct,
        pump.awaits(event),
    ensures
        pump.after(event).1 == SlotFate::Process <==> (event matches PumpEvent::Acquired(Ok(_))),
        pump.after(event).1 != SlotFate::Process ==> pump.after(event).1 == SlotFate::Keep,
{
}

/// A pump whose reader has gone finishes as if there was nothing more.
pub proof fn law_closed_queue_ends_the_pump(pump: DecoderPump, error: AcquireError)
    requires
        pump.awaits(PumpEvent::Acquired(Err(error))),
    ensures
        pump.after(PumpEvent::Acquired(Err(error))).0.step == PumpStep::Finish(
            Err(DecodeError::Eof),
        ),
{
}

/// A pump goes on exactly as long as the decoder gives frames and the queue has a reader. When the
/// decoder wants another packet it finishes without an error, with the number of frames given so
/// far, be that none; with an error of the decoder it finishes with that one, and with the end of
/// the stream when the reader has gone. A direct pump asks for a slot first, and after each frame;
/// another one asks the decoder first, and after each slot.
pub proof fn law_pump_finishes_when_the_decoder_wants_more(direct: bool, events: Seq<PumpEvent>)
    requires
        is_run(direct, events),
    ensures
        ({
            let step = pump_after(direct, events).step;
            if events.len() == 0 {
                step == if direct {
                    PumpStep::Acquire
                } else {
                    PumpStep::Receive
                }
            } else {
                match events.last() {
                    PumpEvent::Received(Received::Frame) => step == PumpStep::Acquire,
                    PumpEvent::Received(Received::Again) => step == PumpStep::Finish(
                        Ok(decoded(events) as usize),
                    ) && decoded(events) <= usize::MAX,
                    PumpEvent::Received(Received::Failed(error)) => step == PumpStep::Finish(
                        Err(error),
                    ),
                    PumpEvent::Acquired(Ok(_)) => step == PumpStep::Receive,
                    PumpEvent::Acquired(Err(_)) => step == PumpStep::Finish(
                        Err(DecodeError::Eof),
                    ),
                }
            }
        }),
{
    law_all_frames_are_delivered(direct, events);
}

/// A pump that is not done takes whatever comes of what it asked for, and one that is done takes
/// nothing.
pub proof fn law_pump_takes_any_answer(pump: DecoderPump, event: PumpEvent)
    requires
        pump.count < usize::MAX,
    ensures
        pump.awaits(event) <==> match event {
            PumpEvent::Received(_) => pump.step == PumpStep::Receive,
            PumpEvent::Acquired(_) => pump.step == PumpStep::Acquire,
        },
{
}

/// How many slots of the queue were taken.
pub open spec fn slots_taken(events: Seq<PumpEvent>) -> nat
    decreases events.len(),
{
    if events.len() == 0 {
        0
    } else {
        slots_taken(events.drop_last()) + if events.last() matches PumpEvent::Acquired(Ok(_)) {
            1nat
        } else {
            0nat
        }
    }
}

/// How many slots were given back as not consumed.
pub open spec fn given_back(direct: bool, events: Seq<PumpEvent>) -> nat
    decreases events.len(),
{
    if events.len() == 0 {
        0
    } else {
        let fate = pump_after(direct, events.drop_last()).after(events.last()).1;
        given_back(direct, events.drop_last()) + if fate == SlotFate::DoNotConsume {
            1nat
        } else {
            0nat
        }
    }
}

/// No slot is kept or lost: each one that was taken is handed to the reader or given back, but for
/// the one that a direct pump holds while it asks the decoder. One is given back exactly if a
/// direct pump finds that the decoder has no frame for it.
pub proof fn law_slots_are_let_go_of(direct: bool, events: Seq<PumpEvent>)
    requires
        is_run(direct, events),
    ensures
        slots_taken(events) == delivered(direct, events) + given_back(direct, events) + (if direct
            && pump_after(direct, events).step == PumpStep::Receive {
            1nat
        } else {
            0nat
        }),
        given_back(direct, events) == (if direct && events.len() > 0 && (events.last() matches
            PumpEvent::Received(Received::Again)) {
            1nat
        } else {
            0nat
        }),
    decreases events.len(),
{
    if events.len() > 0 {
        let sooner = events.drop_last();
        law_slots_are_let_go_of(direct, sooner);
        law_all_frames_are_delivered(direct, sooner);
        law_pump_finishes_when_the_decoder_wants_more(direct, sooner);
        law_pump_finishes_when_the_decoder_wants_more(direct, events);
    }
}

/// Pictures wait in a queue of 40 slots, and sounds in one of 320, whose frames have room for 16384
/// samples.
pub proof fn law_queue_sizes()
    ensures
        VIDEO_QUEUE_LEN == 40,
        AUDIO_QUEUE_LEN == 320,
        AUDIO_FRAME_SAMPLES == 16384,
{
}

} // verus!
