use ffmpeg_player::decode::{
    forced_video_decoder, DecodeError, DecoderPump, PacketAction, PumpEvent, PumpStep, Received,
    SlotFate, VideoDecodeThread, AUDIO_FRAME_SAMPLES, AUDIO_QUEUE_LEN, VIDEO_QUEUE_LEN,
};
use ffmpeg_player::option_ext::OptionExt;
use ffmpeg_player::ringbuf::AcquireError;

const FRAME: PumpEvent = PumpEvent::Received(Received::Frame);
const AGAIN: PumpEvent = PumpEvent::Received(Received::Again);
const SLOT: PumpEvent = PumpEvent::Acquired(Ok(()));
const CLOSED: PumpEvent = PumpEvent::Acquired(Err(AcquireError::ChannelClosed));

#[test]
fn processed_frames_are_decoded_first() {
    let mut pump = DecoderPump::new(false);
    assert_eq!(pump.step, PumpStep::Receive);
    let mut delivered = 0;
    for _ in 0..3 {
        assert_eq!(pump.pump_decoder(FRAME), SlotFate::Keep);
        assert_eq!(pump.step, PumpStep::Acquire);
        assert_eq!(pump.pump_decoder(SLOT), SlotFate::Process);
        delivered += 1;
        assert_eq!(pump.step, PumpStep::Receive);
    }
    assert_eq!(pump.pump_decoder(AGAIN), SlotFate::Keep);
    assert_eq!(pump.step, PumpStep::Finish(Ok(delivered)));
}

#[test]
fn direct_frames_are_decoded_into_a_slot() {
    let mut pump = DecoderPump::new(true);
    assert_eq!(pump.step, PumpStep::Acquire);
    for _ in 0..2 {
        assert_eq!(pump.pump_decoder(SLOT), SlotFate::Keep);
        assert_eq!(pump.step, PumpStep::Receive);
        assert_eq!(pump.pump_decoder(FRAME), SlotFate::Consume);
        assert_eq!(pump.step, PumpStep::Acquire);
    }
    assert_eq!(pump.pump_decoder(SLOT), SlotFate::Keep);
    assert_eq!(pump.pump_decoder(AGAIN), SlotFate::DoNotConsume);
    assert_eq!(pump.step, PumpStep::Finish(Ok(2)));
}

#[test]
fn pump_ends_with_the_decoder_or_the_queue() {
    let failed = PumpEvent::Received(Received::Failed(DecodeError::Code(-22)));
    let mut pump = DecoderPump::new(false);
    assert_eq!(pump.pump_decoder(failed), SlotFate::Keep);
    assert_eq!(pump.step, PumpStep::Finish(Err(DecodeError::Code(-22))));

    let mut pump = DecoderPump::new(true);
    pump.pump_decoder(SLOT);
    assert_eq!(pump.pump_decoder(failed), SlotFate::Consume);
    assert_eq!(pump.step, PumpStep::Finish(Err(DecodeError::Code(-22))));

    let mut pump = DecoderPump::new(true);
    assert_eq!(pump.pump_decoder(CLOSED), SlotFate::Keep);
    assert_eq!(pump.step, PumpStep::Finish(Err(DecodeError::Eof)));

    let mut pump = DecoderPump::new(false);
    pump.pump_decoder(FRAME);
    assert_eq!(pump.pump_decoder(CLOSED), SlotFate::Keep);
    assert_eq!(pump.step, PumpStep::Finish(Err(DecodeError::Eof)));
}

#[test]
fn packets_go_to_their_decoders() {
    let mut thread = VideoDecodeThread::new(Some(1), Some(0));
    assert_eq!(thread.on_packet(Ok(1)), PacketAction::Decode { video: true, audio: false });
    assert_eq!(thread.on_packet(Ok(0)), PacketAction::Decode { video: false, audio: true });
    assert_eq!(thread.on_packet(Ok(2)), PacketAction::Decode { video: false, audio: false });
    let mut silent = VideoDecodeThread::new(Some(0), None);
    assert_eq!(silent.on_packet(Ok(0)), PacketAction::Decode { video: true, audio: false });
}

#[test]
fn file_is_played_over_and_over() {
    let mut thread = VideoDecodeThread::new(Some(1), Some(0));
    assert_eq!(thread.on_video(Ok(1)), Ok(false));
    assert_eq!(thread.on_video(Ok(3)), Ok(true));
    assert_eq!(thread.on_audio(Ok(0)), Ok(true));
    assert_eq!(thread.on_audio(Ok(1)), Ok(false));
    assert_eq!(thread.av_offset, 3);
    assert_eq!(thread.on_packet(Err(DecodeError::Eof)), PacketAction::Rewind);
    assert_eq!(thread.av_offset, 0);
    assert_eq!(thread.on_packet(Err(DecodeError::Code(-5))), PacketAction::Fail(-5));
}

#[test]
fn closed_audio_is_no_error() {
    let mut thread = VideoDecodeThread::new(Some(1), Some(0));
    assert_eq!(thread.on_audio(Err(DecodeError::Eof)), Ok(false));
    assert_eq!(thread.on_audio(Err(DecodeError::Code(-1))), Err(DecodeError::Code(-1)));
    assert_eq!(thread.on_video(Err(DecodeError::Eof)), Err(DecodeError::Eof));
    assert_eq!(thread.av_offset, 0);
}

#[test]
fn transparent_video_has_its_own_decoder() {
    assert_eq!(forced_video_decoder(true), Some("libvpx-vp9"));
    assert_eq!(forced_video_decoder(false), None);
    assert_eq!((VIDEO_QUEUE_LEN, AUDIO_QUEUE_LEN, AUDIO_FRAME_SAMPLES), (40, 320, 16384));
}

#[test]
fn missing_value_satisfies_everything() {
    assert!(OptionExt::is_none_or(&None::<u8>, |_| false));
    assert!(OptionExt::is_none_or(&Some(3u8), |x| *x == 3));
    assert!(!OptionExt::is_none_or(&Some(3u8), |x| *x == 4));
}
