use ffmpeg_player::audio::{equilibrium, repeat_to_fill, AudioFrame, AudioPlayer, OutputProgress};
use ffmpeg_player::format::SampleFormat;
use ffmpeg_player::ringbuf::RingBuf;
use ffmpeg_player::sync::SynchronizationInfo;

fn empty_frame() -> AudioFrame {
    AudioFrame { pts: None, samples: 0, data: vec![] }
}

fn queue_of(frames: Vec<AudioFrame>) -> RingBuf<AudioFrame> {
    let mut queue = RingBuf::new(8, empty_frame, "audio");
    for frame in frames {
        *queue.try_write().unwrap().deref_mut() = frame;
    }
    queue
}

fn frame(pts: Option<i64>, samples: usize, data: &[u8]) -> AudioFrame {
    AudioFrame { pts, samples, data: data.to_vec() }
}

#[test]
fn silence_of_each_format() {
    assert_eq!(equilibrium(SampleFormat::I8), vec![0]);
    assert_eq!(equilibrium(SampleFormat::I16), vec![0; 2]);
    assert_eq!(equilibrium(SampleFormat::I32), vec![0; 4]);
    assert_eq!(equilibrium(SampleFormat::I64), vec![0; 8]);
    assert_eq!(equilibrium(SampleFormat::U8), vec![128]);
    assert_eq!(equilibrium(SampleFormat::U16), 32_768u16.to_ne_bytes().to_vec());
    assert_eq!(equilibrium(SampleFormat::U32), 2_147_483_648u32.to_ne_bytes().to_vec());
    assert_eq!(equilibrium(SampleFormat::U64), 9_223_372_036_854_775_808u64.to_ne_bytes().to_vec());
    assert_eq!(equilibrium(SampleFormat::F32), 0.0f32.to_ne_bytes().to_vec());
    assert_eq!(equilibrium(SampleFormat::F64), 0.0f64.to_ne_bytes().to_vec());
}

#[test]
fn repeats_units_of_all_widths() {
    let mut output = [0u8; 3];
    repeat_to_fill(&[7], &mut output);
    assert_eq!(output, [7, 7, 7]);
    let mut output = [0u8; 6];
    repeat_to_fill(&[1, 2], &mut output);
    assert_eq!(output, [1, 2, 1, 2, 1, 2]);
    let mut output = [0u8; 8];
    repeat_to_fill(&[1, 2, 3, 4], &mut output);
    assert_eq!(output, [1, 2, 3, 4, 1, 2, 3, 4]);
    let mut output = [0u8; 16];
    repeat_to_fill(&[1, 2, 3, 4, 5, 6, 7, 8], &mut output);
    assert_eq!(output, [1, 2, 3, 4, 5, 6, 7, 8, 1, 2, 3, 4, 5, 6, 7, 8]);
    let mut output: [u8; 0] = [];
    repeat_to_fill(&[1, 2], &mut output);
    assert_eq!(output, []);
}

#[test]
fn silence_fills_a_paused_output() {
    let player = AudioPlayer::new(1000, 2, vec![9, 8]);
    let mut output = [0u8; 4];
    player.fill_with_silence(&mut output);
    assert_eq!(output, [9, 8, 9, 8]);
}

#[test]
fn output_joins_frames() {
    let mut queue = queue_of(vec![
        frame(Some(100), 2, &[1, 2, 3, 4, 99]),
        frame(Some(200), 1, &[5, 6]),
        frame(Some(300), 3, &[7, 8, 9, 10, 11, 12]),
    ]);
    let mut player = AudioPlayer::new(1000, 2, vec![0, 0]);
    let mut output = [0u8; 8];
    let mut progress = OutputProgress::new();
    assert_eq!(player.output(&mut queue, &mut output, &mut progress), Some((Some(100), false)));
    assert_eq!(output, [1, 2, 3, 4, 5, 6, 7, 8]);
    assert_eq!(player.offset_into_current_slot, 2);
    assert!(progress.wake_writer);

    // one sample into the third frame: one millisecond at this rate
    let mut output = [0u8; 4];
    let mut progress = OutputProgress::new();
    assert_eq!(player.output(&mut queue, &mut output, &mut progress), Some((Some(301), false)));
    assert_eq!(output, [9, 10, 11, 12]);
    assert_eq!(player.offset_into_current_slot, 0);
    assert!(queue.try_read().is_err());
}

#[test]
fn begun_frame_goes_on_at_the_size_of_the_last_output() {
    let mut queue = queue_of(vec![frame(Some(0), 10, &[0, 1, 2, 3, 4, 5, 6, 7, 8, 9])]);
    let mut player = AudioPlayer::new(1000, 1, vec![0]);
    let mut heard = vec![];
    for _ in 0..3 {
        let mut output = [0u8; 3];
        let mut progress = OutputProgress::new();
        player.output(&mut queue, &mut output, &mut progress).unwrap();
        assert!(!progress.wake_writer);
        heard.extend_from_slice(&output);
    }
    assert_eq!(heard, vec![0, 1, 2, 3, 4, 5, 3, 4, 5]);
}

#[test]
fn output_waits_for_frames() {
    let mut queue = queue_of(vec![frame(None, 2, &[1, 2])]);
    let mut player = AudioPlayer::new(8000, 1, vec![128]);
    let mut output = [0u8; 5];
    let mut progress = OutputProgress::new();
    assert_eq!(player.output(&mut queue, &mut output, &mut progress), None);
    assert_eq!(progress.filled, 2);
    assert_eq!(progress.pts, None);
    *queue.try_write().unwrap().deref_mut() = frame(Some(40), 4, &[3, 4, 5, 6]);
    assert_eq!(player.output(&mut queue, &mut output, &mut progress), Some((Some(40), false)));
    assert_eq!(output, [1, 2, 3, 4, 5]);
    assert_eq!(player.offset_into_current_slot, 3);
}

#[test]
fn output_ends_in_silence() {
    let mut queue = queue_of(vec![frame(Some(7), 1, &[1, 2])]);
    queue.close_write();
    let mut player = AudioPlayer::new(8000, 2, vec![5, 6]);
    let mut output = [0u8; 6];
    let mut progress = OutputProgress::new();
    assert_eq!(player.output(&mut queue, &mut output, &mut progress), Some((Some(7), true)));
    assert_eq!(output, [1, 2, 5, 6, 5, 6]);
    assert_eq!(progress.filled, 2);

    let mut progress = OutputProgress::new();
    assert_eq!(player.output(&mut queue, &mut output, &mut progress), Some((None, true)));
    assert_eq!(output, [5, 6, 5, 6, 5, 6]);
}

#[test]
fn output_without_room_takes_nothing() {
    let mut queue = queue_of(vec![frame(Some(7), 1, &[1])]);
    let mut player = AudioPlayer::new(8000, 1, vec![0]);
    let mut output: [u8; 0] = [];
    let mut progress = OutputProgress::new();
    assert_eq!(player.output(&mut queue, &mut output, &mut progress), Some((None, false)));
    assert_eq!(queue.try_read().unwrap().deref().samples, 1);
}

#[test]
fn frame_that_just_fits_is_used_up() {
    let mut queue = queue_of(vec![frame(None, 3, &[1, 2, 3])]);
    let mut player = AudioPlayer::new(8000, 1, vec![0]);
    let mut output = [0u8; 3];
    let mut progress = OutputProgress::new();
    assert_eq!(player.output(&mut queue, &mut output, &mut progress), Some((None, false)));
    assert_eq!(output, [1, 2, 3]);
    assert!(queue.try_read().is_err());
}

#[test]
fn whole_samples_stay_whole() {
    let mut queue = queue_of(vec![frame(None, 3, &[1; 12]), frame(None, 1, &[2; 4])]);
    queue.close_write();
    let mut player = AudioPlayer::new(8000, 4, vec![0, 128]);
    let mut output = [9u8; 18];
    let mut progress = OutputProgress::new();
    assert_eq!(player.output(&mut queue, &mut output, &mut progress), Some((None, true)));
    assert_eq!(&output[16..], &[0, 128]);
}

#[test]
fn paused_player_is_silent() {
    let mut sync = SynchronizationInfo::default();
    let mut queue = queue_of(vec![frame(Some(5), 4, &[1, 2, 3, 4])]);
    let mut player = AudioPlayer::new(1000, 1, vec![9]);
    let mut progress = OutputProgress::new();
    let mut output = [0u8; 3];
    assert!(player.play_audio(&mut sync, &mut queue, &mut output, &mut progress, 2));
    assert_eq!(output, [9, 9, 9]);
    assert_eq!(progress, OutputProgress::new());
    assert_eq!(sync.current_pts, 0);
    assert!(!sync.audio_eof);
    assert_eq!(queue.try_read().unwrap().deref().data, vec![1, 2, 3, 4]);
}

#[test]
fn playing_player_sets_the_clock() {
    let mut sync = SynchronizationInfo::started();
    let mut queue = queue_of(vec![frame(Some(500), 3, &[1, 2, 3])]);
    let mut player = AudioPlayer::new(1000, 1, vec![9]);
    let mut progress = OutputProgress::new();
    let mut output = [0u8; 3];
    assert!(player.play_audio(&mut sync, &mut queue, &mut output, &mut progress, 20));
    assert_eq!(output, [1, 2, 3]);
    assert_eq!(progress.pts, Some(500));
    assert!(progress.wake_writer);
    assert_eq!(sync.current_pts, 480);
    assert!(!sync.audio_eof);
    assert!(sync.is_playing);
}

#[test]
fn begun_output_is_finished_though_playback_stops() {
    let mut sync = SynchronizationInfo::started();
    let mut queue = queue_of(vec![frame(Some(100), 1, &[1])]);
    let mut player = AudioPlayer::new(1000, 1, vec![9]);
    let mut progress = OutputProgress::new();
    let mut output = [0u8; 3];
    assert!(!player.play_audio(&mut sync, &mut queue, &mut output, &mut progress, 10));
    assert_eq!(output, [1, 0, 0]);
    assert!(progress.started);
    assert_eq!(progress.filled, 1);
    assert_eq!(sync.current_pts, 0);

    sync.is_playing = false;
    *queue.try_write().unwrap().deref_mut() = frame(Some(101), 1, &[2]);
    queue.close_write();
    assert!(player.play_audio(&mut sync, &mut queue, &mut output, &mut progress, 10));
    assert_eq!(output, [1, 2, 9]);
    assert_eq!(sync.current_pts, 90);
    assert!(sync.audio_eof);
}

#[test]
fn silence_has_a_bit_pattern() {
    assert_eq!(SampleFormat::U8.silence_bits(), 0x80);
    assert_eq!(SampleFormat::U16.silence_bits(), 0x8000);
    assert_eq!(SampleFormat::U32.silence_bits(), 0x8000_0000);
    assert_eq!(SampleFormat::U64.silence_bits(), 0x8000_0000_0000_0000);
    assert_eq!(SampleFormat::I16.silence_bits(), 0);
    assert_eq!(SampleFormat::F64.silence_bits(), 0);
}

#[test]
fn frames_that_are_not_come_to_do_not_matter() {
    let mut queue = queue_of(vec![frame(Some(5), 2, &[1, 2]), frame(None, 9, &[])]);
    let mut player = AudioPlayer::new(1000, 1, vec![9]);
    let mut progress = OutputProgress::new();
    let mut output = [0u8; 2];
    assert_eq!(player.output(&mut queue, &mut output, &mut progress), Some((Some(5), false)));
    assert_eq!(output, [1, 2]);
}
