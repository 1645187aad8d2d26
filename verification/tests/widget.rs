use ffmpeg_player::ringbuf::RingBuf;
use ffmpeg_player::widget::{
    next_repaint, time_to_next_frame, AudioArgs, Repaint, StartAudio, VideoFrame,
    VideoPlayerWidget,
};

fn frame(pts: Option<i64>) -> VideoFrame {
    VideoFrame { pts, stride: 8, height: 1, data: vec![] }
}

fn queue_of(times: &[Option<i64>]) -> RingBuf<VideoFrame> {
    let mut queue = RingBuf::new(8, || frame(None), "video");
    for pts in times {
        *queue.try_write().unwrap().deref_mut() = frame(*pts);
    }
    queue
}

/// The timestamp of the frame that is shown, how many frames are left, the timestamp of the next
/// one, and whether the writer is to be woken.
fn shown(times: &[Option<i64>], now: i64) -> Option<(Option<i64>, usize, Option<i64>, bool)> {
    let mut queue = queue_of(times);
    let mut widget = VideoPlayerWidget::new();
    let (pts, next_pts, wake_writer) = {
        let shown = widget.show(&mut queue, &mut 0, now)?;
        assert!(shown.redraw);
        (shown.slot.deref().pts, shown.next_pts, shown.wake_writer)
    };
    assert_eq!(widget.last_pts, pts);
    let mut left = 0;
    while queue.try_read().is_ok() {
        left += 1;
    }
    Some((pts, left, next_pts, wake_writer))
}

#[test]
fn last_due_frame_is_shown() {
    let times = [Some(10), Some(20), Some(30), Some(40)];
    assert_eq!(shown(&times, 25), Some((Some(20), 3, Some(30), true)));
    assert_eq!(shown(&times, 30), Some((Some(30), 2, Some(40), true)));
    assert_eq!(shown(&times, 99), Some((Some(40), 1, None, true)));
    assert_eq!(shown(&times, 10), Some((Some(10), 4, Some(20), false)));
}

#[test]
fn first_frame_is_shown_if_none_is_due() {
    assert_eq!(shown(&[Some(10), Some(20)], 5), Some((Some(10), 2, Some(20), false)));
}

#[test]
fn frames_out_of_order_are_searched() {
    assert_eq!(shown(&[Some(30), Some(10), Some(20)], 25), Some((Some(20), 1, None, true)));
    assert_eq!(shown(&[Some(30), Some(10), Some(20)], 5), Some((Some(10), 2, Some(20), true)));
    assert_eq!(shown(&[Some(30), Some(10), Some(10)], 5), Some((Some(10), 2, Some(10), true)));
    assert_eq!(shown(&[Some(10), Some(10), Some(30)], 15), Some((Some(10), 2, Some(30), true)));
}

#[test]
fn first_frame_that_is_due_right_now() {
    assert_eq!(shown(&[Some(5), Some(5), Some(6)], 5), Some((Some(5), 3, Some(5), false)));
    assert_eq!(shown(&[Some(5), Some(3), Some(4)], 5), Some((Some(4), 1, None, true)));
    assert_eq!(shown(&[Some(5), Some(3), Some(5)], 5), Some((Some(5), 1, None, true)));
}

#[test]
fn frames_without_timestamp_are_passed_over() {
    assert_eq!(shown(&[None, Some(10), None, Some(20)], 15), Some((Some(10), 3, None, true)));
    assert_eq!(shown(&[None, None], 15), None);
    assert_eq!(shown(&[], 15), None);
}

#[test]
fn same_frame_is_not_drawn_again() {
    let mut queue = queue_of(&[Some(10), Some(20)]);
    let mut widget = VideoPlayerWidget::new();
    let mut counter = 0;
    assert!(widget.show(&mut queue, &mut counter, 12).unwrap().redraw);
    assert!(!widget.show(&mut queue, &mut counter, 15).unwrap().redraw);
    assert!(widget.show(&mut queue, &mut counter, 20).unwrap().redraw);
    assert_eq!(widget.last_pts, Some(20));
    assert_eq!(counter, 3);
}

#[test]
fn nothing_to_show_is_remembered_as_nothing() {
    let mut queue = queue_of(&[None]);
    let mut widget = VideoPlayerWidget { last_pts: Some(3) };
    let mut counter = 7;
    assert!(widget.show(&mut queue, &mut counter, 12).is_none());
    assert_eq!(widget.last_pts, Some(3));
    assert_eq!(counter, 8);
    assert!(queue.try_read().is_ok());
}

#[test]
fn frame_stays_until_the_next_one() {
    assert_eq!(time_to_next_frame(40, 25), 15);
    assert_eq!(time_to_next_frame(25, 25), 0);
    assert_eq!(time_to_next_frame(-5, -7), 2);
    assert_eq!(time_to_next_frame(-1, 5), u64::MAX - 5);
}

#[test]
fn repaints_are_asked_for_while_playing() {
    assert_eq!(next_repaint(true, Some(15)), Repaint::After(15));
    assert_eq!(next_repaint(true, None), Repaint::Now);
    assert_eq!(next_repaint(false, Some(15)), Repaint::OnDemand);
    assert_eq!(next_repaint(false, None), Repaint::OnDemand);
}

#[test]
fn picture_is_multiplied_by_its_opacity() {
    let picture = VideoFrame {
        pts: Some(0),
        stride: 8,
        height: 2,
        data: vec![1, 2, 3, 255, 4, 5, 6, 0, 255, 128, 0, 128, 9, 9, 9, 255],
    };
    let image = picture.to_image();
    assert_eq!((image.width, image.height), (2, 2));
    assert_eq!(image.pixels.len(), 4);
    assert_eq!(image.pixels[0], [1, 2, 3, 255]);
    assert_eq!(image.pixels[1], [0, 0, 0, 0]);
    let expected = egui::Color32::from_rgba_unmultiplied(255, 128, 0, 128).to_array();
    assert_eq!(image.pixels[2], expected);
    assert_ne!(image.pixels[2], [255, 128, 0, 128]);
    assert_eq!(image.pixels[2][2], 0);
    assert_eq!(image.pixels[2][3], 128);
    assert_eq!(image.pixels[3], [9, 9, 9, 255]);
}

#[test]
fn audio_is_started_once_it_is_known() {
    let widget = VideoPlayerWidget::new();
    assert_eq!(widget.try_start_audio(AudioArgs::Received), Some(StartAudio::Start));
    assert_eq!(widget.try_start_audio(AudioArgs::Failed), Some(StartAudio::Failed));
    assert_eq!(widget.try_start_audio(AudioArgs::Disconnected), Some(StartAudio::NoAudioTrack));
    assert_eq!(widget.try_start_audio(AudioArgs::Empty), None);
}

#[test]
fn showing_a_frame_moves_the_reader_only() {
    let mut queue = queue_of(&[Some(10), Some(20)]);
    let mut widget = VideoPlayerWidget::new();
    assert!(widget.show(&mut queue, &mut 0, 25).is_some());
    assert_eq!((queue.inner.read_offset, queue.inner.write_offset), (1, 2));
    assert!(!queue.inner.reader_closed && !queue.inner.writer_closed);
    assert_eq!(queue.inner.buffer.len(), 8);
    assert_eq!(queue.inner.buffer[0].pts, Some(10));
}
