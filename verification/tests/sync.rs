use ffmpeg_player::sync::{cut_millis, SynchronizationInfo, TimeSinceLastReset};
use std::time::{Duration, Instant};

#[test]
fn time_is_measured_from_the_last_reset() {
    let mut time = TimeSinceLastReset::default();
    assert_eq!(time.time_since, 0);
    assert_eq!(time.millis_since_last_reset_at(250), 250);
    time.reset_at(100);
    assert_eq!(time.millis_since_last_reset_at(250), 150);
    assert_eq!(time.millis_since_last_reset_at(100), 0);
    assert_eq!(time.millis_since_last_reset_at(99), u64::MAX);
}

#[test]
fn reset_is_dated() {
    let mut time = TimeSinceLastReset { epoch: Instant::now(), time_since: 0 };
    assert_eq!(time.last_reset_instant(), Some(time.epoch));
    time.reset_at(1500);
    assert_eq!(time.last_reset_instant(), Some(time.epoch + Duration::from_millis(1500)));
}

#[test]
fn clock_runs() {
    let mut time = TimeSinceLastReset::default();
    while time.millis_since_last_reset() < 3 {}
    time.reset();
    assert!(time.time_since >= 3);
    let passed = time.millis_since_last_reset();
    assert!(passed < 10_000);
}

#[test]
fn playing_clock_is_read_now() {
    let info = SynchronizationInfo::started();
    let first = info.get_current_pts().unwrap();
    assert!(first >= 0);
    while info.get_current_pts().unwrap() < first + 2 {}
    assert!(info.get_playing_current_pts().unwrap() >= first + 2);
}

#[test]
fn new_clock_stands_still() {
    let info = SynchronizationInfo::default();
    assert!(!info.is_playing && !info.audio_major && !info.audio_eof);
    assert_eq!(info.get_current_pts(), Some(0));
    let info = SynchronizationInfo::started();
    assert!(info.is_playing && !info.audio_major && !info.audio_eof);
    assert_eq!(info.current_pts, 0);
}

#[test]
fn paused_clock_keeps_its_time() {
    let mut info = SynchronizationInfo::started();
    info.current_pts = 1000;
    assert_eq!(info.get_current_pts_at(40), Some(1040));
    assert_eq!(info.toggle_playback_at(40), Some(false));
    assert_eq!(info.get_current_pts_at(40), Some(1040));
    assert_eq!(info.get_current_pts_at(99_999), Some(1040));
    assert_eq!(info.get_current_pts(), Some(1040));
    assert_eq!(info.toggle_playback_at(5000), Some(true));
    assert_eq!(info.get_current_pts_at(5000), Some(1040));
    assert_eq!(info.get_current_pts_at(5100), Some(1140));
    assert_eq!(info.get_playing_current_pts_at(5200), Some(1240));
}

#[test]
fn toggling_follows_the_clock() {
    let mut info = SynchronizationInfo::started();
    assert_eq!(info.toggle_playback(), Some(false));
    let paused = info.current_pts;
    assert_eq!(info.get_current_pts(), Some(paused));
    assert_eq!(info.toggle_playback(), Some(true));
    assert!(info.get_current_pts().unwrap() >= paused);
}

#[test]
fn clock_that_cannot_be_told_changes_nothing() {
    let mut info = SynchronizationInfo::started();
    info.current_pts = i64::MAX;
    info.last_pts_update.reset_at(1_000_000_000);
    assert_eq!(info.get_playing_current_pts_at(0), None);
    assert_eq!(info.get_playing_current_pts_at(1_000_000_001), None);
    assert_eq!(info.get_playing_current_pts_at(1_000_000_000), Some(i64::MAX));
    assert_eq!(info.get_current_pts_at(1_000_000_001), None);
    assert_eq!(info.toggle_playback_at(1_000_000_001), None);
    assert_eq!(info.get_current_pts(), None);
    assert_eq!(info.get_playing_current_pts(), None);
    assert_eq!(info.toggle_playback(), None);
    assert!(info.is_playing);
    assert_eq!(info.current_pts, i64::MAX);
}

#[test]
fn audio_sets_the_clock() {
    let mut info = SynchronizationInfo::started();
    info.follow_audio();
    assert!(info.audio_major);
    info.audio_output_at(Some(2000), 30, false, 700);
    assert_eq!(info.current_pts, 1970);
    assert_eq!(info.get_current_pts_at(700), Some(1970));
    assert_eq!(info.get_current_pts_at(710), Some(1980));
    assert!(!info.audio_eof);
    info.audio_output_at(None, 30, true, 900);
    assert_eq!(info.get_current_pts_at(910), Some(2180));
    assert!(info.audio_eof);
    info.audio_output(Some(5000), 20, false);
    assert_eq!(info.current_pts, 4980);
    assert!(!info.audio_eof);
}

#[test]
fn long_times_are_cut_to_a_word() {
    assert_eq!(cut_millis(0), 0);
    assert_eq!(cut_millis(1234), 1234);
    assert_eq!(cut_millis(18_446_744_073_709_551_615), u64::MAX);
    assert_eq!(cut_millis(18_446_744_073_709_551_616), 0);
    assert_eq!(cut_millis(18_446_744_073_709_551_621), 5);
}
