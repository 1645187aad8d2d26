//! The clock that video and audio share.
use std::time::{Duration, Instant};
use vstd::prelude::*;

verus! {

/// `std::time::Instant`, a reading of the system's steady clock. It is only carried around.
#[verifier::external_type_specification]
#[verifier::external_body]
pub struct ExInstant(Instant);

/// Calls `std::time::Instant::now`. What the clock shows is not foreseen.
#[verifier::external_body]
fn clock_now() -> (now: Instant) {
    Instant::now()
}

/// Calls `std::time::Instant::elapsed` and hands the passed time out in whole milliseconds. What
/// the clock shows is not foreseen.
#[verifier::external_body]
fn elapsed_millis(epoch: &Instant) -> (millis: u128) {
    epoch.elapsed().as_millis()
}

/// The milliseconds that have passed since `epoch`, cut to 64 bits.
fn passed_millis(epoch: &Instant) -> (millis: u64) {
    cut_millis(elapsed_millis(epoch))
}

/// A number of milliseconds cut to its last 64 bits.
pub fn cut_millis(millis: u128) -> (cut: u64)
    ensures
        cut == millis % 0x1_0000_0000_0000_0000,
{
    assert(millis as u64 == millis % 0x1_0000_0000_0000_0000) by (bit_vector);
    #[verifier::truncate]
    (millis as u64)
}

/// What `std::time::Instant::checked_add` gives for a span of `millis` milliseconds: the moment
/// that much after `epoch`, or `None` if the system's clock cannot show it.
pub uninterp spec fn later(epoch: Instant, millis: u64) -> Option<Instant>;

/// Calls `std::time::Instant::checked_add` with a span of `millis` milliseconds. What comes out
/// depends on the two arguments alone, and a span of none adds nothing. How far apart two moments
/// are is not said: a moment is only carried around.
#[verifier::external_body]
fn moment_after(epoch: Instant, millis: u64) -> (moment: Option<Instant>)
    ensures
        moment == later(epoch, millis),
        millis == 0 ==> moment == Some(epoch),
{
    epoch.checked_add(Duration::from_millis(millis))
}

/// Measures the time since it was last reset.
pub struct TimeSinceLastReset {
    /// When the measuring began.
    pub epoch: Instant,
    /// How many milliseconds after that the last reset was.
    pub time_since: u64,
}

impl Default for TimeSinceLastReset {
    /// Begins to measure now.
    fn default() -> (time: Self)
        ensures
            time.time_since == 0,
    {
        TimeSinceLastReset { epoch: clock_now(), time_since: 0 }
    }
}

impl TimeSinceLastReset {
    /// The milliseconds from the last reset to `elapsed` milliseconds after the epoch, in the
    /// arithmetic of 64-bit words.
    pub open spec fn millis_at(self, elapsed: u64) -> u64 {
        if elapsed >= self.time_since {
            (elapsed - self.time_since) as u64
        } else {
            (elapsed - self.time_since + u64::MAX + 1) as u64
        }
    }

    /// When the last reset was, to the millisecond, if the system's clock can show that moment.
    pub fn last_reset_instant(&self) -> (moment: Option<Instant>)
        ensures
            moment == later(self.epoch, self.time_since),
            self.time_since == 0 ==> moment == Some(self.epoch),
    {
        moment_after(self.epoch, self.time_since)
    }

    /// How many milliseconds ago the last reset was.
    pub fn millis_since_last_reset(&self) -> (millis: u64)
        ensures
            exists|elapsed: u64| millis == #[trigger] self.millis_at(elapsed),
    {
        let elapsed: u64 = passed_millis(&self.epoch);
        self.millis_since_last_reset_at(elapsed)
    }

    /// How many milliseconds after the last reset the moment `elapsed` milliseconds after the
    /// epoch is.
    pub fn millis_since_last_reset_at(&self, elapsed: u64) -> (millis: u64)
        ensures
            millis == self.millis_at(elapsed),
    {
        elapsed.wrapping_sub(self.time_since)
    }

    /// Starts over now.
    pub fn reset(&mut self)
        ensures
            exists|elapsed: u64| #[trigger] final(self).was_reset_at(*old(self), elapsed),
    {
        let elapsed: u64 = passed_millis(&self.epoch);
        self.reset_at(elapsed);
        assert(self.was_reset_at(*old(self), elapsed));
    }

    /// Starts over at the moment `elapsed` milliseconds after the epoch.
    pub fn reset_at(&mut self, elapsed: u64)
        ensures
            final(self).was_reset_at(*old(self), elapsed),
    {
        self.time_since = elapsed;
    }

    /// Whether this is `before`, reset at the moment `elapsed` milliseconds after the epoch.
    pub open spec fn was_reset_at(self, before: Self, elapsed: u64) -> bool {
        self == TimeSinceLastReset { time_since: elapsed, ..before }
    }
}

/// What the threads of a player know of each other.
pub struct SynchronizationInfo {
    /// Whether the video plays or stands still.
    pub is_playing: bool,
    /// Whether the audio sets the pace.
    pub audio_major: bool,
    /// The presentation timestamp, in milliseconds, that was reached at the last update.
    pub current_pts: i64,
    /// Whether the audio came to its end.
    pub audio_eof: bool,
    /// When `current_pts` was last brought up to date.
    pub last_pts_update: TimeSinceLastReset,
}

impl Default for SynchronizationInfo {
    fn default() -> (info: Self)
        ensures
            !info.is_playing,
            !info.audio_major,
            info.current_pts == 0,
            !info.audio_eof,
            info.last_pts_update.time_since == 0,
    {
        SynchronizationInfo {
            is_playing: false,
            audio_major: false,
            current_pts: 0,
            audio_eof: false,
            last_pts_update: TimeSinceLastReset::default(),
        }
    }
}

impl SynchronizationInfo {
    /// The timestamp that a playing video has reached `elapsed` milliseconds after the epoch.
    pub open spec fn playing_pts(self, elapsed: u64) -> int {
        self.current_pts + self.last_pts_update.millis_at(elapsed)
    }

    /// Whether that timestamp can be told: the clock did not run backwards, and the sum fits.
    pub open spec fn pts_fits(self, elapsed: u64) -> bool {
        &&& self.last_pts_update.millis_at(elapsed) <= i64::MAX
        &&& self.playing_pts(elapsed) <= i64::MAX
    }

    /// The timestamp that the video shows `elapsed` milliseconds after the epoch.
    pub open spec fn pts(self, elapsed: u64) -> int {
        if self.is_playing {
            self.playing_pts(elapsed)
        } else {
            self.current_pts as int
        }
    }

    /// Whether `pts` is what this clock shows at `elapsed`, or `None` if that cannot be told.
    pub open spec fn shows(self, pts: Option<i64>, elapsed: u64) -> bool {
        match pts {
            Some(pts) => (self.is_playing ==> self.pts_fits(elapsed)) && pts == self.pts(elapsed),
            None => self.is_playing && !self.pts_fits(elapsed),
        }
    }

    /// Whether `pts` is what a playing video has reached at `elapsed`, or `None` if that cannot be
    /// told.
    pub open spec fn reaches(self, pts: Option<i64>, elapsed: u64) -> bool {
        match pts {
            Some(pts) => self.pts_fits(elapsed) && pts == self.playing_pts(elapsed),
            None => !self.pts_fits(elapsed),
        }
    }

    /// Whether this is `before`, stopped or set going at `elapsed`.
    pub open spec fn toggled(self, before: Self, elapsed: u64) -> bool {
        if before.is_playing {
            self == SynchronizationInfo {
                is_playing: false,
                current_pts: before.playing_pts(elapsed) as i64,
                ..before
            }
        } else {
            self == SynchronizationInfo {
                is_playing: true,
                last_pts_update: TimeSinceLastReset {
                    time_since: elapsed,
                    ..before.last_pts_update
                },
                ..before
            }
        }
    }

    /// Whether this and `playing` are what comes of a request at `elapsed` to stop `before` or to
    /// set it going: it is refused exactly if the timestamp to stop at cannot be told.
    pub open spec fn answers_toggle(
        self,
        before: Self,
        playing: Option<bool>,
        elapsed: u64,
    ) -> bool {
        &&& playing is None <==> before.is_playing && !before.pts_fits(elapsed)
        &&& match playing {
            Some(playing) => playing == !before.is_playing && self.toggled(before, elapsed),
            None => self == before,
        }
    }

    /// Whether this is `before` after a piece of audio was handed to the device at `elapsed`.
    pub open spec fn heard(
        self,
        before: Self,
        pts: Option<i64>,
        delay_millis: u128,
        done: bool,
        elapsed: u64,
    ) -> bool {
        match pts {
            Some(pts) => self == SynchronizationInfo {
                current_pts: (pts - delay_millis as i64) as i64,
                last_pts_update: TimeSinceLastReset {
                    time_since: elapsed,
                    ..before.last_pts_update
                },
                audio_eof: done,
                ..before
            },
            None => self == SynchronizationInfo { audio_eof: done, ..before },
        }
    }

    /// The clock of a player that begins to play.
    pub fn started() -> (info: Self)
        ensures
            info.is_playing,
            !info.audio_major,
            info.current_pts == 0,
            !info.audio_eof,
            info.last_pts_update.time_since == 0,
    {
        let mut info = SynchronizationInfo::default();
        info.is_playing = true;
        info
    }

    /// Lets the audio set the pace.
    pub fn follow_audio(&mut self)
        ensures
            *final(self) == (SynchronizationInfo { audio_major: true, ..*old(self) }),
    {
        self.audio_major = true;
    }

    /// The timestamp that the video shows now; `None` if it cannot be told.
    pub fn get_current_pts(&self) -> (pts: Option<i64>)
        ensures
            exists|elapsed: u64| #[trigger] self.shows(pts, elapsed),
            !self.is_playing ==> pts == Some(self.current_pts),
    {
        let elapsed: u64 = passed_millis(&self.last_pts_update.epoch);
        let pts = self.get_current_pts_at(elapsed);
        assert(self.shows(pts, elapsed));
        pts
    }

    /// The timestamp that the video shows `elapsed` milliseconds after the epoch; `None` if it
    /// cannot be told.
    pub fn get_current_pts_at(&self, elapsed: u64) -> (pts: Option<i64>)
        ensures
            self.shows(pts, elapsed),
    {
        if self.is_playing {
            self.get_playing_current_pts_at(elapsed)
        } else {
            Some(self.current_pts)
        }
    }

    /// The timestamp that a playing video has reached now; `None` if it cannot be told.
    pub fn get_playing_current_pts(&self) -> (pts: Option<i64>)
        ensures
            exists|elapsed: u64| #[trigger] self.reaches(pts, elapsed),
    {
        let elapsed: u64 = passed_millis(&self.last_pts_update.epoch);
        let pts = self.get_playing_current_pts_at(elapsed);
        assert(self.reaches(pts, elapsed));
        pts
    }

    /// The timestamp that a playing video has reached `elapsed` milliseconds after the epoch;
    /// `None` if it cannot be told.
    pub fn get_playing_current_pts_at(&self, elapsed: u64) -> (pts: Option<i64>)
        ensures
            self.reaches(pts, elapsed),
    {
        let millis: u64 = self.last_pts_update.millis_since_last_reset_at(elapsed);
        if millis <= i64::MAX as u64 {
            self.current_pts.checked_add(millis as i64)
        } else {
            None
        }
    }

    /// Stops a playing video and sets one going that stands still. Tells whether it plays now;
    /// `None` if the timestamp to stop at cannot be told, and nothing has changed.
    pub fn toggle_playback(&mut self) -> (playing: Option<bool>)
        ensures
            exists|elapsed: u64| #[trigger]
                final(self).answers_toggle(*old(self), playing, elapsed),
            !old(self).is_playing ==> playing == Some(true),
    {
        let elapsed: u64 = passed_millis(&self.last_pts_update.epoch);
        let playing = self.toggle_playback_at(elapsed);
        assert(self.answers_toggle(*old(self), playing, elapsed));
        playing
    }

    /// Stops a playing video at the moment `elapsed` milliseconds after the epoch, and sets one
    /// going that stands still. Tells whether it plays then; `None` if the timestamp to stop at
    /// cannot be told, and nothing has changed.
    pub fn toggle_playback_at(&mut self, elapsed: u64) -> (playing: Option<bool>)
        ensures
            final(self).answers_toggle(*old(self), playing, elapsed),
    {
        if self.is_playing {
            match self.get_playing_current_pts_at(elapsed) {
                Some(pts) => {
                    self.is_playing = false;
                    self.current_pts = pts;
                    Some(false)
                },
                None => None,
            }
        } else {
            self.is_playing = true;
            self.last_pts_update.reset_at(elapsed);
            Some(true)
        }
    }

    /// Takes note that the audio with timestamp `pts` was handed to the device now, which plays it
    /// `delay_millis` later, and whether that was the end of it.
    pub fn audio_output(&mut self, pts: Option<i64>, delay_millis: u128, done: bool)
        requires
            pts matches Some(pts) ==> i64::MIN <= pts - delay_millis as i64 <= i64::MAX,
        ensures
            exists|elapsed: u64|
                #[trigger] final(self).heard(*old(self), pts, delay_millis, done, elapsed),
    {
        let elapsed: u64 = passed_millis(&self.last_pts_update.epoch);
        self.audio_output_at(pts, delay_millis, done, elapsed);
        assert(self.heard(*old(self), pts, delay_millis, done, elapsed));
    }

    /// Takes note that the audio with timestamp `pts` was handed to the device `elapsed`
    /// milliseconds after the epoch.
    pub fn audio_output_at(
        &mut self,
        pts: Option<i64>,
        delay_millis: u128,
        done: bool,
        elapsed: u64,
    )
        requires
            pts matches Some(pts) ==> i64::MIN <= pts - delay_millis as i64 <= i64::MAX,
        ensures
            final(self).heard(*old(self), pts, delay_millis, done, elapsed),
    {
        if let Some(pts) = pts {
            self.current_pts = pts - delay_millis as i64;
            self.last_pts_update.reset_at(elapsed);
        }
        self.audio_eof = done;
    }
}

/// A clock that stands still shows the timestamp at which it was stopped, however late one looks.
pub proof fn law_pause_freezes(
    playing: SynchronizationInfo,
    paused: SynchronizationInfo,
    stop: u64,
    later: u64,
)
    requires
        playing.is_playing,
        playing.pts_fits(stop),
        paused.toggled(playing, stop),
    ensures
        paused.pts(later) == playing.pts(stop),
{
}

/// A clock that is set going again goes on from where it stood: the time in between does not
/// count.
pub proof fn law_resume_goes_on(
    playing: SynchronizationInfo,
    paused: SynchronizationInfo,
    resumed: SynchronizationInfo,
    stop: u64,
    start: u64,
    later: u64,
)
    requires
        playing.is_playing,
        playing.pts_fits(stop),
        paused.toggled(playing, stop),
        resumed.toggled(paused, start),
        start <= later,
    ensures
        resumed.is_playing,
        resumed.pts(start) == playing.pts(stop),
        resumed.pts(later) == playing.pts(stop) + (later - start),
{
}

/// A playing clock advances by one millisecond in each.
pub proof fn law_clock_advances(info: SynchronizationInfo, now: u64, later: u64)
    requires
        info.is_playing,
        info.last_pts_update.time_since <= now <= later,
    ensures
        info.pts(later) - info.pts(now) == later - now,
{
}

/// A playing clock follows the audio: when a piece is handed to the device it shows the piece's
/// timestamp less the delay, and goes on from there.
pub proof fn law_clock_follows_audio(
    before: SynchronizationInfo,
    after: SynchronizationInfo,
    pts: i64,
    delay_millis: u128,
    done: bool,
    now: u64,
    later: u64,
)
    requires
        before.is_playing,
        i64::MIN <= pts - delay_millis as i64 <= i64::MAX,
        after.heard(before, Some(pts), delay_millis, done, now),
        now <= later,
    ensures
        after.pts(now) == pts - delay_millis as i64,
        after.pts(later) == pts - delay_millis as i64 + (later - now),
{
}

/// The time since a reset is what passed since then, in the arithmetic of 64-bit words: the reset
/// and that time add up to the moment.
pub proof fn law_time_adds_up(time: TimeSinceLastReset, elapsed: u64)
    ensures
        (time.time_since + time.millis_at(elapsed) - elapsed) % 0x1_0000_0000_0000_0000 == 0,
        time.time_since <= elapsed ==> time.time_since + time.millis_at(elapsed) == elapsed,
{
}

/// After a reset the time is counted from that moment, in the same measure.
pub proof fn law_reset_starts_over(
    before: TimeSinceLastReset,
    after: TimeSinceLastReset,
    moment: u64,
    later: u64,
)
    requires
        after.was_reset_at(before, moment),
        moment <= later,
    ensures
        after.millis_at(later) == later - moment,
        after.epoch == before.epoch,
        after.time_since == moment,
{
}

/// A playing clock tells the timestamp of its last update and the time since then, together. It
/// fails exactly if that, or the time alone, is more than a timestamp can be.
pub proof fn law_playing_clock_tells_time(
    info: SynchronizationInfo,
    told: Option<i64>,
    elapsed: u64,
)
    requires
        info.reaches(told, elapsed) || (info.is_playing && info.shows(told, elapsed)),
        info.last_pts_update.time_since <= elapsed,
    ensures
        ({
            let passed = elapsed - info.last_pts_update.time_since;
            match told {
                Some(pts) => pts == info.current_pts + passed && passed <= i64::MAX,
                None => info.current_pts + passed > i64::MAX || passed > i64::MAX,
            }
        }),
{
}

/// A playing clock that ran backwards, by less than half of all times, tells nothing.
pub proof fn law_clock_does_not_run_backwards(
    info: SynchronizationInfo,
    told: Option<i64>,
    elapsed: u64,
)
    requires
        info.reaches(told, elapsed) || (info.is_playing && info.shows(told, elapsed)),
        elapsed < info.last_pts_update.time_since,
        info.last_pts_update.time_since - elapsed <= i64::MAX,
    ensures
        told is None,
{
}

/// A clock that stands still tells the timestamp of its last update.
pub proof fn law_paused_clock_tells_time(
    info: SynchronizationInfo,
    told: Option<i64>,
    elapsed: u64,
)
    requires
        info.shows(told, elapsed),
        !info.is_playing,
    ensures
        told == Some(info.current_pts),
{
}

/// Whoever asks to stop a video or to set it going is told whether it plays then, which is what it
/// did not before. It is stopped at the timestamp that it shows, and refused exactly if it shows
/// none. Nothing else is touched.
pub proof fn law_toggle_is_answered(
    before: SynchronizationInfo,
    after: SynchronizationInfo,
    playing: Option<bool>,
    elapsed: u64,
    shown: Option<i64>,
)
    requires
        after.answers_toggle(before, playing, elapsed),
        before.shows(shown, elapsed),
    ensures
        match playing {
            Some(playing) => {
                &&& playing == after.is_playing
                &&& after.is_playing != before.is_playing
                &&& shown == Some(after.current_pts)
                &&& after.last_pts_update.time_since == (if after.is_playing {
                    elapsed
                } else {
                    before.last_pts_update.time_since
                })
            },
            None => shown is None && after == before,
        },
        shown is None ==> playing is None,
        after.audio_major == before.audio_major,
        after.audio_eof == before.audio_eof,
        after.last_pts_update.epoch == before.last_pts_update.epoch,
{
}

/// A piece of audio sets the clock, if it has a timestamp, and tells whether the audio came to its
/// end. It neither stops the video nor sets it going.
pub proof fn law_audio_sets_the_clock(
    before: SynchronizationInfo,
    after: SynchronizationInfo,
    pts: Option<i64>,
    delay_millis: u128,
    done: bool,
    elapsed: u64,
)
    requires
        after.heard(before, pts, delay_millis, done, elapsed),
        delay_millis <= i64::MAX,
        pts matches Some(pts) ==> i64::MIN <= pts - delay_millis,
    ensures
        after.audio_eof == done,
        match pts {
            Some(pts) => {
                &&& after.current_pts + delay_millis == pts
                &&& after.last_pts_update.time_since == elapsed
            },
            None => {
                &&& after.current_pts == before.current_pts
                &&& after.last_pts_update.time_since == before.last_pts_update.time_since
            },
        },
        after.is_playing == before.is_playing,
        after.audio_major == before.audio_major,
        after.last_pts_update.epoch == before.last_pts_update.epoch,
{
}

} // verus!
