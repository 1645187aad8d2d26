//! Choosing the frame that a player shows.
use crate::ringbuf::laws::{law_cursor_shows_its_value, law_mark_wakes_for_room};
use crate::ringbuf::{
    NonNotifyingSlot, ReadIterator, RingBuf, RingBufID, RingBufIndex, RingBufInner,
};
use vstd::prelude::*;

verus! {

/// A decoded picture: rows of `stride` bytes, four for each pixel.
pub struct VideoFrame {
    /// When it is to be seen, in milliseconds.
    pub pts: Option<i64>,
    pub stride: usize,
    pub height: usize,
    pub data: Vec<u8>,
}

/// The timestamps of a queue's frames.
pub open spec fn times(frames: Seq<VideoFrame>) -> Seq<Option<i64>> {
    frames.map_values(|frame: VideoFrame| frame.pts)
}

/// Whether frame `i` has a timestamp.
pub open spec fn is_timed(times: Seq<Option<i64>>, i: int) -> bool {
    0 <= i < times.len() && times[i] is Some
}

/// The timestamp of frame `i`.
pub open spec fn time(times: Seq<Option<i64>>, i: int) -> int {
    times[i]->0 as int
}

/// Whether frame `i` is the first one with a timestamp.
pub open spec fn is_first_timed(times: Seq<Option<i64>>, i: int) -> bool {
    &&& is_timed(times, i)
    &&& forall|j: int| 0 <= j < i ==> !is_timed(times, j)
}

/// Whether the search for the frame to show begins with frame `i`: at the first one with a
/// timestamp, unless that one is due right now; then at the next one that is overdue.
pub open spec fn begins_search(times: Seq<Option<i64>>, now: int, i: int) -> bool {
    if is_first_timed(times, i) {
        time(times, i) != now
    } else {
        &&& is_timed(times, i)
        &&& time(times, i) < now
        &&& exists|first: int|
            #![trigger is_first_timed(times, first)]
            {
                &&& is_first_timed(times, first)
                &&& time(times, first) == now
                &&& first < i
                &&& forall|j: int| first < j < i && is_timed(times, j) ==> time(times, j) >= now
            }
    }
}

/// Whether frame `i` is the best one from frame `start` on: of those that are due the latest in
/// time, and of equal ones the last; if none is due, the earliest in time, and of equal ones the
/// first.
pub open spec fn is_best_from(times: Seq<Option<i64>>, now: int, start: int, i: int) -> bool {
    &&& start <= i
    &&& is_timed(times, i)
    &&& forall|j: int|
        start <= j && #[trigger] is_timed(times, j) ==> if time(times, i) <= now {
            time(times, j) <= now ==> time(times, j) < time(times, i) || (time(times, j) == time(
                times,
                i,
            ) && j <= i)
        } else {
            time(times, j) > time(times, i) || (time(times, j) == time(times, i) && i <= j)
        }
}

/// Whether frame `i` is the one to show at time `now`.
pub open spec fn is_choice(times: Seq<Option<i64>>, now: int, i: int) -> bool {
    ||| exists|start: int| #[trigger] begins_search(times, now, start) && is_best_from(
        times,
        now,
        start,
        i,
    )
    ||| {
        &&& is_first_timed(times, i)
        &&& time(times, i) == now
        &&& forall|j: int| is_timed(times, j) ==> time(times, j) >= now
    }
}

/// What the search knows after the first `k` frames: the best one so far, and whether it was
/// found to be due.
spec fn scan(times: Seq<Option<i64>>, now: int, k: nat) -> Option<(int, bool)>
    decreases k,
{
    if k == 0 {
        None
    } else {
        let i = k - 1;
        let before = scan(times, now, i as nat);
        if !is_timed(times, i) {
            before
        } else {
            let t = time(times, i);
            match before {
                None => Some((i, t < now)),
                Some((best, true)) => if t <= now && t >= time(times, best) {
                    Some((i, true))
                } else {
                    before
                },
                Some((best, false)) => if t < time(times, best) {
                    Some((i, t <= now))
                } else {
                    before
                },
            }
        }
    }
}

/// Of the first `k` frames nothing is changed by looking at them alone.
proof fn lemma_seen(times: Seq<Option<i64>>, k: int)
    requires
        0 <= k <= times.len(),
    ensures
        forall|j: int|
            #![trigger is_timed(times.take(k), j)]
            #![trigger is_timed(times, j)]
            is_timed(times.take(k), j) == (j < k && is_timed(times, j)),
        forall|j: int| 0 <= j < k ==> #[trigger] time(times.take(k), j) == time(times, j),
{
}

/// What the search has found after `k` frames is what is to be shown of these.
proof fn lemma_scan(times: Seq<Option<i64>>, now: int, k: nat)
    requires
        k <= times.len(),
    ensures
        match scan(times, now, k) {
            None => forall|j: int| 0 <= j < k ==> !is_timed(times, j),
            Some((best, due)) => {
                let seen = times.take(k as int);
                &&& 0 <= best < k
                &&& is_timed(times, best)
                &&& is_choice(seen, now, best)
                &&& due == (time(times, best) < now || (time(times, best) == now
                    && !is_first_timed(seen, best)))
            },
        },
    decreases k,
{
    if k > 0 {
        let i = k - 1;
        let prev = times.take(i);
        let seen = times.take(k as int);
        lemma_scan(times, now, i as nat);
        lemma_seen(times, k as int);
        lemma_seen(times, i);
        assert forall|j: int| is_first_timed(prev, j) implies #[trigger] is_first_timed(
            seen,
            j,
        ) by {}
        match scan(times, now, i as nat) {
            None => {
                if is_timed(times, i) {
                    assert(is_first_timed(seen, i));
                    if time(times, i) != now {
                        assert(begins_search(seen, now, i));
                    }
                }
            },
            Some((best, due)) => {
                let exact = is_first_timed(prev, best) && time(prev, best) == now;
                if exact {
                    lemma_exact(prev, now, best);
                    assert(is_first_timed(seen, best));
                    if is_timed(times, i) && time(times, i) < now {
                        assert(begins_search(seen, now, i));
                    }
                } else {
                    let start = choose|start: int| #[trigger]
                        begins_search(prev, now, start) && is_best_from(prev, now, start, best);
                    assert(begins_search(seen, now, start)) by {
                        if !is_first_timed(prev, start) {
                            let first = choose|first: int|
                                #![trigger is_first_timed(prev, first)]
                                {
                                    &&& is_first_timed(prev, first)
                                    &&& time(prev, first) == now
                                    &&& first < start
                                    &&& forall|j: int|
                                        first < j < start && is_timed(prev, j) ==> time(prev, j)
                                            >= now
                                };
                            assert(is_first_timed(seen, first));
                        }
                    }
                    let next = if scan(times, now, k) == Some((i, true)) || scan(times, now, k)
                        == Some((i, false)) {
                        i
                    } else {
                        best
                    };
                    assert(is_best_from(seen, now, start, next));
                }
            },
        }
    }
}

/// A first frame that is due right now is the choice only if no frame is overdue.
proof fn lemma_exact(times: Seq<Option<i64>>, now: int, i: int)
    requires
        is_choice(times, now, i),
        is_first_timed(times, i),
        time(times, i) == now,
    ensures
        forall|j: int| is_timed(times, j) ==> time(times, j) >= now,
{
    if exists|start: int| #[trigger]
        begins_search(times, now, start) && is_best_from(times, now, start, i) {
        let start = choose|start: int| #[trigger]
            begins_search(times, now, start) && is_best_from(times, now, start, i);
        assert(is_timed(times, start));
        assert(start == i);
    }
}

/// Looks through all waiting frames for the one to show at `current_pts`. The result marks it and
/// tells its timestamp.
fn choose_frame(
    iter: &mut ReadIterator<'_, VideoFrame>,
    current_pts: i64,
) -> (res: Option<(RingBufIndex, i64)>)
    requires
        old(iter).wf(),
        old(iter).ring().capacity() > 0 || !old(iter).ring().writer_wrapped,
        old(iter).position() == 0,
    ensures
        final(iter).moved_from(*old(iter)),
        match res {
            Some((index, pts)) => {
                let frames = old(iter).ring()@;
                let i = old(iter).ring().rank(index.cursor, index.wrap_state);
                &&& old(iter).owns(index)
                &&& 0 <= i < frames.len()
                &&& is_choice(times(frames), current_pts as int, i)
                &&& frames[i].pts == Some(pts)
            },
            None => forall|i: int| !is_timed(times(old(iter).ring()@), i),
        },
{
    let ghost frames = iter.ring()@;
    let ghost all = times(frames);
    let ghost now = current_pts as int;
    let mut found_any_less = false;
    let mut current_best: Option<(RingBufIndex, i64)> = None;
    loop
        invariant
            iter.moved_from(*old(iter)),
            iter.ring().capacity() > 0 || !iter.ring().writer_wrapped,
            frames == iter.ring()@,
            all == times(frames),
            now == current_pts,
            0 <= iter.position() <= frames.len(),
            match (scan(all, now, iter.position() as nat), current_best) {
                (None, None) => !found_any_less,
                (Some((best, due)), Some((index, pts))) => {
                    &&& due == found_any_less
                    &&& iter.owns(index)
                    &&& iter.ring().rank(index.cursor, index.wrap_state) == best
                    &&& 0 <= best < frames.len()
                    &&& frames[best].pts == Some(pts)
                },
                _ => false,
            },
        ensures
            iter.position() == frames.len(),
        decreases frames.len() - iter.position(),
    {
        match iter.next() {
            Some((index, frame)) => {
                if let Some(pts) = frame.pts {
                    match current_best {
                        None => {
                            current_best = Some((index, pts));
                            if pts < current_pts {
                                found_any_less = true;
                            }
                        },
                        Some((_, best_pts)) => {
                            if found_any_less {
                                if pts <= current_pts && pts >= best_pts {
                                    current_best = Some((index, pts));
                                }
                            } else if pts < best_pts {
                                current_best = Some((index, pts));
                                if pts <= current_pts {
                                    found_any_less = true;
                                }
                            }
                        },
                    }
                }
            },
            None => {
                break;
            },
        }
    }
    proof {
        lemma_scan(all, now, frames.len());
        assert(all.take(frames.len() as int) =~= all);
    }
    current_best
}

/// The timestamp of the frame that follows the marked one.
fn following_pts(iter: &mut ReadIterator<'_, VideoFrame>, index: RingBufIndex) -> (pts: Option<i64>)
    requires
        old(iter).wf(),
        old(iter).ring().capacity() > 0,
        old(iter).owns(index),
    ensures
        final(iter).moved_from(*old(iter)),
        ({
            let frames = old(iter).ring()@;
            let next = old(iter).ring().rank(index.cursor, index.wrap_state) + 1;
            pts == if next < frames.len() {
                frames[next].pts
            } else {
                None
            }
        }),
{
    iter.reset_to(index);
    let _ = iter.next();
    match iter.next() {
        Some((_, frame)) => frame.pts,
        None => None,
    }
}

/// A frame that is shown.
pub struct ShownFrame<'a> {
    /// The frame; those before it have left the queue.
    pub slot: NonNotifyingSlot<'a, VideoFrame>,
    /// Whether it is another one than was shown last.
    pub redraw: bool,
    /// The timestamp of the frame that follows, if that is known.
    pub next_pts: Option<i64>,
    /// Whether the writer of the queue is to be woken.
    pub wake_writer: bool,
}

/// What a player remembers of what it has shown.
#[derive(PartialEq, Eq, Structural, Debug, Clone, Copy)]
pub struct VideoPlayerWidget {
    /// The timestamp of the frame that was shown last.
    pub last_pts: Option<i64>,
}

impl VideoPlayerWidget {
    /// A player that has shown nothing yet.
    pub fn new() -> (widget: Self)
        ensures
            widget.last_pts is None,
    {
        VideoPlayerWidget { last_pts: None }
    }

    /// Picks the frame of the queue that is to be seen at `current_pts`; `None` if no frame has a
    /// timestamp. One number of `counter` goes to the iterator that looks for it.
    pub fn show<'a>(
        &mut self,
        queue: &'a mut RingBuf<VideoFrame>,
        counter: &mut u64,
        current_pts: i64,
    ) -> (res: Option<ShownFrame<'a>>)
        requires
            old(queue).wf(),
            old(queue).capacity() > 0 || !old(queue).inner.writer_wrapped,
        ensures
            match res {
                Some(shown) => exists|i: int| #[trigger]
                    is_choice(times(old(queue)@), current_pts as int, i) && shown.shows(
                        *old(queue),
                        i,
                        old(self).last_pts,
                    ) && final(self).last_pts == old(queue)@[i].pts && final(self).last_pts is Some
                    && shown.redraw == (final(self).last_pts != old(self).last_pts),
                None => {
                    &&& forall|i: int| !is_timed(times(old(queue)@), i)
                    &&& forall|i: int|
                        0 <= i < old(queue)@.len() ==> (#[trigger] old(queue)@[i]).pts is None
                    &&& *final(self) == *old(self)
                },
            },
            *final(queue) == old(queue).with_inner(
                match res {
                    Some(shown) => *final(shown.slot.guard),
                    None => old(queue).inner,
                },
            ),
            *final(counter) == RingBufID::following(*old(counter)),
    {
        let ghost frames = queue@;
        let mut iter = queue.read_iter(counter);
        match choose_frame(&mut iter, current_pts) {
            Some((index, pts)) => {
                let ghost i = iter.ring().rank(index.cursor, index.wrap_state);
                let next_pts = following_pts(&mut iter, index);
                iter.reset_to(index);
                proof {
                    law_cursor_shows_its_value(iter.ring(), index.cursor, index.wrap_state);
                    law_mark_wakes_for_room(iter);
                }
                let wake_writer = iter.mark_wakes_writer();
                let redraw = match self.last_pts {
                    Some(last_pts) => last_pts != pts,
                    None => true,
                };
                match iter.mark() {
                    Some(slot) => {
                        self.last_pts = Some(pts);
                        let shown = ShownFrame { slot, redraw, next_pts, wake_writer };
                        assert(shown.shows(*old(queue), i, old(self).last_pts));
                        Some(shown)
                    },
                    None => None,
                }
            },
            None => {
                assert forall|i: int| 0 <= i < frames.len() implies (#[trigger] frames[i]).pts
                    is None by {
                    assert(!is_timed(times(frames), i));
                }
                None
            },
        }
    }
}

impl<'a> ShownFrame<'a> {
    /// Whether this is frame `i` of `queue`, after frame `last_pts`. Of the queue only the reader
    /// has moved.
    pub open spec fn shows(
        self,
        queue: RingBuf<VideoFrame>,
        i: int,
        last_pts: Option<i64>,
    ) -> bool {
        let frames = queue@;
        &&& 0 <= i < frames.len()
        &&& self.slot.ring() == RingBufInner {
            read_offset: self.slot.ring().read_offset,
            writer_wrapped: self.slot.ring().writer_wrapped,
            ..queue.inner
        }
        &&& self.slot.ring().wf()
        &&& self.slot.ring()@ == frames.skip(i)
        &&& self.slot.slot < self.slot.ring().capacity()
        &&& self.slot.ring().buffer@[self.slot.slot as int] == frames[i]
        &&& self.redraw == (last_pts != frames[i].pts)
        &&& self.next_pts == if i + 1 < frames.len() {
            frames[i + 1].pts
        } else {
            None
        }
        &&& self.wake_writer == (i > 0)
    }
}

/// The milliseconds from `current_pts` to the timestamp of the next frame, both taken as unsigned
/// words: a negative timestamp counts from the end of their range.
pub open spec fn delay(next_pts: i64, current_pts: i64) -> int {
    let unsigned = |pts: i64| if pts < 0 {
        pts + u64::MAX + 1
    } else {
        pts as int
    };
    unsigned(next_pts) - unsigned(current_pts)
}

/// How long the current frame stays, in milliseconds.
pub fn time_to_next_frame(next_pts: i64, current_pts: i64) -> (millis: u64)
    requires
        delay(next_pts, current_pts) >= 0,
    ensures
        millis == delay(next_pts, current_pts),
{
    assert(next_pts < 0 ==> next_pts as u64 == next_pts + u64::MAX + 1) by (bit_vector);
    assert(current_pts < 0 ==> current_pts as u64 == current_pts + u64::MAX + 1) by (bit_vector);
    #[verifier::truncate]
    (next_pts as u64) - #[verifier::truncate]
    (current_pts as u64)
}

/// When the player is to be painted again.
#[derive(PartialEq, Eq, Structural, Debug, Clone, Copy)]
pub enum Repaint {
    /// When something else asks for it.
    OnDemand,
    /// At once.
    Now,
    /// After some milliseconds.
    After(u64),
}

/// Decides when the player is to be painted again: while it plays, when the next frame is due, or
/// at once if that is not known.
pub fn next_repaint(is_playing: bool, time_to_next_frame: Option<u64>) -> (repaint: Repaint)
    ensures
        repaint == match time_to_next_frame {
            _ if !is_playing => Repaint::OnDemand,
            Some(millis) => Repaint::After(millis),
            None => Repaint::Now,
        },
{
    if is_playing {
        match time_to_next_frame {
            Some(millis) => Repaint::After(millis),
            None => Repaint::Now,
        }
    } else {
        Repaint::OnDemand
    }
}

/// Whether `egui::Color32::from_rgba_unmultiplied` can make `color` of these four channels, on one
/// machine or another.
pub uninterp spec fn may_become(channels: Seq<u8>, color: Seq<u8>) -> bool;

/// Calls `egui::Color32::from_rgba_unmultiplied` and hands out the four channels of the color,
/// whose first three are multiplied by the last. An opaque color keeps its channels, a fully
/// transparent one has none left, a channel of zero stays so, and the opacity itself stays. What
/// the first three become otherwise is only given a name: it comes out of floating-point powers,
/// whose last digits differ between machines.
#[verifier::external_body]
fn premultiplied(r: u8, g: u8, b: u8, a: u8) -> (color: [u8; 4])
    ensures
        a == 255 ==> color@ == seq![r, g, b, a],
        a == 0 ==> color@ == seq![0u8, 0u8, 0u8, 0u8],
        r == 0 ==> color@[0] == 0,
        g == 0 ==> color@[1] == 0,
        b == 0 ==> color@[2] == 0,
        color@[3] == a,
        may_become(seq![r, g, b, a], color@),
{
    egui::Color32::from_rgba_unmultiplied(r, g, b, a).to_array()
}

/// A picture as the screen takes it: its size in pixels, and the pixels row by row, their channels
/// multiplied by the opacity.
pub struct FrameImage {
    pub width: usize,
    pub height: usize,
    pub pixels: Vec<[u8; 4]>,
}

/// Whether `pixel` shows the four channels of `data` from `at` on.
pub open spec fn is_pixel_of(pixel: [u8; 4], data: Seq<u8>, at: int) -> bool {
    &&& data[at + 3] == 255 ==> pixel@ == seq![data[at], data[at + 1], data[at + 2], 255u8]
    &&& data[at + 3] == 0 ==> pixel@ == seq![0u8, 0u8, 0u8, 0u8]
    &&& forall|i: int| 0 <= i < 3 && data[at + i] == 0 ==> #[trigger] pixel@[i] == 0
    &&& pixel@[3] == data[at + 3]
    &&& may_become(seq![data[at], data[at + 1], data[at + 2], data[at + 3]], pixel@)
}

impl VideoFrame {
    /// The picture of this frame.
    pub fn to_image(&self) -> (image: FrameImage)
        ensures
            image.width == self.stride / 4,
            image.height == self.height,
            image.pixels@.len() == self.data@.len() / 4,
            forall|i: int|
                0 <= i < image.pixels@.len() ==> is_pixel_of(
                    #[trigger] image.pixels@[i],
                    self.data@,
                    4 * i,
                ),
    {
        let count: usize = self.data.len() / 4;
        let mut pixels: Vec<[u8; 4]> = Vec::with_capacity(count);
        let mut i: usize = 0;
        while i < count
            invariant
                count == self.data@.len() / 4,
                self.data@.len() <= usize::MAX,
                i <= count,
                pixels@.len() == i,
                forall|j: int|
                    0 <= j < i ==> is_pixel_of(#[trigger] pixels@[j], self.data@, 4 * j),
            decreases count - i,
        {
            let at: usize = 4 * i;
            pixels.push(
                premultiplied(self.data[at], self.data[at + 1], self.data[at + 2], self.data[at + 3]),
            );
            i += 1;
        }
        FrameImage { width: self.stride / 4, height: self.height, pixels }
    }
}

/// What came of asking for what it takes to start the audio.
#[derive(PartialEq, Eq, Structural, Debug, Clone, Copy)]
pub enum AudioArgs {
    /// It is there.
    Received,
    /// The file has an audio track, but nothing could be made to play it.
    Failed,
    /// It will never come: there is nothing to play.
    Disconnected,
    /// It has not come yet.
    Empty,
}

/// What to do about the audio.
#[derive(PartialEq, Eq, Structural, Debug, Clone, Copy)]
pub enum StartAudio {
    /// Start it.
    Start,
    /// Report that the file's audio track cannot be played.
    Failed,
    /// Do without: the file has no audio track.
    NoAudioTrack,
}

impl VideoPlayerWidget {
    /// Decides what to do about the audio; `None` means to try again with the next frame.
    pub fn try_start_audio(&self, args: AudioArgs) -> (res: Option<StartAudio>)
        ensures
            res == match args {
                AudioArgs::Received => Some(StartAudio::Start),
                AudioArgs::Failed => Some(StartAudio::Failed),
                AudioArgs::Disconnected => Some(StartAudio::NoAudioTrack),
                AudioArgs::Empty => None,
            },
    {
        match args {
            AudioArgs::Received => Some(StartAudio::Start),
            AudioArgs::Failed => Some(StartAudio::Failed),
            AudioArgs::Disconnected => Some(StartAudio::NoAudioTrack),
            AudioArgs::Empty => None,
        }
    }
}

/// There is at most one frame to show.
pub proof fn law_choice_is_unique(times: Seq<Option<i64>>, now: int, one: int, other: int)
    requires
        is_choice(times, now, one),
        is_choice(times, now, other),
    ensures
        one == other,
{
}

/// There is a frame to show if one has a timestamp.
pub proof fn law_choice_exists(times: Seq<Option<i64>>, now: int, timed: int)
    requires
        is_timed(times, timed),
    ensures
        exists|i: int| is_choice(times, now, i),
{
    lemma_scan(times, now, times.len());
    assert(times.take(times.len() as int) =~= times);
}

/// The frame to show is the last of those with the greatest timestamp that is not past `now`, or,
/// if all lie ahead, the first of those with the least.
///
/// Where the first frame with a timestamp is due right now, this holds if that is the only frame
/// that is due, or if another one that is due right now comes after one that is overdue.
pub proof fn law_shows_latest_due_frame(times: Seq<Option<i64>>, now: int, first: int, i: int)
    requires
        is_first_timed(times, first),
        ({
            ||| time(times, first) != now
            ||| forall|j: int| first < j && #[trigger] is_timed(times, j) ==> time(times, j) > now
            ||| exists|over: int, due: int|
                #![trigger is_timed(times, over), is_timed(times, due)]
                {
                    &&& first < over < due
                    &&& is_timed(times, over)
                    &&& time(times, over) < now
                    &&& is_timed(times, due)
                    &&& time(times, due) == now
                }
        }),
        is_choice(times, now, i),
    ensures
        is_timed(times, i),
        forall|j: int| #[trigger]
            is_timed(times, j) && time(times, j) <= now ==> time(times, i) <= now && (time(times, j)
                < time(times, i) || (time(times, j) == time(times, i) && j <= i)),
        time(times, i) > now ==> forall|j: int| #[trigger]
            is_timed(times, j) ==> time(times, j) > time(times, i) || (time(times, j) == time(
                times,
                i,
            ) && i <= j),
{
}

/// Whether the frames have timestamps, each one later than the one before.
pub open spec fn is_ordered(times: Seq<Option<i64>>) -> bool {
    &&& forall|i: int| 0 <= i < times.len() ==> #[trigger] is_timed(times, i)
    &&& forall|i: int, j: int|
        0 <= i < j < times.len() ==> #[trigger] time(times, i) < #[trigger] time(times, j)
}

/// Of frames that come in order the last one that is due is shown, or the first one if none is.
pub proof fn law_shows_last_due_frame_in_order(times: Seq<Option<i64>>, now: int, i: int)
    requires
        is_ordered(times),
        is_choice(times, now, i),
    ensures
        0 <= i < times.len(),
        time(times, i) <= now || i == 0,
        forall|j: int| i < j < times.len() ==> #[trigger] time(times, j) > now,
{
    assert(is_timed(times, i));
    assert(is_timed(times, 0));
    assert(is_first_timed(times, 0));
    if time(times, 0) != now {
        law_shows_latest_due_frame(times, now, 0, i);
        assert forall|j: int| i < j < times.len() implies #[trigger] time(times, j) > now by {
            assert(is_timed(times, j));
        }
    } else {
        assert forall|start: int| !begins_search(times, now, start) by {
            if is_timed(times, start) && start > 0 {
                assert(time(times, start) > time(times, 0));
            }
        }
        assert(i == 0);
    }
}

/// Of frames that come in order the one after the shown one lies ahead, so that it can be told how
/// long the shown one stays.
pub proof fn law_next_frame_lies_ahead(times: Seq<Option<i64>>, now: i64, i: int)
    requires
        is_ordered(times),
        is_choice(times, now as int, i),
        i + 1 < times.len(),
        now >= 0,
    ensures
        delay(times[i + 1]->0, now) == time(times, i + 1) - now,
        delay(times[i + 1]->0, now) > 0,
{
    law_shows_last_due_frame_in_order(times, now as int, i);
    assert(time(times, i + 1) > now);
}

/// A picture is drawn exactly if its timestamp is not that of the picture shown last, be it later
/// or earlier.
pub proof fn law_drawn_exactly_if_changed(
    shown: ShownFrame<'_>,
    queue: RingBuf<VideoFrame>,
    i: int,
    last_pts: Option<i64>,
)
    requires
        shown.shows(queue, i, last_pts),
    ensures
        ({
            let frame = shown.slot.ring().buffer@[shown.slot.slot as int];
            &&& frame == queue@[i]
            &&& shown.redraw <==> frame.pts != last_pts
        }),
{
}

/// A picture that is shown twice in a row is drawn once, and one with another timestamp is drawn
/// whichever of the two is later.
pub proof fn law_same_picture_is_drawn_once(
    one: ShownFrame<'_>,
    other: ShownFrame<'_>,
    queue: RingBuf<VideoFrame>,
    next_queue: RingBuf<VideoFrame>,
    i: int,
    j: int,
    last_pts: Option<i64>,
)
    requires
        one.shows(queue, i, last_pts),
        other.shows(next_queue, j, queue@[i].pts),
    ensures
        queue@[i].pts == next_queue@[j].pts <==> !other.redraw,
        last_pts is None && queue@[i].pts is Some ==> one.redraw,
{
}

/// The shown frame stays in the queue as the first one, before those that followed it; the next
/// timestamp is that of the frame behind it. The writer is woken exactly if frames left the queue,
/// and of the queue's slots, its writer and its closed sides nothing changes.
pub proof fn law_shown_frame_comes_first(
    shown: ShownFrame<'_>,
    queue: RingBuf<VideoFrame>,
    i: int,
    last_pts: Option<i64>,
)
    requires
        shown.shows(queue, i, last_pts),
    ensures
        ({
            let left = shown.slot.ring();
            &&& left@.len() == queue@.len() - i
            &&& forall|j: int| 0 <= j < left@.len() ==> #[trigger] left@[j] == queue@[i + j]
            &&& shown.next_pts == (if left@.len() > 1 {
                left@[1].pts
            } else {
                None
            })
            &&& shown.wake_writer <==> left@.len() < queue@.len()
            &&& left.buffer == queue.inner.buffer
            &&& left.write_offset == queue.inner.write_offset
            &&& left.reader_closed == queue.inner.reader_closed
            &&& left.writer_closed == queue.inner.writer_closed
        }),
{
    if queue@.len() > i + 1 {
        assert(shown.slot.ring()@[1] == queue@[i + 1]);
    }
}

/// A frame is considered exactly if it has a timestamp, whatever that is.
pub proof fn law_every_timestamp_counts(frames: Seq<VideoFrame>, i: int)
    requires
        0 <= i < frames.len(),
    ensures
        times(frames).len() == frames.len(),
        is_timed(times(frames), i) <==> frames[i].pts is Some,
        frames[i].pts matches Some(pts) ==> time(times(frames), i) == pts,
{
}

/// Of all frames with a timestamp the last one of those with the greatest timestamp that is not
/// past `now` is shown; if all lie ahead, the first one of those with the least. The first frame
/// with a timestamp is taken not to be due right now.
pub proof fn law_best_frame_is_shown(frames: Seq<VideoFrame>, now: int, first: int, i: int)
    requires
        0 <= first < frames.len(),
        forall|j: int| 0 <= j < first ==> (#[trigger] frames[j]).pts is None,
        frames[first].pts matches Some(pts) && pts != now,
        is_choice(times(frames), now, i),
    ensures
        0 <= i < frames.len(),
        frames[i].pts matches Some(best) && forall|j: int|
            0 <= j < frames.len() ==> ((#[trigger] frames[j]).pts matches Some(pts) ==> {
                &&& pts <= now ==> best <= now && (pts < best || (pts == best && j <= i))
                &&& best > now ==> pts > best || (pts == best && i <= j)
            }),
{
    let all = times(frames);
    assert(is_first_timed(all, first));
    law_shows_latest_due_frame(all, now, first, i);
    assert forall|j: int| 0 <= j < frames.len() implies ((#[trigger] frames[j]).pts matches Some(
        pts,
    ) ==> {
        let best = frames[i].pts->0;
        &&& pts <= now ==> best <= now && (pts < best || (pts == best && j <= i))
        &&& best > now ==> pts > best || (pts == best && i <= j)
    }) by {
        if frames[j].pts is Some {
            assert(is_timed(all, j));
        }
    }
}

/// Where the first frame with a timestamp is due right now, it is shown if no frame is overdue.
/// Else the search begins at the first frame that is: the last one of those from there on with the
/// greatest timestamp that is not past `now` is shown.
pub proof fn law_first_frame_due_now(
    frames: Seq<VideoFrame>,
    now: int,
    first: int,
    over: int,
    i: int,
)
    requires
        0 <= first < frames.len(),
        forall|j: int| 0 <= j < first ==> (#[trigger] frames[j]).pts is None,
        frames[first].pts matches Some(pts) && pts == now,
        first < over <= frames.len(),
        forall|j: int|
            0 <= j < over ==> ((#[trigger] frames[j]).pts matches Some(pts) ==> pts >= now),
        over < frames.len() ==> (frames[over].pts matches Some(pts) && pts < now),
        is_choice(times(frames), now, i),
    ensures
        over == frames.len() ==> i == first,
        over < frames.len() ==> {
            &&& over <= i < frames.len()
            &&& frames[i].pts matches Some(best) && best <= now && forall|j: int|
                over <= j < frames.len() ==> ((#[trigger] frames[j]).pts matches Some(pts) ==> pts
                    <= now ==> pts < best || (pts == best && j <= i))
        },
{
    let all = times(frames);
    assert(is_first_timed(all, first));
    if over == frames.len() {
        assert forall|start: int| !begins_search(all, now, start) by {}
    } else {
        assert(is_timed(all, over));
        if !exists|start: int| #[trigger]
            begins_search(all, now, start) && is_best_from(all, now, start, i) {
            assert(time(all, over) >= now);
        }
        let start = choose|start: int| #[trigger]
            begins_search(all, now, start) && is_best_from(all, now, start, i);
        assert(start == over) by {
            if start < over {
                assert(frames[start].pts is Some);
            }
        }
        assert forall|j: int| over <= j < frames.len() implies ((#[trigger] frames[j]).pts matches
            Some(pts) ==> pts <= now ==> pts < frames[i].pts->0 || (pts == frames[i].pts->0 && j
            <= i)) by {
            if frames[j].pts is Some {
                assert(is_timed(all, j));
            }
        }
    }
}

/// How long a frame stays is the time to the next timestamp, if both lie on the same side of zero;
/// a next timestamp below zero is taken to come after all others.
pub proof fn law_delay_is_the_difference(next_pts: i64, current_pts: i64)
    ensures
        (next_pts >= 0) == (current_pts >= 0) ==> current_pts + delay(next_pts, current_pts)
            == next_pts,
        next_pts < 0 <= current_pts ==> current_pts + delay(next_pts, current_pts) == next_pts
            + 0x1_0000_0000_0000_0000,
        current_pts < 0 <= next_pts ==> delay(next_pts, current_pts) < 0,
{
}

/// An opaque pixel keeps its channels in their order, a fully transparent one shows nothing, and
/// any other keeps its opacity and the channels that are zero.
pub proof fn law_pixels_keep_their_channels(pixel: [u8; 4], data: Seq<u8>, at: int, channel: int)
    requires
        0 <= at,
        at + 4 <= data.len(),
        0 <= channel < 4,
        is_pixel_of(pixel, data, at),
    ensures
        data[at + 3] == 255 ==> pixel@[channel] == data[at + channel],
        data[at + 3] == 0 ==> pixel@[channel] == 0,
        data[at + channel] == 0 ==> pixel@[channel] == 0,
        pixel@[3] == data[at + 3],
        may_become(data.subrange(at, at + 4), pixel@),
{
    assert(data.subrange(at, at + 4) =~= seq![data[at], data[at + 1], data[at + 2], data[at + 3]]);
    assert(channel == 0 || channel == 1 || channel == 2 || channel == 3);
}

} // verus!
