//! Audio/video synchronisation on presentation timestamps: two bounded
//! queues, a sync step that compares their heads, and the playout loop that
//! repeats the step until both streams are aligned or one has run dry.
use std::collections::VecDeque;
use vstd::prelude::*;

verus! {

/// Timestamped video frame
#[derive(Debug)]
pub struct TimestampedFrame {
    pub pts: i64,
    pub data: Vec<u8>,
    pub width: u32,
    pub height: u32,
}

/// Timestamped audio samples, of whatever sample type the sink plays.
#[derive(Debug)]
pub struct TimestampedAudio<S> {
    pub pts: i64,
    pub samples: Vec<S>,
}

/// Sync action to take based on buffer states
#[derive(Debug, Clone, Copy, PartialEq, Eq, Structural)]
pub enum SyncAction {
    /// Continue normal playback
    Continue,
    /// Drop current video frame (video is ahead)
    DropVideoFrame,
    /// Skip audio samples (audio is ahead)
    SkipAudioSamples,
    /// Wait for more audio (audio buffer empty)
    WaitForAudio,
    /// Wait for more video (video buffer empty)
    WaitForVideo,
}

/// Synchronisation statistics. The average drift is kept in hundredths of
/// a millisecond.
#[derive(Debug, Clone, Copy, PartialEq, Eq, Structural)]
pub struct SyncStats {
    pub video_frames_dropped: u64,
    pub audio_samples_skipped: u64,
    pub sync_corrections: u64,
    pub current_drift_ms: i64,
    pub avg_drift_centi_ms: i64,
}

/// Drift in milliseconds beyond which the engine corrects, unless told otherwise.
pub const DEFAULT_SYNC_THRESHOLD_MS: i64 = 50;

/// The largest magnitude that the average drift can reach, in hundredths of
/// a millisecond.
pub const AVG_DRIFT_LIMIT: i64 = 0x2000_0000_0000_0000;

/// `a / b` rounded towards zero.
pub open spec fn quotient_towards_zero(a: int, b: int) -> int
    recommends
        b > 0,
{
    if a >= 0 {
        a / b
    } else {
        -((-a) / b)
    }
}

/// The drift between a video and an audio timestamp, in whole
/// milliseconds: positive when video is ahead.
pub open spec fn drift_ms(video_pts: i64, audio_pts: i64) -> int {
    quotient_towards_zero(video_pts - audio_pts, 1000)
}

/// The moving average after a new drift sample, with weight 0.1 on the
/// sample, in hundredths of a millisecond.
pub open spec fn next_average(avg: int, drift: int) -> int {
    quotient_towards_zero(9 * avg + 100 * drift, 10)
}

/// A counter after one more event; it stops at the largest value.
pub open spec fn bumped(x: u64) -> u64 {
    if x == u64::MAX {
        x
    } else {
        (x + 1) as u64
    }
}

/// Statistics before anything happened.
pub open spec fn zero_stats() -> SyncStats {
    SyncStats {
        video_frames_dropped: 0,
        audio_samples_skipped: 0,
        sync_corrections: 0,
        current_drift_ms: 0,
        avg_drift_centi_ms: 0,
    }
}

/// The verdict on a drift against a threshold.
pub open spec fn verdict(drift: int, threshold_ms: i64) -> SyncAction {
    if (if drift >= 0 {
        drift
    } else {
        -drift
    }) <= threshold_ms {
        SyncAction::Continue
    } else if drift > 0 {
        SyncAction::DropVideoFrame
    } else {
        SyncAction::SkipAudioSamples
    }
}

/// The action of a sync step on queues whose heads carry these timestamps;
/// `None` stands for an empty queue.
pub open spec fn sync_action(video_head: Option<i64>, audio_head: Option<i64>, threshold_ms: i64)
    -> SyncAction {
    if video_head is None {
        SyncAction::WaitForVideo
    } else if audio_head is None {
        SyncAction::WaitForAudio
    } else {
        verdict(drift_ms(video_head.unwrap(), audio_head.unwrap()), threshold_ms)
    }
}

/// The statistics after a sync step that found both queues filled.
pub open spec fn stats_after_step(s: SyncStats, drift: int, threshold_ms: i64) -> SyncStats {
    let measured = SyncStats {
        current_drift_ms: drift as i64,
        avg_drift_centi_ms: next_average(s.avg_drift_centi_ms as int, drift) as i64,
        ..s
    };
    match verdict(drift, threshold_ms) {
        SyncAction::DropVideoFrame => SyncStats {
            sync_corrections: bumped(s.sync_corrections),
            video_frames_dropped: bumped(s.video_frames_dropped),
            ..measured
        },
        SyncAction::SkipAudioSamples => SyncStats {
            sync_corrections: bumped(s.sync_corrections),
            audio_samples_skipped: bumped(s.audio_samples_skipped),
            ..measured
        },
        _ => measured,
    }
}

/// A queue after an item was added at its capacity limit: a full queue
/// loses its oldest item first.
pub open spec fn pushed_bounded<T>(q: Seq<T>, item: T, capacity: nat) -> Seq<T> {
    if q.len() >= capacity {
        q.subrange(1, q.len() as int).push(item)
    } else {
        q.push(item)
    }
}

/// Where the playout loop ends: it repeats the sync step, dropping the head
/// frame on `DropVideoFrame` and the head chunk on `SkipAudioSamples`,
/// until the step answers `Continue` or a wait. The result is what is left
/// of the two queues, the statistics and the last answer.
pub open spec fn settled<S>(
    video: Seq<TimestampedFrame>,
    audio: Seq<TimestampedAudio<S>>,
    threshold_ms: i64,
    stats: SyncStats,
) -> (Seq<TimestampedFrame>, Seq<TimestampedAudio<S>>, SyncStats, SyncAction)
    decreases video.len() + audio.len(),
{
    if video.len() == 0 {
        (video, audio, stats, SyncAction::WaitForVideo)
    } else if audio.len() == 0 {
        (video, audio, stats, SyncAction::WaitForAudio)
    } else {
        let drift = drift_ms(video[0].pts, audio[0].pts);
        let counted = stats_after_step(stats, drift, threshold_ms);
        match verdict(drift, threshold_ms) {
            SyncAction::DropVideoFrame => settled(
                video.subrange(1, video.len() as int),
                audio,
                threshold_ms,
                counted,
            ),
            SyncAction::SkipAudioSamples => settled(
                video,
                audio.subrange(1, audio.len() as int),
                threshold_ms,
                counted,
            ),
            _ => (video, audio, counted, SyncAction::Continue),
        }
    }
}

/// The drift between two timestamps in whole milliseconds.
fn drift_between(video_pts: i64, audio_pts: i64) -> (d: i64)
    ensures
        d == drift_ms(video_pts, audio_pts),
        -18446744073709552 < d < 18446744073709552,
{
    if video_pts >= audio_pts {
        let gap: u64 = (video_pts as i128 - audio_pts as i128) as u64;
        (gap / 1000) as i64
    } else {
        let gap: u64 = (audio_pts as i128 - video_pts as i128) as u64;
        -((gap / 1000) as i64)
    }
}

/// The moving average after a new sample.
fn average_after(avg: i64, drift: i64) -> (a: i64)
    requires
        -AVG_DRIFT_LIMIT <= avg <= AVG_DRIFT_LIMIT,
        -18446744073709552 < drift < 18446744073709552,
    ensures
        a == next_average(avg as int, drift as int),
        -AVG_DRIFT_LIMIT <= a <= AVG_DRIFT_LIMIT,
{
    let sum: i128 = 9 * (avg as i128) + 100 * (drift as i128);
    if sum >= 0 {
        let m: u128 = sum as u128;
        (m / 10) as i64
    } else {
        let m: u128 = (-sum) as u128;
        -((m / 10) as i64)
    }
}

fn bump(x: u64) -> (y: u64)
    ensures
        y == bumped(x),
{
    if x == u64::MAX {
        x
    } else {
        x + 1
    }
}

/// PTS-based audio/video synchronization engine
pub struct SyncEngine<S> {
    video_buffer: VecDeque<TimestampedFrame>,
    audio_buffer: VecDeque<TimestampedAudio<S>>,
    sync_threshold_ms: i64,
    max_video_buffer: usize,
    max_audio_buffer: usize,
    stats: SyncStats,
}

impl<S> SyncEngine<S> {
    /// The buffered video frames, oldest first.
    pub closed spec fn video(&self) -> Seq<TimestampedFrame> {
        self.video_buffer@
    }

    /// The buffered audio chunks, oldest first.
    pub closed spec fn audio(&self) -> Seq<TimestampedAudio<S>> {
        self.audio_buffer@
    }

    /// The drift threshold in milliseconds.
    pub closed spec fn threshold_ms(&self) -> i64 {
        self.sync_threshold_ms
    }

    /// The capacity of the video queue.
    pub closed spec fn video_capacity(&self) -> nat {
        self.max_video_buffer as nat
    }

    /// The capacity of the audio queue.
    pub closed spec fn audio_capacity(&self) -> nat {
        self.max_audio_buffer as nat
    }

    /// The statistics so far.
    pub closed spec fn stats_value(&self) -> SyncStats {
        self.stats
    }

    /// The timestamp at the head of the video queue.
    pub open spec fn video_head(&self) -> Option<i64> {
        if self.video().len() == 0 {
            None
        } else {
            Some(self.video()[0].pts)
        }
    }

    /// The timestamp at the head of the audio queue.
    pub open spec fn audio_head(&self) -> Option<i64> {
        if self.audio().len() == 0 {
            None
        } else {
            Some(self.audio()[0].pts)
        }
    }

    /// The engine's invariant: neither queue is over its capacity, each
    /// capacity is at least one, and the average drift is within its limit.
    pub open spec fn wf(&self) -> bool {
        &&& self.video_capacity() >= 1
        &&& self.audio_capacity() >= 1
        &&& self.video().len() <= self.video_capacity()
        &&& self.audio().len() <= self.audio_capacity()
        &&& -AVG_DRIFT_LIMIT <= self.stats_value().avg_drift_centi_ms <= AVG_DRIFT_LIMIT
    }

    /// Everything but the queues and the statistics is as in `other`.
    pub open spec fn same_settings(&self, other: &Self) -> bool {
        &&& self.threshold_ms() == other.threshold_ms()
        &&& self.video_capacity() == other.video_capacity()
        &&& self.audio_capacity() == other.audio_capacity()
    }

    /// Create a new synchronization engine with the given drift threshold
    /// in milliseconds and the capacities of the two queues, each at least 1.
    pub fn new(sync_threshold_ms: i64, max_video_buffer: usize, max_audio_buffer: usize) -> (e:
        Self)
        requires
            max_video_buffer >= 1,
            max_audio_buffer >= 1,
        ensures
            e.wf(),
            e.video() == Seq::<TimestampedFrame>::empty(),
            e.audio() == Seq::<TimestampedAudio<S>>::empty(),
            e.threshold_ms() == sync_threshold_ms,
            e.video_capacity() == max_video_buffer,
            e.audio_capacity() == max_audio_buffer,
            e.stats_value() == zero_stats(),
    {
        SyncEngine {
            video_buffer: VecDeque::new(),
            audio_buffer: VecDeque::new(),
            sync_threshold_ms,
            max_video_buffer,
            max_audio_buffer,
            stats: SyncStats {
                video_frames_dropped: 0,
                audio_samples_skipped: 0,
                sync_corrections: 0,
                current_drift_ms: 0,
                avg_drift_centi_ms: 0,
            },
        }
    }

    /// Add a video frame to the buffer. A full buffer drops its oldest
    /// frame first, and the drop is counted.
    pub fn add_video_frame(&mut self, pts: i64, data: Vec<u8>, width: u32, height: u32)
        requires
            old(self).wf(),
        ensures
            final(self).wf(),
            final(self).same_settings(old(self)),
            final(self).audio() == old(self).audio(),
            final(self).video() == pushed_bounded(
                old(self).video(),
                (TimestampedFrame { pts, data, width, height }),
                old(self).video_capacity(),
            ),
            final(self).video().len() <= final(self).video_capacity(),
            final(self).stats_value() == if old(self).video().len() == old(self).video_capacity() {
                (SyncStats {
                    video_frames_dropped: bumped(old(self).stats_value().video_frames_dropped),
                    ..old(self).stats_value()
                })
            } else {
                old(self).stats_value()
            },
    {
        if self.video_buffer.len() >= self.max_video_buffer {
            let _ = self.video_buffer.pop_front();
            self.stats.video_frames_dropped = bump(self.stats.video_frames_dropped);
        }
        self.video_buffer.push_back(TimestampedFrame { pts, data, width, height });
    }

    /// Add audio samples to the buffer. A full buffer drops its oldest
    /// chunk first, and the drop is counted.
    pub fn add_audio_samples(&mut self, pts: i64, samples: Vec<S>)
        requires
            old(self).wf(),
        ensures
            final(self).wf(),
            final(self).same_settings(old(self)),
            final(self).video() == old(self).video(),
            final(self).audio() == pushed_bounded(
                old(self).audio(),
                (TimestampedAudio { pts, samples }),
                old(self).audio_capacity(),
            ),
            final(self).audio().len() <= final(self).audio_capacity(),
            final(self).stats_value() == if old(self).audio().len() == old(self).audio_capacity() {
                (SyncStats {
                    audio_samples_skipped: bumped(old(self).stats_value().audio_samples_skipped),
                    ..old(self).stats_value()
                })
            } else {
                old(self).stats_value()
            },
    {
        if self.audio_buffer.len() >= self.max_audio_buffer {
            let _ = self.audio_buffer.pop_front();
            self.stats.audio_samples_skipped = bump(self.stats.audio_samples_skipped);
        }
        self.audio_buffer.push_back(TimestampedAudio { pts, samples });
    }

    /// Perform synchronization check and return action. The queues are
    /// left as they are; the caller pops or drops as the action says.
    pub fn sync(&mut self) -> (action: SyncAction)
        requires
            old(self).wf(),
        ensures
            final(self).wf(),
            final(self).same_settings(old(self)),
            final(self).video() == old(self).video(),
            final(self).audio() == old(self).audio(),
            action == sync_action(
                old(self).video_head(),
                old(self).audio_head(),
                old(self).threshold_ms(),
            ),
            final(self).stats_value() == if old(self).video().len() == 0 || old(self).audio().len()
                == 0 {
                old(self).stats_value()
            } else {
                stats_after_step(
                    old(self).stats_value(),
                    drift_ms(old(self).video()[0].pts, old(self).audio()[0].pts),
                    old(self).threshold_ms(),
                )
            },
    {
        if self.video_buffer.len() == 0 {
            return SyncAction::WaitForVideo;
        }
        if self.audio_buffer.len() == 0 {
            return SyncAction::WaitForAudio;
        }
        let video_pts = self.video_buffer[0].pts;
        let audio_pts = self.audio_buffer[0].pts;
        let drift = drift_between(video_pts, audio_pts);
        self.stats.current_drift_ms = drift;
        self.stats.avg_drift_centi_ms = average_after(self.stats.avg_drift_centi_ms, drift);
        let magnitude = if drift >= 0 {
            drift
        } else {
            -drift
        };
        if magnitude > self.sync_threshold_ms {
            self.stats.sync_corrections = bump(self.stats.sync_corrections);
            if drift > 0 {
                self.stats.video_frames_dropped = bump(self.stats.video_frames_dropped);
                return SyncAction::DropVideoFrame;
            } else {
                self.stats.audio_samples_skipped = bump(self.stats.audio_samples_skipped);
                return SyncAction::SkipAudioSamples;
            }
        }
        SyncAction::Continue
    }

    /// Get next video frame (removes from buffer)
    pub fn pop_video_frame(&mut self) -> (f: Option<TimestampedFrame>)
        requires
            old(self).wf(),
        ensures
            final(self).wf(),
            final(self).same_settings(old(self)),
            final(self).audio() == old(self).audio(),
            final(self).stats_value() == old(self).stats_value(),
            match f {
                Some(x) => {
                    &&& old(self).video().len() > 0
                    &&& x == old(self).video()[0]
                    &&& final(self).video() == old(self).video().subrange(
                        1,
                        old(self).video().len() as int,
                    )
                },
                None => old(self).video().len() == 0 && final(self).video() == old(self).video(),
            },
    {
        self.video_buffer.pop_front()
    }

    /// Get next audio samples (removes from buffer)
    pub fn pop_audio_samples(&mut self) -> (a: Option<TimestampedAudio<S>>)
        requires
            old(self).wf(),
        ensures
            final(self).wf(),
            final(self).same_settings(old(self)),
            final(self).video() == old(self).video(),
            final(self).stats_value() == old(self).stats_value(),
            match a {
                Some(x) => {
                    &&& old(self).audio().len() > 0
                    &&& x == old(self).audio()[0]
                    &&& final(self).audio() == old(self).audio().subrange(
                        1,
                        old(self).audio().len() as int,
                    )
                },
                None => old(self).audio().len() == 0 && final(self).audio() == old(self).audio(),
            },
    {
        self.audio_buffer.pop_front()
    }

    /// Drop current video frame
    pub fn drop_video_frame(&mut self)
        requires
            old(self).wf(),
        ensures
            final(self).wf(),
            final(self).same_settings(old(self)),
            final(self).audio() == old(self).audio(),
            final(self).stats_value() == old(self).stats_value(),
            final(self).video() == if old(self).video().len() == 0 {
                old(self).video()
            } else {
                old(self).video().subrange(1, old(self).video().len() as int)
            },
    {
        let _ = self.video_buffer.pop_front();
    }

    /// Drop current audio samples
    pub fn drop_audio_samples(&mut self)
        requires
            old(self).wf(),
        ensures
            final(self).wf(),
            final(self).same_settings(old(self)),
            final(self).video() == old(self).video(),
            final(self).stats_value() == old(self).stats_value(),
            final(self).audio() == if old(self).audio().len() == 0 {
                old(self).audio()
            } else {
                old(self).audio().subrange(1, old(self).audio().len() as int)
            },
    {
        let _ = self.audio_buffer.pop_front();
    }

    /// The playout loop: repeats the sync step, dropping the head frame on
    /// `DropVideoFrame` and the head chunk on `SkipAudioSamples`, until the
    /// step answers `Continue` or a wait. It takes one step per dropped
    /// item and one more, so at most as many corrections as items were
    /// buffered; what is left of each queue is a tail of what it held. On
    /// `Continue` the heads are within the threshold of each other.
    pub fn settle(&mut self) -> (action: SyncAction)
        requires
            old(self).wf(),
        ensures
            final(self).wf(),
            final(self).same_settings(old(self)),
            (final(self).video(), final(self).audio(), final(self).stats_value(), action)
                == settled(
                old(self).video(),
                old(self).audio(),
                old(self).threshold_ms(),
                old(self).stats_value(),
            ),
            action == sync_action(
                final(self).video_head(),
                final(self).audio_head(),
                final(self).threshold_ms(),
            ),
            action == SyncAction::Continue || action == SyncAction::WaitForVideo || action
                == SyncAction::WaitForAudio,
            final(self).video().len() <= old(self).video().len(),
            final(self).audio().len() <= old(self).audio().len(),
            final(self).video() == old(self).video().subrange(
                old(self).video().len() - final(self).video().len(),
                old(self).video().len() as int,
            ),
            final(self).audio() == old(self).audio().subrange(
                old(self).audio().len() - final(self).audio().len(),
                old(self).audio().len() as int,
            ),
            action == SyncAction::Continue ==> ({
                &&& final(self).video().len() > 0
                &&& final(self).audio().len() > 0
                &&& -final(self).threshold_ms() <= drift_ms(
                    final(self).video()[0].pts,
                    final(self).audio()[0].pts,
                ) <= final(self).threshold_ms()
            }),
    {
        let ghost start = *self;
        loop
            invariant
                start == *old(self),
                self.wf(),
                self.same_settings(&start),
                settled(self.video(), self.audio(), self.threshold_ms(), self.stats_value())
                    == settled(
                    start.video(),
                    start.audio(),
                    start.threshold_ms(),
                    start.stats_value(),
                ),
                self.video().len() <= start.video().len(),
                self.audio().len() <= start.audio().len(),
                self.video() == start.video().subrange(
                    start.video().len() - self.video().len(),
                    start.video().len() as int,
                ),
                self.audio() == start.audio().subrange(
                    start.audio().len() - self.audio().len(),
                    start.audio().len() as int,
                ),
            decreases self.video().len() + self.audio().len(),
        {
            let action = self.sync();
            match action {
                SyncAction::DropVideoFrame => {
                    let ghost before = self.video();
                    self.drop_video_frame();
                    assert(self.video() =~= start.video().subrange(
                        start.video().len() - self.video().len(),
                        start.video().len() as int,
                    ));
                },
                SyncAction::SkipAudioSamples => {
                    self.drop_audio_samples();
                    assert(self.audio() =~= start.audio().subrange(
                        start.audio().len() - self.audio().len(),
                        start.audio().len() as int,
                    ));
                },
                _ => {
                    return action;
                },
            }
        }
    }

    /// Get synchronization statistics
    pub fn stats(&self) -> (s: SyncStats)
        ensures
            s == self.stats_value(),
    {
        self.stats
    }

    /// Video buffer level: how many frames are buffered, and the capacity.
    pub fn video_buffer_level(&self) -> (level: (usize, usize))
        ensures
            level.0 == self.video().len(),
            level.1 == self.video_capacity(),
    {
        (self.video_buffer.len(), self.max_video_buffer)
    }

    /// Audio buffer level: how many chunks are buffered, and the capacity.
    pub fn audio_buffer_level(&self) -> (level: (usize, usize))
        ensures
            level.0 == self.audio().len(),
            level.1 == self.audio_capacity(),
    {
        (self.audio_buffer.len(), self.max_audio_buffer)
    }

    /// Reset sync engine: both queues empty, statistics at zero.
    pub fn reset(&mut self)
        requires
            old(self).wf(),
        ensures
            final(self).wf(),
            final(self).same_settings(old(self)),
            final(self).video() == Seq::<TimestampedFrame>::empty(),
            final(self).audio() == Seq::<TimestampedAudio<S>>::empty(),
            final(self).stats_value() == zero_stats(),
    {
        self.video_buffer.clear();
        self.audio_buffer.clear();
        self.stats = SyncStats {
            video_frames_dropped: 0,
            audio_samples_skipped: 0,
            sync_corrections: 0,
            current_drift_ms: 0,
            avg_drift_centi_ms: 0,
        };
    }
}

} // verus!
