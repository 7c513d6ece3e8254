//! Frame counters of an output, and how long it waits after a failed frame.
use crate::diagnostics::since;
use vstd::prelude::*;

verus! {

/// How long the counters run before they are reported.
pub const FRAME_WINDOW: u64 = 1_000_000_000;

/// The wait after a first failed frame.
pub const FRAME_FAILURE_RETRY_BASE: u64 = 100_000_000;

/// The longest wait.
pub const FRAME_FAILURE_RETRY_MAX: u64 = 2_000_000_000;

/// What one rendered frame was like.
#[derive(Debug, Clone, Copy, PartialEq, Eq, Structural)]
pub struct FrameStatsSample {
    pub render_time: u64,
    /// A client's buffer went to the display without being composed.
    pub is_scanout: bool,
    /// Nothing had changed.
    pub is_empty: bool,
    pub overlay_count: usize,
    pub cursor_plane_used: bool,
}

/// The frames of one output since `window_start`.
#[derive(Debug, Clone, Copy, PartialEq, Eq, Structural)]
pub struct FrameStats {
    pub window_start: u64,
    pub frames: u32,
    pub empty_frames: u32,
    pub scanout_frames: u32,
    pub composition_frames: u32,
    pub overlay_frames: u32,
    pub cursor_plane_frames: u32,
    pub render_time_total: u64,
    pub render_time_max: u64,
    /// How the last frame went to the display, where there was one.
    pub last_primary_was_scanout: Option<bool>,
}

/// What one window of frames showed.
#[derive(Debug, Clone, Copy, PartialEq, Eq, Structural)]
pub struct FrameReport {
    pub elapsed: u64,
    pub frames: u32,
    pub scanout: u32,
    pub composition: u32,
    pub empty: u32,
    pub overlay: u32,
    pub cursor_plane: u32,
    pub avg_render_us: u64,
    pub max_render_us: u64,
}

/// `n`, and one more where `counts`.
pub open spec fn counted(n: u32, counts: bool) -> u32 {
    if counts { (n + 1) as u32 } else { n }
}

impl FrameStats {
    /// Every frame is either composed or not, the counters of particular
    /// frames count no more than there were, and none took longer than the
    /// longest.
    pub open spec fn wf(self) -> bool {
        &&& self.scanout_frames + self.composition_frames == self.frames
        &&& self.empty_frames <= self.frames
        &&& self.overlay_frames <= self.frames
        &&& self.cursor_plane_frames <= self.frames
        &&& self.render_time_max <= self.render_time_total
        &&& self.render_time_total <= self.frames * self.render_time_max
    }

    pub open spec fn empty_at(now: u64) -> FrameStats {
        FrameStats {
            window_start: now,
            frames: 0,
            empty_frames: 0,
            scanout_frames: 0,
            composition_frames: 0,
            overlay_frames: 0,
            cursor_plane_frames: 0,
            render_time_total: 0,
            render_time_max: 0,
            last_primary_was_scanout: None,
        }
    }

    pub fn new(now: u64) -> (r: Self)
        ensures
            r == FrameStats::empty_at(now),
            r.wf(),
    {
        FrameStats {
            window_start: now,
            frames: 0,
            empty_frames: 0,
            scanout_frames: 0,
            composition_frames: 0,
            overlay_frames: 0,
            cursor_plane_frames: 0,
            render_time_total: 0,
            render_time_max: 0,
            last_primary_was_scanout: None,
        }
    }

    /// The counters with one more frame.
    pub open spec fn with_frame(self, sample: FrameStatsSample) -> FrameStats {
        FrameStats {
            window_start: self.window_start,
            frames: (self.frames + 1) as u32,
            empty_frames: counted(self.empty_frames, sample.is_empty),
            scanout_frames: counted(self.scanout_frames, sample.is_scanout),
            composition_frames: counted(self.composition_frames, !sample.is_scanout),
            overlay_frames: counted(self.overlay_frames, sample.overlay_count > 0),
            cursor_plane_frames: counted(self.cursor_plane_frames, sample.cursor_plane_used),
            render_time_total: (self.render_time_total + sample.render_time) as u64,
            render_time_max: if sample.render_time > self.render_time_max {
                sample.render_time
            } else {
                self.render_time_max
            },
            last_primary_was_scanout: Some(sample.is_scanout),
        }
    }

    /// The report on the window.
    pub open spec fn report_at(self, now: u64) -> FrameReport {
        FrameReport {
            elapsed: since(now, self.window_start),
            frames: self.frames,
            scanout: self.scanout_frames,
            composition: self.composition_frames,
            empty: self.empty_frames,
            overlay: self.overlay_frames,
            cursor_plane: self.cursor_plane_frames,
            avg_render_us: if self.frames > 0 {
                ((self.render_time_total as int / 1000) / self.frames as int) as u64
            } else {
                0
            },
            max_render_us: (self.render_time_max as int / 1000) as u64,
        }
    }

    /// The counters after a frame: those of the window, or of a new window where
    /// this one is full. How the frame went to the display is remembered either
    /// way.
    pub open spec fn after_frame(self, sample: FrameStatsSample, now: u64) -> FrameStats {
        let window = self.with_frame(sample);
        if since(now, window.window_start) >= FRAME_WINDOW {
            FrameStats {
                last_primary_was_scanout: Some(sample.is_scanout),
                ..FrameStats::empty_at(now)
            }
        } else {
            window
        }
    }

    /// Whether a frame goes to the display in another way than the last one did,
    /// or is the first.
    pub open spec fn changes_path(self, sample: FrameStatsSample) -> bool {
        self.last_primary_was_scanout != Some(sample.is_scanout)
    }

    /// Count a frame. The first part of the result says whether frames now go to
    /// the display in another way than the last one did; the second is the
    /// report, once the window is full.
    pub fn record_frame_stats(&mut self, sample: FrameStatsSample, now: u64) -> (r: (
        bool,
        Option<FrameReport>,
    ))
        requires
            old(self).wf(),
            old(self).frames < u32::MAX,
            old(self).render_time_total + sample.render_time <= u64::MAX,
        ensures
            final(self).wf(),
            *final(self) == old(self).after_frame(sample, now),
            r.0 == old(self).changes_path(sample),
            r.1 == (if since(now, old(self).window_start) >= FRAME_WINDOW {
                Some(old(self).with_frame(sample).report_at(now))
            } else {
                None
            }),
    {
        proof {
            lemma_total_bounded(*self, sample);
        }
        self.frames = self.frames + 1;
        if sample.is_empty {
            self.empty_frames = self.empty_frames + 1;
        }
        if sample.is_scanout {
            self.scanout_frames = self.scanout_frames + 1;
        } else {
            self.composition_frames = self.composition_frames + 1;
        }
        if sample.overlay_count > 0 {
            self.overlay_frames = self.overlay_frames + 1;
        }
        if sample.cursor_plane_used {
            self.cursor_plane_frames = self.cursor_plane_frames + 1;
        }
        self.render_time_total = self.render_time_total + sample.render_time;
        if sample.render_time > self.render_time_max {
            self.render_time_max = sample.render_time;
        }
        let changed = match self.last_primary_was_scanout {
            Some(previous) => previous != sample.is_scanout,
            None => true,
        };
        self.last_primary_was_scanout = Some(sample.is_scanout);
        let elapsed: u64 = now.saturating_sub(self.window_start);
        if elapsed < FRAME_WINDOW {
            return (changed, None);
        }
        let report = FrameReport {
            elapsed,
            frames: self.frames,
            scanout: self.scanout_frames,
            composition: self.composition_frames,
            empty: self.empty_frames,
            overlay: self.overlay_frames,
            cursor_plane: self.cursor_plane_frames,
            avg_render_us: (self.render_time_total / 1000) / self.frames as u64,
            max_render_us: self.render_time_max / 1000,
        };
        let mut next = FrameStats::new(now);
        next.last_primary_was_scanout = self.last_primary_was_scanout;
        *self = next;
        (changed, Some(report))
    }
}

proof fn lemma_total_bounded(stats: FrameStats, sample: FrameStatsSample)
    requires
        stats.wf(),
        stats.frames < u32::MAX,
        stats.render_time_total + sample.render_time <= u64::MAX,
    ensures
        ({
            let next = stats.with_frame(sample);
            next.render_time_total <= next.frames * next.render_time_max
        }),
{
    let n = stats.frames as int;
    let m = stats.render_time_max as int;
    let longest = stats.with_frame(sample).render_time_max as int;
    assert(n * m <= n * longest) by (nonlinear_arith)
        requires
            0 <= n,
            m <= longest,
    ;
    assert((n + 1) * longest == n * longest + longest) by (nonlinear_arith);
}

/// After a frame the next one is reported as a change exactly where it goes to
/// the display in another way, also where a window ended in between.
pub proof fn a_change_is_reported_once(
    stats: FrameStats,
    sample: FrameStatsSample,
    now: u64,
    next: FrameStatsSample,
)
    ensures
        stats.after_frame(sample, now).changes_path(next) <==> sample.is_scanout
            != next.is_scanout,
{
}

/// The average render time that is reported is at most the longest one.
pub proof fn the_average_is_at_most_the_longest(stats: FrameStats, now: u64)
    requires
        stats.wf(),
    ensures
        stats.report_at(now).avg_render_us <= stats.report_at(now).max_render_us,
{
    if stats.frames > 0 {
        let n = stats.frames as int;
        let total = stats.render_time_total as int;
        let longest = stats.render_time_max as int;
        let q = longest / 1000;
        assert(longest < 1000 * (q + 1)) by (nonlinear_arith)
            requires
                q == longest / 1000,
        ;
        assert(total < n * (1000 * (q + 1))) by (nonlinear_arith)
            requires
                total <= n * longest,
                longest < 1000 * (q + 1),
                n > 0,
        ;
        let t = total / 1000;
        assert(t < n * (q + 1)) by (nonlinear_arith)
            requires
                t == total / 1000,
                total < n * (1000 * (q + 1)),
        ;
        assert(t / n < q + 1) by (nonlinear_arith)
            requires
                t < n * (q + 1),
                n > 0,
        ;
        assert(0 <= t / n <= t) by (nonlinear_arith)
            requires
                t >= 0,
                n > 0,
        ;
    }
}

/// The wait before a frame is tried again after this many failures in a row: it
/// doubles with each, up to the longest.
pub open spec fn retry_delay(failures: u32) -> u64 {
    if failures <= 1 {
        100_000_000
    } else if failures == 2 {
        200_000_000
    } else if failures == 3 {
        400_000_000
    } else if failures == 4 {
        800_000_000
    } else if failures == 5 {
        1_600_000_000
    } else {
        2_000_000_000
    }
}

/// See [`retry_delay`].
pub fn retry_delay_for_frame_failure(failures: u32) -> (r: u64)
    ensures
        r == retry_delay(failures),
        FRAME_FAILURE_RETRY_BASE <= r <= FRAME_FAILURE_RETRY_MAX,
{
    let doublings: u32 = if failures.saturating_sub(1) < 5 {
        failures.saturating_sub(1)
    } else {
        5
    };
    let mut delay: u64 = FRAME_FAILURE_RETRY_BASE;
    let mut i: u32 = 0;
    while i < doublings
        invariant
            i <= doublings <= 5,
            delay == match i {
                0u32 => 100_000_000u64,
                1u32 => 200_000_000u64,
                2u32 => 400_000_000u64,
                3u32 => 800_000_000u64,
                4u32 => 1_600_000_000u64,
                _ => 3_200_000_000u64,
            },
        decreases doublings - i,
    {
        delay = delay * 2;
        i = i + 1;
    }
    if delay < FRAME_FAILURE_RETRY_MAX {
        delay
    } else {
        FRAME_FAILURE_RETRY_MAX
    }
}

/// Each further failure makes the wait longer, at most twice as long, until it
/// is the longest.
pub proof fn waits_grow_to_a_limit(failures: u32)
    requires
        failures < u32::MAX,
    ensures
        ({
            let next = retry_delay((failures + 1) as u32);
            &&& retry_delay(failures) <= next <= FRAME_FAILURE_RETRY_MAX
            &&& next <= 2 * retry_delay(failures)
            &&& failures >= 1 && retry_delay(failures) < FRAME_FAILURE_RETRY_MAX ==> next
                > retry_delay(failures)
        }),
{
}

/// After a first failure the wait is a tenth of a second; each further one doubles it, up
/// to two seconds.
pub proof fn waits_double(failures: u32)
    ensures
        failures <= 1 ==> retry_delay(failures) == 100_000_000,
        1 <= failures < 5 ==> retry_delay((failures + 1) as u32) == 2 * retry_delay(failures),
        failures >= 6 ==> retry_delay(failures) == 2_000_000_000,
        retry_delay(5) < 2_000_000_000,
{
}

/// A frame is counted once, as scanned out or as composed, and under each other head that
/// it falls under; its time is added to the total and the longest is kept.
pub proof fn frames_are_counted_under_their_heads(stats: FrameStats, sample: FrameStatsSample)
    requires
        stats.wf(),
        stats.frames < u32::MAX,
        stats.render_time_total + sample.render_time <= u64::MAX,
    ensures
        ({
            let after = stats.with_frame(sample);
            &&& after.frames == stats.frames + 1
            &&& sample.is_scanout ==> after.scanout_frames == stats.scanout_frames + 1
                && after.composition_frames == stats.composition_frames
            &&& !sample.is_scanout ==> after.composition_frames == stats.composition_frames + 1
                && after.scanout_frames == stats.scanout_frames
            &&& after.empty_frames == stats.empty_frames + if sample.is_empty { 1int } else { 0 }
            &&& after.overlay_frames == stats.overlay_frames + if sample.overlay_count > 0 {
                1int
            } else {
                0
            }
            &&& after.cursor_plane_frames == stats.cursor_plane_frames
                + if sample.cursor_plane_used { 1int } else { 0 }
            &&& after.render_time_total == stats.render_time_total + sample.render_time
            &&& after.render_time_max >= sample.render_time && after.render_time_max
                >= stats.render_time_max
            &&& after.render_time_max == sample.render_time || after.render_time_max
                == stats.render_time_max
        }),
{
}

} // verus!
