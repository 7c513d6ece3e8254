//! Counters for diagnosing frame pacing, rolled up over short windows.
//!
//! Every recorder takes the current time (nanoseconds of a monotonic clock)
//! and hands back a report when a window has run its time.
use crate::surface_map::SurfaceMap;
use vstd::prelude::*;

verus! {

/// Length of a window of commit statistics.
pub const COMMIT_WINDOW: u64 = 1_000_000_000;

/// Length of a window of presentation and fence statistics.
pub const PRESENT_WINDOW: u64 = 2_000_000_000;

/// How the buffer a client just committed is backed.
#[derive(Debug, Clone, Copy, PartialEq, Eq, Structural)]
pub enum BufferKind {
    Shm,
    Dmabuf,
    /// Single-pixel, EGL or unknown.
    Other,
    /// The commit carried no new buffer.
    NoBuffer,
}

/// Time from `start` to `now`; none where `now` is the earlier one.
pub open spec fn since(now: u64, start: u64) -> u64 {
    if now >= start { (now - start) as u64 } else { 0 }
}

pub open spec fn saturating_next(n: u32) -> u32 {
    if n == u32::MAX { n } else { (n + 1) as u32 }
}

pub open spec fn larger(a: u64, b: u64) -> u64 {
    if a >= b { a } else { b }
}

pub open spec fn smaller(a: u64, b: u64) -> u64 {
    if a <= b { a } else { b }
}

/// Commit statistics of one root surface.
#[derive(Debug, Clone, Copy, PartialEq, Eq, Structural)]
pub struct CommitWindow {
    pub commits: u32,
    pub window_start: u64,
    /// Time from the frame callbacks to the commits that answered them.
    pub cb_latency_total: u64,
    pub cb_latency_max: u64,
    pub cb_latency_samples: u32,
    pub shm: u32,
    pub dmabuf: u32,
}

/// What one window of a surface's commits showed.
#[derive(Debug, Clone, Copy, PartialEq, Eq, Structural)]
pub struct CommitReport {
    pub commits: u32,
    pub elapsed: u64,
    pub shm: u32,
    pub dmabuf: u32,
    pub cb_to_commit_avg_us: u64,
    pub cb_to_commit_max_us: u64,
}

impl CommitWindow {
    pub open spec fn empty_at(now: u64) -> CommitWindow {
        CommitWindow {
            commits: 0,
            window_start: now,
            cb_latency_total: 0,
            cb_latency_max: 0,
            cb_latency_samples: 0,
            shm: 0,
            dmabuf: 0,
        }
    }

    pub fn new(now: u64) -> (r: Self)
        ensures
            r == CommitWindow::empty_at(now),
    {
        CommitWindow {
            commits: 0,
            window_start: now,
            cb_latency_total: 0,
            cb_latency_max: 0,
            cb_latency_samples: 0,
            shm: 0,
            dmabuf: 0,
        }
    }

    /// Whether the counters that one more commit raises can take it.
    pub open spec fn has_room(self, cb_latency: Option<u64>, buffer: BufferKind) -> bool {
        &&& buffer == BufferKind::Shm ==> self.shm < u32::MAX
        &&& buffer == BufferKind::Dmabuf ==> self.dmabuf < u32::MAX
        &&& cb_latency is Some ==> self.cb_latency_samples < u32::MAX && self.cb_latency_total
            + cb_latency->0 <= u64::MAX
    }

    /// The window with one more commit in it.
    pub open spec fn with_commit(self, cb_latency: Option<u64>, buffer: BufferKind) -> CommitWindow {
        CommitWindow {
            commits: saturating_next(self.commits),
            window_start: self.window_start,
            cb_latency_total: if cb_latency is Some {
                (self.cb_latency_total + cb_latency->0) as u64
            } else {
                self.cb_latency_total
            },
            cb_latency_max: if cb_latency is Some {
                larger(self.cb_latency_max, cb_latency->0)
            } else {
                self.cb_latency_max
            },
            cb_latency_samples: if cb_latency is Some {
                (self.cb_latency_samples + 1) as u32
            } else {
                self.cb_latency_samples
            },
            shm: if buffer == BufferKind::Shm { (self.shm + 1) as u32 } else { self.shm },
            dmabuf: if buffer == BufferKind::Dmabuf {
                (self.dmabuf + 1) as u32
            } else {
                self.dmabuf
            },
        }
    }

    pub open spec fn report_at(self, now: u64) -> CommitReport {
        CommitReport {
            commits: self.commits,
            elapsed: since(now, self.window_start),
            shm: self.shm,
            dmabuf: self.dmabuf,
            cb_to_commit_avg_us: if self.cb_latency_samples > 0 {
                ((self.cb_latency_total as int / 1000) / (self.cb_latency_samples as int)) as u64
            } else {
                0
            },
            cb_to_commit_max_us: (self.cb_latency_max as int / 1000) as u64,
        }
    }
}

/// Tracks commit rate, responsiveness and buffer type per root surface.
#[derive(Debug)]
pub struct CommitTracker {
    windows: SurfaceMap<CommitWindow>,
}

/// The window that a commit at `now` falls into.
pub open spec fn window_for(
    windows: Map<u64, CommitWindow>,
    surface_id: u64,
    now: u64,
) -> CommitWindow {
    if windows.dom().contains(surface_id) {
        windows[surface_id]
    } else {
        CommitWindow::empty_at(now)
    }
}

impl CommitTracker {
    pub closed spec fn wf(&self) -> bool {
        self.windows.wf()
    }

    pub closed spec fn windows(&self) -> Map<u64, CommitWindow> {
        self.windows@
    }

    pub fn new() -> (r: Self)
        ensures
            r.wf(),
            r.windows() == Map::<u64, CommitWindow>::empty(),
    {
        CommitTracker { windows: SurfaceMap::new() }
    }

    pub fn window(&self, surface_id: u64) -> (r: Option<CommitWindow>)
        requires
            self.wf(),
        ensures
            r == if self.windows().dom().contains(surface_id) {
                Some(self.windows()[surface_id])
            } else {
                None
            },
    {
        self.windows.get(surface_id)
    }

    /// Record a commit of the root surface `surface_id`. `cb_latency` is the
    /// time since frame callbacks were last sent, where that is known.
    pub fn record(
        &mut self,
        now: u64,
        surface_id: u64,
        cb_latency: Option<u64>,
        buffer: BufferKind,
    ) -> (r: Option<CommitReport>)
        requires
            old(self).wf(),
            window_for(old(self).windows(), surface_id, now).has_room(cb_latency, buffer),
        ensures
            final(self).wf(),
            ({
                let window = window_for(old(self).windows(), surface_id, now).with_commit(
                    cb_latency,
                    buffer,
                );
                if since(now, window.window_start) >= COMMIT_WINDOW {
                    &&& r == Some(window.report_at(now))
                    &&& final(self).windows() == old(self).windows().insert(
                        surface_id,
                        CommitWindow::empty_at(now),
                    )
                } else {
                    &&& r is None
                    &&& final(self).windows() == old(self).windows().insert(surface_id, window)
                }
            }),
    {
        let mut window = match self.windows.get(surface_id) {
            Some(window) => window,
            None => CommitWindow::new(now),
        };
        window.commits = window.commits.saturating_add(1);
        if let Some(latency) = cb_latency {
            window.cb_latency_total = window.cb_latency_total + latency;
            window.cb_latency_samples = window.cb_latency_samples + 1;
            if latency > window.cb_latency_max {
                window.cb_latency_max = latency;
            }
        }
        match buffer {
            BufferKind::Shm => {
                window.shm = window.shm + 1;
            },
            BufferKind::Dmabuf => {
                window.dmabuf = window.dmabuf + 1;
            },
            BufferKind::Other | BufferKind::NoBuffer => {},
        }
        let elapsed: u64 = now.saturating_sub(window.window_start);
        if elapsed >= COMMIT_WINDOW {
            let average: u64 = if window.cb_latency_samples > 0 {
                (window.cb_latency_total / 1000) / (window.cb_latency_samples as u64)
            } else {
                0
            };
            self.windows.insert(surface_id, CommitWindow::new(now));
            Some(
                CommitReport {
                    commits: window.commits,
                    elapsed,
                    shm: window.shm,
                    dmabuf: window.dmabuf,
                    cb_to_commit_avg_us: average,
                    cb_to_commit_max_us: window.cb_latency_max / 1000,
                },
            )
        } else {
            self.windows.insert(surface_id, window);
            None
        }
    }
}

/// Vblank cadence of one output.
#[derive(Debug, Clone, Copy, PartialEq, Eq, Structural)]
pub struct PresentStats {
    pub window_start: u64,
    pub last_vblank: Option<u64>,
    pub vblanks: u32,
    pub interval_total: u64,
    /// The largest time of all while no interval was measured.
    pub interval_min: u64,
    pub interval_max: u64,
    pub feedback_presented: u32,
}

/// What one window of vblanks showed.
#[derive(Debug, Clone, Copy, PartialEq, Eq, Structural)]
pub struct PresentReport {
    pub elapsed: u64,
    pub vblanks: u32,
    pub avg_interval_us: u64,
    pub min_interval_us: u64,
    pub max_interval_us: u64,
    pub expected_interval_us: u64,
    pub feedback_presented: u32,
}

impl PresentStats {
    pub open spec fn empty_at(now: u64) -> PresentStats {
        PresentStats {
            window_start: now,
            last_vblank: None,
            vblanks: 0,
            interval_total: 0,
            interval_min: u64::MAX,
            interval_max: 0,
            feedback_presented: 0,
        }
    }

    pub fn new(now: u64) -> (r: Self)
        ensures
            r == PresentStats::empty_at(now),
    {
        PresentStats {
            window_start: now,
            last_vblank: None,
            vblanks: 0,
            interval_total: 0,
            interval_min: u64::MAX,
            interval_max: 0,
            feedback_presented: 0,
        }
    }

    /// Whether the counters that a vblank raises can take it.
    pub open spec fn has_room(self, now: u64, feedback_presented: bool) -> bool {
        &&& feedback_presented ==> self.feedback_presented < u32::MAX
        &&& self.last_vblank is Some ==> self.interval_total + since(now, self.last_vblank->0)
            <= u64::MAX
    }

    /// The window with a vblank at `now` in it.
    pub open spec fn with_vblank(self, now: u64, feedback_presented: bool) -> PresentStats {
        let interval = since(now, self.last_vblank->0);
        PresentStats {
            window_start: self.window_start,
            last_vblank: Some(now),
            vblanks: saturating_next(self.vblanks),
            interval_total: if self.last_vblank is Some {
                (self.interval_total + interval) as u64
            } else {
                self.interval_total
            },
            interval_min: if self.last_vblank is Some {
                smaller(self.interval_min, interval)
            } else {
                self.interval_min
            },
            interval_max: if self.last_vblank is Some {
                larger(self.interval_max, interval)
            } else {
                self.interval_max
            },
            feedback_presented: if feedback_presented {
                (self.feedback_presented + 1) as u32
            } else {
                self.feedback_presented
            },
        }
    }

    /// The report on the window. There is one interval fewer than vblanks.
    pub open spec fn report_at(self, now: u64, expected_interval_us: u64) -> PresentReport {
        let samples = if self.vblanks <= 1 { 1 } else { self.vblanks - 1 };
        PresentReport {
            elapsed: since(now, self.window_start),
            vblanks: self.vblanks,
            avg_interval_us: ((self.interval_total as int / samples) / 1000) as u64,
            min_interval_us: if self.interval_min == u64::MAX {
                0
            } else {
                (self.interval_min as int / 1000) as u64
            },
            max_interval_us: (self.interval_max as int / 1000) as u64,
            expected_interval_us,
            feedback_presented: self.feedback_presented,
        }
    }

    /// Call once per vblank.
    pub fn record_vblank(
        &mut self,
        now: u64,
        expected_interval_us: u64,
        feedback_presented: bool,
    ) -> (r: Option<PresentReport>)
        requires
            old(self).has_room(now, feedback_presented),
        ensures
            ({
                let window = old(self).with_vblank(now, feedback_presented);
                if since(now, window.window_start) >= PRESENT_WINDOW {
                    &&& r == Some(window.report_at(now, expected_interval_us))
                    &&& *final(self) == PresentStats::empty_at(now)
                } else {
                    r is None && *final(self) == window
                }
            }),
    {
        self.vblanks = self.vblanks.saturating_add(1);
        if feedback_presented {
            self.feedback_presented = self.feedback_presented + 1;
        }
        if let Some(prev) = self.last_vblank {
            let interval: u64 = now.saturating_sub(prev);
            self.interval_total = self.interval_total + interval;
            if interval < self.interval_min {
                self.interval_min = interval;
            }
            if interval > self.interval_max {
                self.interval_max = interval;
            }
        }
        self.last_vblank = Some(now);
        let elapsed: u64 = now.saturating_sub(self.window_start);
        if elapsed >= PRESENT_WINDOW {
            let samples: u64 = if self.vblanks <= 1 {
                1
            } else {
                self.vblanks as u64 - 1
            };
            let report = PresentReport {
                elapsed,
                vblanks: self.vblanks,
                avg_interval_us: (self.interval_total / samples) / 1000,
                min_interval_us: if self.interval_min == u64::MAX {
                    0
                } else {
                    self.interval_min / 1000
                },
                max_interval_us: self.interval_max / 1000,
                expected_interval_us,
                feedback_presented: self.feedback_presented,
            };
            *self = PresentStats::new(now);
            Some(report)
        } else {
            None
        }
    }
}

/// Explicit-sync acquire-fence activity.
#[derive(Debug, Clone, Copy, PartialEq, Eq, Structural)]
pub struct SyncStats {
    pub window_start: u64,
    pub installed: u32,
    pub cleared: u32,
    pub wait_total: u64,
    pub wait_max: u64,
    /// Running count of blockers installed but not yet cleared, over all
    /// windows. If it grows without bound, fences never signal.
    pub pending: i64,
    pub last_install_at: Option<u64>,
}

/// What one window of fence activity showed.
#[derive(Debug, Clone, Copy, PartialEq, Eq, Structural)]
pub struct SyncReport {
    pub elapsed: u64,
    pub installed: u32,
    pub cleared: u32,
    pub pending: i64,
    pub avg_wait_us: u64,
    pub max_wait_us: u64,
}

impl SyncStats {
    /// A window that starts at `now` with `pending` blockers outstanding.
    pub open spec fn empty_at(now: u64, pending: i64) -> SyncStats {
        SyncStats {
            window_start: now,
            installed: 0,
            cleared: 0,
            wait_total: 0,
            wait_max: 0,
            pending,
            last_install_at: None,
        }
    }

    pub fn new(now: u64) -> (r: Self)
        ensures
            r == SyncStats::empty_at(now, 0),
    {
        SyncStats {
            window_start: now,
            installed: 0,
            cleared: 0,
            wait_total: 0,
            wait_max: 0,
            pending: 0,
            last_install_at: None,
        }
    }

    /// A commit arrived with an unsignalled acquire fence and is held back.
    pub fn record_install(&mut self, now: u64)
        requires
            old(self).pending < i64::MAX,
        ensures
            *final(self) == (SyncStats {
                installed: saturating_next(old(self).installed),
                pending: (old(self).pending + 1) as i64,
                last_install_at: Some(now),
                ..*old(self)
            }),
    {
        self.installed = self.installed.saturating_add(1);
        self.pending = self.pending + 1;
        self.last_install_at = Some(now);
    }

    /// The window with a fence that signalled at `now` in it.
    pub open spec fn with_clear(self, now: u64) -> SyncStats {
        let wait = since(now, self.last_install_at->0);
        SyncStats {
            cleared: saturating_next(self.cleared),
            pending: (self.pending - 1) as i64,
            wait_total: if self.last_install_at is Some {
                (self.wait_total + wait) as u64
            } else {
                self.wait_total
            },
            wait_max: if self.last_install_at is Some {
                larger(self.wait_max, wait)
            } else {
                self.wait_max
            },
            ..self
        }
    }

    pub open spec fn report_at(self, now: u64) -> SyncReport {
        SyncReport {
            elapsed: since(now, self.window_start),
            installed: self.installed,
            cleared: self.cleared,
            pending: self.pending,
            avg_wait_us: if self.cleared > 0 {
                ((self.wait_total as int / 1000) / (self.cleared as int)) as u64
            } else {
                0
            },
            max_wait_us: (self.wait_max as int / 1000) as u64,
        }
    }

    /// An acquire fence signalled and its blocker was cleared. The wait is
    /// measured from the most recent install of the window.
    pub fn record_clear(&mut self, now: u64) -> (r: Option<SyncReport>)
        requires
            old(self).pending > i64::MIN,
            old(self).last_install_at is Some ==> old(self).wait_total + since(
                now,
                old(self).last_install_at->0,
            ) <= u64::MAX,
        ensures
            ({
                let window = old(self).with_clear(now);
                if since(now, window.window_start) >= PRESENT_WINDOW {
                    &&& r == Some(window.report_at(now))
                    &&& *final(self) == SyncStats::empty_at(now, window.pending)
                } else {
                    r is None && *final(self) == window
                }
            }),
    {
        self.cleared = self.cleared.saturating_add(1);
        self.pending = self.pending - 1;
        if let Some(install) = self.last_install_at {
            let wait: u64 = now.saturating_sub(install);
            self.wait_total = self.wait_total + wait;
            if wait > self.wait_max {
                self.wait_max = wait;
            }
        }
        self.maybe_log(now)
    }

    /// Close the window if it has run its time.
    fn maybe_log(&mut self, now: u64) -> (r: Option<SyncReport>)
        ensures
            if since(now, old(self).window_start) >= PRESENT_WINDOW {
                &&& r == Some(old(self).report_at(now))
                &&& *final(self) == SyncStats::empty_at(now, old(self).pending)
            } else {
                r is None && *final(self) == *old(self)
            },
    {
        let elapsed: u64 = now.saturating_sub(self.window_start);
        if elapsed < PRESENT_WINDOW {
            return None;
        }
        let average: u64 = if self.cleared > 0 {
            (self.wait_total / 1000) / (self.cleared as u64)
        } else {
            0
        };
        let report = SyncReport {
            elapsed,
            installed: self.installed,
            cleared: self.cleared,
            pending: self.pending,
            avg_wait_us: average,
            max_wait_us: self.wait_max / 1000,
        };
        let pending = self.pending;
        *self = SyncStats::new(now);
        self.pending = pending;
        Some(report)
    }
}

/// A surface's commits never change what is counted for another surface.
pub proof fn commits_are_counted_per_surface(
    before: Map<u64, CommitWindow>,
    surface_id: u64,
    window: CommitWindow,
    other: u64,
)
    requires
        other != surface_id,
    ensures
        ({
            let after = before.insert(surface_id, window);
            &&& after.dom().contains(other) <==> before.dom().contains(other)
            &&& before.dom().contains(other) ==> after[other] == before[other]
        }),
{
}

/// Every commit of a surface is counted as one, and its buffer at most once: as
/// long as nothing saturates, the two kinds of buffer add up to no more than
/// the commits.
pub proof fn buffers_never_outnumber_commits(
    window: CommitWindow,
    cb_latency: Option<u64>,
    buffer: BufferKind,
)
    requires
        window.has_room(cb_latency, buffer),
        window.commits < u32::MAX,
        window.shm + window.dmabuf <= window.commits,
        window.cb_latency_samples <= window.commits,
    ensures
        ({
            let after = window.with_commit(cb_latency, buffer);
            &&& after.shm + after.dmabuf <= after.commits
            &&& after.cb_latency_samples <= after.commits
        }),
{
}

/// The newest interval lies between the smallest and the largest of its window.
pub proof fn intervals_stay_between_their_bounds(stats: PresentStats, now: u64, feedback: bool)
    requires
        stats.has_room(now, feedback),
        stats.last_vblank is Some,
    ensures
        ({
            let after = stats.with_vblank(now, feedback);
            let interval = since(now, stats.last_vblank->0);
            after.interval_min <= interval <= after.interval_max
        }),
{
}

/// A commit is counted once, under the kind of its buffer, and its wait is added to the
/// total and kept where it is the longest.
pub proof fn commits_are_counted_once(
    window: CommitWindow,
    cb_latency: Option<u64>,
    buffer: BufferKind,
)
    requires
        window.has_room(cb_latency, buffer),
        window.commits < u32::MAX,
    ensures
        ({
            let after = window.with_commit(cb_latency, buffer);
            &&& after.commits == window.commits + 1
            &&& after.window_start == window.window_start
            &&& after.shm == window.shm + if buffer == BufferKind::Shm { 1int } else { 0 }
            &&& after.dmabuf == window.dmabuf + if buffer == BufferKind::Dmabuf { 1int } else { 0 }
            &&& cb_latency is Some ==> after.cb_latency_total == window.cb_latency_total
                + cb_latency->0 && after.cb_latency_samples == window.cb_latency_samples + 1
                && after.cb_latency_max >= cb_latency->0 && after.cb_latency_max
                >= window.cb_latency_max && (after.cb_latency_max == cb_latency->0
                || after.cb_latency_max == window.cb_latency_max)
            &&& cb_latency is None ==> after.cb_latency_total == window.cb_latency_total
                && after.cb_latency_samples == window.cb_latency_samples && after.cb_latency_max
                == window.cb_latency_max
        }),
{
}

/// A vertical blank is counted once; from the second on, the time since the last one is
/// added to the total and kept where it is the shortest or the longest.
pub proof fn blanks_are_counted_once(stats: PresentStats, now: u64, feedback: bool)
    requires
        stats.has_room(now, feedback),
        stats.vblanks < u32::MAX,
        stats.last_vblank is Some ==> stats.last_vblank->0 <= now,
    ensures
        ({
            let after = stats.with_vblank(now, feedback);
            let gap = now - stats.last_vblank->0;
            &&& after.vblanks == stats.vblanks + 1
            &&& after.last_vblank == Some(now)
            &&& after.feedback_presented == stats.feedback_presented + if feedback {
                1int
            } else {
                0
            }
            &&& stats.last_vblank is Some ==> after.interval_total == stats.interval_total + gap
                && after.interval_min <= gap <= after.interval_max && after.interval_min
                <= stats.interval_min && after.interval_max >= stats.interval_max
            &&& stats.last_vblank is None ==> after.interval_total == stats.interval_total
        }),
{
}

/// Averages are the totals shared out, in microseconds.
pub proof fn averages_are_the_totals_shared_out(window: CommitWindow, now: u64)
    requires
        window.cb_latency_samples > 0,
        window.window_start <= now,
    ensures
        ({
            let report = window.report_at(now);
            let n = window.cb_latency_samples as int;
            &&& report.elapsed == now - window.window_start
            &&& report.commits == window.commits
            &&& n * report.cb_to_commit_avg_us <= window.cb_latency_total / 1000
            &&& window.cb_latency_total / 1000 < n * (report.cb_to_commit_avg_us + 1)
            &&& 1000 * report.cb_to_commit_max_us <= window.cb_latency_max
            &&& window.cb_latency_max < 1000 * (report.cb_to_commit_max_us + 1)
        }),
{
    let n = window.cb_latency_samples as int;
    let total = window.cb_latency_total as int / 1000;
    assert(n * (total / n) <= total < n * (total / n) + n && 0 <= total / n <= total)
        by (nonlinear_arith)
        requires
            n > 0,
            total >= 0,
    ;
    assert(n * (total / n + 1) == n * (total / n) + n) by (nonlinear_arith);
}

} // verus!
