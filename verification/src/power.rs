//! The suspend/resume lifecycle.
//!
//! The state machine is small and idempotent: the login manager, the seat and
//! a wall-clock watchdog may report overlapping parts of the same transition,
//! and each report must be safe to process more than once. Times are
//! nanoseconds of a monotonic clock.
use vstd::prelude::*;

verus! {

/// How much further the wall clock may advance than the monotonic one before
/// the difference counts as a suspend.
pub const RESUME_WATCHDOG_THRESHOLD: u64 = 2_000_000_000;

/// How long a degraded session waits before it tries to activate again.
pub const RESUME_RETRY_INTERVAL: u64 = 1_000_000_000;

/// Where the session stands in the suspend/resume cycle.
#[derive(Debug, Clone, Copy, PartialEq, Eq, Structural)]
pub enum PowerState {
    Awake,
    PreparingSuspend,
    Suspended,
    Resuming,
    Degraded,
}

impl PowerState {
    pub open spec fn preparing(self) -> PowerState {
        if self == PowerState::Suspended { self } else { PowerState::PreparingSuspend }
    }

    pub open spec fn resuming(self) -> PowerState {
        if self == PowerState::Awake { self } else { PowerState::Resuming }
    }

    pub fn prepare_suspend(self) -> (r: Self)
        ensures
            r == self.preparing(),
    {
        match self {
            PowerState::PreparingSuspend | PowerState::Suspended => self,
            PowerState::Awake | PowerState::Resuming | PowerState::Degraded =>
                PowerState::PreparingSuspend,
        }
    }

    pub fn suspended(self) -> (r: Self)
        ensures
            r == PowerState::Suspended,
    {
        PowerState::Suspended
    }

    pub fn resume(self) -> (r: Self)
        ensures
            r == self.resuming(),
    {
        match self {
            PowerState::Awake => PowerState::Awake,
            PowerState::PreparingSuspend | PowerState::Suspended | PowerState::Degraded
            | PowerState::Resuming => PowerState::Resuming,
        }
    }
}

/// Who reported that the session is back.
#[derive(Debug, Clone, Copy, PartialEq, Eq, Structural)]
pub enum ResumeSource {
    Logind,
    Watchdog,
    Libseat,
}

impl ResumeSource {
    pub fn as_str(self) -> (r: &'static str)
        ensures
            r@ == match self {
                ResumeSource::Logind => "logind"@,
                ResumeSource::Watchdog => "resume-watchdog"@,
                ResumeSource::Libseat => "libseat"@,
            },
    {
        match self {
            ResumeSource::Logind => "logind",
            ResumeSource::Watchdog => "resume-watchdog",
            ResumeSource::Libseat => "libseat",
        }
    }
}

/// Whether the wall clock ran so far ahead of the monotonic one that the
/// process must have been suspended.
pub fn wall_clock_resume_gap(wall_elapsed: u64, instant_elapsed: u64) -> (r: bool)
    ensures
        r == (wall_elapsed > instant_elapsed + RESUME_WATCHDOG_THRESHOLD),
{
    wall_elapsed > instant_elapsed.saturating_add(RESUME_WATCHDOG_THRESHOLD)
}

/// What the login manager's monitor does about one sleep signal.
#[derive(Debug, Clone, Copy, PartialEq, Eq, Structural)]
pub enum SleepSignalAction {
    /// Announce the suspend, wait for the acknowledgement at most the given
    /// milliseconds, then let go of the inhibitor either way.
    PrepareThenRelease { wait_ms: u64 },
    /// Announce the resume and take a new inhibitor.
    ResumeThenInhibit,
    /// The signal made no sense.
    Ignore,
}

/// What to do about a sleep signal whose body said `sleeping`, or did not
/// parse.
pub fn sleep_signal_action(sleeping: Option<bool>) -> (r: SleepSignalAction)
    ensures
        r == match sleeping {
            Some(true) => SleepSignalAction::PrepareThenRelease { wait_ms: 750 },
            Some(false) => SleepSignalAction::ResumeThenInhibit,
            None => SleepSignalAction::Ignore,
        },
{
    match sleeping {
        Some(true) => SleepSignalAction::PrepareThenRelease { wait_ms: 750 },
        Some(false) => SleepSignalAction::ResumeThenInhibit,
        None => SleepSignalAction::Ignore,
    }
}

/// The session's place in the cycle, and what the way back still owes.
#[derive(Debug, Clone, Copy, PartialEq, Eq, Structural)]
pub struct PowerSession {
    pub state: PowerState,
    /// The next resume must assert the lock.
    pub resume_lock_pending: bool,
    /// A degraded session is not retried before this time.
    pub resume_retry_at: Option<u64>,
}

/// What must happen on the way back, before the display is activated.
#[derive(Debug, Clone, Copy, PartialEq, Eq, Structural)]
pub struct ResumePlan {
    /// Lock even if the session is not locked now.
    pub force_lock: bool,
    /// Reset the display state though the device may have stayed active.
    pub force_drm_reset: bool,
}

/// Whether `after` is `before` on its way to sleep.
pub open spec fn suspend_prepared(
    before: PowerSession,
    after: PowerSession,
    lock_on_suspend: bool,
    lock_on_resume: bool,
    locked: bool,
    lock_now: bool,
) -> bool {
    &&& lock_now == lock_on_suspend
    &&& after == (PowerSession {
        state: before.state.preparing(),
        resume_lock_pending: before.resume_lock_pending || lock_on_suspend || lock_on_resume
            || locked,
        resume_retry_at: before.resume_retry_at,
    })
}

/// Whether `after` is `before` with the seat taken away.
pub open spec fn pause_noted(
    before: PowerSession,
    after: PowerSession,
) -> bool {
    &&& after == (PowerSession { state: PowerState::Suspended, ..before })
}

/// Whether `after` is `before` on its way back, and `r` what that takes.
pub open spec fn resume_begun(
    before: PowerSession,
    after: PowerSession,
    source: ResumeSource,
    r: Option<ResumePlan>,
) -> bool {
    &&& before.state == PowerState::Awake ==> r is None && after == before
    &&& before.state != PowerState::Awake ==> {
        &&& r == Some(
            ResumePlan {
                force_lock: before.resume_lock_pending,
                force_drm_reset: source != ResumeSource::Libseat,
            },
        )
        &&& after == (PowerSession {
            state: PowerState::Resuming,
            resume_lock_pending: false,
            resume_retry_at: before.resume_retry_at,
        })
    }
}

/// Whether `after` is `before` after an activation that did or did not succeed.
pub open spec fn resume_finished(
    before: PowerSession,
    after: PowerSession,
    activated: bool,
    multi_output: bool,
    rescan: bool,
) -> bool {
    &&& rescan == (activated && multi_output)
    &&& activated ==> after == (PowerSession {
        state: PowerState::Awake,
        resume_lock_pending: before.resume_lock_pending,
        resume_retry_at: None,
    })
    &&& !activated ==> after == (PowerSession {
        state: PowerState::Degraded,
        resume_lock_pending: before.resume_lock_pending,
        resume_retry_at: before.resume_retry_at,
    })
}

/// Whether `after` is `before` after it was asked at `now` whether to retry.
pub open spec fn retry_noted(
    before: PowerSession,
    after: PowerSession,
    now: u64,
    r: bool,
) -> bool {
    &&& r == (before.state == PowerState::Degraded && match before.resume_retry_at {
        Some(at) => now >= at,
        None => true,
    })
    &&& r ==> after == (PowerSession {
        resume_retry_at: Some((now + RESUME_RETRY_INTERVAL) as u64),
        ..before
    })
    &&& !r ==> after == before
}

impl PowerSession {
    pub fn new() -> (r: Self)
        ensures
            r == (PowerSession {
                state: PowerState::Awake,
                resume_lock_pending: false,
                resume_retry_at: None,
            }),
    {
        PowerSession { state: PowerState::Awake, resume_lock_pending: false, resume_retry_at: None }
    }

    /// A suspend is coming. True where the session must be locked first.
    /// Whatever happens, one last frame is drawn and the device released.
    pub fn prepare_suspend(
        &mut self,
        lock_on_suspend: bool,
        lock_on_resume: bool,
        locked: bool,
    ) -> (lock_now: bool)
        ensures
            suspend_prepared(
                *old(self),
                *final(self),
                lock_on_suspend,
                lock_on_resume,
                locked,
                lock_now,
            ),
    {
        self.state = self.state.prepare_suspend();
        if lock_on_suspend {
            self.resume_lock_pending = true;
            true
        } else {
            if lock_on_resume || locked {
                self.resume_lock_pending = true;
            }
            false
        }
    }

    /// The seat was taken away.
    pub fn session_paused(&mut self)
        ensures
            pause_noted(*old(self), *final(self)),
    {
        self.state = self.state.suspended();
    }

    /// The session is back, as far as `source` knows. `None` where nothing has
    /// to be done because it was awake all along.
    pub fn begin_resume(&mut self, source: ResumeSource) -> (r: Option<ResumePlan>)
        ensures
            resume_begun(*old(self), *final(self), source, r),
    {
        let next = self.state.resume();
        match next {
            PowerState::Awake => None,
            _ => {
                self.state = next;
                let force_lock = self.resume_lock_pending;
                self.resume_lock_pending = false;
                let force_drm_reset = match source {
                    ResumeSource::Logind | ResumeSource::Watchdog => true,
                    ResumeSource::Libseat => false,
                };
                Some(ResumePlan { force_lock, force_drm_reset })
            },
        }
    }

    /// The outcome of the activation that a resume asked for. True where the
    /// connectors have to be scanned again.
    pub fn finish_resume(&mut self, activated: bool, multi_output: bool) -> (rescan: bool)
        ensures
            resume_finished(*old(self), *final(self), activated, multi_output, rescan),
    {
        if activated {
            self.state = PowerState::Awake;
            self.resume_retry_at = None;
            multi_output
        } else {
            self.state = PowerState::Degraded;
            false
        }
    }

    /// Whether a degraded session is to be activated again at `now`; if so,
    /// the next try is put off by the retry interval.
    pub fn retry_due(&mut self, now: u64) -> (r: bool)
        requires
            now <= u64::MAX - RESUME_RETRY_INTERVAL,
        ensures
            retry_noted(*old(self), *final(self), now, r),
    {
        let due = match self.resume_retry_at {
            Some(at) => now >= at,
            None => true,
        };
        match self.state {
            PowerState::Degraded => {
                if due {
                    self.resume_retry_at = Some(now + RESUME_RETRY_INTERVAL);
                }
                due
            },
            _ => false,
        }
    }
}

/// The terminal to switch back to before a retry: the session's own, where it
/// is known and the seat is inactive.
pub fn terminal_to_reassert(session_vt: Option<i32>, seat_active: Option<bool>) -> (r: Option<i32>)
    ensures
        r == if seat_active == Some(false) {
            session_vt
        } else {
            None
        },
{
    match seat_active {
        Some(false) => session_vt,
        _ => None,
    }
}

/// Each transition may be reported any number of times: the second report of
/// the same kind changes nothing.
pub proof fn transitions_are_idempotent(state: PowerState)
    ensures
        state.preparing().preparing() == state.preparing(),
        state.resuming().resuming() == state.resuming(),
{
}

/// Nothing but a resume leaves the suspended state.
pub proof fn a_suspended_session_stays_suspended_until_resumed(state: PowerState)
    ensures
        PowerState::Suspended.preparing() == PowerState::Suspended,
        state != PowerState::Awake ==> state.resuming() == PowerState::Resuming,
        PowerState::Awake.resuming() == PowerState::Awake,
{
}

/// Going to sleep is prepared from every state but sleep, and resuming starts from every
/// state but waking.
pub proof fn sleep_and_waking_take_their_turns(state: PowerState)
    ensures
        state != PowerState::Suspended ==> state.preparing() == PowerState::PreparingSuspend,
        state != PowerState::Awake ==> state.resuming() == PowerState::Resuming,
        PowerState::Suspended.preparing() == PowerState::Suspended,
        PowerState::Awake.resuming() == PowerState::Awake,
{
}

/// A session that slept comes back through one resume: it is awake once its device is, it
/// is locked on the way where that was asked for or it was locked before, and once only,
/// and a second report finds it awake.
pub proof fn a_session_wakes_from_sleep(
    awake: PowerSession,
    preparing: PowerSession,
    asleep: PowerSession,
    resuming: PowerSession,
    back: PowerSession,
    again: PowerSession,
    lock_on_suspend: bool,
    lock_on_resume: bool,
    locked: bool,
    lock_now: bool,
    source: ResumeSource,
    plan: Option<ResumePlan>,
    later: Option<ResumePlan>,
    multi_output: bool,
    rescan: bool,
)
    requires
        suspend_prepared(awake, preparing, lock_on_suspend, lock_on_resume, locked, lock_now),
        pause_noted(preparing, asleep),
        resume_begun(asleep, resuming, source, plan),
        resume_finished(resuming, back, true, multi_output, rescan),
        resume_begun(back, again, source, later),
    ensures
        lock_now <==> lock_on_suspend,
        preparing.state != PowerState::Awake,
        asleep.state == PowerState::Suspended,
        plan is Some,
        plan->0.force_lock <==> lock_on_suspend || lock_on_resume || locked
            || awake.resume_lock_pending,
        plan->0.force_drm_reset <==> source is Logind || source is Watchdog,
        back.state == PowerState::Awake,
        !back.resume_lock_pending,
        back.resume_retry_at is None,
        rescan <==> multi_output,
        later is None,
        again == back,
{
}

/// A device that cannot be had leaves the session degraded; it is tried again at once and
/// then every second, until it is had.
pub proof fn a_degraded_session_is_retried(
    resuming: PowerSession,
    degraded: PowerSession,
    tried: PowerSession,
    later: PowerSession,
    multi_output: bool,
    rescan: bool,
    now: u64,
    then: u64,
    due: bool,
    due_again: bool,
)
    requires
        resume_finished(resuming, degraded, false, multi_output, rescan),
        resuming.resume_retry_at is None,
        now + 1_000_000_000 <= u64::MAX,
        now <= then,
        retry_noted(degraded, tried, now, due),
        retry_noted(tried, later, then, due_again),
    ensures
        degraded.state == PowerState::Degraded,
        !rescan,
        due,
        tried.state == PowerState::Degraded,
        due_again <==> then >= now + 1_000_000_000,
        resuming.state != PowerState::Degraded ==> forall|other: PowerSession, r: bool|
            #[trigger] retry_noted(resuming, other, now, r) ==> !r,
{
}

} // verus!
