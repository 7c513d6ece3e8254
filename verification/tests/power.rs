use std::time::Duration;

use beewm::power::{
    sleep_signal_action, terminal_to_reassert, wall_clock_resume_gap, PowerSession, PowerState,
    ResumePlan, ResumeSource, SleepSignalAction,
};

fn gap(wall: Duration, instant: Duration) -> bool {
    wall_clock_resume_gap(wall.as_nanos() as u64, instant.as_nanos() as u64)
}

#[test]
fn suspend_transition_is_idempotent() {
    assert_eq!(PowerState::Awake.prepare_suspend(), PowerState::PreparingSuspend);
    assert_eq!(PowerState::PreparingSuspend.prepare_suspend(), PowerState::PreparingSuspend);
    assert_eq!(PowerState::Suspended.prepare_suspend(), PowerState::Suspended);
}

#[test]
fn suspended_transition_accepts_repeated_pause_events() {
    assert_eq!(PowerState::PreparingSuspend.suspended(), PowerState::Suspended);
    assert_eq!(PowerState::Suspended.suspended(), PowerState::Suspended);
}

#[test]
fn resume_transition_only_runs_from_non_awake_states() {
    assert_eq!(PowerState::Awake.resume(), PowerState::Awake);
    assert_eq!(PowerState::Suspended.resume(), PowerState::Resuming);
    assert_eq!(PowerState::Degraded.resume(), PowerState::Resuming);
}

#[test]
fn wall_clock_resume_gap_detects_suspend_jump() {
    assert!(gap(Duration::from_secs(10), Duration::from_secs(1)));
    assert!(!gap(Duration::from_millis(1100), Duration::from_secs(1)));
    assert!(!gap(Duration::from_secs(3), Duration::from_secs(1)));
}

#[test]
fn resume_sources_have_names() {
    assert_eq!(ResumeSource::Logind.as_str(), "logind");
    assert_eq!(ResumeSource::Watchdog.as_str(), "resume-watchdog");
    assert_eq!(ResumeSource::Libseat.as_str(), "libseat");
}

#[test]
fn sleep_signals_are_answered() {
    assert_eq!(
        sleep_signal_action(Some(true)),
        SleepSignalAction::PrepareThenRelease { wait_ms: 750 }
    );
    assert_eq!(sleep_signal_action(Some(false)), SleepSignalAction::ResumeThenInhibit);
    assert_eq!(sleep_signal_action(None), SleepSignalAction::Ignore);
}

#[test]
fn a_suspend_and_a_degraded_resume() {
    let mut session = PowerSession::new();
    assert_eq!(session.begin_resume(ResumeSource::Watchdog), None);
    assert!(!session.prepare_suspend(false, true, false));
    session.session_paused();
    assert_eq!(session.state, PowerState::Suspended);
    assert_eq!(
        session.begin_resume(ResumeSource::Watchdog),
        Some(ResumePlan { force_lock: true, force_drm_reset: true })
    );
    assert!(!session.finish_resume(false, true));
    assert_eq!(session.state, PowerState::Degraded);
    assert!(session.retry_due(5));
    assert!(!session.retry_due(6));
    assert!(session.retry_due(1_000_000_005));
    assert_eq!(
        session.begin_resume(ResumeSource::Libseat),
        Some(ResumePlan { force_lock: false, force_drm_reset: false })
    );
    assert!(session.finish_resume(true, true));
    assert_eq!(session, PowerSession::new());
    assert!(session.prepare_suspend(true, false, false));
}

#[test]
fn the_terminal_is_reasserted_only_on_an_inactive_seat() {
    assert_eq!(terminal_to_reassert(Some(1), Some(false)), Some(1));
    assert_eq!(terminal_to_reassert(Some(1), Some(true)), None);
    assert_eq!(terminal_to_reassert(Some(1), None), None);
    assert_eq!(terminal_to_reassert(None, Some(false)), None);
}
