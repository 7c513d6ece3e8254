use std::time::Duration;

use beewm::diagnostics::{BufferKind, CommitTracker, PresentStats, SyncStats};

fn ns(d: Duration) -> u64 {
    d.as_nanos() as u64
}

#[test]
fn commit_tracker_aggregates_per_surface_within_window() {
    let mut tracker = CommitTracker::new();
    let now = 5_000;
    tracker.record(now, 1, Some(ns(Duration::from_millis(3))), BufferKind::Dmabuf);
    tracker.record(now, 1, Some(ns(Duration::from_millis(5))), BufferKind::Dmabuf);
    tracker.record(now, 1, None, BufferKind::NoBuffer);
    tracker.record(now, 2, Some(ns(Duration::from_millis(40))), BufferKind::Shm);

    let s1 = tracker.window(1).unwrap();
    assert_eq!(s1.commits, 3);
    assert_eq!(s1.dmabuf, 2);
    assert_eq!(s1.shm, 0);
    assert_eq!(s1.cb_latency_samples, 2);
    assert_eq!(s1.cb_latency_total, ns(Duration::from_millis(8)));
    assert_eq!(s1.cb_latency_max, ns(Duration::from_millis(5)));

    let s2 = tracker.window(2).unwrap();
    assert_eq!(s2.commits, 1);
    assert_eq!(s2.shm, 1);
    assert_eq!(s2.dmabuf, 0);
}

#[test]
fn commit_window_closes_after_a_second() {
    let mut tracker = CommitTracker::new();
    assert_eq!(tracker.record(0, 1, Some(3_000_000), BufferKind::Shm), None);
    let report = tracker
        .record(1_000_000_000, 1, Some(5_000_000), BufferKind::Other)
        .unwrap();
    assert_eq!(report.commits, 2);
    assert_eq!(report.shm, 1);
    assert_eq!(report.cb_to_commit_avg_us, 4_000);
    assert_eq!(report.cb_to_commit_max_us, 5_000);
    let fresh = tracker.window(1).unwrap();
    assert_eq!(fresh.commits, 0);
    assert_eq!(fresh.window_start, 1_000_000_000);
    assert_eq!(tracker.window(9), None);
}

#[test]
fn sync_pending_returns_to_zero_when_balanced() {
    let mut stats = SyncStats::new(0);
    stats.record_install(1);
    stats.record_install(2);
    assert_eq!(stats.pending, 2);
    stats.record_clear(3);
    stats.record_clear(4);
    assert_eq!(stats.pending, 0);
}

#[test]
fn sync_clear_without_install_is_safe() {
    let mut stats = SyncStats::new(0);
    stats.record_clear(1);
    assert_eq!(stats.pending, -1);
}

#[test]
fn sync_pending_runs_on_over_windows() {
    let mut stats = SyncStats::new(0);
    stats.record_install(1_000_000_000);
    stats.record_install(1_500_000_000);
    let report = stats.record_clear(2_500_000_000).unwrap();
    assert_eq!(report.pending, 1);
    assert_eq!(report.installed, 2);
    assert_eq!(report.avg_wait_us, 1_000_000);
    assert_eq!(report.max_wait_us, 1_000_000);
    assert_eq!(stats.pending, 1);
    assert_eq!(stats.installed, 0);
    assert_eq!(stats.record_clear(2_600_000_000), None);
    assert_eq!(stats.pending, 0);
}

#[test]
fn present_stats_handles_first_vblank_with_no_prior_interval() {
    let mut stats = PresentStats::new(0);
    stats.record_vblank(10, 16_666, true);
    stats.record_vblank(20, 16_666, true);
    assert_eq!(stats.vblanks, 2);
    assert_eq!(stats.interval_total, 10);
}

#[test]
fn present_window_reports_its_intervals() {
    let mut stats = PresentStats::new(0);
    assert_eq!(stats.record_vblank(1_000_000_000, 16_666, false), None);
    assert_eq!(stats.record_vblank(1_400_000_000, 16_666, true), None);
    let report = stats.record_vblank(2_000_000_000, 16_666, true).unwrap();
    assert_eq!(report.vblanks, 3);
    assert_eq!(report.avg_interval_us, 500_000);
    assert_eq!(report.min_interval_us, 400_000);
    assert_eq!(report.max_interval_us, 600_000);
    assert_eq!(report.expected_interval_us, 16_666);
    assert_eq!(report.feedback_presented, 2);
    assert_eq!(stats, PresentStats::new(2_000_000_000));
    // A window that saw a single vblank measured nothing.
    let lone = stats.record_vblank(9_000_000_000, 16_666, false).unwrap();
    assert_eq!(lone.min_interval_us, 0);
}
