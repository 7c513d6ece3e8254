use beewm::config::{LayoutKind, OutputModeSpec};
use beewm::geometry::{Point, Size};
use beewm::input::grab::{GrabState, ResizeCancel};
use beewm::state::cursor::CursorState;
use beewm::state::locking::{secure_lock, secure_resume_lock};
use beewm::state::overrides::ModeOverrides;
use beewm::state::session::{
    activate_pointer_constraint, active_workspace_state_contents, deactivate_pointer_constraint,
    hex_channels, initial_snapshot, plan_config_reload, should_blank, temporary_name, window_event, workspace_event,
    workspace_state_contents, BackendRequest, Constraint, DeferredWork, DispatchDepth,
    IdleInhibitors, IdleState, LockState, ReloadConfig,
};
use beewm::state::tiling::Workspace;
use beewm::types::{
    ActiveGrab, CursorIcon, FloatingWindowData, ResizeEdges, ResizeHorizontalEdge,
    ResizeVerticalEdge, TiledResizeGrab, TiledSwapGrab, WindowRef,
};

const SEC: u64 = 1_000_000_000;

#[test]
fn guard_tracks_nesting_depth_and_resets_on_drop() {
    let mut guard = DispatchDepth::new();
    assert_eq!(guard.depth, 0);
    guard.enter();
    assert_eq!(guard.depth, 1);
    guard.enter();
    assert_eq!(guard.depth, 2);
    guard.leave();
    assert_eq!(guard.depth, 1);
    guard.leave();
    assert_eq!(guard.depth, 0);
}

#[test]
fn nothing_is_published_inside_a_callback() {
    let mut guard = DispatchDepth::new();
    assert!(guard.may_publish());
    guard.enter();
    assert!(!guard.may_publish());
    guard.leave();
    assert!(guard.may_publish());
}

#[test]
fn blanks_only_after_a_nonzero_timeout_elapses() {
    assert!(!should_blank(600, false, false, 599));
    assert!(should_blank(600, false, false, 600));
}

#[test]
fn timeout_zero_never_blanks() {
    assert!(!should_blank(0, false, false, 100_000));
}

#[test]
fn already_blanked_or_inhibited_does_not_blank_again() {
    assert!(!should_blank(60, true, false, 120));
    assert!(!should_blank(60, false, true, 120));
}

#[test]
fn the_screen_blanks_once_and_wakes_on_activity() {
    let mut idle = IdleState::new(0);
    assert!(!idle.update_idle(59 * SEC, 60, false));
    assert!(!idle.update_idle(60 * SEC, 60, true));
    assert!(idle.update_idle(60 * SEC, 60, false));
    assert!(!idle.update_idle(61 * SEC, 60, false));
    assert_eq!(idle.next_request(), Some(BackendRequest::SetDpms { on: false }));
    assert_eq!(idle.next_request(), None);
    assert!(idle.notify_activity(62 * SEC));
    assert!(!idle.blanked);
    assert_eq!(idle.next_request(), Some(BackendRequest::SetDpms { on: true }));
    assert!(!idle.notify_activity(63 * SEC));
    assert_eq!(idle.next_request(), None);
    assert!(!idle.update_idle(100 * SEC, 60, false));
}

#[test]
fn a_surface_inhibits_until_it_is_gone() {
    let mut inhibitors = IdleInhibitors::new();
    assert!(!inhibitors.idle_inhibited(&vec![]));
    inhibitors.inhibit(1);
    inhibitors.inhibit(1);
    inhibitors.inhibit(2);
    assert_eq!(inhibitors.surfaces, vec![1, 2]);
    inhibitors.uninhibit(1);
    assert!(inhibitors.idle_inhibited(&vec![]));
    assert!(!inhibitors.idle_inhibited(&vec![2]));
    assert!(inhibitors.surfaces.is_empty());
}

#[test]
fn the_session_stays_locked_until_it_is_unlocked() {
    let mut lock = LockState::new();
    assert_eq!(lock.secure_lock("  swaylock -f ", 10 * SEC), Some(String::from("swaylock -f")));
    assert!(lock.locked);
    // A lock client that was started just now is not started again.
    assert_eq!(lock.secure_lock("swaylock", 10 * SEC + 1), None);
    assert_eq!(lock.secure_lock("swaylock", 12 * SEC), Some(String::from("swaylock")));
    lock.add_lock_surface(1);
    assert_eq!(lock.secure_lock("swaylock", 9_000 * SEC), None);
    lock.remove_lock_surface(1);
    assert!(lock.lock_surfaces.is_empty());
    assert!(lock.locked);
    assert_eq!(lock.secure_lock("   ", 9_000 * SEC), None);
    lock.unlock();
    assert!(!lock.locked);
    lock.lock();
    assert!(lock.locked);
}

#[test]
fn state_files_count_workspaces_from_one() {
    assert_eq!(active_workspace_state_contents(2), "3");
    let mut spaces: Vec<Workspace<u64>> = vec![Workspace::new(), Workspace::new(), Workspace::new()];
    spaces[1].add_window(7);
    spaces[2].add_window(8);
    assert_eq!(workspace_state_contents(0, &spaces), "active=1\noccupied=2,3\n");
    assert_eq!(initial_snapshot("a title", 4, None), "window>>a title\nworkspace>>5\n");
    assert_eq!(workspace_event(0), "workspace>>1");
    assert_eq!(window_event("a title"), "window>>a title");
}

#[test]
fn deferred_work_is_done_once() {
    let mut work = DeferredWork::new();
    assert!(!work.flush_pending_focus_publish());
    work.request_focus_publish();
    assert!(work.flush_pending_focus_publish());
    assert!(!work.flush_pending_focus_publish());
    work.pending_map_focus = Some(4);
    assert_eq!(work.apply_pending_map_focus(), Some(4));
    assert_eq!(work.apply_pending_map_focus(), None);
}

#[test]
fn colours_and_temporary_names_are_taken_apart() {
    assert_eq!(hex_channels(0x12_34_56), (0x12, 0x34, 0x56));
    assert_eq!(temporary_name("state", 12, 3), ".state.tmp.12.3");
}

#[test]
fn a_reload_touches_what_changed() {
    let before = ReloadConfig {
        border_color_focused: 1,
        border_color_unfocused: 2,
        border_width: 3,
        layout: LayoutKind::Dwindle,
        num_workspaces: 10,
        keyboard_layout: String::from("us"),
    };
    let after = ReloadConfig {
        border_color_focused: 1,
        border_color_unfocused: 2,
        border_width: 4,
        layout: LayoutKind::MasterStack,
        num_workspaces: 10,
        keyboard_layout: String::from("de"),
    };
    let plan = plan_config_reload(&before, &after, false, true);
    assert!(plan.refresh_borders && plan.rebuild_layout && plan.apply_keyboard_layout);
    assert!(plan.set_split_ratio && !plan.resolve_keybinds && !plan.warn_workspaces);
    let plan = plan_config_reload(&before, &before, true, false);
    assert!(!plan.refresh_borders && !plan.rebuild_layout && plan.resolve_keybinds);
}

#[test]
fn constraints_follow_the_focus() {
    let locked = Constraint { locks: true, active: true };
    let confined = Constraint { locks: false, active: false };
    assert_eq!(deactivate_pointer_constraint(Some(locked)), (true, true));
    assert_eq!(deactivate_pointer_constraint(Some(confined)), (false, false));
    assert_eq!(deactivate_pointer_constraint(None), (false, false));
    assert_eq!(activate_pointer_constraint(Some(confined)), (true, false));
    assert_eq!(activate_pointer_constraint(Some(locked)), (false, true));
}

#[test]
fn a_chosen_mode_replaces_the_earlier_one() {
    let mode = |hz: u32| OutputModeSpec { width: 800, height: 600, refresh: Some(hz) };
    let mut overrides = ModeOverrides::new();
    overrides.record_runtime_output_mode(String::from("DP-1"), mode(60));
    overrides.record_runtime_output_mode(String::from("DP-2"), mode(75));
    overrides.record_runtime_output_mode(String::from("DP-1"), mode(120));
    assert_eq!(overrides.entries.len(), 2);
    assert_eq!(overrides.entries[0].output, "DP-1");
    assert_eq!(overrides.entries[0].mode, mode(120));
    assert_eq!(overrides.entries[1].mode, mode(75));
}

#[test]
fn locking_ends_whatever_the_pointer_was_doing() {
    let mut lock = LockState::new();
    let mut grabs = GrabState::new();
    let mut deferred = DeferredWork::new();
    deferred.pending_map_focus = Some(9);
    deferred.request_focus_publish();
    grabs.floating.insert(1, FloatingWindowData::new(Point::new(0, 0), Size::new(5, 5)));
    grabs.layout_saved = true;
    grabs.tiled_swap_target = Some(2);
    grabs.active_grab = Some(ActiveGrab::TiledSwap(TiledSwapGrab {
        window: WindowRef { id: 1, root: Some(1) },
        workspace_idx: 0,
        start_window_pos: Point::new(0, 0),
        start_window_size: Size::new(5, 5),
    }));
    let mut cursor = CursorState::new();
    cursor.refresh_compositor_cursor(Some(CursorIcon::Grabbing));
    let plan = secure_lock(
        &mut lock,
        &mut grabs,
        &mut deferred,
        &mut cursor,
        "swaylock",
        5,
        Some(3),
        Some(4),
    );
    assert_eq!(cursor.compositor_cursor_icon, None);
    assert!(lock.locked);
    assert!(grabs.active_grab.is_none() && !grabs.floating.contains(1));
    assert!(plan.cancel.restore_layout && plan.cancel.relayout);
    assert_eq!(plan.cancel.resize, ResizeCancel::NoGrab);
    assert_eq!(plan.release_constraints_of, vec![3, 4]);
    assert_eq!(plan.start_client, Some(String::from("swaylock")));
    assert_eq!(deferred.pending_map_focus, None);
    assert!(deferred.focus_publish_pending);
}

#[test]
fn a_lock_asks_a_resized_tile_for_no_size() {
    let mut grabs = GrabState::new();
    let window = WindowRef { id: 7, root: Some(7) };
    grabs.active_grab = Some(ActiveGrab::TiledResize(TiledResizeGrab {
        window,
        workspace_idx: 1,
        edges: ResizeEdges {
            horizontal: ResizeHorizontalEdge::Left,
            vertical: ResizeVerticalEdge::Top,
        },
    }));
    let cancel = grabs.cancel_interactions_for_lock();
    assert_eq!(cancel.resize, ResizeCancel::Tiled { window });
    assert!(!cancel.relayout && grabs.active_grab.is_none());
}

#[test]
fn a_resume_wakes_the_screen_and_keeps_the_lock() {
    let mut lock = LockState::new();
    let mut grabs = GrabState::new();
    let mut deferred = DeferredWork::new();
    let mut cursor = CursorState::new();
    let mut idle = IdleState::new(0);
    assert!(idle.update_idle(100 * SEC, 60, false));
    let mut resume = |lock: &mut LockState, idle: &mut IdleState, force: bool, now: u64| {
        secure_resume_lock(
            lock,
            &mut grabs,
            &mut deferred,
            &mut cursor,
            idle,
            force,
            "swaylock",
            now,
            None,
            None,
        )
    };
    assert!(resume(&mut lock, &mut idle, false, 200 * SEC).is_none());
    assert!(!lock.locked && !idle.blanked);
    let plan = resume(&mut lock, &mut idle, true, 201 * SEC).expect("a lock");
    assert!(lock.locked && plan.start_client.is_some());
    // Still locked, and the lock client was started just now.
    let plan = resume(&mut lock, &mut idle, false, 202 * SEC).expect("a lock");
    assert!(lock.locked && plan.start_client.is_none());
}
