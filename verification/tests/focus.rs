use beewm::config::FocusDirection;
use beewm::geometry::{Point, Rect, Size};
use beewm::state::cursor::{
    compute_compositor_cursor, resolve_cursor_icon, CursorImageStatus, CursorState, CursorWindow,
};
use beewm::state::focus::{
    best_directional_focus_candidate, cycle_position, focus_in_direction, interval_gap,
    note_keyboard_focus_change, plan_keyboard_focus, FocusCandidate,
};
use beewm::types::CursorIcon;

fn rect(x: i32, y: i32, w: i32, h: i32) -> Rect {
    Rect::new(Point::new(x, y), Size::new(w, h))
}

fn candidates(list: Vec<(usize, Rect)>) -> Vec<FocusCandidate> {
    list.into_iter().map(|(index, geometry)| FocusCandidate { index, geometry }).collect()
}

#[test]
fn directional_focus_prefers_overlapping_neighbor() {
    let current = rect(0, 0, 100, 100);
    let candidates =
        candidates(vec![(1, rect(120, 160, 100, 100)), (2, rect(120, 0, 100, 100))]);

    let result = best_directional_focus_candidate(current, &candidates, FocusDirection::Right);

    assert_eq!(result, Some(2));
}

#[test]
fn directional_focus_picks_nearest_window_in_direction() {
    let current = rect(0, 0, 100, 100);
    let candidates = candidates(vec![
        (1, rect(240, 0, 100, 100)),
        (2, rect(120, 10, 100, 100)),
        (3, rect(-120, 0, 100, 100)),
    ]);

    let result = best_directional_focus_candidate(current, &candidates, FocusDirection::Right);

    assert_eq!(result, Some(2));
}

#[test]
fn directional_focus_ignores_windows_not_in_requested_direction() {
    let current = rect(100, 100, 100, 100);
    let candidates =
        candidates(vec![(1, rect(100, 260, 100, 100)), (2, rect(260, 100, 100, 100))]);

    let result = best_directional_focus_candidate(current, &candidates, FocusDirection::Up);

    assert_eq!(result, None);
}

#[test]
fn interval_gap_is_zero_for_overlapping_ranges() {
    assert_eq!(interval_gap(0, 100, 50, 150), 0);
    assert_eq!(interval_gap(50, 150, 0, 100), 0);
    assert_eq!(interval_gap(0, 100, 100, 200), 0);
}

#[test]
fn interval_gap_is_the_distance_between_ranges() {
    assert_eq!(interval_gap(0, 100, 130, 200), 30);
    assert_eq!(interval_gap(130, 200, 0, 100), 30);
}

#[test]
fn of_two_equal_neighbours_the_first_is_taken() {
    let current = rect(0, 0, 100, 100);
    let same = rect(120, 0, 100, 100);
    let found = best_directional_focus_candidate(
        current,
        &candidates(vec![(5, same), (6, same)]),
        FocusDirection::Right,
    );
    assert_eq!(found, Some(5));
}

#[test]
fn every_direction_has_its_neighbour() {
    let shown = vec![
        Some(rect(100, 100, 100, 100)),
        Some(rect(0, 100, 100, 100)),
        Some(rect(200, 100, 100, 100)),
        Some(rect(100, 0, 100, 100)),
        Some(rect(100, 200, 100, 100)),
        None,
    ];
    assert_eq!(focus_in_direction(Some(0), &shown, FocusDirection::Left), Some(1));
    assert_eq!(focus_in_direction(Some(0), &shown, FocusDirection::Right), Some(2));
    assert_eq!(focus_in_direction(Some(0), &shown, FocusDirection::Up), Some(3));
    assert_eq!(focus_in_direction(Some(0), &shown, FocusDirection::Down), Some(4));
    assert_eq!(focus_in_direction(Some(1), &shown, FocusDirection::Left), None);
    assert_eq!(focus_in_direction(Some(5), &shown, FocusDirection::Left), None);
    assert_eq!(focus_in_direction(Some(9), &shown, FocusDirection::Left), None);
    assert_eq!(focus_in_direction(None, &shown, FocusDirection::Left), None);
}

#[test]
fn the_cycle_wraps_both_ways() {
    assert_eq!(cycle_position(Some(0), 3, true), 1);
    assert_eq!(cycle_position(Some(2), 3, true), 0);
    assert_eq!(cycle_position(Some(0), 3, false), 2);
    assert_eq!(cycle_position(Some(2), 3, false), 1);
    assert_eq!(cycle_position(None, 3, false), 0);
}

#[test]
fn a_focus_change_tells_both_windows() {
    let change = note_keyboard_focus_change(Some(1), Some(2));
    assert_eq!(change.deactivate, Some(1));
    assert_eq!(change.activate, Some(2));
    assert_eq!(change.focused_idx, Some(2));

    let away = note_keyboard_focus_change(Some(1), None);
    assert_eq!(away.deactivate, Some(1));
    assert_eq!(away.activate, None);
    assert_eq!(away.focused_idx, Some(1));

    let same = note_keyboard_focus_change(Some(1), Some(1));
    assert_eq!((same.deactivate, same.activate), (None, None));
}

#[test]
fn taking_the_focus_away_releases_the_pointer() {
    let steps = plan_keyboard_focus(true, true, true, true, Some(9)).expect("a keyboard");
    assert!(steps.unset_keyboard_grab && steps.unset_pointer_grab && steps.note_focus_lost);
    assert_eq!(steps.release_constraint_of, Some(9));
    let steps = plan_keyboard_focus(true, false, true, false, Some(9)).expect("a keyboard");
    assert!(!steps.unset_keyboard_grab && steps.unset_pointer_grab && !steps.note_focus_lost);
    assert_eq!(steps.release_constraint_of, None);
    assert!(plan_keyboard_focus(false, true, true, true, None).is_none());
}

#[test]
fn named_client_cursor_is_shown() {
    assert_eq!(
        resolve_cursor_icon(None, CursorImageStatus::Named(CursorIcon::Text)),
        Some(CursorIcon::Text),
    );
}

#[test]
fn hidden_client_cursor_renders_nothing() {
    assert_eq!(resolve_cursor_icon(None, CursorImageStatus::Hidden), None);
}

#[test]
fn compositor_cursor_overrides_client_status() {
    assert_eq!(
        resolve_cursor_icon(
            Some(CursorIcon::Grabbing),
            CursorImageStatus::Named(CursorIcon::Arrow),
        ),
        Some(CursorIcon::Grabbing),
    );
}

#[test]
fn compositor_cursor_overrides_hidden_status() {
    assert_eq!(
        resolve_cursor_icon(Some(CursorIcon::EResize), CursorImageStatus::Hidden),
        Some(CursorIcon::EResize),
    );
}

#[test]
fn the_border_of_a_floating_window_shows_where_it_resizes() {
    let window = CursorWindow {
        fullscreen: false,
        root: Some(1),
        floating: true,
        geometry: Some(rect(100, 100, 200, 100)),
    };
    let at = |x: i32, y: i32| compute_compositor_cursor(None, 4, Point::new(x, y), &vec![window]);
    assert_eq!(at(98, 98), Some(CursorIcon::NwResize));
    assert_eq!(at(302, 202), Some(CursorIcon::SeResize));
    assert_eq!(at(200, 150), None);
    assert_eq!(at(90, 90), None);
}

#[test]
fn a_changed_cursor_is_counted_once() {
    let mut cursor = CursorState::new();
    assert_eq!(cursor.effective_cursor_icon(), Some(CursorIcon::Arrow));
    cursor.set_cursor_status(CursorImageStatus::Hidden);
    assert_eq!(cursor.cursor_status_serial, 1);
    assert_eq!(cursor.effective_cursor_icon(), None);
    assert!(cursor.refresh_compositor_cursor(Some(CursorIcon::Grabbing)));
    assert!(!cursor.refresh_compositor_cursor(Some(CursorIcon::Grabbing)));
    assert_eq!(cursor.cursor_status_serial, 2);
    assert_eq!(cursor.effective_cursor_icon(), Some(CursorIcon::Grabbing));
}
