use beewm::geometry::{Point, Rect, Size};
use beewm::overview::{
    build_overview, cell_rects, collect_items, grid_columns, is_modifier_keysym, nav_for_keysym, nav_target,
    overview_area, overview_quads, thumbnail_rect, OverviewKey, OverviewNav, OverviewQuad,
    OverviewState, OverviewWindow, GAP, HOLD_DELAY,
};
use beewm::types::WindowRef;

const TAB: u32 = 0xff09;
const ESCAPE: u32 = 0xff1b;
const RETURN: u32 = 0xff0d;
const SUPER_L: u32 = 0xffeb;
const SHIFT_L: u32 = 0xffe1;

fn rect(x: i32, y: i32, w: i32, h: i32) -> Rect {
    Rect::new(Point::new(x, y), Size::new(w, h))
}

fn listed(id: u64) -> OverviewWindow {
    OverviewWindow { window: WindowRef { id, root: Some(id) }, alive: true }
}

fn key(keysym: u32, pressed: bool, logo: bool, now: u64) -> OverviewKey {
    OverviewKey { logo, shift: false, keysym, pressed, now, allowed: true }
}

/// A grid of five windows, three in a row, with the second one selected.
fn open_grid() -> OverviewState {
    let items = collect_items(&vec![
        vec![listed(1), listed(2), listed(3)],
        vec![listed(4), listed(5)],
    ]);
    let mut state = OverviewState::new();
    state.logo_held = true;
    state.overview = build_overview(items, Size::new(1920, 1080), 100, Some(2));
    state
}

#[test]
fn every_window_is_a_thumbnail_once() {
    let dead = OverviewWindow { alive: false, ..listed(9) };
    let bare = OverviewWindow { window: WindowRef { id: 8, root: None }, alive: true };
    let items = collect_items(&vec![
        vec![listed(1), dead, listed(2)],
        vec![],
        vec![listed(2), bare, listed(3)],
    ]);
    let found: Vec<(u64, usize)> = items.iter().map(|i| (i.root, i.workspace)).collect();
    assert_eq!(found, vec![(1, 0), (2, 0), (3, 2)]);
}

#[test]
fn the_last_row_is_centred() {
    let cells = cell_rects(5, rect(0, 0, 332, 216), 16);
    assert_eq!(cells[0], rect(0, 0, 100, 100));
    assert_eq!(cells[2], rect(232, 0, 100, 100));
    assert_eq!(cells[3], rect(58, 116, 100, 100));
    assert_eq!(cells[4], rect(174, 116, 100, 100));
    // Cells may overlap.
    let tight = cell_rects(2, rect(0, 0, 180, 100), -20);
    assert_eq!(tight, vec![rect(0, 0, 100, 100), rect(80, 0, 100, 100)]);
    assert_eq!(overview_area(Size::new(1920, 1080)), rect(48, 48, 1824, 984));
    assert_eq!(overview_area(Size::new(10, 10)).size, Size::new(1, 1));
    assert_eq!(thumbnail_rect(rect(10, 10, 100, 50)), rect(16, 16, 88, 38));
}

#[test]
fn cells_keep_the_proportions_of_the_screen() {
    // Ten windows on a wide screen make two rows of five.
    assert_eq!(grid_columns(10, Size::new(1920, 1080)), 5);
    assert_eq!(grid_columns(9, Size::new(500, 500)), 3);
    assert_eq!(grid_columns(3, Size::new(5000, 10)), 3);
    assert_eq!(grid_columns(3, Size::new(10, 5000)), 1);
    assert_eq!(grid_columns(4, Size::new(0, 0)), 2);
    assert_eq!(grid_columns(0, Size::new(100, 100)), 0);
}

#[test]
fn the_selection_moves_over_the_grid() {
    // Three in a row, five in all.
    assert_eq!(nav_target(4, 5, 3, OverviewNav::Next), 0);
    assert_eq!(nav_target(0, 5, 3, OverviewNav::Prev), 4);
    assert_eq!(nav_target(0, 5, 3, OverviewNav::Down), 3);
    assert_eq!(nav_target(3, 5, 3, OverviewNav::Up), 0);
    let mut at = 2;
    let mut visited = Vec::new();
    for _ in 0..5 {
        visited.push(at);
        at = nav_target(at, 5, usize::MAX, OverviewNav::Next);
    }
    assert_eq!(visited, vec![2, 3, 4, 0, 1]);
    assert_eq!(at, 2);
    assert_eq!(nav_target(2, 5, 3, OverviewNav::Right), 2);
    assert_eq!(nav_target(4, 5, 3, OverviewNav::Right), 4);
    assert_eq!(nav_target(3, 5, 3, OverviewNav::Left), 3);
    assert_eq!(nav_target(4, 5, 3, OverviewNav::Left), 3);
    assert_eq!(nav_target(2, 5, 3, OverviewNav::Down), 2);
    assert_eq!(nav_target(usize::MAX, usize::MAX, 3, OverviewNav::Next), 0);
    assert_eq!(nav_for_keysym(TAB, false), Some(OverviewNav::Next));
    assert_eq!(nav_for_keysym(TAB, true), Some(OverviewNav::Prev));
    assert_eq!(nav_for_keysym(0x61, false), None);
    assert!(is_modifier_keysym(SHIFT_L) && !is_modifier_keysym(TAB));
}

#[test]
fn the_grid_opens_after_the_key_was_held() {
    let mut state = OverviewState::new();
    state.overview_handle_key(key(SUPER_L, true, true, 1_000));
    assert_eq!(state.hold, Some(1_000));
    assert!(!state.tick_overview(1_000 + HOLD_DELAY - 1, false, false));
    assert!(state.tick_overview(1_000 + HOLD_DELAY, false, false));
    assert_eq!(state.hold, None);

    // A binding cancels it, and so does a button.
    let mut state = OverviewState::new();
    state.overview_handle_key(key(SUPER_L, true, true, 0));
    let outcome = state.overview_handle_key(key(0x71, true, true, 5));
    assert!(!outcome.consumed);
    assert_eq!(state.hold, None);
    let mut state = OverviewState::new();
    state.overview_handle_key(key(SUPER_L, true, true, 0));
    state.cancel_overview_hold();
    assert!(!state.tick_overview(10 * HOLD_DELAY, false, false));
    // A locked session shows none.
    let mut state = OverviewState::new();
    state.overview_handle_key(key(SUPER_L, true, true, 0));
    assert!(!state.tick_overview(HOLD_DELAY, true, false));
    assert_eq!(state.hold, None);
}

#[test]
fn letting_go_activates_the_selection() {
    let mut state = open_grid();
    let outcome = state.overview_handle_key(key(TAB, true, true, 0));
    assert!(outcome.consumed && outcome.render);
    // The release of the key is not kept from the client.
    assert!(!state.overview_handle_key(key(TAB, false, true, 0)).consumed);
    let outcome = state.overview_handle_key(key(SUPER_L, false, false, 0));
    assert_eq!(outcome.activate.expect("a window").root, 3);
    assert!(!outcome.consumed && outcome.render);
    assert!(state.overview.is_none());
}

#[test]
fn keys_dismiss_or_pick() {
    let mut state = open_grid();
    let outcome = state.overview_handle_key(key(ESCAPE, true, true, 0));
    assert!(outcome.consumed && outcome.activate.is_none() && state.overview.is_none());
    let mut state = open_grid();
    let outcome = state.overview_handle_key(key(RETURN, true, true, 0));
    assert!(outcome.consumed);
    assert_eq!(outcome.activate.expect("a window").root, 2);
    let mut state = open_grid();
    let outcome = state.overview_handle_key(key(0x71, true, true, 0));
    assert!(!outcome.consumed && outcome.activate.is_none() && state.overview.is_none());
}

#[test]
fn the_pointer_selects_and_picks() {
    let mut state = open_grid();
    let cell = state.overview.as_ref().expect("a grid").cells[4];
    let outcome = state.overview_pointer_moved(Some(cell.loc));
    assert!(outcome.consumed && outcome.render);
    assert!(!state.overview_pointer_moved(Some(Point::new(0, 0))).render);
    assert!(!state.overview_pointer_moved(None).render);
    let outcome = state.overview_pointer_pressed();
    assert_eq!(outcome.activate.expect("a window").root, 5);
    assert!(!state.overview_pointer_pressed().consumed);
    assert!(!state.overview_pointer_moved(None).consumed);
}

#[test]
fn the_grid_is_drawn_over_a_backdrop() {
    let state = open_grid();
    let grid = state.overview.expect("a grid");
    assert_eq!(grid.selected, 1);
    let quads = overview_quads(&grid, Size::new(1920, 1080));
    assert_eq!(quads[0], OverviewQuad::Selection(grid.cells[1]));
    assert_eq!(quads[1], OverviewQuad::Card(0, grid.cells[0]));
    assert_eq!(quads[6], OverviewQuad::Backdrop(rect(0, 0, 1920, 1080)));
    assert_eq!(quads.len(), 7);
    assert_eq!(GAP, 16);
    assert!(build_overview(vec![], Size::new(10, 10), 1, None).is_none());
}
