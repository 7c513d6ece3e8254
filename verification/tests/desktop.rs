use beewm::config::FocusDirection;
use beewm::diagnostics::BufferKind;
use beewm::geometry::{Point, Rect, Size};
use beewm::state::commit::{
    committed_buffer_kind, cursor_on_focus_change, lock_surface_size, new_constraint, Attachment,
    CommitFacts, CursorChange, LayerCommit,
};
use beewm::state::desktop::{Desktop, Step};
use beewm::input::grab::{Drag, UnderPointer};
use beewm::input::pointer::{ButtonFacts, ButtonPlan, BTN_LEFT, BTN_RIGHT};
use beewm::overview::OverviewItem;
use beewm::state::interaction::{cancel_steps, tile_resized, TileCell};
use beewm::state::lifecycle::{map_facts, MapFacts};
use beewm::state::placement::Geometry;
use beewm::state::relayout::initial_toplevel_size;
use beewm::state::screens::handle_output_geometry_changed;
use beewm::state::session::Constraint;
use beewm::state::popup::{classify_toplevel_floating, ToplevelFacts};
use beewm::types::{FloatingWindowData, WindowRef};

fn rect(x: i32, y: i32, w: i32, h: i32) -> Rect {
    Rect::new(Point::new(x, y), Size::new(w, h))
}

fn window(id: u64) -> WindowRef {
    WindowRef { id, root: Some(id) }
}

fn facts() -> MapFacts {
    MapFacts {
        should_float: false,
        picture_in_picture: false,
        dialog_focused: false,
        floating_data: None,
        keyboard_root: None,
    }
}

/// A desktop with one output, three workspaces and the given mapped windows.
fn desktop_with(ids: &[u64]) -> Desktop {
    let mut desktop = Desktop::new(3);
    desktop.outputs.add_output(100, Point::new(0, 0));
    for id in ids {
        desktop.new_toplevel(window(*id));
        desktop.map_pending_window(*id, facts()).expect("it waits");
    }
    desktop
}

fn dialog() -> FloatingWindowData {
    FloatingWindowData::new(Point::new(300, 200), Size::new(400, 300))
}

#[test]
fn a_new_window_waits_until_it_is_committed() {
    let mut desktop = Desktop::new(2);
    desktop.outputs.add_output(100, Point::new(0, 0));
    desktop.new_toplevel(window(1));
    assert_eq!(desktop.map_pending_window(2, facts()).is_some(), false);
    let steps = desktop.map_pending_window(1, facts()).expect("it waits");
    assert_eq!(
        steps,
        vec![
            Step::PublishWorkspaces,
            Step::InsertTile { workspace: 0, root: 1, split: None },
            Step::Relayout,
            Step::FocusAfterDispatch { root: 1 },
            Step::Raise { window: 1, activate: true },
            Step::RaiseFloating,
            Step::Render,
        ]
    );
    assert_eq!(desktop.workspaces[0].windows, vec![window(1)]);
    assert!(desktop.books.pending_windows.is_empty());
    assert!(desktop.books.window_lookup.contains(1));
}

#[test]
fn a_dialog_floats_when_it_is_mapped() {
    let mut desktop = desktop_with(&[1]);
    desktop.new_toplevel(window(2));
    // It said that it is a dialog before it was mapped.
    let steps = desktop.adopt_floating_dialog_state(window(2), 2, false, None);
    assert_eq!(steps, vec![Step::Configure { window: 2, size: None, fullscreen: None }]);
    let mut dialog_facts = facts();
    dialog_facts.floating_data = Some(dialog());
    let steps = desktop.map_pending_window(2, dialog_facts).expect("it waits");
    assert_eq!(
        steps,
        vec![
            Step::PublishWorkspaces,
            Step::ForgetAnimation { root: 2 },
            Step::Show { window: 2, at: Point::new(300, 200), activate: true },
            Step::Configure { window: 2, size: None, fullscreen: None },
            Step::Relayout,
            Step::FocusAfterDispatch { root: 2 },
            Step::Raise { window: 2, activate: true },
            Step::RaiseFloating,
            Step::Render,
        ]
    );
    assert_eq!(desktop.grabs.floating.get(2), Some(dialog()));
    assert!(desktop.books.pending_float_centers.contains(2));
    assert!(!desktop.books.pending_should_float.contains(2));

    // The next commit has its natural size: it is centred again, once.
    let again = FloatingWindowData::new(Point::new(310, 210), Size::new(380, 280));
    let steps = desktop
        .commit_mapped_window(window(2), 2, true, true, Some(again), Some(2), None, &vec![1, 2]);
    assert_eq!(
        steps,
        vec![
            Step::Relayout,
            Step::Raise { window: 2, activate: true },
            Step::RaiseFloating,
            Step::Render,
        ]
    );
    assert_eq!(desktop.grabs.floating.get(2), Some(again));
    let steps = desktop
        .commit_mapped_window(window(2), 2, true, true, Some(dialog()), None, None, &vec![1, 2]);
    assert_eq!(steps, vec![Step::Render]);
    assert_eq!(desktop.grabs.floating.get(2), Some(again));
}

#[test]
fn a_mapped_window_can_turn_out_to_be_a_dialog() {
    let mut desktop = desktop_with(&[1, 2]);
    assert!(desktop.adopt_floating_dialog_state(window(2), 2, false, Some(dialog())).is_empty());
    assert!(desktop.adopt_floating_dialog_state(window(9), 9, true, Some(dialog())).is_empty());
    let steps = desktop.adopt_floating_dialog_state(window(2), 2, true, Some(dialog()));
    assert_eq!(
        steps,
        vec![
            Step::Configure { window: 2, size: None, fullscreen: None },
            Step::RemoveTile { workspace: 0, root: 2 },
            Step::ForgetAnimation { root: 2 },
            Step::Relayout,
            Step::Raise { window: 2, activate: true },
            Step::RaiseFloating,
            Step::Focus { root: Some(2) },
        ]
    );
    assert_eq!(desktop.grabs.floating.get(2), Some(dialog()));
}

#[test]
fn a_window_does_not_take_the_keyboard_from_a_dialog_or_the_full_screen() {
    let mut desktop = desktop_with(&[1]);
    desktop.new_toplevel(window(2));
    let mut behind = facts();
    behind.dialog_focused = true;
    let steps = desktop.map_pending_window(2, behind).expect("it waits");
    assert!(!steps.contains(&Step::FocusAfterDispatch { root: 2 }));
    assert!(steps.contains(&Step::Raise { window: 2, activate: true }));

    desktop.workspaces[0].fullscreen = Some(window(1));
    desktop.new_toplevel(window(3));
    let steps = desktop.map_pending_window(3, facts()).expect("it waits");
    assert!(!steps.contains(&Step::FocusAfterDispatch { root: 3 }));
    assert!(!steps.contains(&Step::Raise { window: 3, activate: true }));
}

#[test]
fn picture_in_picture_follows_the_user() {
    let mut desktop = desktop_with(&[]);
    desktop.new_toplevel(window(1));
    let mut pip = facts();
    pip.picture_in_picture = true;
    desktop.map_pending_window(1, pip).expect("it waits");
    assert!(desktop.books.sticky.contains(1));
    let steps = desktop.switch_workspace(1, Some(rect(0, 0, 100, 100)));
    assert!(!steps.contains(&Step::Hide { window: 1 }));
}

#[test]
fn a_removed_window_is_nowhere_and_its_parent_gets_the_keyboard() {
    let mut desktop = desktop_with(&[1, 2, 3]);
    desktop.keyboard_focus_changed(Some(3));
    desktop.grabs.floating.insert(3, dialog());
    desktop.books.sticky.insert(3, ());
    let (gone, steps) = desktop.remove_mapped_toplevel(3, Some(3), Some(1), &vec![1, 2, 3]);
    assert_eq!(gone, Some(window(3)));
    assert_eq!(
        steps,
        vec![
            Step::ForgetAnimation { root: 3 },
            Step::RemoveTile { workspace: 0, root: 3 },
            Step::Hide { window: 3 },
            Step::PublishWorkspaces,
            Step::Focus { root: Some(1) },
            Step::Relayout,
            Step::Render,
        ]
    );
    assert!(!desktop.grabs.floating.contains(3) && !desktop.books.sticky.contains(3));
    assert!(!desktop.books.window_lookup.contains(3));
    assert_eq!(desktop.workspaces[0].windows, vec![window(1), window(2)]);
    // The keyboard stays where it is if another window had it.
    let (_, steps) = desktop.remove_mapped_toplevel(2, Some(1), None, &vec![1, 2]);
    assert!(!steps.contains(&Step::Focus { root: Some(1) }));
    assert_eq!(desktop.remove_mapped_toplevel(2, None, None, &vec![]), (None, vec![]));
}

#[test]
fn what_made_room_for_the_full_screen_comes_back() {
    let mut desktop = desktop_with(&[1, 2]);
    desktop.workspaces[0].fullscreen = Some(window(2));
    let (_, steps) = desktop.remove_mapped_toplevel(2, Some(1), None, &vec![2]);
    assert!(steps.contains(&Step::Show { window: 1, at: Point::new(0, 0), activate: false }));
    assert_eq!(desktop.workspaces[0].fullscreen, None);
}

#[test]
fn an_unmapped_window_waits_to_be_mapped_again() {
    let mut desktop = desktop_with(&[1]);
    // Before it has shown a buffer, a commit without one means nothing.
    let steps =
        desktop.commit_mapped_window(window(1), 1, true, false, None, None, None, &vec![1]);
    assert_eq!(steps, vec![Step::Render]);
    desktop.commit_mapped_window(window(1), 1, true, true, None, None, None, &vec![1]);
    // Nor does the commit of a surface below it.
    desktop.commit_mapped_window(window(1), 1, false, false, None, None, None, &vec![1]);
    assert_eq!(desktop.workspaces[0].windows.len(), 1);
    let steps =
        desktop.commit_mapped_window(window(1), 1, true, false, None, None, None, &vec![1]);
    assert_eq!(steps.last(), Some(&Step::Render));
    assert!(desktop.workspaces[0].windows.is_empty());
    assert_eq!(desktop.books.pending_windows, vec![window(1)]);
    assert!(desktop.map_pending_window(1, facts()).is_some());

    desktop.handle_toplevel_unmap(1, false, None, None, &vec![1]);
    assert!(desktop.books.pending_windows.is_empty());
}

#[test]
fn a_destroyed_window_no_longer_waits() {
    let mut desktop = desktop_with(&[1]);
    desktop.new_toplevel(window(2));
    assert!(desktop.toplevel_destroyed(2, None, None, &vec![1]).is_empty());
    assert!(desktop.books.pending_windows.is_empty());
    assert!(!desktop.toplevel_destroyed(1, None, None, &vec![1]).is_empty());
    assert!(desktop.workspaces[0].windows.is_empty());
}

#[test]
fn the_full_screen_is_granted_and_given_up() {
    let mut desktop = desktop_with(&[1, 2]);
    let screen = Some(rect(0, 0, 1920, 1080));
    assert_eq!(desktop.fullscreen_request(9, screen, &vec![1, 2]), vec![Step::Acknowledge]);
    let steps = desktop.fullscreen_request(2, screen, &vec![1, 2]);
    assert_eq!(
        steps,
        vec![
            Step::Hide { window: 1 },
            Step::Configure {
                window: 2,
                size: Some(Size::new(1920, 1080)),
                fullscreen: Some(true),
            },
            Step::Show { window: 2, at: Point::new(0, 0), activate: true },
            Step::Focus { root: Some(2) },
            Step::Render,
        ]
    );
    assert_eq!(desktop.active_fullscreen(), Some(window(2)));
    assert!(desktop.fullscreen_request(2, screen, &vec![2]).is_empty());
    assert!(desktop.unfullscreen_request(1, &vec![2]).is_empty());
    let steps = desktop.unfullscreen_request(2, &vec![2]);
    assert_eq!(
        steps,
        vec![
            Step::Configure { window: 2, size: None, fullscreen: Some(false) },
            Step::Show { window: 1, at: Point::new(0, 0), activate: false },
            Step::Relayout,
        ]
    );
    assert_eq!(desktop.active_fullscreen(), None);

    // One takes the place of the other; without an output none does.
    desktop.fullscreen_request(2, screen, &vec![1, 2]);
    let steps = desktop.fullscreen_request(1, None, &vec![2]);
    assert_eq!(steps.last(), Some(&Step::Acknowledge));
    assert_eq!(desktop.active_fullscreen(), None);
}

#[test]
fn toggling_the_full_screen_twice_changes_nothing() {
    let mut desktop = desktop_with(&[1, 2]);
    let screen = Some(rect(0, 0, 800, 600));
    assert!(desktop.toggle_fullscreen(None, screen, &vec![1, 2]).is_empty());
    let steps = desktop.toggle_fullscreen(Some(window(1)), screen, &vec![1, 2]);
    assert_eq!(steps[0], Step::Hide { window: 2 });
    assert_eq!(desktop.active_fullscreen(), Some(window(1)));
    desktop.toggle_fullscreen(Some(window(1)), screen, &vec![1]);
    assert_eq!(desktop.active_fullscreen(), None);
}

#[test]
fn a_window_floats_in_the_middle_of_its_output() {
    let mut desktop = desktop_with(&[1]);
    let screen = Some(rect(100, 0, 800, 600));
    let steps = desktop.toggle_float(Some(window(1)), Some(1), screen, &vec![1]);
    assert!(steps.contains(&Step::RemoveTile { workspace: 0, root: 1 }));
    let data = desktop.grabs.floating.get(1).expect("it floats");
    assert_eq!(data.position, Point::new(300, 150));
    assert_eq!(data.size, Size::new(400, 300));
    let steps = desktop.toggle_float(Some(window(1)), Some(1), screen, &vec![1]);
    assert_eq!(
        steps,
        vec![
            Step::EndResize { window: 1 },
            Step::InsertTile { workspace: 0, root: 1, split: Some(1) },
            Step::Relayout,
        ]
    );
    assert!(!desktop.grabs.floating.contains(1));
}

#[test]
fn a_sticky_window_floats() {
    let mut desktop = desktop_with(&[1]);
    let screen = Some(rect(0, 0, 800, 600));
    desktop.toggle_sticky(Some(window(1)), screen);
    assert!(desktop.books.sticky.contains(1) && desktop.grabs.floating.contains(1));
    assert!(desktop.toggle_sticky(Some(window(1)), screen).is_empty());
    assert!(!desktop.books.sticky.contains(1));
}

#[test]
fn tiles_change_places() {
    let mut desktop = desktop_with(&[1, 2, 3]);
    assert!(desktop.may_swap_tiles(0, 1, 3));
    assert!(!desktop.may_swap_tiles(0, 1, 1) && !desktop.may_swap_tiles(7, 1, 3));
    assert_eq!(desktop.swap_tiled_windows(0, 1, 3), (true, vec![Step::Relayout]));
    assert_eq!(desktop.workspaces[0].windows, vec![window(3), window(2), window(1)]);
    assert_eq!(desktop.swap_tiled_windows(0, 1, 9), (false, vec![]));
    desktop.grabs.floating.insert(1, dialog());
    assert!(!desktop.may_swap_tiles(0, 1, 3));
}

#[test]
fn a_window_is_moved_to_another_workspace() {
    let mut desktop = desktop_with(&[1, 2]);
    desktop.keyboard_focus_changed(Some(1));
    desktop.keyboard_focus_changed(Some(2));
    assert!(desktop.move_to_workspace(0, Some(2), &vec![1, 2]).is_empty());
    assert!(desktop.move_to_workspace(9, Some(2), &vec![1, 2]).is_empty());
    let steps = desktop.move_to_workspace(1, Some(2), &vec![1, 2]);
    assert_eq!(
        steps,
        vec![
            Step::Hide { window: 2 },
            Step::RemoveTile { workspace: 0, root: 2 },
            Step::InsertTile { workspace: 1, root: 2, split: None },
            Step::PublishWorkspaces,
            Step::Relayout,
            Step::Focus { root: Some(1) },
        ]
    );
    assert_eq!(desktop.workspaces[0].windows, vec![window(1)]);
    assert_eq!(desktop.workspaces[1].windows, vec![window(2)]);
}

#[test]
fn a_switch_hides_one_workspace_and_shows_the_other() {
    let mut desktop = desktop_with(&[1, 2]);
    desktop.keyboard_focus_changed(Some(2));
    let screen = Some(rect(0, 0, 800, 600));
    assert!(desktop.switch_workspace(0, screen).is_empty());
    let steps = desktop.switch_workspace(1, screen);
    assert_eq!(
        steps,
        vec![
            Step::Hide { window: 1 },
            Step::Hide { window: 2 },
            Step::PublishWorkspaces,
            Step::Render,
            Step::Relayout,
            Step::RaiseSticky,
            Step::Focus { root: None },
        ]
    );
    assert_eq!(desktop.outputs.active_workspace(), 1);
    // What fills the screen there is shown again on return.
    desktop.workspaces[0].fullscreen = Some(window(1));
    let steps = desktop.switch_workspace(0, screen);
    assert_eq!(steps.last(), Some(&Step::Focus { root: Some(1) }));
    assert!(steps.contains(&Step::Show { window: 1, at: Point::new(0, 0), activate: true }));
}

#[test]
fn windows_and_focus_go_to_the_next_output() {
    let mut desktop = desktop_with(&[1]);
    desktop.outputs.add_output(200, Point::new(800, 0));
    let geometries = vec![Some(rect(0, 0, 800, 600)), Some(rect(800, 0, 800, 600))];
    let steps = desktop.focus_output_in_direction(&geometries, FocusDirection::Left);
    assert!(steps.is_empty());
    let (moved, followed) = desktop.move_window_to_output(
        &geometries,
        FocusDirection::Right,
        Some(1),
        &vec![1],
    );
    assert!(moved.contains(&Step::Hide { window: 1 }));
    assert_eq!(followed.len(), 3);
    assert_eq!(desktop.outputs.focused_output, 1);
    assert_eq!(desktop.workspaces[1].windows, vec![window(1)]);
    let steps = desktop.switch_workspace(0, None);
    assert_eq!(
        steps,
        vec![Step::PublishWorkspaces, Step::Focus { root: None }, Step::Render]
    );
    assert_eq!(desktop.outputs.focused_output, 0);
    let steps = desktop.focus_output_in_direction(&geometries, FocusDirection::Right);
    assert_eq!(steps.len(), 3);
    assert_eq!(desktop.outputs.focused_output, 1);
}

#[test]
fn the_keyboard_goes_round_the_tiles() {
    let mut desktop = desktop_with(&[1, 2, 3]);
    desktop.keyboard_focus_changed(Some(2));
    // On screen they lie in another order than they were opened.
    let ordered = vec![3, 2, 1];
    let steps = desktop.focus_in_cycle(true, &ordered, Some(2));
    assert_eq!(steps[0], Step::Focus { root: Some(1) });
    let steps = desktop.focus_in_cycle(true, &ordered, Some(1));
    assert_eq!(steps[0], Step::Focus { root: Some(3) });
    let steps = desktop.focus_in_cycle(false, &ordered, Some(3));
    assert_eq!(steps[0], Step::Focus { root: Some(1) });
    // Without tiles the windows take turns by age.
    let steps = desktop.focus_in_cycle(true, &vec![], Some(2));
    assert_eq!(
        steps,
        vec![
            Step::Focus { root: Some(3) },
            Step::Raise { window: 3, activate: true },
            Step::RaiseFloating,
            Step::RaiseInX11 { window: 3 },
            Step::Render,
        ]
    );
    assert_eq!(desktop.workspaces[0].focused_idx, Some(2));
}

#[test]
fn a_floating_window_stays_in_front_when_it_is_focused() {
    let mut desktop = desktop_with(&[1, 2]);
    desktop.grabs.floating.insert(2, dialog());
    let steps = desktop.focus_active_workspace_window(1);
    assert!(!steps.contains(&Step::RaiseFloating));
    assert!(desktop.focus_active_workspace_window(7).is_empty());
    let geometries = vec![Some(rect(0, 0, 100, 100)), Some(rect(100, 0, 100, 100))];
    let steps = desktop.focus_window_in_direction(&geometries, FocusDirection::Right, Some(1));
    assert_eq!(steps[0], Step::Focus { root: Some(2) });
    assert!(desktop
        .focus_window_in_direction(&geometries, FocusDirection::Up, Some(1))
        .is_empty());
}

#[test]
fn the_workspace_remembers_who_has_the_keyboard() {
    let mut desktop = desktop_with(&[1, 2]);
    let change = desktop.keyboard_focus_changed(Some(2));
    assert_eq!((change.deactivate, change.activate), (None, Some(1)));
    let change = desktop.keyboard_focus_changed(Some(1));
    assert_eq!((change.deactivate, change.activate), (Some(1), Some(0)));
    let change = desktop.keyboard_focus_changed(None);
    assert_eq!((change.deactivate, change.activate), (Some(0), None));
    assert_eq!(desktop.active_workspace_focused_window(None), Some(window(1)));
    assert_eq!(desktop.active_workspace_focused_window(Some(2)), Some(window(2)));
    assert!(desktop.title_changed(1, None) && !desktop.title_changed(2, None));
    assert_eq!(
        desktop.layer_destroyed(),
        vec![Step::Render, Step::Focus { root: Some(1) }]
    );
    assert_eq!(desktop.focus_current_window()[0], Step::Focus { root: Some(1) });
}

fn commit_of(root: u64) -> CommitFacts {
    CommitFacts {
        root,
        own_toplevel: true,
        lock_surface: false,
        has_buffer: true,
        map: facts(),
        recentered: None,
        parent_root: None,
        layer: None,
        has_keyboard: true,
    }
}

#[test]
fn a_commit_goes_to_whom_it_concerns() {
    let mut desktop = desktop_with(&[1]);
    desktop.new_toplevel(window(2));
    // The lock screen, while the session is locked.
    let lock = CommitFacts { lock_surface: true, ..commit_of(2) };
    assert_eq!(desktop.commit(lock, true, &vec![]).steps, vec![Step::Render]);
    assert_eq!(desktop.books.pending_windows.len(), 1);
    // A window that waits.
    let reply = desktop.commit(commit_of(2), false, &vec![]);
    assert_eq!(reply.steps[0], Step::PublishWorkspaces);
    assert!(!reply.arrange_layers);
    // A mapped one.
    assert_eq!(desktop.commit(commit_of(2), false, &vec![]).steps, vec![Step::Render]);
    assert!(desktop.books.mapped_with_buffer.contains(2));
    // A layer that wants the keyboard.
    let wants = LayerCommit { interactive: true, focused: false };
    let layer = CommitFacts { layer: Some(wants), ..commit_of(50) };
    let reply = desktop.commit(layer, false, &vec![]);
    assert!(reply.arrange_layers && reply.focus_layer);
    assert_eq!(reply.steps, vec![Step::Render]);
    let has = LayerCommit { interactive: true, focused: true };
    let layer = CommitFacts { layer: Some(has), ..commit_of(50) };
    assert!(!desktop.commit(layer, false, &vec![]).focus_layer);
    // Nothing that is known.
    assert!(desktop.commit(commit_of(60), false, &vec![]).steps.is_empty());
    // A window that its client takes away.
    let empty = CommitFacts { has_buffer: false, layer: Some(wants), ..commit_of(2) };
    let reply = desktop.commit(empty, false, &vec![]);
    assert!(!reply.arrange_layers);
    assert_eq!(desktop.books.pending_windows, vec![window(2)]);
}

#[test]
fn small_answers_to_clients() {
    assert_eq!(committed_buffer_kind(Attachment::Unchanged), BufferKind::NoBuffer);
    assert_eq!(committed_buffer_kind(Attachment::SharedMemory), BufferKind::Shm);
    assert_eq!(committed_buffer_kind(Attachment::DeviceMemory), BufferKind::Dmabuf);
    assert_eq!(committed_buffer_kind(Attachment::Unknown), BufferKind::Other);
    assert_eq!(cursor_on_focus_change(true, true), CursorChange::Hide);
    assert_eq!(cursor_on_focus_change(true, false), CursorChange::ShowDefault);
    assert_eq!(cursor_on_focus_change(false, false), CursorChange::Keep);
    let locks = Constraint { locks: true, active: false };
    assert_eq!(new_constraint(Some(locks)), (true, CursorChange::Hide));
    assert_eq!(new_constraint(None), (false, CursorChange::Keep));
    assert_eq!(lock_surface_size(Some(Size::new(3841, 2160)), 2), (1920, 1080));
    assert_eq!(lock_surface_size(None, 2), (0, 0));
    assert_eq!(lock_surface_size(Some(Size::new(-5, 10)), 1), (0, 10));
}

#[test]
fn a_workspace_is_laid_out_on_its_output() {
    let mut desktop = desktop_with(&[1, 2]);
    desktop.grabs.floating.insert(2, dialog());
    let cell = Geometry { x: 0, y: 0, width: 800, height: 600 };
    let plan = desktop.relayout_output(0, true, &vec![Some(cell)], 10, 2);
    assert!(plan.render);
    assert_eq!(plan.tiles.len(), 1);
    assert_eq!(plan.tiles[0].window, window(1));
    assert_eq!(plan.tiles[0].rect, rect(10, 10, 776, 576));
    assert_eq!(
        plan.floats,
        vec![Step::Show { window: 2, at: Point::new(300, 200), activate: false }]
    );
    let plan = desktop.relayout_output(0, false, &vec![Some(cell)], 10, 2);
    assert!(!plan.render && plan.tiles.is_empty() && plan.floats.is_empty());
    assert_eq!(desktop.tile_count_with_new(0), 2);
    assert_eq!(
        initial_toplevel_size(false, Some(cell), 10, 2),
        Some(Size::new(776, 576))
    );
    assert_eq!(initial_toplevel_size(true, Some(cell), 10, 2), None);
}

#[test]
fn an_output_that_goes_leaves_its_windows_behind() {
    let mut desktop = desktop_with(&[1]);
    desktop.outputs.add_output(200, Point::new(800, 0));
    assert!(desktop.remove_output(300).is_empty());
    let steps = desktop.remove_output(100);
    assert_eq!(
        steps,
        vec![
            Step::Hide { window: 1 },
            Step::RepackOutputs,
            Step::ReclampFloating,
            Step::Relayout,
            Step::Focus { root: None },
            Step::Render,
        ]
    );
    assert_eq!(desktop.workspaces[0].windows, vec![window(1)]);
    assert_eq!(desktop.outputs.outputs.len(), 1);
    // With no output left, no frame is due.
    assert_eq!(desktop.remove_output(200), vec![Step::CancelRender]);
    assert!(desktop.outputs.outputs.is_empty());
    assert_eq!(
        handle_output_geometry_changed(),
        vec![Step::RepackOutputs, Step::ReclampFloating, Step::Relayout, Step::Render]
    );
}

#[test]
fn the_full_screen_is_restored_where_there_is_one() {
    let mut desktop = desktop_with(&[1]);
    assert!(desktop.restore_fullscreen(&vec![1]).is_empty());
    desktop.workspaces[0].fullscreen = Some(window(1));
    assert_eq!(
        desktop.restore_fullscreen(&vec![1]),
        vec![
            Step::Configure { window: 1, size: None, fullscreen: Some(false) },
            Step::Relayout,
        ]
    );
}

#[test]
fn a_new_layout_gets_every_tile_back() {
    let mut desktop = desktop_with(&[1, 2, 3]);
    desktop.grabs.floating.insert(2, dialog());
    desktop.move_to_workspace(2, Some(3), &vec![1, 2, 3]);
    assert_eq!(
        desktop.rebuild_layout(),
        vec![
            Step::InsertTile { workspace: 0, root: 1, split: None },
            Step::InsertTile { workspace: 2, root: 3, split: None },
        ]
    );
}

fn toplevel(has_parent: bool) -> ToplevelFacts {
    ToplevelFacts {
        has_parent,
        is_modal: false,
        app_id: None,
        min_size: Size::new(0, 0),
        max_size: Size::new(0, 0),
    }
}

#[test]
fn a_window_is_mapped_by_what_it_says_of_itself() {
    let plain = Some(toplevel(false));
    let video = map_facts(&plain, Some("Picture-in-Picture"), None, false, None, Some(4));
    assert!(video.picture_in_picture && !video.should_float && !video.dialog_focused);
    assert_eq!(video.keyboard_root, Some(4));
    assert!(!map_facts(&plain, Some("picture-in-picture"), None, false, None, None).picture_in_picture);
    assert!(!map_facts(&plain, None, None, false, None, None).picture_in_picture);
    assert!(!map_facts(&None, Some("Picture-in-Picture"), None, false, None, None).picture_in_picture);
    let child = Some(toplevel(true));
    assert!(map_facts(&child, None, None, false, Some(dialog()), None).should_float);
    let prompt = classify_toplevel_floating(&child);
    assert!(map_facts(&plain, None, Some(prompt), true, None, None).dialog_focused);
    let prompt = classify_toplevel_floating(&child);
    assert!(!map_facts(&plain, None, Some(prompt), false, None, None).dialog_focused);
    let ordinary = classify_toplevel_floating(&plain);
    assert!(!map_facts(&plain, None, Some(ordinary), true, None, None).dialog_focused);

    // The small window of a video follows the user around.
    let mut desktop = desktop_with(&[]);
    desktop.new_toplevel(window(1));
    desktop.map_pending_window(1, video).expect("it waits");
    assert!(desktop.books.sticky.contains(1));
}

#[test]
fn a_window_that_was_picked_gets_the_keyboard() {
    let mut desktop = desktop_with(&[1]);
    desktop.switch_workspace(1, None);
    desktop.new_toplevel(window(2));
    desktop.map_pending_window(2, facts()).expect("it waits");
    let first = OverviewItem { window: 1, root: 1, workspace: 0 };
    assert!(desktop.activate_overview_item(first, false, None).is_empty());
    assert_eq!(desktop.outputs.active_workspace(), 1);
    let steps = desktop.activate_overview_item(first, true, None);
    assert_eq!(desktop.outputs.active_workspace(), 0);
    assert_eq!(
        steps,
        vec![
            Step::Hide { window: 2 },
            Step::PublishWorkspaces,
            Step::Render,
            Step::Relayout,
            Step::RaiseSticky,
            Step::Focus { root: None },
            Step::Focus { root: Some(1) },
            Step::Raise { window: 1, activate: true },
            Step::RaiseFloating,
            Step::RaiseInX11 { window: 1 },
            Step::Render,
        ]
    );
    let listed = desktop.overview_windows(&vec![2]);
    assert_eq!(listed.len(), 3);
    assert!(listed[0][0].alive && !listed[1][0].alive && listed[2].is_empty());
    assert_eq!(listed[1][0].window, window(2));
    // On the active workspace there is nothing to switch to.
    let steps = desktop.activate_overview_item(first, true, None);
    assert_eq!(steps[0], Step::Focus { root: Some(1) });
    // A window that has left the workspace since is not focused.
    let gone = OverviewItem { window: 9, root: 9, workspace: 0 };
    assert!(desktop.activate_overview_item(gone, true, None).is_empty());
}

const NO_TILE: TileCell = TileCell { cell: None, gap: 10, bw: 2 };

fn button(code: u32, pressed: bool, id: u64, at: Point) -> ButtonFacts {
    ButtonFacts {
        button: code,
        pressed,
        logo: true,
        window_under: Some(UnderPointer {
            window: window(id),
            geometry: Some(rect(0, 0, 100, 100)),
            fullscreen: false,
        }),
        workspace_idx: 0,
        pixel: at,
        twice_x: 2 * at.x as i64,
        twice_y: 2 * at.y as i64,
        click_target: None,
        focused: None,
    }
}

fn take_hold(id: u64) -> Vec<Step> {
    vec![
        Step::Focus { root: Some(id) },
        Step::Raise { window: id, activate: true },
        Step::Render,
    ]
}

#[test]
fn a_tile_is_dragged_out_of_the_layout_and_back() {
    let mut desktop = desktop_with(&[1, 2]);
    let at = Point::new(50, 50);
    let (plan, steps) = desktop.handle_pointer_button(button(BTN_LEFT, true, 1, at), NO_TILE);
    assert_eq!(plan, ButtonPlan::StartedTiledSwap);
    let mut expected = vec![Step::SaveLayout];
    expected.extend(take_hold(1));
    expected.extend([
        Step::RemoveTile { workspace: 0, root: 1 },
        Step::InvalidateBorders,
        Step::Relayout,
        Step::Raise { window: 1, activate: true },
        Step::RefreshCursor,
    ]);
    assert_eq!(steps, expected);

    // Over the other tile, the borders show what would be swapped.
    let drag = Drag { from_start: Point::new(110, 0), from_last: Point::new(110, 0) };
    let shown = vec![Some(rect(110, 0, 100, 100)), Some(rect(100, 0, 100, 100))];
    let over = Point::new(160, 50);
    let steps = desktop.handle_active_grab(drag, over, None, None, &shown).expect("a grab");
    assert_eq!(
        steps,
        vec![
            Step::Show { window: 1, at: Point::new(110, 0), activate: true },
            Step::InvalidateBorders,
        ]
    );
    let (_, steps) = desktop.handle_pointer_button(button(BTN_LEFT, false, 2, over), NO_TILE);
    assert_eq!(
        steps,
        vec![
            Step::RestoreLayout,
            Step::SwapTiles { workspace: 0, first: 1, second: 2 },
            Step::InvalidateBorders,
            Step::RefreshCursor,
        ]
    );
    assert_eq!(desktop.tiles_swapped(0, 1, 2, false), vec![Step::Relayout]);
    assert_eq!(desktop.workspaces[0].windows, vec![window(1), window(2)]);
    assert_eq!(desktop.tiles_swapped(0, 1, 2, true), vec![Step::Relayout]);
    assert_eq!(desktop.workspaces[0].windows, vec![window(2), window(1)]);
    assert_eq!(desktop.tiles_swapped(0, 1, 9, true), vec![Step::Relayout]);

    // Dropped over its own slot it goes back.
    desktop.handle_pointer_button(button(BTN_LEFT, true, 1, at), NO_TILE);
    let (_, steps) = desktop.handle_pointer_button(button(BTN_LEFT, false, 1, at), NO_TILE);
    assert_eq!(
        steps,
        vec![
            Step::RestoreLayout,
            Step::Relayout,
            Step::InvalidateBorders,
            Step::RefreshCursor,
        ]
    );
    assert!(!desktop.grabs.floating.contains(1));
}

#[test]
fn windows_are_told_that_they_are_being_resized() {
    let mut desktop = desktop_with(&[1, 2]);
    desktop.grabs.floating.insert(2, dialog());
    let at = Point::new(90, 90);
    let resize = |window: u64, size: Option<Size>, resizing: bool| Step::Resize {
        window,
        size,
        resizing,
    };
    // A floating window.
    let (_, steps) = desktop.handle_pointer_button(button(BTN_RIGHT, true, 2, at), NO_TILE);
    let mut expected = take_hold(2);
    expected.extend([resize(2, Some(Size::new(100, 100)), true), Step::RefreshCursor]);
    assert_eq!(steps, expected);
    let drag = Drag { from_start: Point::new(20, -5), from_last: Point::new(20, -5) };
    let grown = Size::new(120, 95);
    assert_eq!(
        desktop.handle_active_grab(drag, at, None, None, &vec![]).expect("a grab"),
        vec![
            Step::Show { window: 2, at: Point::new(0, 0), activate: true },
            resize(2, Some(grown), true),
        ]
    );
    let (_, steps) = desktop.handle_pointer_button(button(BTN_RIGHT, false, 2, at), NO_TILE);
    assert_eq!(
        steps,
        vec![
            resize(2, Some(grown), false),
            Step::Show { window: 2, at: Point::new(0, 0), activate: true },
            Step::RefreshCursor,
        ]
    );
    // A tiled one has the size of its tile, where the layout has one for it.
    let cell = Geometry { x: 0, y: 0, width: 800, height: 600 };
    let tile = TileCell { cell: Some(cell), gap: 10, bw: 2 };
    let inner = Some(Size::new(776, 576));
    let (_, steps) = desktop.handle_pointer_button(button(BTN_RIGHT, true, 1, at), NO_TILE);
    assert_eq!(steps[3], resize(1, Some(Size::new(100, 100)), true));
    let steps = desktop.handle_active_grab(drag, at, None, None, &vec![]).expect("a grab");
    assert!(matches!(steps[0], Step::ResizeTile { workspace: 0, root: 1, .. }));
    assert_eq!(tile_resized(window(1), true, tile), vec![Step::Relayout, resize(1, inner, true)]);
    assert_eq!(tile_resized(window(1), true, NO_TILE), vec![Step::Relayout]);
    assert!(tile_resized(window(1), false, tile).is_empty());
    let cancelled = desktop.grabs.cancel_interactions_for_lock();
    assert_eq!(cancel_steps(cancelled), vec![resize(1, None, false), Step::RefreshCursor]);
    let (_, steps) = desktop.handle_pointer_button(button(BTN_RIGHT, true, 1, at), tile);
    assert_eq!(steps[3], resize(1, inner, true));
    let (_, steps) = desktop.handle_pointer_button(button(BTN_RIGHT, false, 1, at), tile);
    assert_eq!(steps, vec![resize(1, inner, false), Step::RefreshCursor]);
    // A move only ends.
    desktop.handle_pointer_button(button(BTN_LEFT, true, 2, at), NO_TILE);
    let (plan, steps) = desktop.handle_pointer_button(button(BTN_LEFT, false, 2, at), NO_TILE);
    assert_eq!(plan, ButtonPlan::FinishedMove);
    assert_eq!(steps, vec![Step::RefreshCursor]);
    let (_, steps) = desktop.handle_pointer_button(button(BTN_LEFT, false, 2, at), NO_TILE);
    assert!(steps.is_empty());
    assert!(desktop.handle_active_grab(drag, at, None, None, &vec![]).is_none());
}
