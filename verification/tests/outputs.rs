use beewm::geometry::{Point, Rect, Size};
use beewm::state::output::{
    clamp_into_usable, pick_initial_workspace, plan_output_removal, reclamp_floating_windows,
    OutputRemovalPlan, Outputs, ONSCREEN_MARGIN,
};
use beewm::state::workspace::{
    float_toggle_transition, plan_workspace_switch, FloatToggleTransition, WorkspaceSwitch,
};
use beewm::surface_map::SurfaceMap;
use beewm::types::FloatingWindowData;

#[test]
fn first_output_takes_workspace_zero() {
    assert_eq!(pick_initial_workspace(&[], 10), 0);
}

#[test]
fn second_output_takes_lowest_free_workspace() {
    assert_eq!(pick_initial_workspace(&[0], 10), 1);
    assert_eq!(pick_initial_workspace(&[0, 2], 10), 1);
}

#[test]
fn falls_back_to_zero_when_all_workspaces_are_shown() {
    assert_eq!(pick_initial_workspace(&[0, 1], 2), 0);
}

#[test]
fn removing_last_output_leaves_no_survivor() {
    let plan = plan_output_removal(0, 1, &[0, 0, 0], 0);
    assert_eq!(
        plan,
        OutputRemovalPlan {
            survivor: None,
            workspace_outputs: vec![0, 0, 0],
            focused_output: 0,
        }
    );
}

#[test]
fn removing_output_migrates_its_workspaces_to_the_survivor() {
    let plan = plan_output_removal(0, 2, &[0, 0, 1], 1);
    assert_eq!(plan.survivor, Some(0));
    assert_eq!(plan.workspace_outputs, vec![0, 0, 0]);
    assert_eq!(plan.focused_output, 0);
}

#[test]
fn removing_a_later_output_shifts_higher_indices_down() {
    let plan = plan_output_removal(1, 3, &[0, 1, 2, 2], 2);
    assert_eq!(plan.survivor, Some(0));
    assert_eq!(plan.workspace_outputs, vec![0, 0, 1, 1]);
    assert_eq!(plan.focused_output, 1);
}

#[test]
fn switch_to_current_workspace_is_a_noop() {
    assert_eq!(plan_workspace_switch(2, 10, 0, &[2, 5]), WorkspaceSwitch::NoOp);
}

#[test]
fn switch_to_hidden_workspace_shows_it_on_the_focused_output() {
    assert_eq!(plan_workspace_switch(7, 10, 0, &[2, 5]), WorkspaceSwitch::ShowHere);
}

#[test]
fn switch_to_workspace_visible_elsewhere_focuses_that_output() {
    assert_eq!(plan_workspace_switch(5, 10, 0, &[2, 5]), WorkspaceSwitch::FocusOutput(1));
}

#[test]
fn switch_out_of_range_is_a_noop() {
    assert_eq!(plan_workspace_switch(12, 10, 0, &[2, 5]), WorkspaceSwitch::NoOp);
}

#[test]
fn single_output_switch_matches_legacy_behavior() {
    assert_eq!(plan_workspace_switch(0, 10, 0, &[0]), WorkspaceSwitch::NoOp);
    assert_eq!(plan_workspace_switch(3, 10, 0, &[0]), WorkspaceSwitch::ShowHere);
}

#[test]
fn float_toggle_depends_on_both_states() {
    assert_eq!(float_toggle_transition(false, false), FloatToggleTransition::MakeFloating);
    assert_eq!(float_toggle_transition(true, false), FloatToggleTransition::MakeFloating);
    assert_eq!(float_toggle_transition(true, true), FloatToggleTransition::KeepFloating);
    assert_eq!(float_toggle_transition(false, true), FloatToggleTransition::SinkToTiling);
}

#[test]
fn outputs_come_and_go() {
    let mut outputs = Outputs::new(4);
    assert_eq!(outputs.focused_output(), None);
    assert_eq!(outputs.active_workspace(), 0);
    outputs.add_output(10, Point::new(0, 0));
    outputs.add_output(11, Point::new(1920, 0));
    outputs.add_output(10, Point::new(5, 5));
    assert_eq!(outputs.outputs.len(), 2);
    assert_eq!(outputs.outputs[0].position, Point::new(5, 5));
    assert_eq!(outputs.shown_workspaces(), vec![0, 1]);
    assert_eq!(outputs.homes, vec![0, 1, 0, 0]);

    assert_eq!(outputs.switch_workspace(3), WorkspaceSwitch::ShowHere);
    assert_eq!(outputs.active_workspace(), 3);
    assert_eq!(outputs.switch_workspace(1), WorkspaceSwitch::FocusOutput(1));
    assert_eq!(outputs.active_workspace(), 1);
    assert_eq!(outputs.focused_output(), Some(11));
    assert_eq!(outputs.switch_workspace(9), WorkspaceSwitch::NoOp);
    assert_eq!(outputs.switch_workspace(2), WorkspaceSwitch::ShowHere);
    assert_eq!(outputs.homes, vec![0, 1, 1, 0]);

    outputs.recompute_output_positions(&vec![Some(1280), Some(1920)]);
    assert_eq!(outputs.outputs[1].position, Point::new(1280, 0));

    let removed = outputs.remove_output(10).unwrap();
    assert_eq!(removed.visible_workspace, 3);
    assert!(!removed.headless);
    assert_eq!(outputs.focused_output(), Some(11));
    assert_eq!(outputs.homes, vec![0, 0, 0, 0]);
    assert_eq!(outputs.remove_output(10), None);
    assert!(outputs.remove_output(11).unwrap().headless);
    assert_eq!(outputs.active_workspace(), 0);
    assert_eq!(outputs.output_or_focused(None), None);
    assert_eq!(outputs.output_or_focused(Some(3)), Some(3));
}

#[test]
fn stranded_windows_are_pulled_back() {
    let usable = Rect::new(Point::new(0, 30), Size::new(1920, 1050));
    let size = Size::new(400, 300);
    assert_eq!(
        clamp_into_usable(Point::new(5000, -900), size, usable, ONSCREEN_MARGIN),
        Point::new(1872, -222)
    );
    assert_eq!(
        clamp_into_usable(Point::new(-1000, 400), size, usable, ONSCREEN_MARGIN),
        Point::new(-352, 400)
    );
    // An area narrower than the margin: the far side decides.
    let narrow = Rect::new(Point::new(0, 0), Size::new(10, 10));
    assert_eq!(
        clamp_into_usable(Point::new(7, 7), Size::new(20, 20), narrow, ONSCREEN_MARGIN),
        Point::new(-10, -10)
    );

    let mut floating = SurfaceMap::new();
    floating.insert(1, FloatingWindowData::new(Point::new(5000, 100), size));
    floating.insert(2, FloatingWindowData::new(Point::new(10, 100), size));
    floating.insert(3, FloatingWindowData::new(Point::new(9000, 100), size));
    let moved = reclamp_floating_windows(&mut floating, &vec![Some(usable), Some(usable), None]);
    assert_eq!(moved, vec![1]);
    assert_eq!(floating.get(1).unwrap().position, Point::new(1872, 100));
    assert_eq!(floating.get(2).unwrap().position, Point::new(10, 100));
    assert_eq!(floating.get(3).unwrap().position, Point::new(9000, 100));
}
