use std::cell::RefCell;
use std::rc::Rc;

use beewm::config::{Action, Keybind};
use beewm::geometry::{Point, Rect, Size};
use beewm::input::grab::{
    dragged_window_location, original_tiled_slot_contains_pointer, resize_edges_for_pointer,
    resized_window_geometry_from_start, tiled_swap_target_from_geometries, Drag, GrabMotion,
    GrabState, ResizeCancel, ResizeFinish, SlotWindow, SwapCandidate, UnderPointer,
};
use beewm::input::keyboard::{
    filter_key, match_keybind, resolve_keybinds, KeyOutcome, KeyPosition, Modifiers,
};
use beewm::input::leds::{
    KeyboardLedController, KeyboardLedState, KeyboardLeds, KeyboardStatus, LedDevice,
    LedDeviceRegistry, PublishedStatus,
};
use beewm::input::pointer::{
    keyboard_focus_under_pointer, left_button_release_action, plan_axis, plan_motion, surface_under,
    AxisPlan, ButtonFacts, ButtonPlan, ClickTarget, HoverTarget, LeftButtonGrabKind,
    LeftButtonReleaseAction, MotionFacts, MotionPlan, PointerHit, SurfaceOwner, SurfacesUnder,
    BTN_LEFT, BTN_RIGHT,
};
use beewm::layering::WlrLayer;
use beewm::types::{
    ActiveGrab, CursorIcon, FloatingWindowData, ResizeEdges, ResizeHorizontalEdge,
    ResizeVerticalEdge, WindowRef,
};

fn rect(x: i32, y: i32, w: i32, h: i32) -> Rect {
    Rect::new(Point::new(x, y), Size::new(w, h))
}

/// The drag between two pointer positions, cut to whole pixels.
fn drag(start: (f64, f64), now: (f64, f64)) -> Point {
    Point::new((now.0 - start.0) as i32, (now.1 - start.1) as i32)
}

fn pixel(x: f64, y: f64) -> Point {
    Point::new(x.floor() as i32, y.floor() as i32)
}

#[test]
fn left_release_routes_tiled_swap_grabs_to_swap_completion() {
    assert_eq!(
        left_button_release_action(Some(LeftButtonGrabKind::TiledSwap)),
        LeftButtonReleaseAction::FinishTiledSwap
    );
}

#[test]
fn left_release_only_clears_move_grabs_directly() {
    assert_eq!(
        left_button_release_action(Some(LeftButtonGrabKind::Move)),
        LeftButtonReleaseAction::FinishMove
    );
    assert_eq!(
        left_button_release_action(Some(LeftButtonGrabKind::Other)),
        LeftButtonReleaseAction::ForwardToClient
    );
    assert_eq!(left_button_release_action(None), LeftButtonReleaseAction::ForwardToClient);
}

#[test]
fn dragged_window_location_preserves_the_initial_pointer_offset() {
    let location =
        dragged_window_location(Point::new(100, 200), drag((140.0, 260.0), (220.0, 320.0)));
    assert_eq!(location, Point::new(180, 260));
}

#[test]
fn tiled_swap_target_ignores_the_dragged_root() {
    let target = tiled_swap_target_from_geometries(
        pixel(40.0, 40.0),
        1,
        &vec![
            SwapCandidate { root: 1, geometry: rect(0, 0, 100, 100) },
            SwapCandidate { root: 2, geometry: rect(120, 0, 100, 100) },
        ],
    );
    assert_eq!(target, None);
}

#[test]
fn tiled_swap_target_finds_the_window_under_the_pointer() {
    let target = tiled_swap_target_from_geometries(
        pixel(150.0, 40.0),
        1,
        &vec![
            SwapCandidate { root: 1, geometry: rect(0, 0, 100, 100) },
            SwapCandidate { root: 2, geometry: rect(120, 0, 100, 100) },
        ],
    );
    assert_eq!(target, Some(2));
}

#[test]
fn original_tiled_slot_contains_the_release_pointer() {
    assert!(original_tiled_slot_contains_pointer(
        Point::new(100, 200),
        Size::new(300, 150),
        pixel(250.0, 275.0),
    ));
    assert!(!original_tiled_slot_contains_pointer(
        Point::new(100, 200),
        Size::new(300, 150),
        pixel(410.0, 275.0),
    ));
}

#[test]
fn edges_follow_the_side_of_the_centre() {
    // The centre of a window 101 wide lies on a half pixel.
    let left = resize_edges_for_pointer(Point::new(0, 0), Size::new(101, 100), 100, 100);
    assert_eq!(left.horizontal, ResizeHorizontalEdge::Left);
    assert_eq!(left.vertical, ResizeVerticalEdge::Bottom);
    let right = resize_edges_for_pointer(Point::new(0, 0), Size::new(101, 100), 101, 99);
    assert_eq!(right.horizontal, ResizeHorizontalEdge::Right);
    assert_eq!(right.vertical, ResizeVerticalEdge::Top);
}

#[test]
fn resizing_never_collapses_a_window() {
    let edges = ResizeEdges {
        horizontal: ResizeHorizontalEdge::Left,
        vertical: ResizeVerticalEdge::Bottom,
    };
    assert_eq!(edges.cursor_icon(), CursorIcon::SwResize);
    let (pos, size) = resized_window_geometry_from_start(
        Point::new(100, 100),
        Size::new(50, 50),
        Point::new(500, -500),
        edges,
    );
    assert_eq!((pos, size), (Point::new(149, 100), Size::new(1, 1)));
}

struct MockDevice {
    name: u32,
    writes: Rc<RefCell<Vec<KeyboardLedState>>>,
}

impl PartialEq for MockDevice {
    fn eq(&self, other: &Self) -> bool {
        self.name == other.name
    }
}

impl LedDevice for MockDevice {
    fn set_leds(&mut self, state: KeyboardLedState) {
        self.writes.borrow_mut().push(state);
    }
}

struct OrderedDevice {
    name: u32,
    writes: Rc<RefCell<Vec<u32>>>,
}

impl PartialEq for OrderedDevice {
    fn eq(&self, other: &Self) -> bool {
        self.name == other.name
    }
}

impl LedDevice for OrderedDevice {
    fn set_leds(&mut self, _state: KeyboardLedState) {
        self.writes.borrow_mut().push(self.name);
    }
}

const CAPS: KeyboardLedState = KeyboardLedState {
    caps_lock: true,
    num_lock: false,
    scroll_lock: false,
};

#[test]
fn leds_are_written_once_per_change() {
    let writes = Rc::new(RefCell::new(Vec::new()));
    let off = KeyboardLedState::default();
    let mut registry = LedDeviceRegistry::new();
    registry.add_device(MockDevice { name: 1, writes: writes.clone() }, off);
    assert_eq!(*writes.borrow(), vec![off]);

    let mut leds = KeyboardLeds::new();
    leds.apply(CAPS);
    assert_eq!(writes.borrow().len(), 1);
    leds.install_controller(registry);
    leds.apply(CAPS);
    leds.apply(CAPS);
    assert_eq!(*writes.borrow(), vec![off, CAPS]);
    leds.invalidate();
    leds.apply(CAPS);
    leds.apply(off);
    assert_eq!(*writes.borrow(), vec![off, CAPS, CAPS, off]);
}

#[test]
fn removed_keyboards_get_no_writes() {
    let first = Rc::new(RefCell::new(Vec::new()));
    let second = Rc::new(RefCell::new(Vec::new()));
    let off = KeyboardLedState::default();
    let mut registry = LedDeviceRegistry::new();
    registry.add_device(MockDevice { name: 1, writes: first.clone() }, off);
    registry.add_device(MockDevice { name: 2, writes: second.clone() }, off);
    registry.remove_device(&MockDevice { name: 1, writes: Rc::default() });
    assert_eq!(registry.len(), 1);
    registry.set_keyboard_leds(CAPS);
    assert_eq!(*first.borrow(), vec![off]);
    assert_eq!(*second.borrow(), vec![off, CAPS]);
}

#[test]
fn keyboards_come_and_go_after_the_controller_was_installed() {
    let first = Rc::new(RefCell::new(Vec::new()));
    let second = Rc::new(RefCell::new(Vec::new()));
    let off = KeyboardLedState::default();
    let mut leds = KeyboardLeds::default();
    // Nothing is driven without a controller.
    leds.add_device(MockDevice { name: 1, writes: first.clone() }, off);
    assert!(first.borrow().is_empty());
    leds.install_controller(LedDeviceRegistry::default());
    leds.add_device(MockDevice { name: 1, writes: first.clone() }, off);
    leds.apply(CAPS);
    leds.add_device(MockDevice { name: 2, writes: second.clone() }, CAPS);
    leds.apply(off);
    leds.remove_device(&MockDevice { name: 1, writes: Rc::default() });
    leds.apply(CAPS);
    assert_eq!(*first.borrow(), vec![off, CAPS, off]);
    assert_eq!(*second.borrow(), vec![CAPS, off, CAPS]);
}

#[test]
fn every_keyboard_is_written_in_the_order_of_registration() {
    let writes = Rc::new(RefCell::new(Vec::new()));
    let mut registry = LedDeviceRegistry::new();
    for name in [3, 1, 2] {
        registry.add_device(OrderedDevice { name, writes: writes.clone() }, CAPS);
    }
    writes.borrow_mut().clear();
    registry.set_keyboard_leds(CAPS);
    assert_eq!(*writes.borrow(), vec![3, 1, 2]);
}

#[test]
fn missing_indicators_are_off() {
    let state = KeyboardLedState::from_indicators(Some(true), None, Some(false));
    assert_eq!(state, CAPS);
}

#[test]
fn keyboard_status_is_published_on_change() {
    let status = KeyboardStatus::snapshot(true, false, Some(true), false);
    assert_eq!(status.event_payload(), "keyboard>>caps=1 num=0 scroll=1 shift=0");
    let mut published = PublishedStatus { last: None };
    assert_eq!(published.publish(None), None);
    assert_eq!(published.publish(Some(status)).as_deref(), Some("keyboard>>caps=1 num=0 scroll=1 shift=0"));
    assert_eq!(published.publish(Some(status)), None);
    let shifted = KeyboardStatus { shift: true, ..status };
    assert_eq!(published.publish(Some(shifted)).as_deref(), Some("keyboard>>caps=1 num=0 scroll=1 shift=1"));
}

fn window(id: u64) -> WindowRef {
    WindowRef { id, root: Some(id) }
}

fn facts(button: u32, pressed: bool, under: Option<UnderPointer>, at: Point) -> ButtonFacts {
    ButtonFacts {
        button,
        pressed,
        logo: true,
        window_under: under,
        workspace_idx: 2,
        pixel: at,
        twice_x: 2 * at.x as i64,
        twice_y: 2 * at.y as i64,
        click_target: Some(ClickTarget { target: 9, x11: true }),
        focused: None,
    }
}

#[test]
fn a_tile_is_dragged_onto_another() {
    let mut grabs = GrabState::new();
    let under = UnderPointer {
        window: window(1),
        geometry: Some(rect(0, 0, 100, 100)),
        fullscreen: false,
    };
    let plan = grabs.handle_pointer_button(facts(BTN_LEFT, true, Some(under), Point::new(40, 40)));
    assert_eq!(plan, ButtonPlan::StartedTiledSwap);
    assert!(grabs.layout_saved);
    assert!(grabs.floating.contains(1));

    let windows = vec![
        SlotWindow { root: Some(1), fullscreen: false, geometry: Some(rect(110, 0, 100, 100)) },
        SlotWindow { root: Some(3), fullscreen: true, geometry: Some(rect(100, 0, 100, 100)) },
        SlotWindow { root: Some(2), fullscreen: false, geometry: Some(rect(100, 0, 100, 100)) },
    ];
    let moved = Drag { from_start: Point::new(110, 0), from_last: Point::new(1, 0) };
    let motion = grabs.handle_active_grab(moved, Point::new(150, 40), None, None, &windows);
    assert_eq!(
        motion,
        Some(GrabMotion::SwapMove {
            window: window(1),
            to: Point::new(110, 0),
            borders_changed: true,
        })
    );
    assert_eq!(grabs.tiled_swap_target, Some(2));

    let plan = grabs.handle_pointer_button(facts(BTN_LEFT, false, None, Point::new(150, 40)));
    match plan {
        ButtonPlan::FinishedTiledSwap(finish) => {
            assert!(finish.restore_layout);
            let swap = finish.swap.unwrap();
            assert_eq!((swap.workspace_idx, swap.source, swap.target), (2, 1, 2));
        }
        other => panic!("unexpected {other:?}"),
    }
    assert!(!grabs.floating.contains(1));
    assert_eq!(grabs.active_grab, None);
}

#[test]
fn a_floating_window_is_moved_and_resized() {
    let mut grabs = GrabState::new();
    grabs.floating.insert(1, FloatingWindowData::new(Point::new(10, 10), Size::new(100, 80)));
    let under = UnderPointer {
        window: window(1),
        geometry: Some(rect(10, 10, 100, 80)),
        fullscreen: false,
    };
    let at = Point::new(100, 80);
    assert_eq!(
        grabs.handle_pointer_button(facts(BTN_LEFT, true, Some(under), at)),
        ButtonPlan::StartedMove
    );
    let moved = Drag { from_start: Point::new(-3, 4), from_last: Point::new(0, 0) };
    assert_eq!(
        grabs.handle_active_grab(moved, at, None, None, &vec![]),
        Some(GrabMotion::Move { window: window(1), to: Point::new(7, 14) })
    );
    assert_eq!(
        grabs.floating.get(1),
        Some(FloatingWindowData::new(Point::new(7, 14), Size::new(100, 80)))
    );
    assert_eq!(
        grabs.handle_pointer_button(facts(BTN_LEFT, false, Some(under), at)),
        ButtonPlan::FinishedMove
    );

    assert_eq!(
        grabs.handle_pointer_button(facts(BTN_RIGHT, true, Some(under), at)),
        ButtonPlan::StartedResize
    );
    let grown = Drag { from_start: Point::new(20, -5), from_last: Point::new(0, 0) };
    assert_eq!(
        grabs.handle_active_grab(grown, at, None, None, &vec![]),
        Some(GrabMotion::Resize {
            window: window(1),
            to: Point::new(10, 10),
            size: Size::new(120, 75),
        })
    );
    let cancelled = grabs.cancel_interactions_for_lock();
    assert_eq!(
        cancelled.resize,
        ResizeCancel::Floating { window: window(1), size: Size::new(120, 75) }
    );
    assert!(!cancelled.relayout);
    assert_eq!(grabs.active_grab, None);
}

#[test]
fn a_tiled_resize_needs_a_whole_pixel() {
    let mut grabs = GrabState::new();
    let under = UnderPointer {
        window: window(4),
        geometry: Some(rect(0, 0, 100, 100)),
        fullscreen: false,
    };
    let at = Point::new(90, 10);
    assert_eq!(
        grabs.handle_pointer_button(facts(BTN_RIGHT, true, Some(under), at)),
        ButtonPlan::StartedTiledResize
    );
    assert!(matches!(grabs.active_grab, Some(ActiveGrab::TiledResize(_))));
    let still = Drag { from_start: Point::new(0, 0), from_last: Point::new(0, 0) };
    assert_eq!(grabs.handle_active_grab(still, at, None, None, &vec![]), Some(GrabMotion::Stay));
    let plan = grabs.handle_pointer_button(facts(BTN_RIGHT, false, None, at));
    assert_eq!(
        plan,
        ButtonPlan::FinishedResize(ResizeFinish::Tiled { window: window(4), workspace_idx: 2 })
    );
    let none = grabs.handle_active_grab(still, at, None, None, &vec![]);
    assert_eq!(none, None);
    // Without a window under it, a press focuses what the pointer reaches.
    assert_eq!(
        grabs.handle_pointer_button(facts(BTN_RIGHT, true, None, at)),
        ButtonPlan::Deliver { raise_x11: Some(9), focus: Some(9) }
    );
}

const NOWHERE: SurfacesUnder = SurfacesUnder {
    lock: None,
    overlay: None,
    top: None,
    window: None,
    bottom: None,
    background: None,
};

#[test]
fn the_pointer_reaches_the_frontmost_surface() {
    let all = SurfacesUnder {
        lock: Some(1),
        overlay: Some(2),
        top: Some(3),
        window: Some(4),
        bottom: Some(5),
        background: Some(6),
    };
    assert_eq!(surface_under(true, false, all), PointerHit::Lock(1));
    assert_eq!(surface_under(true, false, SurfacesUnder { lock: None, ..all }), PointerHit::Nothing);
    assert_eq!(surface_under(false, false, all), PointerHit::Layer(WlrLayer::Overlay, 2));
    assert_eq!(surface_under(false, true, all), PointerHit::Window(4));
    let back = SurfacesUnder { bottom: Some(5), background: Some(6), ..NOWHERE };
    assert_eq!(surface_under(false, false, back), PointerHit::Layer(WlrLayer::Bottom, 5));
    assert_eq!(surface_under(false, true, back), PointerHit::Nothing);
}

#[test]
fn motion_moves_focus_only_where_it_may() {
    let facts = MotionFacts {
        has_output: true,
        has_pointer: true,
        constraint_locked: false,
        old_pixel: Point::new(1, 1),
        new_pixel: Point::new(1, 2),
        focus_follows_mouse: true,
        layer_has_focus: false,
        pointer_grabbed: false,
        hover: Some(HoverTarget {
            owner: SurfaceOwner::Window { override_redirect: false },
            target: 7,
        }),
        has_keyboard: true,
        focused: None,
    };
    assert_eq!(
        plan_motion(facts, false),
        MotionPlan::Deliver { render: true, focus: Some(7), refresh_cursor: true }
    );
    assert_eq!(plan_motion(facts, true), MotionPlan::Grab { render: true });
    assert_eq!(
        plan_motion(MotionFacts { focused: Some(7), new_pixel: Point::new(1, 1), ..facts }, false),
        MotionPlan::Deliver { render: false, focus: None, refresh_cursor: true }
    );
    assert_eq!(
        plan_motion(MotionFacts { constraint_locked: true, ..facts }, true),
        MotionPlan::RelativeOnly
    );
    assert_eq!(plan_motion(MotionFacts { has_output: false, ..facts }, true), MotionPlan::Ignore);
    assert!(!keyboard_focus_under_pointer(SurfaceOwner::Window { override_redirect: true }));
    assert!(!keyboard_focus_under_pointer(SurfaceOwner::Layer { interactive: false }));
}

#[test]
fn scroll_axes() {
    assert_eq!(plan_axis(Some(true), true, false), AxisPlan::Amount { with_steps: true });
    assert_eq!(plan_axis(Some(false), true, true), AxisPlan::Stop);
    assert_eq!(plan_axis(Some(false), true, false), AxisPlan::Nothing);
    assert_eq!(plan_axis(None, true, false), AxisPlan::Steps);
    assert_eq!(plan_axis(None, false, true), AxisPlan::Nothing);
}

#[test]
fn bindings_match_by_place_then_by_symbol() {
    let layout = vec![
        KeyPosition { keycode: 24, keysym: 113 },
        KeyPosition { keycode: 99, keysym: 113 },
    ];
    let binds = resolve_keybinds(
        vec![
            Keybind {
                modifiers: vec!["SUPER".to_string(), "Shift".to_string(), "hyper".to_string()],
                key: "q".to_string(),
                action: Action::Quit,
            },
            Keybind {
                modifiers: vec!["Control".to_string(), "mod1".to_string()],
                key: "XF86AudioMute".to_string(),
                action: Action::CloseWindow,
            },
        ],
        |name: &String| match name.as_str() {
            "q" => 113,
            "XF86AudioMute" => 0x1008_FF12,
            _ => 0,
        },
        &layout,
    );
    let logo_shift = Modifiers { logo: true, shift: true, ctrl: false, alt: false };
    let ctrl_alt = Modifiers { logo: false, shift: false, ctrl: true, alt: true };
    assert_eq!(binds[0].modifiers, logo_shift);
    assert_eq!(binds[0].keycode, Some(24));
    assert_eq!(match_keybind(&binds, logo_shift, 24, 97), Some(0));
    assert_eq!(match_keybind(&binds, logo_shift, 99, 113), None);
    assert_eq!(match_keybind(&binds, ctrl_alt, 5, 0x1008_FF12), Some(1));

    assert_eq!(filter_key(&binds, true, false, logo_shift, 24, 81, &vec![113]), KeyOutcome::Run(0));
    assert_eq!(filter_key(&binds, true, true, logo_shift, 24, 81, &vec![113]), KeyOutcome::Forward);
    assert_eq!(filter_key(&binds, false, false, logo_shift, 24, 81, &vec![113]), KeyOutcome::Forward);
    assert_eq!(
        filter_key(&binds, true, true, ctrl_alt, 67, 0x1008_FE0C, &vec![]),
        KeyOutcome::SwitchVt(12)
    );
    assert_eq!(
        filter_key(&binds, true, false, ctrl_alt, 5, 0x1008_FF12, &vec![]),
        KeyOutcome::Run(1)
    );
}

#[test]
fn resize_edges_use_the_window_center_as_the_anchor_split() {
    let edges = resize_edges_for_pointer(Point::new(100, 200), Size::new(300, 200), 240, 440);
    assert_eq!(
        edges,
        ResizeEdges {
            horizontal: ResizeHorizontalEdge::Left,
            vertical: ResizeVerticalEdge::Top,
        }
    );

    let edges = resize_edges_for_pointer(Point::new(100, 200), Size::new(300, 200), 798, 798);
    assert_eq!(
        edges,
        ResizeEdges {
            horizontal: ResizeHorizontalEdge::Right,
            vertical: ResizeVerticalEdge::Bottom,
        }
    );
}

#[test]
fn resizing_from_the_bottom_right_grows_width_and_height_only() {
    let (pos, size) = resized_window_geometry_from_start(
        Point::new(100, 200),
        Size::new(300, 150),
        drag((400.0, 350.0), (460.0, 390.0)),
        ResizeEdges {
            horizontal: ResizeHorizontalEdge::Right,
            vertical: ResizeVerticalEdge::Bottom,
        },
    );
    assert_eq!(pos, Point::new(100, 200));
    assert_eq!(size, Size::new(360, 190));
}

#[test]
fn resizing_from_the_top_left_keeps_the_bottom_right_corner_fixed() {
    let (pos, size) = resized_window_geometry_from_start(
        Point::new(100, 200),
        Size::new(300, 150),
        drag((100.0, 200.0), (70.0, 170.0)),
        ResizeEdges {
            horizontal: ResizeHorizontalEdge::Left,
            vertical: ResizeVerticalEdge::Top,
        },
    );
    assert_eq!(pos, Point::new(70, 170));
    assert_eq!(size, Size::new(330, 180));
}

#[test]
fn resizing_from_left_and_top_clamps_at_one_pixel() {
    let (pos, size) = resized_window_geometry_from_start(
        Point::new(100, 200),
        Size::new(300, 150),
        drag((100.0, 200.0), (500.0, 500.0)),
        ResizeEdges {
            horizontal: ResizeHorizontalEdge::Left,
            vertical: ResizeVerticalEdge::Top,
        },
    );
    assert_eq!(pos, Point::new(399, 349));
    assert_eq!(size, Size::new(1, 1));
}

#[test]
fn a_floating_window_cannot_be_dragged_off_the_screen() {
    let mut grabs = GrabState::new();
    let window = WindowRef { id: 1, root: Some(1) };
    grabs.floating.insert(1, FloatingWindowData::new(Point::new(100, 100), Size::new(200, 100)));
    grabs.active_grab = Some(ActiveGrab::Move(beewm::types::MoveGrab {
        window,
        start_window_pos: Point::new(100, 100),
    }));
    let far = Drag { from_start: Point::new(5_000, -5_000), from_last: Point::new(0, 0) };
    let usable = Some(rect(0, 30, 1920, 1050));
    let motion = grabs.handle_active_grab(far, Point::new(0, 0), None, usable, &vec![]);
    // A strip of forty-eight pixels stays inside.
    let to = Point::new(1920 - 48, 30 + 48 - 100);
    assert_eq!(motion, Some(GrabMotion::Move { window, to }));
    assert_eq!(grabs.floating.get(1).unwrap().position, to);
}
