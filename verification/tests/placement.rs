use beewm::animation::VisualRect;
use beewm::geometry::{Point, Rect, Size};
use beewm::layering::{
    layers_hit_tested_after_windows, layers_hit_tested_before_windows,
    layers_rendered_above_windows, layers_rendered_below_windows, WlrLayer,
};
use beewm::render::{
    clear_color, element_order, window_drawing, window_drawings, ClearColor, ElementGroup,
    SceneWindow, WindowDrawing,
};
use beewm::region::subtract_rects;
use beewm::state::decorations::{
    border_elements, border_strips, expand_by_border, has_layer_surface_overlapping_borders, plan_borders,
    root_is_swap_highlighted, visible_border_rectangles, window_border_overlaps_layer,
    BorderWindow,
};
use beewm::state::placement::{
    centered_floating_data, configured_tiled_size, effective_inner_gap, floating_usable_rect_for,
    half_output_placement, tiling_usable_geometry_for, Geometry, SizeHints,
};
use beewm::state::popup::{
    centered_dialog_position, classify_toplevel_floating, configure_xdg_popup,
    constrain_popup_geometry, is_dialog_size_cap, is_fixed_size,
    is_known_dialog_app_id, output_geometry_for_rectangle, pins_focus,
    popup_constraint_space_for_layer_surface, popup_constraint_space_for_popup,
    popup_constraint_space_for_surface, popup_constraint_target, should_map_toplevel_floating,
    FloatReason, LayerParent, PopupConstraintSpace, PopupRoot, ToplevelFacts,
};
use beewm::state::tiling::{
    floating_windows_to_raise, focused_tiled_window_root, is_root_fullscreen,
    rectangle_covers_output, screen_owned_by_window, tiled_window_roots_in_workspace,
    tiled_windows_in_workspace, SceneOwner, Workspace,
};
use beewm::surface_map::SurfaceMap;
use beewm::types::{FloatingWindowData, WindowRef};

fn rect(x: i32, y: i32, w: i32, h: i32) -> Rect {
    Rect::new(Point::new(x, y), Size::new(w, h))
}

fn window(id: u64) -> WindowRef {
    WindowRef { id, root: Some(id) }
}

fn facts() -> ToplevelFacts {
    ToplevelFacts {
        has_parent: false,
        is_modal: false,
        app_id: Some(String::from("org.example.Editor")),
        min_size: Size::new(100, 100),
        max_size: Size::new(0, 0),
    }
}

#[test]
fn a_dialog_is_centred_over_its_parent_and_stays_on_screen() {
    let usable = rect(0, 30, 1920, 1050);
    let over = centered_dialog_position(usable, Some(rect(100, 100, 400, 400)), Size::new(200, 100));
    assert_eq!(over, Point::new(200, 250));
    let alone = centered_dialog_position(usable, None, Size::new(200, 100));
    assert_eq!(alone, Point::new(860, 505));
    let corner =
        centered_dialog_position(usable, Some(rect(1900, 1000, 100, 100)), Size::new(400, 300));
    assert_eq!(corner, Point::new(1520, 780));
}

#[test]
fn windows_are_classified_by_what_they_say() {
    let class = |f: ToplevelFacts| classify_toplevel_floating(&Some(f));
    let normal = class(facts());
    assert!(!normal.should_float && normal.reason == FloatReason::Normal);
    let child = class(ToplevelFacts { has_parent: true, ..facts() });
    assert_eq!(child.reason, FloatReason::HasParent);
    assert!(child.should_float && pins_focus(child, true) && !pins_focus(child, false));
    let modal = class(ToplevelFacts { is_modal: true, ..facts() });
    assert_eq!(modal.reason, FloatReason::Modal);
    let fixed = class(ToplevelFacts { max_size: Size::new(100, 100), ..facts() });
    assert_eq!(fixed.reason, FloatReason::FixedSize);
    assert!(fixed.should_float && !pins_focus(fixed, true));
    assert_eq!(classify_toplevel_floating(&None).reason, FloatReason::NotAToplevel);
    assert!(!should_map_toplevel_floating(&None));
    assert_eq!(FloatReason::BoundedSizeCap.as_str(), "bounded-size-cap");
    assert!(is_fixed_size(Size::new(1, 1)) && !is_fixed_size(Size::new(0, 5)));
    assert!(!is_dialog_size_cap(Size::new(0, 0)));
    assert!(!is_known_dialog_app_id("org.example.Editor"));
}

#[test]
fn a_popup_is_kept_on_the_output_of_its_parent() {
    let parent = rect(100, 50, 300, 200);
    let output = rect(0, 0, 1920, 1080);
    assert_eq!(popup_constraint_target(parent, output), rect(-100, -50, 1920, 1080));
    // A positioner that slides its popup back from the right and lower edges.
    let slide = |wanted: Rect, within: Rect| {
        let x = wanted.loc.x.min(within.loc.x + within.size.w - wanted.size.w);
        let y = wanted.loc.y.min(within.loc.y + within.size.h - wanted.size.h);
        rect(x, y, wanted.size.w, wanted.size.h)
    };
    let wanted = rect(1800, 10, 100, 40);
    assert_eq!(constrain_popup_geometry(wanted, parent, output, slide), rect(1720, 10, 100, 40));
    let space = PopupConstraintSpace { parent_geometry: parent, output_geometry: output };
    let alone = |wanted: Rect| wanted;
    assert_eq!(configure_xdg_popup(wanted, Some(space), slide, alone), rect(1720, 10, 100, 40));
    assert_eq!(configure_xdg_popup(wanted, None, slide, alone), wanted);
    let outputs = vec![rect(0, 0, 100, 100), rect(100, 0, 100, 100)];
    let found = |r: Rect| output_geometry_for_rectangle(r, &outputs, None);
    assert_eq!(found(rect(90, 0, 40, 40)), Some(outputs[1]));
    assert_eq!(found(rect(150, -90, 40, 100)), Some(outputs[1]));
    assert_eq!(found(rect(500, 500, 10, 10)), None);
    let focused = Some(outputs[0]);
    assert_eq!(
        output_geometry_for_rectangle(rect(500, 500, 10, 10), &outputs, focused),
        focused
    );
    let space = PopupConstraintSpace { parent_geometry: parent, output_geometry: output };
    let nested = popup_constraint_space_for_popup(space, rect(10, 20, 30, 40));
    assert_eq!(nested.parent_geometry, rect(110, 70, 30, 40));
    let layer = LayerParent {
        layer_geometry: rect(0, 0, 1920, 30),
        bbox_loc: Point::new(-5, 0),
        current_size: Some(Size::new(0, 30)),
        cached_size: Size::new(1900, 28),
        output_geometry: output,
    };
    let bar = popup_constraint_space_for_layer_surface(layer);
    assert_eq!(bar.parent_geometry, rect(5, 0, 1900, 28));
    let find = |root: PopupRoot, popups: &Vec<Rect>| {
        popup_constraint_space_for_surface(root, popups, &outputs, None)
    };
    let menus = vec![rect(1, 2, 30, 40), rect(10, 20, 5, 6)];
    let in_window = find(PopupRoot::Window(Some(rect(110, 10, 50, 50))), &menus).expect("a space");
    assert_eq!(in_window.parent_geometry, rect(121, 32, 5, 6));
    assert_eq!(in_window.output_geometry, outputs[1]);
    assert_eq!(find(PopupRoot::Layer(layer), &vec![]), Some(bar));
    assert_eq!(find(PopupRoot::Window(None), &menus), None);
    assert_eq!(find(PopupRoot::Window(Some(rect(900, 900, 9, 9))), &menus), None);
    assert_eq!(find(PopupRoot::Unknown, &menus), None);
}

#[test]
fn tiles_keep_their_gap_and_border() {
    let area = tiling_usable_geometry_for(rect(1920, 0, 1920, 1080), rect(0, 30, 1920, 1050), 8);
    assert_eq!((area.x, area.y, area.width, area.height), (1928, 38, 1904, 1034));
    assert_eq!(
        floating_usable_rect_for(rect(1920, 0, 1920, 1080), rect(0, 30, 1920, 1050)),
        rect(1920, 30, 1920, 1050)
    );
    assert_eq!(effective_inner_gap(800, 600, 8, 2), (8, 8));
    // A cell that is too small for the gap gives up some of it.
    assert_eq!(effective_inner_gap(12, 600, 8, 2), (3, 8));
    assert_eq!(effective_inner_gap(4, 1, 8, 2), (0, 0));
    let cell = Geometry { x: 0, y: 0, width: 800, height: 5 };
    assert_eq!(configured_tiled_size(cell, 8, 2), Size::new(780, 1));
}

#[test]
fn a_dialog_gets_the_size_it_asks_for() {
    let usable = rect(0, 0, 1200, 900);
    let hints = |max: Size, bbox: Size, geometry: Size, min: Size| SizeHints {
        min_size: min,
        max_size: max,
        bbox_size: bbox,
        geo_size: geometry,
    };
    let none = Size::new(0, 0);
    let size = |h: SizeHints| centered_floating_data(usable, None, h).size;
    assert_eq!(size(hints(Size::new(500, 400), none, none, none)), Size::new(500, 400));
    assert_eq!(size(hints(none, Size::new(300, 200), none, none)), Size::new(300, 200));
    assert_eq!(size(hints(none, usable.size, Size::new(310, 210), none)), Size::new(310, 210));
    assert_eq!(size(hints(none, none, none, none)), Size::new(400, 300));
    assert_eq!(
        size(hints(none, Size::new(300, 200), none, Size::new(350, 2000))),
        Size::new(350, 900)
    );
    let data = centered_floating_data(
        usable,
        None,
        hints(none, Size::new(300, 200), none, none),
    );
    assert_eq!(data.position, Point::new(450, 350));
    let half = half_output_placement(rect(10, 20, 801, 600));
    assert_eq!(half, FloatingWindowData::new(Point::new(210, 170), Size::new(400, 300)));
}

#[test]
fn tiled_and_floating_windows_are_told_apart() {
    let mut workspace = Workspace::new();
    for id in [1, 2, 3] {
        workspace.add_window(window(id));
    }
    workspace.fullscreen = Some(window(3));
    workspace.focused_idx = Some(0);
    let workspaces = vec![workspace];
    let mut floating: SurfaceMap<FloatingWindowData> = SurfaceMap::new();
    floating.insert(2, FloatingWindowData::new(Point::new(0, 0), Size::new(9, 9)));
    assert_eq!(tiled_windows_in_workspace(&workspaces, &floating, 0), vec![window(1)]);
    assert_eq!(tiled_window_roots_in_workspace(&workspaces, &floating, 0), vec![1]);
    assert_eq!(
        floating_windows_to_raise(&workspaces[0].windows, &floating),
        vec![window(2)]
    );
    assert!(is_root_fullscreen(&workspaces, 3) && !is_root_fullscreen(&workspaces, 1));
    assert_eq!(focused_tiled_window_root(&workspaces, &floating, 0, None), Some(1));
    assert_eq!(focused_tiled_window_root(&workspaces, &floating, 0, Some(2)), None);
    assert_eq!(focused_tiled_window_root(&workspaces, &floating, 0, Some(9)), Some(1));
}

#[test]
fn workspaces_keep_their_focus_when_a_window_leaves() {
    let mut workspace = Workspace::new();
    for id in [1u64, 2, 3] {
        workspace.add_window(id);
    }
    workspace.focused_idx = Some(2);
    assert_eq!(workspace.remove_window(0), Some(1));
    assert_eq!(workspace.focused_idx, Some(1));
    assert_eq!(workspace.remove_window(1), Some(3));
    assert_eq!(workspace.focused_idx, Some(0));
    assert_eq!(workspace.remove_window(5), None);
    assert_eq!(workspace.remove_window(0), Some(2));
    assert_eq!(workspace.focused_idx, None);
    workspace.focus_next();
    assert_eq!(workspace.focused_idx, None);
    workspace.add_window(7);
    workspace.add_window(8);
    workspace.focus_prev();
    assert_eq!(workspace.focused_idx, Some(0));
    workspace.focus_prev();
    assert_eq!(workspace.focused_idx, Some(1));
    workspace.focus_next();
    assert_eq!(workspace.focused_idx, Some(0));
}

#[test]
fn a_game_as_large_as_the_output_owns_the_screen() {
    let output = Some(rect(0, 0, 800, 600));
    assert!(rectangle_covers_output(rect(0, 0, 800, 600), output));
    assert!(!rectangle_covers_output(rect(1, 0, 800, 600), output));
    assert!(!rectangle_covers_output(rect(0, 0, 800, 600), None));
    let game = SceneOwner { x11: true, geometry: Some(rect(0, 0, 800, 600)) };
    let native = SceneOwner { x11: false, ..game };
    assert!(screen_owned_by_window(None, &vec![game], output));
    assert!(!screen_owned_by_window(None, &vec![native], output));
    assert!(screen_owned_by_window(Some(false), &vec![], output));
}

#[test]
fn a_border_is_the_ring_round_its_window() {
    let geo = rect(100, 100, 200, 50);
    assert_eq!(expand_by_border(geo, 3), rect(97, 97, 206, 56));
    let strips = border_strips(geo, 3);
    let area: i32 = strips.iter().map(|s| s.size.w * s.size.h).sum();
    assert_eq!(area, 206 * 56 - 200 * 50);
    assert!(border_strips(geo, 0).is_empty());
    assert!(window_border_overlaps_layer(geo, rect(98, 0, 1, 200), 3));
    assert!(!window_border_overlaps_layer(geo, rect(120, 110, 20, 20), 3));
    assert!(has_layer_surface_overlapping_borders(
        &vec![None, Some(geo)],
        &vec![None, Some(rect(0, 0, 1920, 98))],
        3
    ));
    assert!(!has_layer_surface_overlapping_borders(
        &vec![Some(geo)],
        &vec![Some(rect(0, 0, 1920, 30))],
        3
    ));
}

#[test]
fn floating_windows_cover_the_borders_behind_them() {
    let behind = BorderWindow {
        geometry: Some(rect(0, 0, 100, 100)),
        root: Some(1),
        toplevel: Some(1),
        floating: false,
    };
    let front = BorderWindow {
        geometry: Some(rect(50, 50, 20, 20)),
        root: Some(2),
        toplevel: Some(2),
        floating: true,
    };
    let hidden = BorderWindow { geometry: None, ..front };
    let borders = plan_borders(&vec![behind, hidden, front], &vec![], 2, Some(2), None, Some(1));
    assert_eq!(borders.len(), 2);
    assert_eq!(borders[0].occluders, vec![rect(48, 48, 24, 24)]);
    assert!(borders[0].highlighted && borders[1].highlighted);
    assert!(borders[1].occluders.is_empty());
    assert!(plan_borders(&vec![behind], &vec![], 0, None, None, None).is_empty());
    let bar = vec![Some(rect(0, -30, 100, 30))];
    assert!(plan_borders(&vec![behind], &bar, 2, None, None, None).is_empty());

    assert!(border_elements(&vec![behind], &bar, 2, None, None, None).is_empty());
    let over = BorderWindow { geometry: Some(rect(90, 40, 40, 20)), ..front };
    let fragments = border_elements(&vec![behind, over], &vec![], 2, Some(2), None, None);
    let seen: Vec<_> = fragments.iter().map(|f| (f.rect, f.highlighted)).collect();
    assert_eq!(
        seen,
        vec![
            (rect(-2, -2, 104, 2), false),
            (rect(-2, 100, 104, 2), false),
            (rect(-2, 0, 2, 100), false),
            (rect(100, 0, 2, 38), false),
            (rect(100, 62, 2, 38), false),
            (rect(88, 38, 44, 2), true),
            (rect(88, 60, 44, 2), true),
            (rect(88, 40, 2, 20), true),
            (rect(130, 40, 2, 20), true),
        ]
    );
    assert!(visible_border_rectangles(rect(0, 0, 10, 10), 0, &vec![]).is_empty());
    assert_eq!(
        visible_border_rectangles(rect(0, 0, 10, 10), 1, &vec![rect(-5, -5, 50, 50)]),
        vec![]
    );
    assert!(root_is_swap_highlighted(&5u64, Some(&5), None));
    assert!(root_is_swap_highlighted(&5u64, None, Some(&5)));
    assert!(!root_is_swap_highlighted(&5u64, Some(&6), None));
}

#[test]
fn cutting_a_hole_leaves_the_four_sides() {
    assert_eq!(
        subtract_rects(rect(0, 0, 10, 10), &vec![rect(3, 4, 2, 3)]),
        vec![rect(0, 0, 10, 4), rect(0, 4, 3, 3), rect(5, 4, 5, 3), rect(0, 7, 10, 3)]
    );
    assert_eq!(
        subtract_rects(rect(0, 0, 10, 10), &vec![rect(10, 0, 5, 5)]),
        vec![rect(0, 0, 10, 10)]
    );
    assert!(subtract_rects(rect(0, 0, 10, 10), &vec![rect(0, 0, 10, 6), rect(-1, 6, 20, 20)])
        .is_empty());
    // What a cut leaves whole comes before the parts of what it cuts.
    assert_eq!(
        subtract_rects(rect(0, 0, 10, 10), &vec![rect(0, 4, 10, 2), rect(0, 0, 4, 1)]),
        vec![rect(0, 6, 10, 4), rect(4, 0, 6, 1), rect(0, 1, 10, 3)]
    );
}

#[test]
fn a_locked_session_shows_its_lock_surface_only() {
    assert_eq!(element_order(true, true), vec![ElementGroup::Cursor, ElementGroup::LockSurface]);
    assert_eq!(
        element_order(false, false),
        vec![
            ElementGroup::LayersAbove,
            ElementGroup::Borders,
            ElementGroup::Windows,
            ElementGroup::LayersBelow,
        ]
    );
    assert_eq!(clear_color(true), ClearColor::Black);
    assert_eq!(clear_color(false), ClearColor::DarkGrey);
}

#[test]
fn windows_are_drawn_from_the_front() {
    let region = rect(1000, 0, 800, 600);
    let plain = SceneWindow {
        visual: None,
        bbox: rect(1100, 50, 100, 100),
        location: Some(Point::new(1110, 60)),
        geometry_loc: Point::new(10, 10),
    };
    assert_eq!(
        window_drawing(plain, region),
        WindowDrawing::Plain { at: Point::new(100, 50) }
    );
    let elsewhere = SceneWindow { bbox: rect(0, 0, 50, 50), ..plain };
    assert_eq!(window_drawing(elsewhere, region), WindowDrawing::Skip);
    let animated = SceneWindow {
        visual: Some(VisualRect { rect: rect(1200, 10, 30, 30), reveal: true }),
        ..plain
    };
    let drawn = window_drawings(&vec![plain, animated], region);
    assert_eq!(
        drawn,
        vec![
            WindowDrawing::Animated { rect: rect(200, 10, 30, 30), reveal: true },
            WindowDrawing::Plain { at: Point::new(100, 50) },
        ]
    );
}

#[test]
fn the_full_screen_covers_the_upper_layers() {
    assert_eq!(
        layers_rendered_above_windows(false),
        vec![WlrLayer::Overlay, WlrLayer::Top]
    );
    assert_eq!(
        layers_rendered_below_windows(false),
        vec![WlrLayer::Bottom, WlrLayer::Background]
    );
    for fullscreen in [false, true] {
        let mut all = layers_rendered_above_windows(fullscreen);
        all.extend(layers_rendered_below_windows(fullscreen));
        assert_eq!(all.len(), 4);
        let mut hit = layers_hit_tested_before_windows(fullscreen);
        hit.extend(layers_hit_tested_after_windows(fullscreen));
        assert_eq!(hit.len(), if fullscreen { 0 } else { 4 });
    }
    assert!(layers_rendered_above_windows(true).is_empty());
}
