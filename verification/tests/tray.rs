use std::collections::HashMap;

use beewm::config::OutputModeSpec;
use beewm::state::session::{
    resolve_tray_enabled, sync_tray, BackendRequest, TrayPlan, TraySettings,
};
use beewm::tray::layout::{build_layout_tree, layout_for_request, DbusMenu, LayoutNode, MenuNode};
use beewm::tray::{
    build_menu_items, format_duration, mode_menu, settings_pixmap, MenuAction, MenuItem,
    MenuItemKind, ModeMenu, OutputModes, ICON_SIZE,
};
use zbus::zvariant::serialized::Context;
use zbus::zvariant::{to_bytes, Endian, OwnedValue, StructureBuilder, Type, Value};

type MenuNodeReturn = (i32, HashMap<String, OwnedValue>, Vec<OwnedValue>);

fn as_return(node: MenuNode) -> MenuNodeReturn {
    let props = node.props.into_iter().map(|prop| (prop.name, prop.value)).collect();
    (node.id, props, node.children)
}

fn text(value: &str) -> OwnedValue {
    OwnedValue::try_from(Value::from(value)).expect("a text")
}

fn flag(value: bool) -> OwnedValue {
    OwnedValue::try_from(Value::from(value)).expect("a flag")
}

fn submenu<'a>(items: &'a [MenuItem], label: &str) -> &'a [MenuItem] {
    let item = items
        .iter()
        .find(|item| item.label == label)
        .unwrap_or_else(|| panic!("missing submenu {label}"));
    match &item.kind {
        MenuItemKind::Submenu(items) => items,
        _ => panic!("{label} is not a submenu"),
    }
}

#[test]
fn layout_matches_dbusmenu_wire_format() {
    assert_eq!(
        <(u32, MenuNodeReturn) as Type>::signature().to_string(),
        "(u(ia{sv}av))"
    );

    let items = build_menu_items(None, 4, 600);
    let (node, actions) = layout_for_request(&items, 0, -1, &vec![]);
    // Sign out is always present; disabled placeholders are not actions.
    assert!(actions.values().any(|a| *a == MenuAction::SignOut));

    let ret: (u32, MenuNodeReturn) = (1, as_return(node));
    let ctxt = Context::new_dbus(Endian::Little, 0);
    let bytes = to_bytes(ctxt, &ret).expect("dbusmenu layout encodes");
    assert!(!bytes.is_empty());
}

#[test]
fn disabled_placeholders_are_visible_but_not_actions() {
    let items = build_menu_items(None, 4, 600);
    let mut actions = HashMap::new();
    let mut next_id = 1;
    let tree = build_layout_tree(&items, &mut next_id, &mut actions);
    let resolution = tree
        .iter()
        .find(|node| node.label == "Resolution")
        .expect("resolution submenu");
    let unavailable = resolution
        .children
        .iter()
        .find(|node| node.label == "Unavailable")
        .expect("unavailable row");

    assert!(!unavailable.enabled);
    assert!(!actions.contains_key(&unavailable.id));
}

#[test]
fn current_gap_and_timeout_are_marked() {
    let items = build_menu_items(None, 8, 300);
    let gaps = submenu(&items, "Gaps");
    assert!(gaps.iter().any(|item| item.label == "8 px ✓"));
    let timeouts = submenu(&items, "Screen timeout");
    assert!(timeouts.iter().any(|item| item.label == "5 min ✓"));
}

#[test]
fn layout_request_can_target_submenu_and_limit_depth() {
    let items = build_menu_items(None, 4, 600);
    let mut actions = HashMap::new();
    let mut next_id = 1;
    let tree = build_layout_tree(&items, &mut next_id, &mut actions);
    let gaps_id = tree
        .iter()
        .find(|node| node.label == "Gaps")
        .expect("gaps submenu")
        .id;

    let (node, _) = layout_for_request(&items, gaps_id, 0, &vec!["label".to_string()]);
    let (id, props, children) = as_return(node);
    assert_eq!(id, gaps_id);
    assert!(props.contains_key("label"));
    assert!(!props.contains_key("enabled"));
    assert!(children.is_empty());
}

#[test]
fn pixmap_is_full_argb_with_white_glyph() {
    let (w, h, data) = settings_pixmap();
    assert_eq!((w, h), (ICON_SIZE, ICON_SIZE));
    assert_eq!(data.len(), (w * h * 4) as usize);
    // Some fully-opaque white pixels make up the glyph, the rest transparent.
    assert!(data.chunks_exact(4).any(|p| p == [0xff, 0xff, 0xff, 0xff]));
    assert!(data.chunks_exact(4).any(|p| p[0] == 0x00));
}

#[test]
fn rows_carry_their_label_and_whether_they_can_be_clicked() {
    let items = build_menu_items(None, 4, 600);
    let sign_out = items.len() as i32;
    let mut actions = HashMap::new();
    let mut next_id = 1;
    let tree = build_layout_tree(&items, &mut next_id, &mut actions);
    let last = &tree[sign_out as usize - 1];
    assert_eq!(actions.get(&last.id), Some(&MenuAction::SignOut));

    let (node, _) = layout_for_request(&items, last.id, -1, &vec![]);
    let (id, props, children) = as_return(node);
    assert_eq!(id, last.id);
    assert_eq!(props.get("label"), Some(&text("Sign out")));
    assert_eq!(props.get("enabled"), Some(&flag(true)));
    assert!(children.is_empty());

    let placeholder = tree[0].children[0].id;
    let (node, _) = layout_for_request(&items, placeholder, -1, &vec![]);
    let (_, props, _) = as_return(node);
    assert_eq!(props.get("enabled"), Some(&flag(false)));
}

#[test]
fn children_are_nodes_of_their_own() {
    let items = vec![MenuItem {
        label: String::from("Sign out"),
        kind: MenuItemKind::Action(MenuAction::SignOut),
    }];
    let (root, _) = layout_for_request(&items, 0, -1, &vec![String::from("label")]);
    let (id, _, children) = as_return(root);
    assert_eq!(id, 0);
    assert_eq!(children.len(), 1);
    let mut props: HashMap<String, OwnedValue> = HashMap::new();
    props.insert(String::from("label"), text("Sign out"));
    let expected = StructureBuilder::new()
        .add_field(1i32)
        .add_field(props)
        .add_field(Vec::<OwnedValue>::new())
        .build();
    assert_eq!(children[0], OwnedValue::try_from(Value::from(expected)).expect("a node"));
}

#[test]
fn unknown_rows_are_answered_with_an_empty_node() {
    let items = build_menu_items(None, 4, 600);
    let (node, actions) = layout_for_request(&items, 9_999, -1, &vec![]);
    let (id, props, children) = as_return(node);
    assert_eq!(id, 9_999);
    assert!(props.is_empty() && children.is_empty());
    assert!(!actions.is_empty());
}

#[test]
fn a_click_does_what_its_row_says() {
    let items = build_menu_items(None, 4, 600);
    let mut menu = DbusMenu::new();
    assert_eq!(menu.event(1, "clicked"), None);
    let (revision, _) = menu.get_layout(&items, 0, -1, &vec![]);
    assert_eq!(revision, 1);
    let (id, _) = menu
        .actions
        .iter()
        .find(|(_, action)| **action == MenuAction::SetGap(8))
        .expect("a gap of eight pixels");
    assert_eq!(menu.event(*id, "clicked"), Some(MenuAction::SetGap(8)));
    assert_eq!(menu.event(*id, "hovered"), None);
}

#[test]
fn rows_are_numbered_in_the_order_in_which_they_are_read() {
    let items = build_menu_items(None, 4, 600);
    let mut actions = HashMap::new();
    let mut next_id = 1;
    let tree = build_layout_tree(&items, &mut next_id, &mut actions);
    let mut seen = Vec::new();
    for node in &tree {
        seen.push(node.id);
        for child in &node.children {
            seen.push(child.id);
        }
    }
    let expected: Vec<i32> = (1..next_id).collect();
    assert_eq!(seen, expected);
    let root = LayoutNode::root(tree);
    assert!(root.is_submenu());
    assert_eq!(root.find(2).expect("the second row").id, 2);
    assert!(root.find(next_id).is_none());
}

#[test]
fn durations_are_named_in_their_largest_unit() {
    assert_eq!(format_duration(0), "Never");
    assert_eq!(format_duration(300), "5 min");
    assert_eq!(format_duration(90), "90 sec");
}

#[test]
fn the_mode_menu_lists_each_choice_once_and_the_largest_first() {
    let mode = |width: i32, height: i32, hz: u32| OutputModeSpec {
        width,
        height,
        refresh: Some(hz),
    };
    let modes = OutputModes {
        available: vec![
            mode(1280, 720, 60),
            mode(1920, 1080, 60),
            mode(1920, 1080, 144),
            mode(1920, 1080, 60),
            mode(1920, 1200, 75),
        ],
        current: Some(mode(1920, 1080, 144)),
    };
    let menu = mode_menu(&modes);
    assert_eq!(menu.resolutions, vec![(1920, 1200), (1920, 1080), (1280, 720)]);
    assert_eq!(menu.refresh_rates, vec![144, 60]);
    assert_eq!(menu.current_res, Some((1920, 1080)));
    assert_eq!(menu.current_hz, Some(144));

    let items = build_menu_items(Some(&menu), 5, 600);
    let resolutions = submenu(&items, "Resolution");
    assert_eq!(resolutions[1].label, "1920x1080 ✓");
    assert_eq!(resolutions[2].label, "1280x720");
    assert_eq!(submenu(&items, "Refresh rate")[0].label, "144 Hz ✓");
    assert!(resolutions.iter().all(|item| matches!(item.kind, MenuItemKind::Action(_))));
    // A gap that is not one of the usual ones is offered too.
    assert!(submenu(&items, "Gaps").iter().any(|item| item.label == "5 px ✓"));
    let empty: ModeMenu = mode_menu(&OutputModes::default());
    assert!(empty.resolutions.is_empty() && empty.refresh_rates.is_empty());
}

#[test]
fn tray_actions_change_the_settings() {
    let mut settings = TraySettings { running: true, gap: 4, screen_timeout: 600 };
    let effects = settings.apply_menu_action(MenuAction::SetGap(8), None, None);
    assert_eq!(settings.gap, 8);
    assert!(effects.relayout && effects.persist && !effects.notify_activity);

    let effects = settings.apply_menu_action(MenuAction::SetScreenTimeout(0), None, None);
    assert_eq!(settings.screen_timeout, 0);
    assert!(!effects.relayout && effects.persist && effects.notify_activity);

    let current = OutputModeSpec { width: 800, height: 600, refresh: Some(60) };
    let effects =
        settings.apply_menu_action(MenuAction::SetRefresh { hz: 75 }, Some(3), Some(current));
    assert_eq!(
        effects.request,
        Some(BackendRequest::SetOutputMode {
            output: 3,
            mode: OutputModeSpec { width: 800, height: 600, refresh: Some(75) },
        })
    );
    let effects =
        settings.apply_menu_action(MenuAction::SetRefresh { hz: 75 }, None, Some(current));
    assert_eq!(effects.request, None);
    let resolution = MenuAction::SetResolution { width: 1024, height: 768 };
    let effects = settings.apply_menu_action(resolution, Some(3), None);
    assert_eq!(
        effects.request,
        Some(BackendRequest::SetOutputMode {
            output: 3,
            mode: OutputModeSpec { width: 1024, height: 768, refresh: None },
        })
    );

    assert!(settings.running);
    settings.apply_menu_action(MenuAction::SignOut, None, None);
    assert!(!settings.running);
}

#[test]
fn the_tray_runs_where_it_should() {
    assert_eq!(sync_tray(true, false, true), TrayPlan::Start);
    assert_eq!(sync_tray(true, false, false), TrayPlan::NoChannel);
    assert_eq!(sync_tray(true, true, true), TrayPlan::Nothing);
    assert_eq!(sync_tray(false, true, true), TrayPlan::Stop);
    assert_eq!(sync_tray(false, false, true), TrayPlan::Nothing);
    assert!(resolve_tray_enabled(false, true) && !resolve_tray_enabled(false, false));
}
