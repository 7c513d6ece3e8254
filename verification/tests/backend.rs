use beewm::backend::connectors::{
    auto_x, connected_connectors, connector_mode, finish_enumeration, plan_connector,
    ConnectorInfo, Enumeration,
};
use beewm::backend::device::{
    configure_device, current_vt, dispatch_timeout_ms, dmabuf_setup, fallback_runtime_dir,
    is_nvidia_drm_device, main_device, nested_frame_done, presentation_stamp,
    render_due, use_explicit_sync, warn_if_nvidia_modeset_disabled, DeviceAbilities, DeviceIds,
    DeviceSetting, DmabufSetup, ModesetAdvice, NestedOutcome, ParameterRead, VblankMetadata,
};
use beewm::backend::frames::{retry_delay_for_frame_failure, FrameStats, FrameStatsSample};
use beewm::backend::modes::{
    config_for_output, connector_name, find_crtc_for_connector, find_mode_for_spec, output_mode,
    output_modes_for, resolve_connector_mode, select_connector_mode, DisplayMode, OutputMode,
};
use beewm::backend::surfaces::{
    ActivationStep, Callbacks, FrameOutcome, GpuData, ModesetRefusal, Rebuild, SurfaceData, SurfacePlan, Turn,
};
use beewm::config::{OutputConfig, OutputModeSpec};
use beewm::geometry::{Point, Rect, Size};

const MS: u64 = 1_000_000;
const SEC: u64 = 1_000 * MS;

fn mode(width: u16, height: u16, vrefresh: u32, preferred: bool) -> DisplayMode {
    DisplayMode { width, height, vrefresh, preferred }
}

fn spec(width: i32, height: i32, refresh: Option<u32>) -> OutputModeSpec {
    OutputModeSpec { width, height, refresh }
}

fn config(name: &str) -> OutputConfig {
    OutputConfig { name: name.to_string(), enabled: true, mode: None, position: None }
}

fn modes() -> Vec<DisplayMode> {
    vec![
        mode(1280, 720, 60, false),
        mode(1920, 1080, 60, true),
        mode(1920, 1080, 144, false),
        mode(1920, 1080, 60, false),
    ]
}

fn connector(handle: u64, id: u32) -> ConnectorInfo {
    ConnectorInfo {
        connector: handle,
        interface: String::from("DisplayPort"),
        interface_id: id,
        connected: true,
        modes: modes(),
        encoders: vec![None, Some(vec![40, 41])],
    }
}

#[test]
fn connectors_have_short_names() {
    assert_eq!(connector_name("DisplayPort", 3), "DP-3");
    assert_eq!(connector_name("HDMIA", 1), "HDMI-A-1");
    assert_eq!(connector_name("HDMIB", 2), "HDMI-B-2");
    assert_eq!(connector_name("EmbeddedDisplayPort", 1), "eDP-1");
    assert_eq!(connector_name("DVID", 1), "DVI-D-1");
    assert_eq!(connector_name("DVII", 1), "DVI-I-1");
    assert_eq!(connector_name("DVIA", 1), "DVI-A-1");
    assert_eq!(connector_name("VGA", 10), "VGA-10");
    assert_eq!(connector_name("Writeback", 1), "Writeback-1");
}

#[test]
fn the_first_configuration_of_a_name_counts() {
    let mut second = config("DP-1");
    second.enabled = false;
    let configs = vec![config("DP-2"), config("DP-1"), second];
    assert!(config_for_output(&configs, "DP-1").expect("configured").enabled);
    assert!(config_for_output(&configs, "dp-1").is_none());
}

#[test]
fn a_mode_is_found_by_size_and_rate() {
    let all = modes();
    assert_eq!(find_mode_for_spec(&all, spec(1920, 1080, None)), Some(all[1]));
    assert_eq!(find_mode_for_spec(&all, spec(1920, 1080, Some(144))), Some(all[2]));
    assert_eq!(find_mode_for_spec(&all, spec(1920, 1080, Some(75))), None);
    assert_eq!(find_mode_for_spec(&all, spec(800, 600, None)), None);
}

#[test]
fn a_display_is_driven_with_its_preferred_mode() {
    let all = modes();
    assert_eq!(select_connector_mode(&all, None), Some(all[1]));
    assert_eq!(select_connector_mode(&all, Some(144)), Some(all[2]));
    assert_eq!(select_connector_mode(&all, Some(75)), Some(all[1]));
    assert_eq!(select_connector_mode(&vec![], Some(60)), None);
    let none_preferred = vec![mode(800, 600, 60, false), mode(1024, 768, 60, false)];
    assert_eq!(select_connector_mode(&none_preferred, None), Some(none_preferred[0]));
    let named = Some(spec(1280, 720, None));
    assert_eq!(resolve_connector_mode(&all, named, Some(144)), Some(all[0]));
    let missing = Some(spec(640, 480, None));
    assert_eq!(resolve_connector_mode(&all, missing, Some(144)), Some(all[2]));
}

#[test]
fn the_menu_lists_modes_from_the_largest_down() {
    let current = OutputMode { size: Size::new(1920, 1080), refresh: 143_999 };
    let listed = output_modes_for(&modes(), Some(current));
    assert_eq!(
        listed.available,
        vec![
            spec(1920, 1080, Some(144)),
            spec(1920, 1080, Some(60)),
            spec(1280, 720, Some(60)),
        ]
    );
    assert_eq!(listed.current, Some(spec(1920, 1080, Some(143))));
    assert_eq!(output_modes_for(&vec![], None).current, None);
    let carried = output_mode(mode(1920, 1080, 144, true));
    assert_eq!(carried, OutputMode { size: Size::new(1920, 1080), refresh: 144_000 });
}

#[test]
fn a_crtc_drives_one_connector() {
    let encoders = vec![None, Some(vec![1, 2]), Some(vec![3])];
    assert_eq!(find_crtc_for_connector(&encoders, &vec![]), Some(1));
    assert_eq!(find_crtc_for_connector(&encoders, &vec![1]), Some(2));
    assert_eq!(find_crtc_for_connector(&encoders, &vec![2, 1]), Some(3));
    assert_eq!(find_crtc_for_connector(&encoders, &vec![3, 2, 1]), None);
}

#[test]
fn outputs_are_put_side_by_side() {
    let mut search = Enumeration::new();
    let configs = vec![];
    let first = search.consider(&connector(1, 1), &configs, None).expect("a plan");
    assert_eq!(first.crtc, 40);
    assert_eq!(first.position, Point::new(0, 0));
    search.surface_built(first, 100, true, 0);
    let second = search.consider(&connector(2, 2), &configs, None).expect("a plan");
    assert_eq!(second.crtc, 41);
    assert_eq!(second.position, Point::new(1920, 0));
    search.surface_built(second, 200, true, 0);
    // No CRTC is left.
    assert_eq!(search.consider(&connector(3, 3), &configs, None), None);
    let gpu = finish_enumeration(search).expect("a device");
    assert_eq!(gpu.surfaces.len(), 2);
    assert_eq!(gpu.surfaces[1].output, 200);
    assert!(gpu.surfaces[1].can_render);
    assert!(finish_enumeration(Enumeration::new()).is_none());
}

#[test]
fn one_output_is_enough_by_default() {
    let mut search = Enumeration::new();
    let first = search.consider(&connector(1, 1), &vec![], None).expect("a plan");
    search.surface_built(first, 100, false, 0);
    assert_eq!(search.consider(&connector(2, 2), &vec![], None), None);
}

#[test]
fn the_configuration_places_and_disables_outputs() {
    let mut placed = config("DP-1");
    placed.position = Some((-500, 20));
    placed.mode = Some(spec(1280, 720, None));
    let mut disabled = config("DP-2");
    disabled.enabled = false;
    let configs = vec![placed, disabled];
    let plan = plan_connector(&connector(1, 1), &configs, None, &vec![], 300).expect("a plan");
    assert_eq!(plan.position, Point::new(-500, 20));
    assert_eq!(plan.mode, modes()[0]);
    assert_eq!(plan_connector(&connector(2, 2), &configs, None, &vec![], 300), None);
    let free = plan_connector(&connector(3, 3), &configs, None, &vec![], 300).expect("a plan");
    assert_eq!(free.position, Point::new(300, 0));
    let unplugged = ConnectorInfo { connected: false, ..connector(3, 3) };
    assert_eq!(plan_connector(&unplugged, &configs, None, &vec![], 0), None);
    assert_eq!(connector_mode(&connector(1, 1), &configs, Some(144)), Some(modes()[0]));
    assert_eq!(connector_mode(&connector(3, 3), &configs, Some(144)), Some(modes()[2]));
}

fn surface(connector: u64, crtc: u64, output: u64) -> SurfaceData {
    let mode = OutputMode { size: Size::new(800, 600), refresh: 60_000 };
    SurfaceData::new(connector, crtc, output, Point::new(0, 0), mode, 0)
}

#[test]
fn displays_are_plugged_in_and_out() {
    let mut gpu = GpuData { surfaces: vec![surface(1, 40, 100), surface(2, 41, 200)] };
    let infos = vec![
        ConnectorInfo { connected: false, ..connector(1, 1) },
        connector(2, 2),
        connector(3, 3),
    ];
    let connected = connected_connectors(&infos);
    assert_eq!(connected, vec![2, 3]);
    assert_eq!(gpu.drop_disconnected(&connected), vec![100]);
    assert_eq!(gpu.used_crtcs(), vec![41]);
    assert!(gpu.drives(2) && !gpu.drives(1));
    let geometries = vec![Some(Rect::new(Point::new(100, 0), Size::new(800, 600))), None];
    let right = auto_x(&geometries);
    assert_eq!(right, 900);
    assert_eq!(auto_x(&vec![None]), 0);
    assert_eq!(gpu.plan_hotplug(&infos[1], &vec![], None, right), None);
    let plan = gpu.plan_hotplug(&infos[2], &vec![], None, right).expect("a plan");
    assert_eq!((plan.crtc, plan.position), (40, Point::new(900, 0)));
    gpu.add_surface(plan, 300, 5);
    assert_eq!(gpu.used_crtcs(), vec![41, 40]);
}

#[test]
fn an_output_waits_for_its_vblank() {
    let mut gpu = GpuData { surfaces: vec![surface(1, 40, 100), surface(2, 41, 200)] };
    gpu.surfaces[1].can_render = false;
    let (render, again) = gpu.render_frame(MS);
    assert_eq!(render, vec![0]);
    assert!(again);
    assert!(!gpu.surfaces[0].can_render);
    let reply = gpu.surfaces[0].finish_frame(FrameOutcome::Queued, MS, false);
    assert_eq!(reply.callbacks, Callbacks::Throttled);
    assert!(reply.collect_feedback && !reply.needs_render);
    assert!(gpu.surfaces[0].feedback_pending);
    let (render, _) = gpu.render_frame(2 * MS);
    assert!(render.is_empty());

    let reply = gpu.vblank(40, 17 * MS, true).expect("an output");
    assert_eq!(reply.output, 100);
    assert!(reply.present_feedback && reply.send_callbacks);
    assert_eq!(reply.interval_us, 16_666);
    assert!(gpu.surfaces[0].can_render && !gpu.surfaces[0].feedback_pending);
    assert_eq!(gpu.vblank(99, 17 * MS, false), None);
}

#[test]
fn an_empty_frame_needs_no_vblank() {
    let mut output = surface(1, 40, 100);
    assert_eq!(output.take_turn(0), Turn::Render);
    let reply = output.finish_frame(FrameOutcome::Empty, 0, true);
    assert_eq!(reply.callbacks, Callbacks::Throttled);
    assert!(output.can_render);
    assert_eq!(output.take_turn(0), Turn::Render);
    let reply = output.finish_frame(FrameOutcome::Queued, 0, true);
    assert_eq!(reply.callbacks, Callbacks::AtVblank);
    let mut gone = surface(1, 40, 100);
    gone.has_compositor = false;
    assert_eq!(gone.take_turn(0), Turn::Idle);
}

#[test]
fn failures_are_retried_ever_more_slowly() {
    let delays: Vec<u64> =
        (0..9u32).map(|failures| retry_delay_for_frame_failure(failures) / MS).collect();
    assert_eq!(delays, vec![100, 100, 200, 400, 800, 1600, 2000, 2000, 2000]);

    let mut output = surface(1, 40, 100);
    assert_eq!(output.take_turn(0), Turn::Render);
    let reply = output.finish_frame(FrameOutcome::Failed, 0, false);
    assert_eq!(reply.callbacks, Callbacks::Unthrottled);
    assert!(reply.needs_render);
    assert_eq!(output.retry_after, Some(100 * MS));
    assert_eq!(output.take_turn(99 * MS), Turn::Wait);
    assert_eq!(output.take_turn(100 * MS), Turn::Render);
    output.finish_frame(FrameOutcome::Failed, 100 * MS, false);
    assert_eq!(output.retry_after, Some(300 * MS));
    assert_eq!(output.consecutive_frame_failures, 2);
    output.record_frame_success();
    assert_eq!((output.retry_after, output.consecutive_frame_failures), (None, 0));
}

#[test]
fn a_device_sleeps_and_wakes() {
    let mut gpu = GpuData { surfaces: vec![surface(1, 40, 100), surface(2, 41, 200)] };
    gpu.pause_drm();
    assert!(gpu.surfaces.iter().all(|s| !s.can_render && s.retry_after.is_none()));
    assert_eq!(gpu.render_frame(0), (vec![], true));
    assert_eq!(gpu.device_activated(false, true, true, SEC), ActivationStep::GiveUp);
    assert_eq!(gpu.surfaces[0].retry_after, Some(3 * SEC));
    assert_eq!(gpu.device_activated(true, true, true, SEC), ActivationStep::Reset);
    assert_eq!(gpu.device_activated(true, true, false, SEC), ActivationStep::Rebuild);
    assert_eq!(gpu.device_activated(true, false, true, SEC), ActivationStep::Rebuild);
    assert_eq!(gpu.device_reset(true, SEC), ActivationStep::Rebuild);
    assert_eq!(gpu.device_reset(false, 2 * SEC), ActivationStep::GiveUp);
    assert_eq!(gpu.surfaces[1].retry_after, Some(4 * SEC));
    assert!(!gpu.finish_activation(&vec![Rebuild::Done, Rebuild::Lost], SEC));
    assert!(gpu.surfaces[0].can_render && !gpu.surfaces[1].can_render);
    assert!(!gpu.surfaces[1].has_compositor);
    assert!(!gpu.finish_activation(&vec![Rebuild::Done, Rebuild::Kept], SEC));
    assert!(gpu.finish_activation(&vec![Rebuild::Done, Rebuild::Done], SEC));
    assert!(gpu.surfaces.iter().all(|s| s.has_compositor && s.can_render));
    gpu.pause_drm();
    assert!(!gpu.set_dpms(false));
    assert!(!gpu.surfaces[0].can_render);
    assert!(gpu.set_dpms(true));
    assert!(gpu.surfaces[0].can_render);
}

#[test]
fn a_mode_is_changed_only_where_it_can_be() {
    let mut gpu = GpuData { surfaces: vec![surface(1, 40, 100)] };
    let offered = modes();
    let wanted = spec(1920, 1080, Some(144));
    let refused = |r: Result<SurfacePlan, ModesetRefusal>| r.expect_err("refused");
    assert_eq!(
        refused(gpu.begin_modeset(false, 100, Some(&offered), wanted)),
        ModesetRefusal::GatedOff
    );
    assert_eq!(
        refused(gpu.begin_modeset(true, 9, Some(&offered), wanted)),
        ModesetRefusal::NoSurface
    );
    assert_eq!(refused(gpu.begin_modeset(true, 100, None, wanted)), ModesetRefusal::NoConnector);
    let missing = spec(640, 480, None);
    assert_eq!(
        refused(gpu.begin_modeset(true, 100, Some(&offered), missing)),
        ModesetRefusal::NotOffered
    );
    assert_eq!(gpu.surfaces.len(), 1);
    let plan = gpu.begin_modeset(true, 100, Some(&offered), wanted).expect("a plan");
    assert_eq!((plan.connector, plan.crtc, plan.mode), (1, 40, offered[2]));
    assert!(gpu.surfaces.is_empty());
    gpu.add_surface(plan, 100, 7);
    assert_eq!(gpu.surfaces[0].mode.refresh, 144_000);
    assert_eq!(gpu.surfaces[0].output, 100);
}

#[test]
fn frames_are_counted_and_reported_once_a_second() {
    let mut stats = FrameStats::new(0);
    let sample = FrameStatsSample {
        render_time: 3 * MS,
        is_scanout: false,
        is_empty: false,
        overlay_count: 2,
        cursor_plane_used: true,
    };
    assert_eq!(stats.record_frame_stats(sample, MS), (true, None));
    assert_eq!(stats.record_frame_stats(sample, 2 * MS), (false, None));
    let scanout = FrameStatsSample {
        render_time: 9 * MS,
        is_scanout: true,
        is_empty: true,
        overlay_count: 0,
        cursor_plane_used: false,
    };
    let (changed, report) = stats.record_frame_stats(scanout, SEC);
    let report = report.expect("a report");
    assert!(changed);
    assert_eq!((report.frames, report.scanout, report.composition), (3, 1, 2));
    assert_eq!((report.empty, report.overlay, report.cursor_plane), (1, 2, 2));
    assert_eq!((report.avg_render_us, report.max_render_us), (5_000, 9_000));
    let started = FrameStats { last_primary_was_scanout: Some(true), ..FrameStats::new(SEC) };
    assert_eq!(stats, started);
    // The path is remembered over the end of a window.
    assert_eq!(stats.record_frame_stats(scanout, SEC + MS), (false, None));
    assert_eq!(stats.record_frame_stats(sample, SEC + 2 * MS), (true, None));
}

#[test]
fn the_terminal_is_read_from_its_name() {
    assert_eq!(current_vt(Some("tty1\n")), Some(1));
    assert_eq!(current_vt(Some(" tty12 ")), Some(12));
    assert_eq!(current_vt(Some("tty-3")), Some(-3));
    assert_eq!(current_vt(Some("tty+4")), Some(4));
    assert_eq!(current_vt(Some("tty")), None);
    assert_eq!(current_vt(Some("tty-+3")), None);
    assert_eq!(current_vt(Some("tty2147483648")), None);
    assert_eq!(current_vt(Some("tty-2147483648")), Some(i32::MIN));
    assert_eq!(current_vt(Some("ttyS0")), None);
    assert_eq!(current_vt(Some("pts/1")), None);
    assert_eq!(current_vt(None), None);
}

#[test]
fn the_user_is_told_of_a_driver_that_sets_no_modes() {
    let modules = Some("ext4 1 2\nnvidia_drm 77824 0\n");
    let value = |text: &str| ParameterRead::Value(text.to_string());
    assert!(matches!(
        warn_if_nvidia_modeset_disabled(modules, &value("Y\n")),
        ModesetAdvice::Fine
    ));
    match warn_if_nvidia_modeset_disabled(modules, &value(" N\n")) {
        ModesetAdvice::Disabled(shown) => assert_eq!(shown, "N"),
        other => panic!("{other:?}"),
    }
    assert!(matches!(
        warn_if_nvidia_modeset_disabled(modules, &ParameterRead::Denied),
        ModesetAdvice::Unreadable
    ));
    assert!(matches!(
        warn_if_nvidia_modeset_disabled(modules, &ParameterRead::Missing),
        ModesetAdvice::Fine
    ));
    let without = Some("nvidia_drm_helper 1\nx nvidia_drm 1\n");
    assert!(matches!(
        warn_if_nvidia_modeset_disabled(without, &ParameterRead::Denied),
        ModesetAdvice::Fine
    ));
    assert!(matches!(
        warn_if_nvidia_modeset_disabled(None, &value("N")),
        ModesetAdvice::Fine
    ));
}

#[test]
fn explicit_sync_is_off_on_nvidia() {
    assert!(is_nvidia_drm_device(Some(("NVIDIA-drm", ""))));
    assert!(is_nvidia_drm_device(Some(("other", "made by nVidia corp"))));
    assert!(!is_nvidia_drm_device(Some(("i915", "Intel Graphics"))));
    assert!(!is_nvidia_drm_device(None));
    assert!(use_explicit_sync(false, false, true));
    assert!(!use_explicit_sync(true, false, true));
    assert!(!use_explicit_sync(false, true, true));
    assert!(!use_explicit_sync(false, false, false));
}

#[test]
fn clients_are_told_of_the_render_node() {
    let ids = DeviceIds { node: Some(1), render_node: Some(2), file: Some(3) };
    assert_eq!(main_device(ids), Some(2));
    assert_eq!(main_device(DeviceIds { render_node: None, ..ids }), Some(1));
    let file_only = DeviceIds { node: None, ..ids };
    assert_eq!(main_device(file_only), Some(3));
    assert_eq!(dmabuf_setup(ids, true, false), DmabufSetup::Feedback { main_device: 2 });
    assert_eq!(dmabuf_setup(ids, false, false), DmabufSetup::Legacy);
    let unknown = DeviceIds { node: None, render_node: None, file: None };
    assert_eq!(dmabuf_setup(unknown, true, false), DmabufSetup::Legacy);
    assert_eq!(dmabuf_setup(ids, true, true), DmabufSetup::Off);
}

#[test]
fn the_main_loop_sleeps_as_long_as_it_may() {
    assert_eq!(dispatch_timeout_ms(true, false), 1);
    assert_eq!(dispatch_timeout_ms(false, true), 16);
    assert_eq!(dispatch_timeout_ms(false, false), 100);
    assert!(render_due(true, true, false));
    assert!(!render_due(true, true, true) && !render_due(false, true, false));
    assert_eq!(fallback_runtime_dir(1000), "/run/user/1000");
}

#[test]
fn touchpads_are_configured() {
    let touchpad = DeviceAbilities {
        tap_finger_count: 3,
        two_finger_scroll: true,
        natural_scroll: true,
    };
    assert_eq!(
        configure_device(touchpad, true, false),
        vec![
            DeviceSetting::TapToClick(true),
            DeviceSetting::TwoFingerScroll,
            DeviceSetting::NaturalScroll(false),
        ]
    );
    let mouse = DeviceAbilities { tap_finger_count: 0, ..touchpad };
    assert!(configure_device(mouse, true, true).is_empty());
}

#[test]
fn presentations_carry_the_time_of_the_kernel() {
    let known = VblankMetadata { monotonic: Some(5), sequence: 9 };
    assert_eq!(presentation_stamp(Some(known), 77), (5, 9));
    let other_clock = VblankMetadata { monotonic: None, sequence: 9 };
    assert_eq!(presentation_stamp(Some(other_clock), 77), (77, 9));
    assert_eq!(presentation_stamp(None, 77), (77, 0));
}

#[test]
fn a_nested_frame_counts_once_it_is_handed_over() {
    assert_eq!(nested_frame_done(NestedOutcome::Failed, 4), (false, None));
    assert_eq!(nested_frame_done(NestedOutcome::Undamaged, 4), (true, None));
    let handed = NestedOutcome::Damaged { submitted: true };
    assert_eq!(nested_frame_done(handed, 4), (true, Some(5)));
    assert_eq!(nested_frame_done(handed, u64::MAX), (true, Some(0)));
    let lost = NestedOutcome::Damaged { submitted: false };
    assert_eq!(nested_frame_done(lost, 4), (false, None));
}
