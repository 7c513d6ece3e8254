use beewm::animation::{
    open_start_rect, retarget_from, AnimationConfig, AnimationManager, Easing, WindowAnimation,
    WindowAnimationKind,
};
use beewm::geometry::{Point, Rect, Size};
use beewm::state::placement::TilePlacement;
use beewm::state::relayout::{suppress_animations, visual_geometry, Repaint};
use beewm::types::WindowRef;

const MS: u64 = 1_000_000;

fn rect(x: i32, y: i32, w: i32, h: i32) -> Rect {
    Rect::new(Point::new(x, y), Size::new(w, h))
}

fn config() -> AnimationConfig {
    AnimationConfig {
        enable_animations: true,
        window_open_animation: true,
        window_close_animation: true,
        layout_animation: true,
        disable_animations_for_fullscreen: true,
        open_animation_duration_ms: 180,
        close_animation_duration_ms: 150,
        layout_animation_duration_ms: 200,
        animation_easing: String::from("ease_out_cubic"),
    }
}

/// The rectangle at the eased fraction `t` of the way.
fn lerp(from: Rect, to: Rect, t: f64) -> Rect {
    let at = |a: i32, b: i32| (a as f64 + (b as f64 - a as f64) * t).round() as i32;
    rect(
        at(from.loc.x, to.loc.x),
        at(from.loc.y, to.loc.y),
        at(from.size.w, to.size.w).max(1),
        at(from.size.h, to.size.h).max(1),
    )
}

#[test]
fn open_animation_keeps_top_left_fixed() {
    let target = rect(960, 0, 960, 1080);
    let from = open_start_rect(target);
    assert_eq!(from.loc, target.loc, "open starts anchored at top-left");
    assert!(from.size.w < target.size.w && from.size.h < target.size.h);

    let now = 5_000 * MS;
    let anim = WindowAnimation {
        kind: WindowAnimationKind::Open,
        from,
        to: target,
        started_at: now,
        duration_ms: 200,
        easing: Easing::EaseOutCubic,
    };
    // Top-left stays put throughout, end matches target exactly.
    for ms in [0u64, 50, 100, 150, 200] {
        let eased = 1.0 - (1.0 - ms as f64 / 200.0).powi(3);
        let curve = lerp(from, target, eased);
        let r = anim.current_rect(now + ms * MS, curve);
        assert_eq!(r, curve);
        assert_eq!(r.loc, target.loc);
    }
    let end = anim.current_rect(now + 200 * MS, from);
    assert_eq!(end, target);
    assert_eq!(anim.current_rect(now, target), from);
}

#[test]
fn close_animation_keeps_top_left_fixed() {
    let from = rect(0, 0, 1920, 1080);
    let to = open_start_rect(from); // shrink toward top-left
    let now = 5_000 * MS;
    let anim = WindowAnimation {
        kind: WindowAnimationKind::Close,
        from,
        to,
        started_at: now,
        duration_ms: 150,
        easing: Easing::EaseInOutCubic,
    };
    for ms in [0u64, 50, 100, 150] {
        let t = ms as f64 / 150.0;
        let eased =
            if t < 0.5 { 4.0 * t * t * t } else { 1.0 - (-2.0 * t + 2.0).powi(3) / 2.0 };
        let r = anim.current_rect(now + ms * MS, lerp(from, to, eased));
        assert_eq!(r, lerp(from, to, eased));
        assert_eq!(r.loc, from.loc);
    }
}

#[test]
fn geometry_transition_interpolates_all_components() {
    let from = rect(0, 0, 1920, 1080);
    let to = rect(0, 0, 960, 1080);
    let now = 5_000 * MS;
    let anim = WindowAnimation {
        kind: WindowAnimationKind::GeometryChange,
        from,
        to,
        started_at: now,
        duration_ms: 200,
        easing: Easing::Linear,
    };
    let mid = anim.current_rect(now + 100 * MS, lerp(from, to, 0.5));
    assert_eq!(mid.size.w, 1440); // halfway 1920 -> 960
    assert_eq!(mid.size.h, 1080);
    assert_eq!(anim.current_rect(now + 200 * MS, lerp(from, to, 1.0)), to);
}

#[test]
fn an_opening_window_starts_at_a_twentieth() {
    assert_eq!(open_start_rect(rect(7, 9, 960, 1080)), rect(7, 9, 48, 54));
    assert_eq!(open_start_rect(rect(0, 0, 10, 9)), rect(0, 0, 1, 1));
    assert_eq!(open_start_rect(rect(0, 0, 0, -5)), rect(0, 0, 1, 1));
}

#[test]
fn animation_reports_finished_at_or_past_duration() {
    let now = 5_000 * MS;
    let anim = WindowAnimation {
        kind: WindowAnimationKind::Open,
        from: rect(0, 0, 1, 1),
        to: rect(0, 0, 100, 100),
        started_at: now,
        duration_ms: 100,
        easing: Easing::Linear,
    };
    assert!(!anim.is_finished(now));
    assert!(!anim.is_finished(now + 99 * MS));
    assert!(anim.is_finished(now + 100 * MS));
    assert!(anim.is_finished(now + 250 * MS));
}

#[test]
fn interrupted_animation_starts_from_current_visual_geometry() {
    let prev = rect(0, 0, 1920, 1080);
    assert_eq!(retarget_from(None, prev, 100 * MS, prev), prev);

    let running = WindowAnimation {
        kind: WindowAnimationKind::GeometryChange,
        from: rect(0, 0, 1920, 1080),
        to: rect(0, 0, 960, 1080),
        started_at: 0,
        duration_ms: 200,
        easing: Easing::Linear,
    };
    // What the animation shows after half of its two hundred milliseconds.
    let expected_current = rect(0, 0, 1440, 1080);
    let from = retarget_from(Some(running), prev, 100 * MS, expected_current);
    assert_eq!(from, running.current_rect(100 * MS, expected_current));
    assert_eq!(from, expected_current);
    assert_ne!(from, running.from);
    assert_ne!(from, prev);
}

#[test]
fn easing_names_are_read_in_any_case() {
    assert_eq!(Easing::parse("linear"), Some(Easing::Linear));
    assert_eq!(Easing::parse("  Ease-In-Cubic "), Some(Easing::EaseInCubic));
    assert_eq!(Easing::parse("ease_out_cubic"), Some(Easing::EaseOutCubic));
    assert_eq!(Easing::parse("EASE_IN_OUT_CUBIC"), Some(Easing::EaseInOutCubic));
    assert_eq!(Easing::parse("bounce"), None);
}

#[test]
fn a_known_window_glides_and_an_unknown_one_opens() {
    let mut animations = AnimationManager::from_config(&config(), false);
    let first = rect(0, 0, 400, 300);
    let second = rect(400, 0, 400, 300);
    animations.reconcile(1, first, 0, first);
    let open = animations.animation(1).expect("opening");
    assert_eq!(open.kind, WindowAnimationKind::Open);
    assert_eq!(open.from, open_start_rect(first));
    assert_eq!(open.duration_ms, 180);
    assert_eq!(open.easing, Easing::EaseOutCubic);

    // The same rectangle again changes nothing.
    animations.reconcile(1, first, 10 * MS, first);
    assert_eq!(animations.animation(1), Some(open));

    // A new one continues from what is shown.
    let shown = rect(0, 0, 100, 80);
    animations.reconcile(1, second, 20 * MS, shown);
    let glide = animations.animation(1).expect("gliding");
    assert_eq!(glide.kind, WindowAnimationKind::GeometryChange);
    assert_eq!(glide.from, shown);
    assert_eq!(glide.to, second);
    assert_eq!(glide.started_at, 20 * MS);
    // The picture does not jump, and ends at the target; what the curve gives
    // counts in between only.
    let curve = rect(9, 0, 109, 90);
    let at = |time: u64| animations.active_rect(1, time, curve).unwrap();
    assert!(!at(20 * MS).reveal);
    assert_eq!(at(20 * MS).rect, shown);
    assert_eq!(at(21 * MS).rect, curve);
    assert_eq!(at(220 * MS).rect, second);
    // What leaves the way between the two ends is brought back to it.
    let astray = animations.active_rect(1, 21 * MS, rect(-7, 5, 0, 900)).unwrap();
    assert_eq!(astray.rect, rect(0, 0, 100, 300));
    assert!(animations.active_rect(2, 20 * MS, shown).is_none());

    // Once it is forgotten it opens again.
    animations.forget(1);
    assert_eq!(animations.animation(1), None);
    animations.reconcile(1, second, 30 * MS, second);
    assert_eq!(animations.animation(1).unwrap().kind, WindowAnimationKind::Open);
}

#[test]
fn disabled_animations_leave_windows_where_they_are() {
    let mut animations = AnimationManager::from_config(&config(), true);
    assert!(!animations.is_enabled());
    animations.reconcile(1, rect(0, 0, 10, 10), 0, rect(0, 0, 10, 10));
    assert!(!animations.has_active());

    let mut still = config();
    still.window_open_animation = false;
    still.layout_animation = false;
    let mut animations = AnimationManager::from_config(&still, false);
    animations.reconcile(1, rect(0, 0, 10, 10), 0, rect(0, 0, 10, 10));
    animations.reconcile(1, rect(5, 0, 10, 10), 1, rect(0, 0, 10, 10));
    assert!(!animations.has_active());
}

#[test]
fn animations_end_and_gone_windows_are_dropped() {
    let mut animations = AnimationManager::from_config(&config(), false);
    let mut repaint = Repaint { needs_render: false, border_commit_serial: u64::MAX };
    animations.reconcile(1, rect(0, 0, 100, 100), 0, rect(0, 0, 100, 100));
    animations.reconcile(2, rect(100, 0, 100, 100), 0, rect(100, 0, 100, 100));
    assert!(repaint.tick_animations(&mut animations, 100 * MS, &vec![2]));
    assert!(repaint.needs_render);
    assert_eq!(repaint.border_commit_serial, 0);
    assert!(animations.animation(1).is_some());
    assert_eq!(animations.animation(2), None);

    // The frame on which the last one ends is still drawn.
    repaint.needs_render = false;
    assert!(!repaint.tick_animations(&mut animations, 180 * MS, &vec![]));
    assert!(repaint.needs_render);
    assert_eq!(repaint.border_commit_serial, 1);

    repaint.needs_render = false;
    assert!(!repaint.tick_animations(&mut animations, 200 * MS, &vec![]));
    assert!(!repaint.needs_render);
    assert_eq!(repaint.border_commit_serial, 1);
}

#[test]
fn tiles_are_followed_or_put_in_place_at_once() {
    let tile = |id: u64, x: i32| TilePlacement {
        window: WindowRef { id, root: Some(id) },
        rect: rect(x, 0, 100, 100),
    };
    let mut animations = AnimationManager::from_config(&config(), false);
    assert!(suppress_animations(&animations, true) && !suppress_animations(&animations, false));
    animations.follow_tiles(
        &vec![tile(1, 0), tile(2, 100)],
        &vec![rect(0, 0, 1, 1), rect(0, 0, 1, 1)],
        false,
        0,
    );
    assert!(animations.animation(1).is_some() && animations.animation(2).is_some());

    animations.follow_tiles(
        &vec![tile(1, 50)],
        &vec![rect(3, 0, 1, 1)],
        true,
        MS,
    );
    assert_eq!(animations.animation(1), None);
    assert!(animations.animation(2).is_some());
    // It rests where it was put, so the same place starts nothing.
    animations.follow_tiles(&vec![tile(1, 50)], &vec![rect(3, 0, 1, 1)], false, 2 * MS);
    assert_eq!(animations.animation(1), None);
}

#[test]
fn a_window_is_drawn_where_its_animation_is() {
    let mut animations = AnimationManager::from_config(&config(), false);
    let target = rect(0, 0, 100, 100);
    animations.reconcile(1, target, 0, target);
    let shown = rect(0, 0, 30, 30);
    assert_eq!(visual_geometry(animations.active_rect(1, MS, shown), Some(target)), Some(shown));
    assert_eq!(visual_geometry(animations.active_rect(2, MS, shown), Some(target)), Some(target));
    assert_eq!(visual_geometry(None, None), None);
}
