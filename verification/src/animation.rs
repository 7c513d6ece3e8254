//! Compositor-level window animations.
//!
//! A small *visual* layer, kept apart from the logical tiling layout: the
//! layout is always exact and immediate, and an animation only decides which
//! rectangle a window is drawn into on the way to its tile. All state is keyed
//! by the id of a window's root surface. Times are nanoseconds of a monotonic
//! clock.
use crate::geometry::{Point, Rect, Size};
use crate::surface_map::SurfaceMap;
use crate::text;
use vstd::prelude::*;

verus! {

/// Easing curves. `Linear` is only a fallback; the defaults are cubic.
#[derive(Debug, Clone, Copy, PartialEq, Eq, Structural)]
pub enum Easing {
    Linear,
    EaseInCubic,
    EaseOutCubic,
    EaseInOutCubic,
}

/// The spelling of an easing name that counts: no white space round it, small
/// letters, underscores in place of hyphens.
pub open spec fn normal_name(value: Seq<char>) -> Seq<char> {
    text::lowered(text::trimmed(value)).map_values(|c: char| if c == '-' { '_' } else { c })
}

/// The curve that a name stands for.
pub open spec fn easing_named(name: Seq<char>) -> Option<Easing> {
    if name == "linear"@ {
        Some(Easing::Linear)
    } else if name == "ease_in"@ || name == "ease_in_cubic"@ || name == "in"@ {
        Some(Easing::EaseInCubic)
    } else if name == "ease_out"@ || name == "ease_out_cubic"@ || name == "out"@ {
        Some(Easing::EaseOutCubic)
    } else if name == "ease_in_out"@ || name == "ease_in_out_cubic"@ || name == "in_out"@ {
        Some(Easing::EaseInOutCubic)
    } else {
        None
    }
}

impl Easing {
    /// Parse a config string (case-insensitive). Unknown values yield `None`
    /// so the caller can keep its current curve.
    pub fn parse(value: &str) -> (r: Option<Self>)
        ensures
            r == easing_named(normal_name(value@)),
    {
        let trimmed = text::trim(value);
        let mut name: Vec<char> = Vec::new();
        let mut i: usize = 0;
        while i < trimmed.len()
            invariant
                i <= trimmed.len(),
                trimmed@ == text::trimmed(value@),
                name@ =~= normal_name(value@).subrange(0, i as int),
            decreases trimmed.len() - i,
        {
            let c = text::to_ascii_lower(trimmed[i]);
            name.push(
                if c == '-' {
                    '_'
                } else {
                    c
                },
            );
            i = i + 1;
        }
        proof {
            assert(name@ =~= normal_name(value@));
        }
        if text::chars_eq(&name, "linear") {
            Some(Easing::Linear)
        } else if text::chars_eq(&name, "ease_in") || text::chars_eq(&name, "ease_in_cubic")
            || text::chars_eq(&name, "in") {
            Some(Easing::EaseInCubic)
        } else if text::chars_eq(&name, "ease_out") || text::chars_eq(&name, "ease_out_cubic")
            || text::chars_eq(&name, "out") {
            Some(Easing::EaseOutCubic)
        } else if text::chars_eq(&name, "ease_in_out") || text::chars_eq(&name, "ease_in_out_cubic")
            || text::chars_eq(&name, "in_out") {
            Some(Easing::EaseInOutCubic)
        } else {
            None
        }
    }
}

#[derive(Debug, Clone, Copy, PartialEq, Eq, Structural)]
pub enum WindowAnimationKind {
    Open,
    Close,
    GeometryChange,
}

/// A single in-flight visual animation for one window.
#[derive(Debug, Clone, Copy, PartialEq, Eq, Structural)]
pub struct WindowAnimation {
    pub kind: WindowAnimationKind,
    pub from: Rect,
    pub to: Rect,
    pub started_at: u64,
    pub duration_ms: u64,
    pub easing: Easing,
}

/// Time from `start` to `now`; none where `now` is the earlier one.
pub open spec fn elapsed_ns(now: u64, start: u64) -> int {
    if now >= start { now - start } else { 0 }
}

/// A rectangle of at least one pixel, so that it never disappears.
pub open spec fn drawable(rect: Rect) -> Rect {
    Rect {
        loc: rect.loc,
        size: Size {
            w: if rect.size.w < 1 { 1 } else { rect.size.w },
            h: if rect.size.h < 1 { 1 } else { rect.size.h },
        },
    }
}

/// `n`, kept between `a` and `b`, whichever of them is the smaller.
pub open spec fn kept_between(n: i32, a: i32, b: i32) -> i32 {
    let low = if a < b { a } else { b };
    let high = if a < b { b } else { a };
    if n < low {
        low
    } else if n > high {
        high
    } else {
        n
    }
}

fn keep_between(n: i32, a: i32, b: i32) -> (r: i32)
    ensures
        r == kept_between(n, a, b),
{
    let low: i32 = if a < b {
        a
    } else {
        b
    };
    let high: i32 = if a < b {
        b
    } else {
        a
    };
    if n < low {
        low
    } else if n > high {
        high
    } else {
        n
    }
}

impl WindowAnimation {
    /// `between` with each coordinate and extent kept between those of the two
    /// ends.
    pub open spec fn on_the_way(self, between: Rect) -> Rect {
        Rect {
            loc: Point {
                x: kept_between(between.loc.x, self.from.loc.x, self.to.loc.x),
                y: kept_between(between.loc.y, self.from.loc.y, self.to.loc.y),
            },
            size: Size {
                w: kept_between(between.size.w, self.from.size.w, self.to.size.w),
                h: kept_between(between.size.h, self.from.size.h, self.to.size.h),
            },
        }
    }

    /// The rectangle shown at `now`: where it starts, where it ends, or, on the
    /// way, `between`, which the curve gives: no curve leaves the way between the
    /// two ends.
    pub open spec fn shown_at(self, now: u64, between: Rect) -> Rect {
        drawable(
            if self.finished_at(now) {
                self.to
            } else if elapsed_ns(now, self.started_at) == 0 {
                self.from
            } else {
                self.on_the_way(between)
            },
        )
    }

    /// See [`shown_at`](Self::shown_at).
    pub fn current_rect(&self, now: u64, between: Rect) -> (r: Rect)
        ensures
            r == self.shown_at(now, between),
    {
        let rect = if self.is_finished(now) {
            self.to
        } else if now <= self.started_at {
            self.from
        } else {
            Rect {
                loc: Point {
                    x: keep_between(between.loc.x, self.from.loc.x, self.to.loc.x),
                    y: keep_between(between.loc.y, self.from.loc.y, self.to.loc.y),
                },
                size: Size {
                    w: keep_between(between.size.w, self.from.size.w, self.to.size.w),
                    h: keep_between(between.size.h, self.from.size.h, self.to.size.h),
                },
            }
        };
        Rect {
            loc: rect.loc,
            size: Size {
                w: if rect.size.w < 1 {
                    1
                } else {
                    rect.size.w
                },
                h: if rect.size.h < 1 {
                    1
                } else {
                    rect.size.h
                },
            },
        }
    }

    /// Whether the whole duration has passed at `now`.
    pub open spec fn finished_at(self, now: u64) -> bool {
        elapsed_ns(now, self.started_at) >= self.duration_ms * 1_000_000
    }

    /// True once the wall-clock duration has elapsed.
    pub fn is_finished(&self, now: u64) -> (r: bool)
        ensures
            r == self.finished_at(now),
    {
        let elapsed: u64 = now.saturating_sub(self.started_at);
        elapsed / 1_000_000 >= self.duration_ms
    }

    /// Reveal animations (`Open`/`Close`) clip the window to the visual
    /// rectangle; the others scale the buffer into it.
    pub fn is_reveal(&self) -> (r: bool)
        ensures
            r == (self.kind != WindowAnimationKind::GeometryChange),
    {
        match self.kind {
            WindowAnimationKind::Open | WindowAnimationKind::Close => true,
            WindowAnimationKind::GeometryChange => false,
        }
    }
}

/// The rectangle a window is drawn into, and how it fills it.
#[derive(Debug, Clone, Copy, PartialEq, Eq, Structural)]
pub struct VisualRect {
    pub rect: Rect,
    pub reveal: bool,
}

/// A twentieth of `n`, rounded to the nearest whole number (halves up), and at
/// least one.
pub open spec fn start_extent(n: i32) -> int {
    if n < 10 {
        1
    } else {
        (n + 10) / 20
    }
}

/// The small rectangle that an opening window starts from: at the top-left
/// corner of its tile, a twentieth of its size.
pub open spec fn open_start(target: Rect) -> Rect {
    Rect {
        loc: target.loc,
        size: Size {
            w: start_extent(target.size.w) as i32,
            h: start_extent(target.size.h) as i32,
        },
    }
}

fn start_extent_of(n: i32) -> (r: i32)
    ensures
        r == start_extent(n),
{
    if n < 10 {
        1
    } else {
        ((n as i64 + 10) / 20) as i32
    }
}

pub fn open_start_rect(target: Rect) -> (r: Rect)
    ensures
        r == open_start(target),
        r.loc == target.loc,
        1 <= r.size.w,
        1 <= r.size.h,
        target.size.w > 1 ==> r.size.w < target.size.w,
        target.size.h > 1 ==> r.size.h < target.size.h,
{
    Rect {
        loc: target.loc,
        size: Size { w: start_extent_of(target.size.w), h: start_extent_of(target.size.h) },
    }
}

/// Where a re-targeted window starts from: the rectangle it is drawn into
/// right now if an animation is running, else its previous resting place.
/// `between` is what the running animation's curve gives at `now`.
pub fn retarget_from(
    existing: Option<WindowAnimation>,
    prev_target: Rect,
    now: u64,
    between: Rect,
) -> (r: Rect)
    ensures
        r == match existing {
            Some(anim) => anim.shown_at(now, between),
            None => prev_target,
        },
{
    match existing {
        Some(anim) => anim.current_rect(now, between),
        None => prev_target,
    }
}

/// The animation part of the configuration.
#[derive(Debug)]
pub struct AnimationConfig {
    pub enable_animations: bool,
    pub window_open_animation: bool,
    pub window_close_animation: bool,
    pub layout_animation: bool,
    pub disable_animations_for_fullscreen: bool,
    pub open_animation_duration_ms: u64,
    pub close_animation_duration_ms: u64,
    pub layout_animation_duration_ms: u64,
    pub animation_easing: String,
}

/// What the manager is set to do, apart from what is in flight.
#[derive(Debug, Clone, Copy, PartialEq, Eq, Structural)]
pub struct AnimationSettings {
    pub enabled: bool,
    pub open_enabled: bool,
    pub close_enabled: bool,
    pub layout_enabled: bool,
    pub disable_for_fullscreen: bool,
    pub open_duration_ms: u64,
    pub close_duration_ms: u64,
    pub layout_duration_ms: u64,
    pub open_easing: Easing,
    pub close_easing: Easing,
    pub layout_easing: Easing,
}

/// The settings that `config` asks for, on top of the curves in `current`.
/// `runtime_disabled` is the kill-switch: it turns everything off.
pub open spec fn configured(
    current: AnimationSettings,
    config: AnimationConfig,
    runtime_disabled: bool,
) -> AnimationSettings {
    let easing = easing_named(normal_name(config.animation_easing@));
    AnimationSettings {
        enabled: config.enable_animations && !runtime_disabled,
        open_enabled: config.window_open_animation,
        close_enabled: config.window_close_animation,
        layout_enabled: config.layout_animation,
        disable_for_fullscreen: config.disable_animations_for_fullscreen,
        open_duration_ms: config.open_animation_duration_ms,
        close_duration_ms: config.close_animation_duration_ms,
        layout_duration_ms: config.layout_animation_duration_ms,
        open_easing: if easing is Some { easing->0 } else { current.open_easing },
        close_easing: if easing is Some { easing->0 } else { current.close_easing },
        layout_easing: if easing is Some { easing->0 } else { current.layout_easing },
    }
}

/// The settings before any configuration is read.
pub open spec fn default_settings() -> AnimationSettings {
    AnimationSettings {
        enabled: true,
        open_enabled: true,
        close_enabled: true,
        layout_enabled: true,
        disable_for_fullscreen: true,
        open_duration_ms: 180,
        close_duration_ms: 150,
        layout_duration_ms: 200,
        open_easing: Easing::EaseOutCubic,
        close_easing: Easing::EaseInOutCubic,
        layout_easing: Easing::EaseInOutCubic,
    }
}

/// The animations after one of `kind` was asked for: a kind of no duration
/// leaves the window without one.
pub open spec fn started(
    settings: AnimationSettings,
    anims: Map<u64, WindowAnimation>,
    root: u64,
    kind: WindowAnimationKind,
    from: Rect,
    to: Rect,
    now: u64,
) -> Map<u64, WindowAnimation> {
    let (duration_ms, easing) = match kind {
        WindowAnimationKind::Open => (settings.open_duration_ms, settings.open_easing),
        WindowAnimationKind::Close => (settings.close_duration_ms, settings.close_easing),
        WindowAnimationKind::GeometryChange => (settings.layout_duration_ms, settings.layout_easing),
    };
    if duration_ms == 0 {
        anims.remove(root)
    } else {
        anims.insert(root, WindowAnimation { kind, from, to, started_at: now, duration_ms, easing })
    }
}

/// What the animation of `root` shows at `now`, where it has one; `between` is
/// what its curve gives then.
pub open spec fn active(
    anims: Map<u64, WindowAnimation>,
    root: u64,
    now: u64,
    between: Rect,
) -> Option<VisualRect> {
    if anims.dom().contains(root) {
        Some(
            VisualRect {
                rect: anims[root].shown_at(now, between),
                reveal: anims[root].kind != WindowAnimationKind::GeometryChange,
            },
        )
    } else {
        None
    }
}

/// The animations after `root` was laid out at `target`; `between` is what the
/// curve of a running animation of `root` gives at `now`.
pub open spec fn reconciled(
    settings: AnimationSettings,
    anims: Map<u64, WindowAnimation>,
    targets: Map<u64, Rect>,
    root: u64,
    target: Rect,
    now: u64,
    between: Rect,
) -> Map<u64, WindowAnimation> {
    if !settings.enabled {
        anims
    } else if !targets.dom().contains(root) {
        if settings.open_enabled {
            started(settings, anims, root, WindowAnimationKind::Open, open_start(target), target, now)
        } else {
            anims
        }
    } else if targets[root] != target {
        if settings.layout_enabled {
            let from = if anims.dom().contains(root) {
                anims[root].shown_at(now, between)
            } else {
                targets[root]
            };
            started(settings, anims, root, WindowAnimationKind::GeometryChange, from, target, now)
        } else {
            anims.remove(root)
        }
    } else {
        anims
    }
}

/// The entries of `anims` that are still running at `now` for a living root.
pub open spec fn still_running(
    anims: Map<u64, WindowAnimation>,
    dead: Seq<u64>,
    now: u64,
) -> Map<u64, WindowAnimation> {
    Map::new(
        |root: u64|
            anims.dom().contains(root) && !dead.contains(root) && !anims[root].finished_at(now),
        |root: u64| anims[root],
    )
}

/// The targets of living roots.
pub open spec fn living_targets(targets: Map<u64, Rect>, dead: Seq<u64>) -> Map<u64, Rect> {
    Map::new(
        |root: u64| targets.dom().contains(root) && !dead.contains(root),
        |root: u64| targets[root],
    )
}

/// Owns all active window animations and the per-window resting targets used
/// to detect geometry changes.
#[derive(Debug)]
pub struct AnimationManager {
    settings: AnimationSettings,
    anims: SurfaceMap<WindowAnimation>,
    /// Last resting rectangle laid out for each tracked root.
    targets: SurfaceMap<Rect>,
}

impl AnimationManager {
    pub closed spec fn wf(&self) -> bool {
        self.anims.wf() && self.targets.wf()
    }

    pub closed spec fn settings(&self) -> AnimationSettings {
        self.settings
    }

    /// The animations in flight.
    pub closed spec fn running(&self) -> Map<u64, WindowAnimation> {
        self.anims@
    }

    /// The resting rectangle of each tracked root.
    pub closed spec fn resting(&self) -> Map<u64, Rect> {
        self.targets@
    }

    pub fn from_config(config: &AnimationConfig, runtime_disabled: bool) -> (r: Self)
        ensures
            r.wf(),
            r.settings() == configured(default_settings(), *config, runtime_disabled),
            r.running() == Map::<u64, WindowAnimation>::empty(),
            r.resting() == Map::<u64, Rect>::empty(),
    {
        let mut manager = AnimationManager {
            settings: AnimationSettings {
                enabled: true,
                open_enabled: true,
                close_enabled: true,
                layout_enabled: true,
                disable_for_fullscreen: true,
                open_duration_ms: 180,
                close_duration_ms: 150,
                layout_duration_ms: 200,
                open_easing: Easing::EaseOutCubic,
                close_easing: Easing::EaseInOutCubic,
                layout_easing: Easing::EaseInOutCubic,
            },
            anims: SurfaceMap::new(),
            targets: SurfaceMap::new(),
        };
        manager.update_from_config(config, runtime_disabled);
        manager
    }

    /// Take over the animation settings of a (re)loaded configuration. What is
    /// in flight stays as it is.
    pub fn update_from_config(&mut self, config: &AnimationConfig, runtime_disabled: bool)
        requires
            old(self).wf(),
        ensures
            final(self).wf(),
            final(self).settings() == configured(old(self).settings(), *config, runtime_disabled),
            final(self).running() == old(self).running(),
            final(self).resting() == old(self).resting(),
    {
        self.settings.enabled = config.enable_animations && !runtime_disabled;
        self.settings.open_enabled = config.window_open_animation;
        self.settings.close_enabled = config.window_close_animation;
        self.settings.layout_enabled = config.layout_animation;
        self.settings.disable_for_fullscreen = config.disable_animations_for_fullscreen;
        self.settings.open_duration_ms = config.open_animation_duration_ms;
        self.settings.close_duration_ms = config.close_animation_duration_ms;
        self.settings.layout_duration_ms = config.layout_animation_duration_ms;
        if let Some(easing) = Easing::parse(config.animation_easing.as_str()) {
            self.settings.open_easing = easing;
            self.settings.close_easing = easing;
            self.settings.layout_easing = easing;
        }
    }

    pub fn is_enabled(&self) -> (r: bool)
        ensures
            r == self.settings().enabled,
    {
        self.settings.enabled
    }

    pub fn disable_for_fullscreen(&self) -> (r: bool)
        ensures
            r == self.settings().disable_for_fullscreen,
    {
        self.settings.disable_for_fullscreen
    }

    /// Bring a tiled window's freshly computed `target` together with what is
    /// known of it: a new root opens, a moved one glides from where it is drawn
    /// or rests, an unmoved one is left alone. `between` is what the curve of its
    /// running animation gives at `now`.
    pub fn reconcile(&mut self, root: u64, target: Rect, now: u64, between: Rect)
        requires
            old(self).wf(),
        ensures
            final(self).wf(),
            final(self).settings() == old(self).settings(),
            final(self).resting() == old(self).resting().insert(root, target),
            final(self).running() == reconciled(
                old(self).settings(),
                old(self).running(),
                old(self).resting(),
                root,
                target,
                now,
                between,
            ),
    {
        if !self.settings.enabled {
            self.targets.insert(root, target);
            return;
        }
        match self.targets.get(root) {
            None => {
                if self.settings.open_enabled {
                    let from = open_start_rect(target);
                    self.start(root, WindowAnimationKind::Open, from, target, now);
                }
            },
            Some(prev) => {
                if prev != target {
                    if self.settings.layout_enabled {
                        let from = retarget_from(self.anims.get(root), prev, now, between);
                        self.start(root, WindowAnimationKind::GeometryChange, from, target, now);
                    } else {
                        let _ = self.anims.remove(root);
                    }
                }
            },
        }
        self.targets.insert(root, target);
    }

    fn start(&mut self, root: u64, kind: WindowAnimationKind, from: Rect, to: Rect, now: u64)
        requires
            old(self).wf(),
        ensures
            final(self).wf(),
            final(self).settings() == old(self).settings(),
            final(self).resting() == old(self).resting(),
            final(self).running() == started(
                old(self).settings(),
                old(self).running(),
                root,
                kind,
                from,
                to,
                now,
            ),
    {
        let (duration_ms, easing): (u64, Easing) = match kind {
            WindowAnimationKind::Open => (self.settings.open_duration_ms, self.settings.open_easing),
            WindowAnimationKind::Close => (
                self.settings.close_duration_ms,
                self.settings.close_easing,
            ),
            WindowAnimationKind::GeometryChange => (
                self.settings.layout_duration_ms,
                self.settings.layout_easing,
            ),
        };
        if duration_ms == 0 {
            let _ = self.anims.remove(root);
            return;
        }
        self.anims.insert(
            root,
            WindowAnimation { kind, from, to, started_at: now, duration_ms, easing },
        );
    }

    /// Record a resting target without starting any animation, and cancel a
    /// running one.
    pub fn track_target(&mut self, root: u64, target: Rect)
        requires
            old(self).wf(),
        ensures
            final(self).wf(),
            final(self).settings() == old(self).settings(),
            final(self).running() == old(self).running().remove(root),
            final(self).resting() == old(self).resting().insert(root, target),
    {
        let _ = self.anims.remove(root);
        self.targets.insert(root, target);
    }

    /// The running animation of `root`. What it shows at a given time is the
    /// interpolation between its two rectangles.
    pub fn animation(&self, root: u64) -> (r: Option<WindowAnimation>)
        requires
            self.wf(),
        ensures
            r == if self.running().dom().contains(root) {
                Some(self.running()[root])
            } else {
                None
            },
    {
        self.anims.get(root)
    }

    /// The visual rectangle for `root` at `now`, or `None` if it is not being
    /// animated; `between` is what the curve of its animation gives then.
    pub fn active_rect(&self, root: u64, now: u64, between: Rect) -> (r: Option<VisualRect>)
        requires
            self.wf(),
        ensures
            r == active(self.running(), root, now, between),
    {
        match self.anims.get(root) {
            Some(anim) => Some(
                VisualRect { rect: anim.current_rect(now, between), reveal: anim.is_reveal() },
            ),
            None => None,
        }
    }

    pub fn has_active(&self) -> (r: bool)
        requires
            self.wf(),
        ensures
            r == (self.running() != Map::<u64, WindowAnimation>::empty()),
    {
        !self.anims.is_empty()
    }

    /// Drop everything known of a root (window closed, unmapped or made
    /// floating). Safe to call for unknown roots.
    pub fn forget(&mut self, root: u64)
        requires
            old(self).wf(),
        ensures
            final(self).wf(),
            final(self).settings() == old(self).settings(),
            final(self).running() == old(self).running().remove(root),
            final(self).resting() == old(self).resting().remove(root),
    {
        let _ = self.anims.remove(root);
        let _ = self.targets.remove(root);
    }

    /// Advance time: drop finished animations and whatever belongs to a root
    /// in `dead`. True while an animation is still active.
    pub fn tick(&mut self, now: u64, dead: &Vec<u64>) -> (r: bool)
        requires
            old(self).wf(),
        ensures
            final(self).wf(),
            final(self).settings() == old(self).settings(),
            final(self).running() == still_running(old(self).running(), dead@, now),
            final(self).resting() == living_targets(old(self).resting(), dead@),
            r == (final(self).running() != Map::<u64, WindowAnimation>::empty()),
    {
        let ghost anims0 = self.anims@;
        let ghost targets0 = self.targets@;
        let roots = self.anims.ids();
        proof {
            self.anims.order_lists_the_map();
            assert forall|k: u64| #[trigger] anims0.dom().contains(k) implies roots@.index_of(k) >= 0 by {
                assert(roots@.contains(k));
            }
        }
        let mut i: usize = 0;
        while i < roots.len()
            invariant
                i <= roots.len(),
                self.wf(),
                self.settings == old(self).settings,
                self.targets == old(self).targets,
                roots@.no_duplicates(),
                forall|k: u64| #[trigger] roots@.contains(k) <==> anims0.dom().contains(k),
                forall|k: u64| #[trigger]
                    self.anims@.dom().contains(k) <==> (anims0.dom().contains(k) && (dead@.contains(k)
                        || anims0[k].finished_at(now) ==> roots@.index_of(k) >= i)),
                forall|k: u64| #[trigger]
                    self.anims@.dom().contains(k) ==> self.anims@[k] == anims0[k],
            decreases roots.len() - i,
        {
            let root = roots[i];
            let ghost before = self.anims@;
            proof {
                assert(roots@.contains(root));
                assert(roots@.index_of(root) == i);
            }
            let ended = match self.anims.get(root) {
                Some(anim) => contains_id(dead, root) || anim.is_finished(now),
                None => false,
            };
            if ended {
                let _ = self.anims.remove(root);
            }
            proof {
                assert forall|k: u64| #[trigger]
                    self.anims@.dom().contains(k) <==> (anims0.dom().contains(k) && (dead@.contains(k)
                        || anims0[k].finished_at(now) ==> roots@.index_of(k) >= i + 1)) by {
                    assert(before.dom().contains(k) || !before.dom().contains(k));
                    if anims0.dom().contains(k) {
                        assert(roots@.contains(k));
                        assert(roots@[roots@.index_of(k)] == k);
                    }
                }
                assert forall|k: u64| #[trigger] self.anims@.dom().contains(k) implies self.anims@[k]
                    == anims0[k] by {
                    assert(before.dom().contains(k));
                }
            }
            i = i + 1;
        }
        proof {
            assert forall|k: u64| #[trigger] anims0.dom().contains(k) implies roots@.index_of(k)
                < roots.len() by {
                assert(roots@.contains(k));
            }
            assert(self.anims@ =~= still_running(anims0, dead@, now));
            self.targets.order_lists_the_map();
        }
        let ghost running = self.anims@;
        let known = self.targets.ids();
        proof {
            assert forall|k: u64| #[trigger] targets0.dom().contains(k) implies known@.index_of(k)
                >= 0 by {
                assert(known@.contains(k));
            }
        }
        let mut j: usize = 0;
        while j < known.len()
            invariant
                j <= known.len(),
                self.wf(),
                self.settings == old(self).settings,
                self.anims@ == running,
                known@.no_duplicates(),
                forall|k: u64| #[trigger] known@.contains(k) <==> targets0.dom().contains(k),
                forall|k: u64| #[trigger]
                    self.targets@.dom().contains(k) <==> (targets0.dom().contains(k) && (
                    dead@.contains(k) ==> known@.index_of(k) >= j)),
                forall|k: u64| #[trigger]
                    self.targets@.dom().contains(k) ==> self.targets@[k] == targets0[k],
            decreases known.len() - j,
        {
            let root = known[j];
            let ghost before = self.targets@;
            proof {
                assert(known@.contains(root));
                assert(known@.index_of(root) == j);
            }
            if contains_id(dead, root) {
                let _ = self.targets.remove(root);
            }
            proof {
                assert forall|k: u64| #[trigger]
                    self.targets@.dom().contains(k) <==> (targets0.dom().contains(k) && (
                    dead@.contains(k) ==> known@.index_of(k) >= j + 1)) by {
                    assert(before.dom().contains(k) || !before.dom().contains(k));
                    if targets0.dom().contains(k) {
                        assert(known@.contains(k));
                        assert(known@[known@.index_of(k)] == k);
                    }
                }
                assert forall|k: u64| #[trigger] self.targets@.dom().contains(k) implies self.targets@[k]
                    == targets0[k] by {
                    assert(before.dom().contains(k));
                }
            }
            j = j + 1;
        }
        proof {
            assert forall|k: u64| #[trigger] targets0.dom().contains(k) implies known@.index_of(k)
                < known.len() by {
                assert(known@.contains(k));
            }
            assert(self.targets@ =~= living_targets(targets0, dead@));
        }
        !self.anims.is_empty()
    }
}

/// Whether `id` is in `ids`.
pub fn contains_id(ids: &Vec<u64>, id: u64) -> (r: bool)
    ensures
        r == ids@.contains(id),
{
    let mut i: usize = 0;
    while i < ids.len()
        invariant
            i <= ids.len(),
            forall|k: int| 0 <= k < i ==> ids@[k] != id,
        decreases ids.len() - i,
    {
        if ids[i] == id {
            return true;
        }
        i = i + 1;
    }
    false
}

/// Laying a window out twice at the same place changes its animation once: the
/// second time whatever is running is left alone.
pub proof fn reconcile_is_idempotent(
    settings: AnimationSettings,
    anims: Map<u64, WindowAnimation>,
    targets: Map<u64, Rect>,
    root: u64,
    target: Rect,
    now: u64,
    between: Rect,
    later: u64,
    between_later: Rect,
)
    ensures
        ({
            let once = reconciled(settings, anims, targets, root, target, now, between);
            reconciled(
                settings,
                once,
                targets.insert(root, target),
                root,
                target,
                later,
                between_later,
            ) == once
        }),
{
}

/// Laying one window out never touches the animation of another.
pub proof fn reconcile_leaves_other_windows_alone(
    settings: AnimationSettings,
    anims: Map<u64, WindowAnimation>,
    targets: Map<u64, Rect>,
    root: u64,
    target: Rect,
    now: u64,
    between: Rect,
    other: u64,
)
    requires
        other != root,
    ensures
        ({
            let after = reconciled(settings, anims, targets, root, target, now, between);
            &&& after.dom().contains(other) <==> anims.dom().contains(other)
            &&& anims.dom().contains(other) ==> after[other] == anims[other]
        }),
{
}

/// A window that was forgotten opens afresh when it is laid out again: from
/// the small rectangle at the corner of its tile, to that tile.
pub proof fn a_forgotten_window_opens_again(
    settings: AnimationSettings,
    anims: Map<u64, WindowAnimation>,
    targets: Map<u64, Rect>,
    root: u64,
    target: Rect,
    now: u64,
    between: Rect,
)
    requires
        settings.enabled,
        settings.open_enabled,
        settings.open_duration_ms > 0,
    ensures
        ({
            let after = reconciled(
                settings,
                anims.remove(root),
                targets.remove(root),
                root,
                target,
                now,
                between,
            );
            &&& after.dom().contains(root)
            &&& after[root].kind == WindowAnimationKind::Open
            &&& after[root].from == open_start(target)
            &&& after[root].to == target
            &&& after[root].started_at == now
        }),
{
}

/// What an animation shows stays between its two ends at every time: it ends
/// exactly at its target, a coordinate that both ends share stays put, so that a
/// window that opens or closes keeps its top-left corner, and it is never less
/// than a pixel.
pub proof fn an_animation_stays_on_its_way(anim: WindowAnimation, now: u64, between: Rect)
    requires
        anim.to.size.w >= 1,
        anim.to.size.h >= 1,
    ensures
        ({
            let shown = anim.shown_at(now, between);
            &&& anim.finished_at(now) ==> shown == anim.to
            &&& anim.from.loc == anim.to.loc ==> shown.loc == anim.to.loc
            &&& shown.loc.x == kept_between(shown.loc.x, anim.from.loc.x, anim.to.loc.x)
            &&& shown.loc.y == kept_between(shown.loc.y, anim.from.loc.y, anim.to.loc.y)
            &&& anim.from.size.w >= 1 ==> shown.size.w == kept_between(
                shown.size.w,
                anim.from.size.w,
                anim.to.size.w,
            )
            &&& anim.from.size.h >= 1 ==> shown.size.h == kept_between(
                shown.size.h,
                anim.from.size.h,
                anim.to.size.h,
            )
            &&& shown.size.w >= 1
            &&& shown.size.h >= 1
        }),
{
}

/// A re-targeted window never jumps: at that moment it is drawn where it was
/// drawn, once the duration has passed it is drawn at its target, and what is
/// shown of other windows stays the same throughout.
pub proof fn an_interrupted_animation_continues_where_it_is(
    settings: AnimationSettings,
    anims: Map<u64, WindowAnimation>,
    targets: Map<u64, Rect>,
    root: u64,
    target: Rect,
    now: u64,
    between: Rect,
)
    requires
        settings.enabled,
        settings.layout_enabled,
        settings.layout_duration_ms > 0,
        anims.dom().contains(root),
        targets.dom().contains(root),
        targets[root] != target,
        target.size.w >= 1,
        target.size.h >= 1,
    ensures
        ({
            let after = reconciled(settings, anims, targets, root, target, now, between);
            let shown = active(anims, root, now, between)->0;
            &&& forall|b: Rect| #[trigger]
                active(after, root, now, b) == Some(VisualRect { rect: shown.rect, reveal: false })
            &&& forall|later: u64, b: Rect|
                later >= now + settings.layout_duration_ms * 1_000_000 ==> #[trigger] active(
                    after,
                    root,
                    later,
                    b,
                ) == Some(VisualRect { rect: target, reveal: false })
            &&& forall|other: u64, at: u64, b: Rect|
                other != root ==> #[trigger] active(after, other, at, b) == active(
                    anims,
                    other,
                    at,
                    b,
                )
        }),
{
}

/// With animations off, no layout starts one.
pub proof fn disabled_animations_never_start(
    settings: AnimationSettings,
    anims: Map<u64, WindowAnimation>,
    targets: Map<u64, Rect>,
    root: u64,
    target: Rect,
    now: u64,
    between: Rect,
)
    requires
        !settings.enabled,
    ensures
        reconciled(settings, anims, targets, root, target, now, between) == anims,
{
}

/// Once the last animation's time has passed, a tick leaves none running.
pub proof fn all_animations_settle(
    anims: Map<u64, WindowAnimation>,
    dead: Seq<u64>,
    now: u64,
)
    requires
        forall|root: u64| #[trigger] anims.dom().contains(root) ==> anims[root].finished_at(now),
    ensures
        still_running(anims, dead, now) == Map::<u64, WindowAnimation>::empty(),
{
    assert(still_running(anims, dead, now) =~= Map::<u64, WindowAnimation>::empty());
}

/// An opening window starts at a twentieth of its tile each way, rounded, and at least at
/// a pixel, with its corner in place.
pub proof fn windows_open_from_a_twentieth(target: Rect)
    requires
        target.size.w >= 10,
        target.size.h >= 10,
    ensures
        -10 < 20 * open_start(target).size.w - target.size.w <= 10,
        -10 < 20 * open_start(target).size.h - target.size.h <= 10,
        open_start(target).loc.x == target.loc.x,
        open_start(target).loc.y == target.loc.y,
{
}

/// An animation runs for its duration, in milliseconds, and a tick drops it then and not
/// before, unless its window is gone.
pub proof fn animations_run_for_their_duration(
    anims: Map<u64, WindowAnimation>,
    dead: Seq<u64>,
    root: u64,
    now: u64,
)
    requires
        anims.dom().contains(root),
    ensures
        !dead.contains(root) && anims[root].started_at <= now < anims[root].started_at
            + anims[root].duration_ms * 1_000_000
            ==> still_running(anims, dead, now).dom().contains(root) && still_running(
            anims,
            dead,
            now,
        )[root] == anims[root],
        now >= anims[root].started_at + anims[root].duration_ms * 1_000_000 ==> !still_running(
            anims,
            dead,
            now,
        ).dom().contains(root),
        dead.contains(root) ==> !still_running(anims, dead, now).dom().contains(root),
{
}

/// A new window opens for the duration and with the curve of openings; one that moves
/// glides from where it was for those of the layout; each starts now.
pub proof fn each_kind_has_its_own_duration(
    settings: AnimationSettings,
    anims: Map<u64, WindowAnimation>,
    targets: Map<u64, Rect>,
    root: u64,
    target: Rect,
    now: u64,
    between: Rect,
)
    requires
        settings.enabled,
        settings.open_enabled,
        settings.layout_enabled,
        settings.open_duration_ms > 0,
        settings.layout_duration_ms > 0,
    ensures
        ({
            let after = reconciled(settings, anims, targets, root, target, now, between);
            let new = after[root];
            &&& !targets.dom().contains(root) ==> after.dom().contains(root) && new.kind
                == WindowAnimationKind::Open && new.duration_ms == settings.open_duration_ms
                && new.easing == settings.open_easing && new.to == target && new.started_at == now
            &&& targets.dom().contains(root) && targets[root] != target ==> after.dom().contains(
                root,
            ) && new.kind == WindowAnimationKind::GeometryChange && new.duration_ms
                == settings.layout_duration_ms && new.easing == settings.layout_easing && new.to
                == target && new.started_at == now
            &&& targets.dom().contains(root) && targets[root] != target && !anims.dom().contains(
                root,
            ) ==> new.from == targets[root]
            &&& targets.dom().contains(root) && targets[root] == target ==> after == anims
        }),
{
}

/// The configuration sets what it names: each switch and each duration its own, all off
/// with the kill switch; a curve that is not known leaves the ones there were.
pub proof fn the_configuration_is_taken_over(
    current: AnimationSettings,
    config: AnimationConfig,
    off: bool,
)
    ensures
        ({
            let s = configured(current, config, off);
            &&& s.enabled <==> config.enable_animations && !off
            &&& s.open_enabled <==> config.window_open_animation
            &&& s.close_enabled <==> config.window_close_animation
            &&& s.layout_enabled <==> config.layout_animation
            &&& s.disable_for_fullscreen <==> config.disable_animations_for_fullscreen
            &&& s.open_duration_ms == config.open_animation_duration_ms
            &&& s.close_duration_ms == config.close_animation_duration_ms
            &&& s.layout_duration_ms == config.layout_animation_duration_ms
            &&& normal_name(config.animation_easing@) == "linear"@ ==> s.open_easing
                == Easing::Linear && s.close_easing == Easing::Linear && s.layout_easing
                == Easing::Linear
        }),
{
}

/// Each curve goes by its names, and no name stands for two.
pub proof fn curves_go_by_their_names()
    ensures
        easing_named("linear"@) == Some(Easing::Linear),
        easing_named("ease_in"@) == Some(Easing::EaseInCubic),
        easing_named("ease_in_cubic"@) == Some(Easing::EaseInCubic),
        easing_named("in"@) == Some(Easing::EaseInCubic),
        easing_named("ease_out"@) == Some(Easing::EaseOutCubic),
        easing_named("ease_out_cubic"@) == Some(Easing::EaseOutCubic),
        easing_named("out"@) == Some(Easing::EaseOutCubic),
        easing_named("ease_in_out"@) == Some(Easing::EaseInOutCubic),
        easing_named("ease_in_out_cubic"@) == Some(Easing::EaseInOutCubic),
        easing_named("in_out"@) == Some(Easing::EaseInOutCubic),
        forall|name: Seq<char>|
            name.len() < 2 || name.len() > 17 ==> (#[trigger] easing_named(name)) is None,
{
    reveal_strlit("linear");
    reveal_strlit("ease_in");
    reveal_strlit("ease_in_cubic");
    reveal_strlit("in");
    reveal_strlit("ease_out");
    reveal_strlit("ease_out_cubic");
    reveal_strlit("out");
    reveal_strlit("ease_in_out");
    reveal_strlit("ease_in_out_cubic");
    reveal_strlit("in_out");
    assert("out"@.len() == 3 && "in"@.len() == 2 && "in_out"@.len() == 6 && "linear"@.len() == 6);
    assert("in_out"@[0] == 'i' && "linear"@[0] == 'l');
    assert("ease_in"@.len() == 7 && "ease_out"@.len() == 8 && "ease_in_out"@.len() == 11);
    assert("ease_in_cubic"@.len() == 13 && "ease_out_cubic"@.len() == 14
        && "ease_in_out_cubic"@.len() == 17);
}

/// The places of the living are kept, and those of the dead forgotten.
pub proof fn the_dead_are_forgotten(targets: Map<u64, Rect>, dead: Seq<u64>, root: u64)
    requires
        targets.dom().contains(root),
    ensures
        dead.contains(root) ==> !living_targets(targets, dead).dom().contains(root),
        !dead.contains(root) ==> living_targets(targets, dead).dom().contains(root)
            && living_targets(targets, dead)[root] == targets[root],
{
}

} // verus!
