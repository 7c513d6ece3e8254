//! The pointer: what it reaches, what its buttons do, and where focus follows.
use crate::geometry::{Point, Rect};
use crate::input::grab::{
    floating_after_resize, move_grab, resize_finish, resize_grab, swap_finish, tiled_resize_grab,
    tiled_swap_grab, with_placed, without_root, GrabState, ResizeFinish, SwapFinish, UnderPointer,
};
use crate::layering::WlrLayer;
use crate::types::{ActiveGrab, ResizeHorizontalEdge, ResizeVerticalEdge};
use vstd::prelude::*;

verus! {

pub const BTN_LEFT: u32 = 0x110;

pub const BTN_RIGHT: u32 = 0x111;

#[derive(Debug, Clone, Copy, PartialEq, Eq, Structural)]
pub enum LeftButtonReleaseAction {
    FinishMove,
    FinishTiledSwap,
    ForwardToClient,
}

#[derive(Debug, Clone, Copy, PartialEq, Eq, Structural)]
pub enum LeftButtonGrabKind {
    Move,
    TiledSwap,
    Other,
}

/// What the release of the left button does, by the grab that is active.
pub fn left_button_release_action(grab_kind: Option<LeftButtonGrabKind>) -> (r:
    LeftButtonReleaseAction)
    ensures
        r == match grab_kind {
            Some(LeftButtonGrabKind::Move) => LeftButtonReleaseAction::FinishMove,
            Some(LeftButtonGrabKind::TiledSwap) => LeftButtonReleaseAction::FinishTiledSwap,
            _ => LeftButtonReleaseAction::ForwardToClient,
        },
{
    match grab_kind {
        Some(LeftButtonGrabKind::Move) => LeftButtonReleaseAction::FinishMove,
        Some(LeftButtonGrabKind::TiledSwap) => LeftButtonReleaseAction::FinishTiledSwap,
        Some(LeftButtonGrabKind::Other) | None => LeftButtonReleaseAction::ForwardToClient,
    }
}

/// The surfaces found under the pointer: on each layer, among the windows, and
/// the live lock surface of the output.
#[derive(Debug, Clone, Copy, PartialEq, Eq, Structural)]
pub struct SurfacesUnder {
    pub lock: Option<u64>,
    pub overlay: Option<u64>,
    pub top: Option<u64>,
    pub window: Option<u64>,
    pub bottom: Option<u64>,
    pub background: Option<u64>,
}

/// Which of the surfaces under the pointer it reaches.
#[derive(Debug, Clone, Copy, PartialEq, Eq, Structural)]
pub enum PointerHit {
    Lock(u64),
    Layer(WlrLayer, u64),
    Window(u64),
    Nothing,
}

/// The surface that the pointer reaches. While locked it is the lock surface
/// or nothing. Else it is the frontmost one; a window that owns the screen
/// leaves the layers out of reach.
pub open spec fn hit_of(
    locked: bool,
    fullscreen_active: bool,
    under: SurfacesUnder,
) -> PointerHit {
    if locked {
        if under.lock is Some {
            PointerHit::Lock(under.lock->0)
        } else {
            PointerHit::Nothing
        }
    } else if !fullscreen_active && under.overlay is Some {
        PointerHit::Layer(WlrLayer::Overlay, under.overlay->0)
    } else if !fullscreen_active && under.top is Some {
        PointerHit::Layer(WlrLayer::Top, under.top->0)
    } else if under.window is Some {
        PointerHit::Window(under.window->0)
    } else if !fullscreen_active && under.bottom is Some {
        PointerHit::Layer(WlrLayer::Bottom, under.bottom->0)
    } else if !fullscreen_active && under.background is Some {
        PointerHit::Layer(WlrLayer::Background, under.background->0)
    } else {
        PointerHit::Nothing
    }
}

fn on_layer(layer: WlrLayer, under: SurfacesUnder) -> (r: Option<u64>)
    ensures
        r == match layer {
            WlrLayer::Overlay => under.overlay,
            WlrLayer::Top => under.top,
            WlrLayer::Bottom => under.bottom,
            WlrLayer::Background => under.background,
        },
{
    match layer {
        WlrLayer::Overlay => under.overlay,
        WlrLayer::Top => under.top,
        WlrLayer::Bottom => under.bottom,
        WlrLayer::Background => under.background,
    }
}

/// The first of `layers` that has a surface under the pointer.
fn first_layer(layers: &Vec<WlrLayer>, under: SurfacesUnder) -> (r: Option<(WlrLayer, u64)>)
    requires
        layers.len() <= 2,
    ensures
        r == if layers.len() > 0 && layer_surface(layers@[0], under) is Some {
            Some((layers@[0], layer_surface(layers@[0], under)->0))
        } else if layers.len() > 1 && layer_surface(layers@[1], under) is Some {
            Some((layers@[1], layer_surface(layers@[1], under)->0))
        } else {
            None
        },
{
    let mut i: usize = 0;
    while i < layers.len()
        invariant
            i <= layers.len() <= 2,
            forall|k: int| 0 <= k < i ==> layer_surface(#[trigger] layers@[k], under) is None,
        decreases layers.len() - i,
    {
        if let Some(surface) = on_layer(layers[i], under) {
            proof {
                assert(i == 1 ==> layer_surface(layers@[0], under) is None);
            }
            return Some((layers[i], surface));
        }
        i = i + 1;
    }
    proof {
        assert(layers.len() > 0 ==> layer_surface(layers@[0], under) is None);
        assert(layers.len() > 1 ==> layer_surface(layers@[1], under) is None);
    }
    None
}

pub open spec fn layer_surface(layer: WlrLayer, under: SurfacesUnder) -> Option<u64> {
    match layer {
        WlrLayer::Overlay => under.overlay,
        WlrLayer::Top => under.top,
        WlrLayer::Bottom => under.bottom,
        WlrLayer::Background => under.background,
    }
}

pub fn surface_under(locked: bool, fullscreen_active: bool, under: SurfacesUnder) -> (r: PointerHit)
    ensures
        r == hit_of(locked, fullscreen_active, under),
{
    if locked {
        return match under.lock {
            Some(surface) => PointerHit::Lock(surface),
            None => PointerHit::Nothing,
        };
    }
    let before = crate::layering::layers_hit_tested_before_windows(fullscreen_active);
    if let Some((layer, surface)) = first_layer(&before, under) {
        return PointerHit::Layer(layer, surface);
    }
    if let Some(surface) = under.window {
        return PointerHit::Window(surface);
    }
    let after = crate::layering::layers_hit_tested_after_windows(fullscreen_active);
    if let Some((layer, surface)) = first_layer(&after, under) {
        return PointerHit::Layer(layer, surface);
    }
    PointerHit::Nothing
}

/// What a surface under the pointer belongs to.
#[derive(Debug, Clone, Copy, PartialEq, Eq, Structural)]
pub enum SurfaceOwner {
    /// A mapped window. X11 menus and tooltips manage themselves
    /// (`override_redirect`) and must never be focused.
    Window { override_redirect: bool },
    /// A shell surface, which may decline the keyboard.
    Layer { interactive: bool },
    Unknown,
}

/// Whether a surface takes the keyboard at all.
pub fn surface_accepts_keyboard_focus(owner: SurfaceOwner) -> (r: bool)
    ensures
        r == match owner {
            SurfaceOwner::Window { .. } => true,
            SurfaceOwner::Layer { interactive } => interactive,
            SurfaceOwner::Unknown => false,
        },
{
    match owner {
        SurfaceOwner::Window { override_redirect: _ } => true,
        SurfaceOwner::Layer { interactive } => interactive,
        SurfaceOwner::Unknown => false,
    }
}

pub open spec fn takes_focus(owner: SurfaceOwner) -> bool {
    match owner {
        SurfaceOwner::Window { override_redirect } => !override_redirect,
        SurfaceOwner::Layer { interactive } => interactive,
        SurfaceOwner::Unknown => false,
    }
}

/// Whether the pointer gives the keyboard to a surface it is over.
pub fn keyboard_focus_under_pointer(owner: SurfaceOwner) -> (r: bool)
    ensures
        r == takes_focus(owner),
{
    match owner {
        SurfaceOwner::Window { override_redirect } => !override_redirect,
        _ => surface_accepts_keyboard_focus(owner),
    }
}

/// The focus target under the pointer, as far as a motion is concerned.
#[derive(Debug, Clone, Copy, PartialEq, Eq, Structural)]
pub struct HoverTarget {
    pub owner: SurfaceOwner,
    pub target: u64,
}

/// What a motion event meets.
#[derive(Debug, Clone, Copy, PartialEq, Eq, Structural)]
pub struct MotionFacts {
    pub has_output: bool,
    pub has_pointer: bool,
    /// The surface under the old position holds an active pointer lock. Only
    /// relative motion can meet one.
    pub constraint_locked: bool,
    /// The pixels under the old and the new position.
    pub old_pixel: Point,
    pub new_pixel: Point,
    pub focus_follows_mouse: bool,
    pub layer_has_focus: bool,
    /// A client holds the pointer.
    pub pointer_grabbed: bool,
    pub hover: Option<HoverTarget>,
    pub has_keyboard: bool,
    pub focused: Option<u64>,
}

/// What a motion event does.
#[derive(Debug, Clone, Copy, PartialEq, Eq, Structural)]
pub enum MotionPlan {
    /// Nothing at all.
    Ignore,
    /// The pointer stays; the client is told the relative motion only.
    RelativeOnly,
    /// The pointer moves and the compositor's grab follows it.
    Grab { render: bool },
    /// The pointer moves, but there is nobody to tell.
    MoveOnly { render: bool },
    /// The pointer moves and the client is told. Focus goes to the target; the
    /// compositor's own cursor is looked at again.
    Deliver { render: bool, focus: Option<u64>, refresh_cursor: bool },
}

/// Whether the keyboard follows the pointer for this motion.
pub open spec fn focus_follows(facts: MotionFacts) -> bool {
    facts.focus_follows_mouse && !facts.layer_has_focus && !facts.pointer_grabbed && facts.hover
        is Some
}

pub open spec fn motion_plan(facts: MotionFacts, grab_active: bool) -> MotionPlan {
    let render = facts.old_pixel != facts.new_pixel;
    let target = facts.hover->0.target;
    if !facts.has_output {
        MotionPlan::Ignore
    } else if facts.has_pointer && facts.constraint_locked {
        MotionPlan::RelativeOnly
    } else if grab_active {
        MotionPlan::Grab { render }
    } else if !facts.has_pointer {
        MotionPlan::MoveOnly { render }
    } else if focus_follows(facts) && takes_focus(facts.hover->0.owner) {
        MotionPlan::Deliver {
            render,
            focus: if facts.has_keyboard && facts.focused != Some(target) {
                Some(target)
            } else {
                None
            },
            refresh_cursor: facts.has_keyboard,
        }
    } else {
        MotionPlan::Deliver { render, focus: None, refresh_cursor: true }
    }
}

/// Decide what an absolute motion does.
pub fn plan_motion_absolute(facts: MotionFacts, grab_active: bool) -> (r: MotionPlan)
    ensures
        r == motion_plan(MotionFacts { constraint_locked: false, ..facts }, grab_active),
{
    if !facts.has_output {
        return MotionPlan::Ignore;
    }
    let render = facts.old_pixel != facts.new_pixel;
    if grab_active {
        return MotionPlan::Grab { render };
    }
    if !facts.has_pointer {
        return MotionPlan::MoveOnly { render };
    }
    if facts.focus_follows_mouse && !facts.layer_has_focus && !facts.pointer_grabbed {
        if let Some(hover) = facts.hover {
            if !keyboard_focus_under_pointer(hover.owner) {
                return MotionPlan::Deliver { render, focus: None, refresh_cursor: true };
            }
            if !facts.has_keyboard {
                return MotionPlan::Deliver { render, focus: None, refresh_cursor: false };
            }
            let already_focused = match facts.focused {
                Some(focused) => focused == hover.target,
                None => false,
            };
            let focus = if already_focused {
                None
            } else {
                Some(hover.target)
            };
            return MotionPlan::Deliver { render, focus, refresh_cursor: true };
        }
    }
    MotionPlan::Deliver { render, focus: None, refresh_cursor: true }
}

/// Decide what a relative motion does. Without a pointer on the seat nothing
/// happens.
pub fn plan_motion(facts: MotionFacts, grab_active: bool) -> (r: MotionPlan)
    ensures
        r == if facts.has_output && !facts.has_pointer {
            MotionPlan::Ignore
        } else {
            motion_plan(facts, grab_active)
        },
{
    if !facts.has_output || !facts.has_pointer {
        return MotionPlan::Ignore;
    }
    if facts.constraint_locked {
        return MotionPlan::RelativeOnly;
    }
    plan_motion_absolute(facts, grab_active)
}

/// The window or shell surface that a click would focus.
#[derive(Debug, Clone, Copy, PartialEq, Eq, Structural)]
pub struct ClickTarget {
    pub target: u64,
    pub x11: bool,
}

/// What a button event meets.
#[derive(Debug, Clone, Copy, PartialEq, Eq, Structural)]
pub struct ButtonFacts {
    pub button: u32,
    pub pressed: bool,
    /// The logo key is held.
    pub logo: bool,
    pub window_under: Option<UnderPointer>,
    pub workspace_idx: usize,
    /// The pixel under the pointer, and its place in half pixels.
    pub pixel: Point,
    pub twice_x: i64,
    pub twice_y: i64,
    /// What a click here would focus.
    pub click_target: Option<ClickTarget>,
    pub focused: Option<u64>,
}

/// What a button event does.
#[derive(Debug, Clone, Copy, PartialEq, Eq, Structural)]
pub enum ButtonPlan {
    StartedMove,
    StartedTiledSwap,
    FinishedMove,
    FinishedTiledSwap(SwapFinish),
    StartedResize,
    StartedTiledResize,
    FinishedResize(ResizeFinish),
    /// The client gets the button, after the X11 window was raised and the
    /// keyboard moved.
    Deliver { raise_x11: Option<u64>, focus: Option<u64> },
}

/// What a button that no grab claims does for focus: a press focuses what is
/// under the pointer, unless a grab is active.
pub open spec fn click_plan(facts: ButtonFacts, grab_active: bool) -> ButtonPlan {
    if facts.pressed && !grab_active && facts.click_target is Some {
        let target = facts.click_target->0;
        ButtonPlan::Deliver {
            raise_x11: if target.x11 { Some(target.target) } else { None },
            focus: if facts.focused == Some(target.target) { None } else { Some(target.target) },
        }
    } else {
        ButtonPlan::Deliver { raise_x11: None, focus: None }
    }
}

fn plan_click(facts: ButtonFacts, grab_active: bool) -> (r: ButtonPlan)
    ensures
        r == click_plan(facts, grab_active),
{
    if facts.pressed && !grab_active {
        if let Some(target) = facts.click_target {
            let already_focused = match facts.focused {
                Some(focused) => focused == target.target,
                None => false,
            };
            return ButtonPlan::Deliver {
                raise_x11: if target.x11 {
                    Some(target.target)
                } else {
                    None
                },
                focus: if already_focused {
                    None
                } else {
                    Some(target.target)
                },
            };
        }
    }
    ButtonPlan::Deliver { raise_x11: None, focus: None }
}

/// Whether `after` is `before` with a button event handled, and `r` is what it
/// does.
pub open spec fn button_handled(
    before: GrabState,
    after: GrabState,
    facts: ButtonFacts,
    r: ButtonPlan,
) -> bool {
    let on_float = before.floating_under(facts.logo, facts.window_under)
        && facts.window_under->0.geometry is Some;
    let on_tile = before.tiled_under(facts.logo, facts.window_under)
        && facts.window_under->0.geometry is Some;
    let left = facts.button == BTN_LEFT;
    let right = facts.button == BTN_RIGHT;
    let moving = before.active_grab matches Some(ActiveGrab::Move(_));
    let swapping = before.active_grab matches Some(ActiveGrab::TiledSwap(_));
    let resizing = (before.active_grab matches Some(ActiveGrab::Resize(_))) || (
    before.active_grab matches Some(ActiveGrab::TiledResize(_)));
    let hit = facts.window_under->0;
    let same_floating = after.floating@ == before.floating@;
    let same_target = after.tiled_swap_target == before.tiled_swap_target;
    let same_saved = after.layout_saved == before.layout_saved;
    if left && facts.pressed && on_float {
        &&& r == ButtonPlan::StartedMove
        &&& after.active_grab == Some(move_grab(hit))
        &&& same_floating && same_target && same_saved
    } else if left && facts.pressed && on_tile {
        &&& r == ButtonPlan::StartedTiledSwap
        &&& after.active_grab == Some(tiled_swap_grab(hit, facts.workspace_idx))
        &&& after.layout_saved
        &&& after.tiled_swap_target is None
        &&& after.floating@ == with_placed(
            before.floating@,
            hit.window.root,
            hit.geometry->0.loc,
            hit.geometry->0.size,
        )
    } else if left && !facts.pressed && moving {
        &&& r == ButtonPlan::FinishedMove
        &&& after.active_grab is None
        &&& same_floating && same_target && same_saved
    } else if left && !facts.pressed && swapping {
        let grab = before.active_grab->0->TiledSwap_0;
        &&& r == ButtonPlan::FinishedTiledSwap(
            swap_finish(
                grab,
                before.layout_saved,
                before.tiled_swap_target,
                facts.pixel,
            ),
        )
        &&& after.active_grab is None
        &&& after.tiled_swap_target is None
        &&& !after.layout_saved
        &&& after.floating@ == without_root(before.floating@, grab.window.root)
    } else if right && facts.pressed && on_float {
        &&& r == ButtonPlan::StartedResize
        &&& after.active_grab == Some(
            resize_grab(hit, facts.twice_x, facts.twice_y),
        )
        &&& same_floating && same_target && same_saved
    } else if right && facts.pressed && on_tile {
        &&& r == ButtonPlan::StartedTiledResize
        &&& after.active_grab == Some(
            tiled_resize_grab(hit, facts.workspace_idx, facts.twice_x, facts.twice_y),
        )
        &&& same_floating && same_target && same_saved
    } else if right && !facts.pressed && resizing {
        &&& r == ButtonPlan::FinishedResize(resize_finish(before.active_grab))
        &&& after.active_grab is None
        &&& after.floating@ == floating_after_resize(
            before.floating@,
            before.active_grab,
        )
        &&& same_target && same_saved
    } else {
        &&& r == click_plan(facts, before.active_grab is Some)
        &&& after.active_grab == before.active_grab
        &&& same_floating && same_target && same_saved
    }
}

impl GrabState {
    /// Handle a button event: start or finish a grab, or let the client have
    /// it. A floating window is moved with the left and resized with the right
    /// button; a tiled one is dragged and resized in its layout.
    pub fn handle_pointer_button(&mut self, facts: ButtonFacts) -> (r: ButtonPlan)
        requires
            old(self).wf(),
            old(self).active_grab matches Some(ActiveGrab::TiledSwap(g)) ==> (Rect {
                loc: g.start_window_pos,
                size: g.start_window_size,
            }).in_range(),
        ensures
            final(self).wf(),
            button_handled(*old(self), *final(self), facts, r),
    {
        if facts.button == BTN_LEFT && facts.pressed {
            if self.try_start_move_grab(facts.logo, facts.window_under) {
                return ButtonPlan::StartedMove;
            }
            if self.try_start_tiled_swap_grab(facts.logo, facts.window_under, facts.workspace_idx) {
                return ButtonPlan::StartedTiledSwap;
            }
        }
        if facts.button == BTN_LEFT && !facts.pressed {
            let grab_kind = match self.active_grab {
                Some(ActiveGrab::Move(_)) => Some(LeftButtonGrabKind::Move),
                Some(ActiveGrab::TiledSwap(_)) => Some(LeftButtonGrabKind::TiledSwap),
                Some(_) => Some(LeftButtonGrabKind::Other),
                None => None,
            };
            match left_button_release_action(grab_kind) {
                LeftButtonReleaseAction::FinishMove => {
                    let _ = self.finish_move_grab();
                    return ButtonPlan::FinishedMove;
                },
                LeftButtonReleaseAction::FinishTiledSwap => {
                    if let Some(finish) = self.finish_tiled_swap_grab(facts.pixel) {
                        return ButtonPlan::FinishedTiledSwap(finish);
                    }
                },
                LeftButtonReleaseAction::ForwardToClient => {},
            }
        }
        if facts.button == BTN_RIGHT && facts.pressed {
            if self.try_start_resize_grab(
                facts.logo,
                facts.window_under,
                facts.twice_x,
                facts.twice_y,
            ) {
                return ButtonPlan::StartedResize;
            }
            if self.try_start_tiled_resize_grab(
                facts.logo,
                facts.window_under,
                facts.workspace_idx,
                facts.twice_x,
                facts.twice_y,
            ) {
                return ButtonPlan::StartedTiledResize;
            }
        }
        if facts.button == BTN_RIGHT && !facts.pressed {
            match self.finish_resize_grab() {
                ResizeFinish::NoGrab => {},
                finish => {
                    return ButtonPlan::FinishedResize(finish);
                },
            }
        }
        let grab_active = self.active_grab.is_some();
        plan_click(facts, grab_active)
    }
}

/// What one axis of a scroll event becomes.
#[derive(Debug, Clone, Copy, PartialEq, Eq, Structural)]
pub enum AxisPlan {
    /// The amount as it is; with the high-resolution steps where there are.
    Amount { with_steps: bool },
    /// The steps alone, which also give the amount.
    Steps,
    /// The finger was lifted.
    Stop,
    Nothing,
}

/// Decide about one axis. `amount_nonzero` says whether the amount, where
/// there is one, is other than zero.
pub fn plan_axis(amount_nonzero: Option<bool>, has_steps: bool, finger: bool) -> (r: AxisPlan)
    ensures
        r == match amount_nonzero {
            Some(true) => AxisPlan::Amount { with_steps: has_steps },
            Some(false) => if finger {
                AxisPlan::Stop
            } else {
                AxisPlan::Nothing
            },
            None => if has_steps {
                AxisPlan::Steps
            } else {
                AxisPlan::Nothing
            },
        },
{
    match amount_nonzero {
        Some(true) => AxisPlan::Amount { with_steps: has_steps },
        Some(false) => if finger {
            AxisPlan::Stop
        } else {
            AxisPlan::Nothing
        },
        None => if has_steps {
            AxisPlan::Steps
        } else {
            AxisPlan::Nothing
        },
    }
}

/// While the session is locked the pointer reaches the lock surface or nothing,
/// whatever lies beneath.
pub proof fn a_locked_session_exposes_nothing(fullscreen_active: bool, under: SurfacesUnder)
    ensures
        match hit_of(true, fullscreen_active, under) {
            PointerHit::Lock(surface) => under.lock == Some(surface),
            PointerHit::Nothing => under.lock is None,
            _ => false,
        },
{
}

/// A window that owns the screen is never covered by a layer.
pub proof fn a_fullscreen_window_is_hit_first(under: SurfacesUnder)
    requires
        under.window is Some,
    ensures
        hit_of(false, true, under) == PointerHit::Window(under.window->0),
{
}

/// With the logo key held the left button moves a floating window and drags a tile, and
/// the right button resizes either; without it, and on a window that fills the screen, the
/// client gets the button. Letting go of the button that began it ends a grab.
pub proof fn buttons_start_and_end_grabs(
    before: GrabState,
    after: GrabState,
    facts: ButtonFacts,
    r: ButtonPlan,
    hit: UnderPointer,
    root: u64,
)
    requires
        button_handled(before, after, facts, r),
        facts.window_under == Some(hit),
        hit.window.root == Some(root),
        hit.geometry is Some,
    ensures
        ({
            let floats = before.floating@.dom().contains(root);
            let tiled = !floats && !hit.fullscreen;
            let pressed = facts.pressed && facts.logo;
            let at = hit.geometry->0;
            &&& pressed && facts.button == 0x110 && floats ==> r == ButtonPlan::StartedMove && (
            after.active_grab matches Some(ActiveGrab::Move(g)) && g.window == hit.window
                && g.start_window_pos == at.loc)
            &&& pressed && facts.button == 0x110 && tiled ==> r == ButtonPlan::StartedTiledSwap
                && after.layout_saved && after.floating@.dom().contains(root) && (
            after.active_grab matches Some(ActiveGrab::TiledSwap(g)) && g.window == hit.window
                && g.start_window_pos == at.loc && g.start_window_size == at.size
                && g.workspace_idx == facts.workspace_idx)
            &&& pressed && facts.button == 0x111 && floats ==> r == ButtonPlan::StartedResize && (
            after.active_grab matches Some(ActiveGrab::Resize(g)) && g.window == hit.window
                && g.start_window_pos == at.loc && g.start_window_size == at.size && (
            g.edges.horizontal == ResizeHorizontalEdge::Left <==> facts.twice_x < 2 * at.loc.x
                + at.size.w) && (g.edges.vertical == ResizeVerticalEdge::Top <==> facts.twice_y < 2
                * at.loc.y + at.size.h))
            &&& pressed && facts.button == 0x111 && tiled ==> r == ButtonPlan::StartedTiledResize
                && (after.active_grab matches Some(ActiveGrab::TiledResize(g)) && g.window
                == hit.window && g.workspace_idx == facts.workspace_idx && (g.edges.horizontal
                == ResizeHorizontalEdge::Left <==> facts.twice_x < 2 * at.loc.x + at.size.w) && (
            g.edges.vertical == ResizeVerticalEdge::Top <==> facts.twice_y < 2 * at.loc.y
                + at.size.h))
            &&& facts.pressed && (!facts.logo || (!floats && hit.fullscreen)) ==> r is Deliver
                && after.active_grab == before.active_grab
            &&& facts.button != 0x110 && facts.button != 0x111 ==> r is Deliver
                && after.active_grab == before.active_grab
            &&& !facts.pressed && before.active_grab is None ==> r is Deliver
        }),
{
}

/// Letting go of the left button ends a move and a drag, of the right one a resize; a
/// dragged tile floats no longer, and a window that was resized keeps its last size.
pub proof fn letting_go_ends_the_grab(
    before: GrabState,
    after: GrabState,
    facts: ButtonFacts,
    r: ButtonPlan,
)
    requires
        button_handled(before, after, facts, r),
        !facts.pressed,
    ensures
        before.active_grab is Some ==> match before.active_grab->0 {
            ActiveGrab::Move(g) => if facts.button == 0x110 {
                after.active_grab is None && r == ButtonPlan::FinishedMove && after.floating@
                    == before.floating@
            } else {
                after.active_grab == before.active_grab
            },
            ActiveGrab::TiledSwap(g) => if facts.button == 0x110 {
                after.active_grab is None && after.tiled_swap_target is None && !after.layout_saved
                    && (g.window.root is Some ==> !after.floating@.dom().contains(g.window.root->0))
                    && r is FinishedTiledSwap
            } else {
                after.active_grab == before.active_grab
            },
            ActiveGrab::Resize(g) => if facts.button == 0x111 {
                &&& after.active_grab is None
                &&& r == ButtonPlan::FinishedResize(
                    ResizeFinish::Floating {
                        window: g.window,
                        position: g.current_window_pos,
                        size: g.current_window_size,
                    },
                )
                &&& g.window.root is Some && g.current_window_size.w >= 1
                    && g.current_window_size.h >= 1 ==> after.floating@.dom().contains(g.window.root->0)
                    && after.floating@[g.window.root->0].position == g.current_window_pos
                    && after.floating@[g.window.root->0].size == g.current_window_size
            } else {
                after.active_grab == before.active_grab
            },
            ActiveGrab::TiledResize(g) => if facts.button == 0x111 {
                after.active_grab is None && after.floating@ == before.floating@ && r
                    == ButtonPlan::FinishedResize(
                    ResizeFinish::Tiled { window: g.window, workspace_idx: g.workspace_idx },
                )
            } else {
                after.active_grab == before.active_grab
            },
        },
{
}

/// A press with no grab active focuses what is under the pointer, unless that has the
/// keyboard already, and raises an X11 window either way; a release, or a press during a
/// grab, moves no focus.
pub proof fn a_click_focuses_what_it_hits(facts: ButtonFacts, target: ClickTarget, grabbed: bool)
    ensures
        facts.pressed && !grabbed && facts.click_target == Some(target) && facts.focused != Some(
            target.target,
        ) ==> (click_plan(facts, grabbed) matches ButtonPlan::Deliver { raise_x11, focus } && focus
            == Some(target.target) && (raise_x11 is Some <==> target.x11)),
        facts.pressed && !grabbed && facts.click_target == Some(target) && facts.focused == Some(
            target.target,
        ) ==> (click_plan(facts, grabbed) matches ButtonPlan::Deliver { raise_x11, focus }
            && focus is None && (raise_x11 is Some <==> target.x11)),
        !facts.pressed || grabbed || facts.click_target is None ==> click_plan(facts, grabbed) == (
        ButtonPlan::Deliver { raise_x11: None, focus: None }),
{
}

/// The pointer meets what is in front: the overlay, the top layer, the windows, the bottom
/// layer and the background, in that order.
pub proof fn the_pointer_meets_what_is_in_front(under: SurfacesUnder, surface: u64)
    ensures
        under.overlay == Some(surface) ==> hit_of(false, false, under) == PointerHit::Layer(
            WlrLayer::Overlay,
            surface,
        ),
        under.overlay is None && under.top == Some(surface) ==> hit_of(false, false, under)
            == PointerHit::Layer(WlrLayer::Top, surface),
        under.overlay is None && under.top is None && under.window == Some(surface) ==> hit_of(
            false,
            false,
            under,
        ) == PointerHit::Window(surface),
        under.overlay is None && under.top is None && under.window is None && under.bottom == Some(
            surface,
        ) ==> hit_of(false, false, under) == PointerHit::Layer(WlrLayer::Bottom, surface),
        under.overlay is None && under.top is None && under.window is None && under.bottom is None
            && under.background == Some(surface) ==> hit_of(false, false, under)
            == PointerHit::Layer(WlrLayer::Background, surface),
        under.window is None ==> hit_of(false, true, under) == PointerHit::Nothing,
        hit_of(true, false, under) == hit_of(true, true, under),
{
}

/// A pointer that a client holds in place does not move; one on a desktop without outputs
/// does nothing; a grab gets the motion before any client does; and the picture changes
/// exactly where the pointer comes to another pixel.
pub proof fn motions_go_where_they_belong(facts: MotionFacts, grabbed: bool)
    ensures
        !facts.has_output ==> motion_plan(facts, grabbed) == MotionPlan::Ignore,
        facts.has_output && facts.has_pointer && facts.constraint_locked ==> motion_plan(
            facts,
            grabbed,
        ) == MotionPlan::RelativeOnly,
        facts.has_output && !(facts.has_pointer && facts.constraint_locked) && grabbed ==> (
        motion_plan(facts, grabbed) matches MotionPlan::Grab { render } && (render
            <==> facts.old_pixel != facts.new_pixel)),
        facts.has_output && facts.has_pointer && !facts.constraint_locked && !grabbed ==> (
        motion_plan(facts, grabbed) matches MotionPlan::Deliver { render, focus, refresh_cursor }
            && (render <==> facts.old_pixel != facts.new_pixel)),
{
}

/// The keyboard follows the pointer only where that is configured, no layer and no popup
/// holds it, and the pointer is over something that takes it and has it not.
pub proof fn focus_follows_the_pointer_where_configured(facts: MotionFacts, grabbed: bool)
    requires
        facts.has_output,
        facts.has_pointer,
        facts.has_keyboard,
        !facts.constraint_locked,
        !grabbed,
    ensures
        ({
            let follows = facts.focus_follows_mouse && !facts.layer_has_focus
                && !facts.pointer_grabbed && facts.hover is Some;
            let takes = match facts.hover->0.owner {
                SurfaceOwner::Window { override_redirect } => !override_redirect,
                SurfaceOwner::Layer { interactive } => interactive,
                SurfaceOwner::Unknown => false,
            };
            &&& follows && takes && facts.focused != Some(facts.hover->0.target) ==> (motion_plan(
                facts,
                grabbed,
            ) matches MotionPlan::Deliver { render, focus, refresh_cursor } && focus == Some(
                facts.hover->0.target,
            ))
            &&& !(follows && takes) || facts.focused == Some(facts.hover->0.target) ==> (
            motion_plan(facts, grabbed) matches MotionPlan::Deliver { render, focus, refresh_cursor }
                && focus is None)
        }),
{
}

} // verus!
