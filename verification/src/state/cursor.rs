//! The cursor: what the compositor shows, and when the client decides.
use crate::geometry::{fits_i32, Point, Rect};
use crate::types::{ActiveGrab, CursorIcon};
use vstd::prelude::*;

verus! {

/// What the focused client asked for.
#[derive(Debug, Clone, Copy, PartialEq, Eq, Structural)]
pub enum CursorImageStatus {
    Hidden,
    Named(CursorIcon),
    Surface(u64),
}

pub open spec fn resolved(
    compositor_cursor_icon: Option<CursorIcon>,
    cursor_status: CursorImageStatus,
) -> Option<CursorIcon> {
    if compositor_cursor_icon is Some {
        compositor_cursor_icon
    } else {
        match cursor_status {
            CursorImageStatus::Hidden => None,
            CursorImageStatus::Named(icon) => Some(icon),
            CursorImageStatus::Surface(_) => Some(CursorIcon::Arrow),
        }
    }
}

/// The icon to draw, if any. An icon of the compositor's own always wins, else
/// the client's request decides; a cursor surface falls back to the arrow.
/// Whether a window fills the screen plays no part.
pub fn resolve_cursor_icon(
    compositor_cursor_icon: Option<CursorIcon>,
    cursor_status: CursorImageStatus,
) -> (r: Option<CursorIcon>)
    ensures
        r == resolved(compositor_cursor_icon, cursor_status),
{
    if let Some(icon) = compositor_cursor_icon {
        return Some(icon);
    }
    match cursor_status {
        CursorImageStatus::Hidden => None,
        CursorImageStatus::Named(icon) => Some(icon),
        CursorImageStatus::Surface(_) => Some(CursorIcon::Arrow),
    }
}

/// A window of the scene, as far as the cursor over its border goes.
#[derive(Debug, Clone, Copy, PartialEq, Eq, Structural)]
pub struct CursorWindow {
    /// It fills the screen of the active workspace, without borders.
    pub fullscreen: bool,
    pub root: Option<u64>,
    pub floating: bool,
    pub geometry: Option<Rect>,
}

/// Whether the border of width `bw` round `geo` stays within the coordinates.
pub open spec fn ring_in_range(geo: Rect, bw: i32) -> bool {
    &&& geo.in_range()
    &&& fits_i32(geo.loc.x - bw)
    &&& fits_i32(geo.loc.y - bw)
    &&& fits_i32(geo.right() + bw)
    &&& fits_i32(geo.bottom() + bw)
}

/// The icon over the border of width `bw` round `geo`; none beside it or over
/// the window itself.
pub open spec fn ring_icon(geo: Rect, bw: i32, at: Point) -> Option<CursorIcon> {
    let inside_outer = geo.loc.x - bw <= at.x < geo.right() + bw && geo.loc.y - bw <= at.y
        < geo.bottom() + bw;
    let left = at.x < geo.loc.x;
    let right = at.x >= geo.right();
    let top = at.y < geo.loc.y;
    let bottom = at.y >= geo.bottom();
    if !inside_outer {
        None
    } else if top && left {
        Some(CursorIcon::NwResize)
    } else if top && right {
        Some(CursorIcon::NeResize)
    } else if bottom && left {
        Some(CursorIcon::SwResize)
    } else if bottom && right {
        Some(CursorIcon::SeResize)
    } else if top {
        Some(CursorIcon::NResize)
    } else if bottom {
        Some(CursorIcon::SResize)
    } else if left {
        Some(CursorIcon::WResize)
    } else if right {
        Some(CursorIcon::EResize)
    } else {
        None
    }
}

fn icon_over_ring(geo: Rect, bw: i32, at: Point) -> (r: Option<CursorIcon>)
    requires
        ring_in_range(geo, bw),
    ensures
        r == ring_icon(geo, bw, at),
{
    let right_edge: i32 = geo.loc.x + geo.size.w;
    let bottom_edge: i32 = geo.loc.y + geo.size.h;
    if at.x < geo.loc.x - bw || at.x as i64 >= right_edge as i64 + bw as i64 || at.y < geo.loc.y - bw
        || at.y as i64 >= bottom_edge as i64 + bw as i64 {
        return None;
    }
    let on_left = at.x < geo.loc.x;
    let on_right = at.x >= right_edge;
    let on_top = at.y < geo.loc.y;
    let on_bottom = at.y >= bottom_edge;
    if on_top && on_left {
        Some(CursorIcon::NwResize)
    } else if on_top && on_right {
        Some(CursorIcon::NeResize)
    } else if on_bottom && on_left {
        Some(CursorIcon::SwResize)
    } else if on_bottom && on_right {
        Some(CursorIcon::SeResize)
    } else if on_top {
        Some(CursorIcon::NResize)
    } else if on_bottom {
        Some(CursorIcon::SResize)
    } else if on_left {
        Some(CursorIcon::WResize)
    } else if on_right {
        Some(CursorIcon::EResize)
    } else {
        None
    }
}

/// The icon that one window of the scene calls for: only floating ones have a
/// border to resize by.
pub open spec fn window_icon(window: CursorWindow, bw: i32, at: Point) -> Option<CursorIcon> {
    if !window.fullscreen && window.root is Some && window.floating && window.geometry is Some {
        ring_icon(window.geometry->0, bw, at)
    } else {
        None
    }
}

/// The icon of the first window that calls for one.
pub open spec fn scene_icon(windows: Seq<CursorWindow>, bw: i32, at: Point) -> Option<CursorIcon>
    decreases windows.len(),
{
    if windows.len() == 0 {
        None
    } else if window_icon(windows[0], bw, at) is Some {
        window_icon(windows[0], bw, at)
    } else {
        scene_icon(windows.drop_first(), bw, at)
    }
}

/// The icon of a grab.
pub open spec fn grab_icon(grab: ActiveGrab) -> CursorIcon {
    match grab {
        ActiveGrab::Resize(g) => g.edges.icon(),
        ActiveGrab::TiledResize(g) => g.edges.icon(),
        ActiveGrab::Move(_) => CursorIcon::Grabbing,
        ActiveGrab::TiledSwap(_) => CursorIcon::Grabbing,
    }
}

pub open spec fn compositor_icon(
    grab: Option<ActiveGrab>,
    bw: i32,
    at: Point,
    windows: Seq<CursorWindow>,
) -> Option<CursorIcon> {
    if grab is Some {
        Some(grab_icon(grab->0))
    } else if bw == 0 {
        None
    } else {
        scene_icon(windows, bw, at)
    }
}

/// The compositor's own icon for the pointer at `at`: that of the active grab,
/// else that of the border it is over.
pub fn compute_compositor_cursor(
    active_grab: Option<ActiveGrab>,
    bw: i32,
    at: Point,
    windows: &Vec<CursorWindow>,
) -> (r: Option<CursorIcon>)
    requires
        active_grab is None && bw != 0 ==> forall|i: int|
            0 <= i < windows.len() ==> ((#[trigger] windows@[i]).geometry is Some ==> ring_in_range(
                windows@[i].geometry->0,
                bw,
            )),
    ensures
        r == compositor_icon(active_grab, bw, at, windows@),
{
    match active_grab {
        Some(ActiveGrab::Resize(grab)) => {
            return Some(grab.edges.cursor_icon());
        },
        Some(ActiveGrab::TiledResize(grab)) => {
            return Some(grab.edges.cursor_icon());
        },
        Some(ActiveGrab::Move(_)) | Some(ActiveGrab::TiledSwap(_)) => {
            return Some(CursorIcon::Grabbing);
        },
        None => {},
    }
    if bw == 0 {
        return None;
    }
    let mut i: usize = 0;
    proof {
        assert(windows@.subrange(0, windows.len() as int) =~= windows@);
    }
    while i < windows.len()
        invariant
            i <= windows.len(),
            active_grab is None,
            bw != 0,
            forall|k: int|
                0 <= k < windows.len() ==> ((#[trigger] windows@[k]).geometry is Some
                    ==> ring_in_range(windows@[k].geometry->0, bw)),
            scene_icon(windows@, bw, at) == scene_icon(
                windows@.subrange(i as int, windows.len() as int),
                bw,
                at,
            ),
        decreases windows.len() - i,
    {
        let window = windows[i];
        proof {
            let rest = windows@.subrange(i as int, windows.len() as int);
            assert(rest[0] == window);
            assert(rest.drop_first() =~= windows@.subrange(i + 1, windows.len() as int));
        }
        if !window.fullscreen && window.root.is_some() && window.floating {
            if let Some(geo) = window.geometry {
                if let Some(icon) = icon_over_ring(geo, bw, at) {
                    return Some(icon);
                }
            }
        }
        i = i + 1;
    }
    None
}

/// What is shown as the cursor, with a serial that changes whenever it does.
#[derive(Debug, Clone, Copy, PartialEq, Eq, Structural)]
pub struct CursorState {
    pub cursor_status: CursorImageStatus,
    pub compositor_cursor_icon: Option<CursorIcon>,
    pub cursor_status_serial: u64,
}

pub open spec fn wrapping_next(n: u64) -> u64 {
    if n == u64::MAX { 0 } else { (n + 1) as u64 }
}

impl CursorState {
    pub fn new() -> (r: Self)
        ensures
            r == (CursorState {
                cursor_status: CursorImageStatus::Named(CursorIcon::Arrow),
                compositor_cursor_icon: None,
                cursor_status_serial: 0,
            }),
    {
        CursorState {
            cursor_status: CursorImageStatus::Named(CursorIcon::Arrow),
            compositor_cursor_icon: None,
            cursor_status_serial: 0,
        }
    }

    pub fn effective_cursor_icon(&self) -> (r: Option<CursorIcon>)
        ensures
            r == resolved(self.compositor_cursor_icon, self.cursor_status),
    {
        resolve_cursor_icon(self.compositor_cursor_icon, self.cursor_status)
    }

    /// Take over the client's request. A new frame is due.
    pub fn set_cursor_status(&mut self, status: CursorImageStatus)
        ensures
            *final(self) == (CursorState {
                cursor_status: status,
                compositor_cursor_icon: old(self).compositor_cursor_icon,
                cursor_status_serial: wrapping_next(old(self).cursor_status_serial),
            }),
    {
        self.cursor_status = status;
        self.cursor_status_serial = self.cursor_status_serial.wrapping_add(1);
    }

    /// Take over the compositor's own icon. True where it changed, so that a
    /// new frame is due.
    pub fn refresh_compositor_cursor(&mut self, icon: Option<CursorIcon>) -> (changed: bool)
        ensures
            changed == (old(self).compositor_cursor_icon != icon),
            *final(self) == if changed {
                CursorState {
                    cursor_status: old(self).cursor_status,
                    compositor_cursor_icon: icon,
                    cursor_status_serial: wrapping_next(old(self).cursor_status_serial),
                }
            } else {
                *old(self)
            },
    {
        if self.compositor_cursor_icon != icon {
            self.compositor_cursor_icon = icon;
            self.cursor_status_serial = self.cursor_status_serial.wrapping_add(1);
            true
        } else {
            false
        }
    }
}

/// A grab owns the cursor whatever the client asked for, even where that hid
/// it.
pub proof fn a_grab_owns_the_cursor(
    grab: ActiveGrab,
    bw: i32,
    at: Point,
    windows: Seq<CursorWindow>,
    status: CursorImageStatus,
)
    ensures
        resolved(compositor_icon(Some(grab), bw, at, windows), status) == Some(grab_icon(grab)),
{
}

/// Over the border of a floating window the cursor points at the edge or corner that it is
/// over: left, right, up and down as the pointer lies beside the window; over the window
/// itself, and beside the border, it does not point at all.
pub proof fn the_cursor_points_at_the_edge(geo: Rect, bw: i32, at: Point)
    requires
        ring_in_range(geo, bw),
        bw > 0,
        geo.size.w > 0,
        geo.size.h > 0,
    ensures
        ({
            let icon = ring_icon(geo, bw, at);
            let outside = at.x < geo.loc.x - bw || at.x >= geo.loc.x + geo.size.w + bw || at.y
                < geo.loc.y - bw || at.y >= geo.loc.y + geo.size.h + bw;
            let within = geo.loc.x <= at.x && at.x < geo.loc.x + geo.size.w && geo.loc.y <= at.y
                && at.y < geo.loc.y + geo.size.h;
            let west = icon == Some(CursorIcon::WResize) || icon == Some(CursorIcon::NwResize)
                || icon == Some(CursorIcon::SwResize);
            let east = icon == Some(CursorIcon::EResize) || icon == Some(CursorIcon::NeResize)
                || icon == Some(CursorIcon::SeResize);
            let north = icon == Some(CursorIcon::NResize) || icon == Some(CursorIcon::NwResize)
                || icon == Some(CursorIcon::NeResize);
            let south = icon == Some(CursorIcon::SResize) || icon == Some(CursorIcon::SwResize)
                || icon == Some(CursorIcon::SeResize);
            &&& icon is None <==> outside || within
            &&& !outside ==> (west <==> at.x < geo.loc.x)
            &&& !outside ==> (east <==> at.x >= geo.loc.x + geo.size.w)
            &&& !outside ==> (north <==> at.y < geo.loc.y)
            &&& !outside ==> (south <==> at.y >= geo.loc.y + geo.size.h)
        }),
{
}

/// The edges that a window is resized by are those that its cursor points at.
pub proof fn a_resize_points_at_its_corner(edges: crate::types::ResizeEdges)
    ensures
        ({
            let icon = edges.icon();
            let top = edges.vertical == crate::types::ResizeVerticalEdge::Top;
            let left = edges.horizontal == crate::types::ResizeHorizontalEdge::Left;
            &&& icon == CursorIcon::NwResize <==> top && left
            &&& icon == CursorIcon::NeResize <==> top && !left
            &&& icon == CursorIcon::SwResize <==> !top && left
            &&& icon == CursorIcon::SeResize <==> !top && !left
        }),
{
}

/// Without an icon of the compositor's own the client decides: nothing where it hid the
/// cursor, the named shape, or an arrow in place of a surface. A moved window is grabbed.
pub proof fn the_client_decides_unless_the_compositor_does(
    status: CursorImageStatus,
    icon: CursorIcon,
    surface: u64,
    grab: crate::types::MoveGrab,
    swap: crate::types::TiledSwapGrab,
)
    ensures
        resolved(Some(icon), status) == Some(icon),
        resolved(None, CursorImageStatus::Hidden) is None,
        resolved(None, CursorImageStatus::Named(icon)) == Some(icon),
        resolved(None, CursorImageStatus::Surface(surface)) == Some(CursorIcon::Arrow),
        grab_icon(ActiveGrab::Move(grab)) == CursorIcon::Grabbing,
        grab_icon(ActiveGrab::TiledSwap(swap)) == CursorIcon::Grabbing,
{
}

/// Only floating windows that fill no screen have a border to resize by, and none has
/// where borders have no width.
pub proof fn only_floating_windows_are_resized_by_their_border(
    windows: Seq<CursorWindow>,
    bw: i32,
    at: Point,
)
    ensures
        (forall|i: int|
            0 <= i < windows.len() ==> !(#[trigger] windows[i]).floating || windows[i].fullscreen)
            ==> compositor_icon(None, bw, at, windows) is None,
        compositor_icon(None, 0, at, windows) is None,
    decreases windows.len(),
{
    if windows.len() > 0 {
        let rest = windows.drop_first();
        only_floating_windows_are_resized_by_their_border(rest, bw, at);
        if forall|i: int|
            0 <= i < windows.len() ==> !(#[trigger] windows[i]).floating || windows[i].fullscreen {
            assert forall|i: int| 0 <= i < rest.len() implies !(#[trigger] rest[i]).floating
                || rest[i].fullscreen by {
                assert(rest[i] == windows[i + 1]);
            }
            assert(windows[0].floating ==> windows[0].fullscreen);
            if bw != 0 {
                assert(scene_icon(rest, bw, at) is None);
            }
        }
    }
}

} // verus!
