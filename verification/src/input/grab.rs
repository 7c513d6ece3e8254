//! Interactive moves, resizes and swaps of windows with the pointer.
//!
//! The pointer moves in fractions of a pixel. What the grabs need of it are
//! whole numbers: the pixel under it, how far it has been dragged, and on which
//! side of a window's centre it is.
use crate::geometry::{fits_i32, max_i32, max_int, min_i32, min_int, Point, Rect, Size};
use crate::state::output::{clamp_in_range, clamp_into_usable, clamped_into, ONSCREEN_MARGIN};
use crate::surface_map::SurfaceMap;
use crate::types::{
    ActiveGrab, FloatingWindowData, MoveGrab, ResizeEdges, ResizeGrab, ResizeHorizontalEdge,
    ResizeVerticalEdge, TiledResizeGrab, TiledSwapGrab, WindowRef,
};
use vstd::prelude::*;

verus! {

/// The smallest extent of a floating window.
pub const MIN_FLOATING_WINDOW_SIZE: i32 = 1;

/// How far the pointer has been dragged, in whole pixels: since the grab
/// started, and since the last motion that counted.
#[derive(Debug, Clone, Copy, PartialEq, Eq, Structural)]
pub struct Drag {
    pub from_start: Point,
    pub from_last: Point,
}

pub open spec fn edges_toward(pos: Point, size: Size, twice_x: int, twice_y: int) -> ResizeEdges {
    ResizeEdges {
        horizontal: if twice_x < 2 * pos.x + size.w {
            ResizeHorizontalEdge::Left
        } else {
            ResizeHorizontalEdge::Right
        },
        vertical: if twice_y < 2 * pos.y + size.h {
            ResizeVerticalEdge::Top
        } else {
            ResizeVerticalEdge::Bottom
        },
    }
}

/// The edges nearest to the pointer. `twice_x` and `twice_y` are its
/// coordinates in half pixels, rounded down: a window's centre lies on one.
pub fn resize_edges_for_pointer(
    window_pos: Point,
    window_size: Size,
    twice_x: i64,
    twice_y: i64,
) -> (r: ResizeEdges)
    ensures
        r == edges_toward(window_pos, window_size, twice_x as int, twice_y as int),
{
    let center_x: i64 = 2 * (window_pos.x as i64) + window_size.w as i64;
    let center_y: i64 = 2 * (window_pos.y as i64) + window_size.h as i64;
    ResizeEdges {
        horizontal: if twice_x < center_x {
            ResizeHorizontalEdge::Left
        } else {
            ResizeHorizontalEdge::Right
        },
        vertical: if twice_y < center_y {
            ResizeVerticalEdge::Top
        } else {
            ResizeVerticalEdge::Bottom
        },
    }
}

/// One axis of a resize by `d`: the new position and extent. With the leading
/// edge the far side stays where it is, with the other one the near side does.
pub open spec fn resized_axis(start: int, extent: int, d: int, leading: bool) -> (int, int) {
    let far = start + max_int(extent, 1);
    if leading {
        let pos = min_int(start + d, far - 1);
        (pos, far - pos)
    } else {
        (start, max_int(extent + d, 1))
    }
}

/// Whether the numbers of one axis of a resize stay in range.
pub open spec fn resize_in_range(start: int, extent: int, d: int, leading: bool) -> bool {
    let far = start + max_int(extent, 1);
    &&& fits_i32(far)
    &&& leading ==> fits_i32(start + d) && fits_i32(far - min_int(start + d, far - 1))
    &&& !leading ==> fits_i32(extent + d)
}

pub open spec fn resized(start_pos: Point, start_size: Size, d: Point, edges: ResizeEdges) -> (
    Point,
    Size,
) {
    let (x, w) = resized_axis(
        start_pos.x as int,
        start_size.w as int,
        d.x as int,
        edges.horizontal == ResizeHorizontalEdge::Left,
    );
    let (y, h) = resized_axis(
        start_pos.y as int,
        start_size.h as int,
        d.y as int,
        edges.vertical == ResizeVerticalEdge::Top,
    );
    (Point { x: x as i32, y: y as i32 }, Size { w: w as i32, h: h as i32 })
}

pub open spec fn resized_in_range(
    start_pos: Point,
    start_size: Size,
    d: Point,
    edges: ResizeEdges,
) -> bool {
    &&& resize_in_range(
        start_pos.x as int,
        start_size.w as int,
        d.x as int,
        edges.horizontal == ResizeHorizontalEdge::Left,
    )
    &&& resize_in_range(
        start_pos.y as int,
        start_size.h as int,
        d.y as int,
        edges.vertical == ResizeVerticalEdge::Top,
    )
}

fn resize_axis(start: i32, extent: i32, d: i32, leading: bool) -> (r: (i32, i32))
    requires
        resize_in_range(start as int, extent as int, d as int, leading),
    ensures
        (r.0 as int, r.1 as int) == resized_axis(start as int, extent as int, d as int, leading),
{
    let far: i32 = start + max_i32(extent, MIN_FLOATING_WINDOW_SIZE);
    if leading {
        let pos: i32 = min_i32(start + d, far - MIN_FLOATING_WINDOW_SIZE);
        (pos, max_i32(far - pos, MIN_FLOATING_WINDOW_SIZE))
    } else {
        (start, max_i32(extent + d, MIN_FLOATING_WINDOW_SIZE))
    }
}

/// Where a window that is resized by `d` comes to lie, and its size.
pub fn resized_window_geometry_from_start(
    start_window_pos: Point,
    start_window_size: Size,
    d: Point,
    edges: ResizeEdges,
) -> (r: (Point, Size))
    requires
        resized_in_range(start_window_pos, start_window_size, d, edges),
    ensures
        r == resized(start_window_pos, start_window_size, d, edges),
        r.1.w >= 1,
        r.1.h >= 1,
{
    let left = match edges.horizontal {
        ResizeHorizontalEdge::Left => true,
        ResizeHorizontalEdge::Right => false,
    };
    let top = match edges.vertical {
        ResizeVerticalEdge::Top => true,
        ResizeVerticalEdge::Bottom => false,
    };
    let (x, w): (i32, i32) = resize_axis(start_window_pos.x, start_window_size.w, d.x, left);
    let (y, h): (i32, i32) = resize_axis(start_window_pos.y, start_window_size.h, d.y, top);
    (Point { x, y }, Size { w, h })
}

pub open spec fn dragged(start: Point, d: Point) -> Point {
    Point { x: (start.x + d.x) as i32, y: (start.y + d.y) as i32 }
}

pub open spec fn drag_in_range(start: Point, d: Point) -> bool {
    fits_i32(start.x + d.x) && fits_i32(start.y + d.y)
}

/// Where a window comes to lie that is dragged by `d`.
pub fn dragged_window_location(start_window_pos: Point, d: Point) -> (r: Point)
    requires
        drag_in_range(start_window_pos, d),
    ensures
        r == dragged(start_window_pos, d),
{
    Point { x: start_window_pos.x + d.x, y: start_window_pos.y + d.y }
}

/// Whether the pixel under the pointer belongs to `geometry`.
pub fn window_geometry_contains_pointer(geometry: Rect, pointer: Point) -> (r: bool)
    requires
        geometry.in_range(),
    ensures
        r == geometry.covers(pointer.x as int, pointer.y as int),
{
    pointer.x >= geometry.loc.x && pointer.x < geometry.loc.x + geometry.size.w && pointer.y
        >= geometry.loc.y && pointer.y < geometry.loc.y + geometry.size.h
}

pub fn original_tiled_slot_contains_pointer(
    start_window_pos: Point,
    start_window_size: Size,
    pointer: Point,
) -> (r: bool)
    requires
        (Rect { loc: start_window_pos, size: start_window_size }).in_range(),
    ensures
        r == (Rect { loc: start_window_pos, size: start_window_size }).covers(
            pointer.x as int,
            pointer.y as int,
        ),
{
    window_geometry_contains_pointer(
        Rect { loc: start_window_pos, size: start_window_size },
        pointer,
    )
}

/// A window that a dragged one could be swapped with, and its place.
#[derive(Debug, Clone, Copy, PartialEq, Eq, Structural)]
pub struct SwapCandidate {
    pub root: u64,
    pub geometry: Rect,
}

pub open spec fn is_swap_hit(candidate: SwapCandidate, source_root: u64, pointer: Point) -> bool {
    candidate.root != source_root && candidate.geometry.covers(pointer.x as int, pointer.y as int)
}

/// The first candidate under the pointer that is not the dragged window itself.
pub open spec fn swap_target(
    candidates: Seq<SwapCandidate>,
    source_root: u64,
    pointer: Point,
) -> Option<u64>
    decreases candidates.len(),
{
    if candidates.len() == 0 {
        None
    } else if is_swap_hit(candidates[0], source_root, pointer) {
        Some(candidates[0].root)
    } else {
        swap_target(candidates.drop_first(), source_root, pointer)
    }
}

pub fn tiled_swap_target_from_geometries(
    pointer: Point,
    source_root: u64,
    candidates: &Vec<SwapCandidate>,
) -> (r: Option<u64>)
    requires
        forall|i: int| 0 <= i < candidates.len() ==> (#[trigger] candidates@[i]).geometry.in_range(),
    ensures
        r == swap_target(candidates@, source_root, pointer),
        r != Some(source_root),
{
    let mut i: usize = 0;
    proof {
        assert(candidates@.subrange(0, candidates.len() as int) =~= candidates@);
    }
    while i < candidates.len()
        invariant
            i <= candidates.len(),
            forall|k: int|
                0 <= k < candidates.len() ==> (#[trigger] candidates@[k]).geometry.in_range(),
            swap_target(candidates@, source_root, pointer) == swap_target(
                candidates@.subrange(i as int, candidates.len() as int),
                source_root,
                pointer,
            ),
        decreases candidates.len() - i,
    {
        let candidate = candidates[i];
        proof {
            let rest = candidates@.subrange(i as int, candidates.len() as int);
            assert(rest[0] == candidate);
            assert(rest.drop_first() =~= candidates@.subrange(i + 1, candidates.len() as int));
        }
        if candidate.root != source_root && window_geometry_contains_pointer(
            candidate.geometry,
            pointer,
        ) {
            return Some(candidate.root);
        }
        i = i + 1;
    }
    None
}

/// A window of a workspace, as far as a swap is concerned.
#[derive(Debug, Clone, Copy, PartialEq, Eq, Structural)]
pub struct SlotWindow {
    pub root: Option<u64>,
    pub fullscreen: bool,
    pub geometry: Option<Rect>,
}

/// The windows among `windows` that sit in a tile: they have a surface, float
/// nowhere, fill no screen, and are shown.
pub open spec fn swap_candidates(
    windows: Seq<SlotWindow>,
    floating: Map<u64, FloatingWindowData>,
) -> Seq<SwapCandidate>
    decreases windows.len(),
{
    if windows.len() == 0 {
        Seq::empty()
    } else {
        let rest = swap_candidates(windows.drop_last(), floating);
        let last = windows.last();
        if last.root is Some && !floating.dom().contains(last.root->0) && !last.fullscreen
            && last.geometry is Some {
            rest.push(SwapCandidate { root: last.root->0, geometry: last.geometry->0 })
        } else {
            rest
        }
    }
}

/// The window under the pointer when a button goes down.
#[derive(Debug, Clone, Copy, PartialEq, Eq, Structural)]
pub struct UnderPointer {
    pub window: WindowRef,
    pub geometry: Option<Rect>,
    pub fullscreen: bool,
}

/// What a motion of the pointer asks of the scene while a grab is active.
#[derive(Debug, Clone, Copy, PartialEq, Eq, Structural)]
pub enum GrabMotion {
    /// Show the window at the point.
    Move { window: WindowRef, to: Point },
    /// Show the dragged window at the point; the borders change where the swap
    /// target did.
    SwapMove { window: WindowRef, to: Point, borders_changed: bool },
    /// Show the window at the point and ask it for the size.
    Resize { window: WindowRef, to: Point, size: Size },
    /// Let the layout move the window's edges by the distance.
    TiledResize { window: WindowRef, workspace_idx: usize, edges: ResizeEdges, by: Point },
    /// The pointer has not moved by a whole pixel.
    Stay,
}

/// Two windows that change places in a workspace.
#[derive(Debug, Clone, Copy, PartialEq, Eq, Structural)]
pub struct TileSwap {
    pub workspace_idx: usize,
    pub source: u64,
    pub target: u64,
}

/// How a swap grab ended.
#[derive(Debug, Clone, Copy, PartialEq, Eq, Structural)]
pub struct SwapFinish {
    /// The layout from before the drag comes back.
    pub restore_layout: bool,
    /// The two windows to swap.
    pub swap: Option<TileSwap>,
}

/// How a resize grab ended.
#[derive(Debug, Clone, Copy, PartialEq, Eq, Structural)]
pub enum ResizeFinish {
    /// There was none.
    NoGrab,
    /// Ask the tiled window for the size of its tile.
    Tiled { window: WindowRef, workspace_idx: usize },
    /// Leave the floating window at its last position and size.
    Floating { window: WindowRef, position: Point, size: Size },
}

/// How a resize grab was cut short.
#[derive(Debug, Clone, Copy, PartialEq, Eq, Structural)]
pub enum ResizeCancel {
    /// There was none.
    NoGrab,
    /// The tiled window is no longer being resized, and no size is asked of it.
    Tiled { window: WindowRef },
    /// The floating window is asked for the size it was last resized to.
    Floating { window: WindowRef, size: Size },
}

/// What is left to do after a lock has cancelled the grab.
#[derive(Debug, Clone, Copy, PartialEq, Eq, Structural)]
pub struct LockCancel {
    /// The layout from before a drag comes back.
    pub restore_layout: bool,
    /// The tiles have to be laid out again.
    pub relayout: bool,
    /// The resize that was cut short.
    pub resize: ResizeCancel,
}

/// The pointer grab and what it works on.
#[derive(Debug)]
pub struct GrabState {
    pub active_grab: Option<ActiveGrab>,
    /// The window a dragged tile would be swapped with.
    pub tiled_swap_target: Option<u64>,
    /// The layout was saved when a tile was detached for a drag.
    pub layout_saved: bool,
    /// The floating windows, by root surface.
    pub floating: SurfaceMap<FloatingWindowData>,
}

/// The grab that moves the floating window `hit`.
pub open spec fn move_grab(hit: UnderPointer) -> ActiveGrab {
    ActiveGrab::Move(MoveGrab { window: hit.window, start_window_pos: hit.geometry->0.loc })
}

/// The grab that drags the tiled window `hit` for a swap.
pub open spec fn tiled_swap_grab(hit: UnderPointer, workspace_idx: usize) -> ActiveGrab {
    ActiveGrab::TiledSwap(
        TiledSwapGrab {
            window: hit.window,
            workspace_idx,
            start_window_pos: hit.geometry->0.loc,
            start_window_size: hit.geometry->0.size,
        },
    )
}

/// The grab that resizes the floating window `hit`.
pub open spec fn resize_grab(hit: UnderPointer, twice_x: i64, twice_y: i64) -> ActiveGrab {
    let geometry = hit.geometry->0;
    ActiveGrab::Resize(
        ResizeGrab {
            window: hit.window,
            start_window_pos: geometry.loc,
            start_window_size: geometry.size,
            edges: edges_toward(geometry.loc, geometry.size, twice_x as int, twice_y as int),
            current_window_pos: geometry.loc,
            current_window_size: geometry.size,
        },
    )
}

/// The grab that resizes the tiled window `hit`.
pub open spec fn tiled_resize_grab(
    hit: UnderPointer,
    workspace_idx: usize,
    twice_x: i64,
    twice_y: i64,
) -> ActiveGrab {
    let geometry = hit.geometry->0;
    ActiveGrab::TiledResize(
        TiledResizeGrab {
            window: hit.window,
            workspace_idx,
            edges: edges_toward(geometry.loc, geometry.size, twice_x as int, twice_y as int),
        },
    )
}

/// The floating windows without the one of `root`.
pub open spec fn without_root(
    floating: Map<u64, FloatingWindowData>,
    root: Option<u64>,
) -> Map<u64, FloatingWindowData> {
    if root is Some { floating.remove(root->0) } else { floating }
}

/// The floating windows with the one of `root` at `position` and of `size`.
pub open spec fn with_placed(
    floating: Map<u64, FloatingWindowData>,
    root: Option<u64>,
    position: Point,
    size: Size,
) -> Map<u64, FloatingWindowData> {
    if root is Some {
        floating.insert(root->0, FloatingWindowData::placed(position, size))
    } else {
        floating
    }
}

/// What a swap grab that ends at `pointer` leaves to do: dropped over its own
/// slot, or over nothing, the window is swapped with nothing.
pub open spec fn swap_finish(
    grab: TiledSwapGrab,
    layout_saved: bool,
    target: Option<u64>,
    pointer: Point,
) -> SwapFinish {
    let slot = Rect { loc: grab.start_window_pos, size: grab.start_window_size };
    SwapFinish {
        restore_layout: layout_saved,
        swap: if grab.window.root is Some && target is Some && !slot.covers(
            pointer.x as int,
            pointer.y as int,
        ) {
            Some(
                TileSwap {
                    workspace_idx: grab.workspace_idx,
                    source: grab.window.root->0,
                    target: target->0,
                },
            )
        } else {
            None
        },
    }
}

/// What a resize grab that ends leaves to do.
pub open spec fn resize_finish(grab: Option<ActiveGrab>) -> ResizeFinish {
    match grab {
        Some(ActiveGrab::Resize(g)) => ResizeFinish::Floating {
            window: g.window,
            position: g.current_window_pos,
            size: g.current_window_size,
        },
        Some(ActiveGrab::TiledResize(g)) => ResizeFinish::Tiled {
            window: g.window,
            workspace_idx: g.workspace_idx,
        },
        _ => ResizeFinish::NoGrab,
    }
}

/// The floating windows after a resize grab ended.
pub open spec fn floating_after_resize(
    floating: Map<u64, FloatingWindowData>,
    grab: Option<ActiveGrab>,
) -> Map<u64, FloatingWindowData> {
    match grab {
        Some(ActiveGrab::Resize(g)) => with_placed(
            floating,
            g.window.root,
            g.current_window_pos,
            g.current_window_size,
        ),
        _ => floating,
    }
}

/// The size of a window: that at which it is shown, else the one it is known by.
pub open spec fn known_size(
    floating: Map<u64, FloatingWindowData>,
    root: Option<u64>,
    shown_size: Option<Size>,
) -> Option<Size> {
    if root is None || shown_size is Some {
        shown_size
    } else if floating.dom().contains(root->0) {
        Some(floating[root->0].size)
    } else {
        None
    }
}

/// Where a floating window may be dragged: a strip of it stays within the usable
/// area, where that and its size are known, so that it can be grabbed again.
pub open spec fn kept_reachable(pos: Point, size: Option<Size>, usable: Option<Rect>) -> Point {
    if size is Some && usable is Some {
        clamped_into(pos, size->0, usable->0, ONSCREEN_MARGIN as int)
    } else {
        pos
    }
}

/// Whether the bounds of that stay in range.
pub open spec fn reach_in_range(size: Option<Size>, usable: Option<Rect>) -> bool {
    size is Some && usable is Some ==> clamp_in_range(size->0, usable->0, ONSCREEN_MARGIN as int)
}

fn keep_reachable(pos: Point, size: Option<Size>, usable: Option<Rect>) -> (r: Point)
    requires
        reach_in_range(size, usable),
    ensures
        r == kept_reachable(pos, size, usable),
{
    match (size, usable) {
        (Some(size), Some(usable)) => clamp_into_usable(pos, size, usable, ONSCREEN_MARGIN),
        _ => pos,
    }
}

/// Whether a drag of the active grab by `drag` stays in range.
pub open spec fn motion_in_range(
    grab: Option<ActiveGrab>,
    drag: Drag,
    floating: Map<u64, FloatingWindowData>,
    shown_size: Option<Size>,
    usable: Option<Rect>,
) -> bool {
    match grab {
        Some(ActiveGrab::Move(g)) => {
            &&& drag_in_range(g.start_window_pos, drag.from_start)
            &&& reach_in_range(known_size(floating, g.window.root, shown_size), usable)
        },
        Some(ActiveGrab::TiledSwap(g)) => {
            &&& drag_in_range(g.start_window_pos, drag.from_start)
            &&& (Rect { loc: g.start_window_pos, size: g.start_window_size }).in_range()
        },
        Some(ActiveGrab::Resize(g)) => {
            let (_, size) = resized(
                g.start_window_pos,
                g.start_window_size,
                drag.from_start,
                g.edges,
            );
            &&& resized_in_range(g.start_window_pos, g.start_window_size, drag.from_start, g.edges)
            &&& reach_in_range(Some(size), usable)
        },
        Some(ActiveGrab::TiledResize(_)) => true,
        None => true,
    }
}

/// The floating windows after one was moved to `to`: it keeps the size it is
/// shown at, else the size it is known by.
pub open spec fn with_moved(
    floating: Map<u64, FloatingWindowData>,
    root: Option<u64>,
    to: Point,
    shown_size: Option<Size>,
) -> Map<u64, FloatingWindowData> {
    let size = known_size(floating, root, shown_size);
    if root is Some && size is Some {
        floating.insert(root->0, FloatingWindowData::placed(to, size->0))
    } else {
        floating
    }
}

/// The swap target of a tile dragged from `grab` with the pointer at `pointer`:
/// none over its own slot.
pub open spec fn drag_target(
    grab: TiledSwapGrab,
    windows: Seq<SlotWindow>,
    floating: Map<u64, FloatingWindowData>,
    pointer: Point,
) -> Option<u64> {
    let slot = Rect { loc: grab.start_window_pos, size: grab.start_window_size };
    if slot.covers(pointer.x as int, pointer.y as int) || grab.window.root is None {
        None
    } else {
        swap_target(swap_candidates(windows, floating), grab.window.root->0, pointer)
    }
}

/// Whether `after` is `before` with the active grab dragged, and `r` is what the
/// scene is asked for.
pub open spec fn grab_followed(
    before: GrabState,
    after: GrabState,
    drag: Drag,
    pointer: Point,
    shown_size: Option<Size>,
    usable: Option<Rect>,
    windows: Seq<SlotWindow>,
    r: Option<GrabMotion>,
) -> bool {
    &&& after.layout_saved == before.layout_saved
    &&& match before.active_grab {
        Some(ActiveGrab::Move(g)) => {
            let to = kept_reachable(
                dragged(g.start_window_pos, drag.from_start),
                known_size(before.floating@, g.window.root, shown_size),
                usable,
            );
            &&& r == Some(GrabMotion::Move { window: g.window, to })
            &&& after.floating@ == with_moved(
                before.floating@,
                g.window.root,
                to,
                shown_size,
            )
            &&& after.active_grab == before.active_grab
            &&& after.tiled_swap_target == before.tiled_swap_target
        },
        Some(ActiveGrab::TiledSwap(g)) => {
            let to = dragged(g.start_window_pos, drag.from_start);
            let floating = with_moved(before.floating@, g.window.root, to, shown_size);
            let target = drag_target(g, windows, floating, pointer);
            &&& r == Some(
                GrabMotion::SwapMove {
                    window: g.window,
                    to,
                    borders_changed: before.tiled_swap_target != target,
                },
            )
            &&& after.floating@ == floating
            &&& after.active_grab == before.active_grab
            &&& after.tiled_swap_target == target
        },
        Some(ActiveGrab::Resize(g)) => {
            let (at, size) = resized(
                g.start_window_pos,
                g.start_window_size,
                drag.from_start,
                g.edges,
            );
            let to = kept_reachable(at, Some(size), usable);
            &&& r == Some(GrabMotion::Resize { window: g.window, to, size })
            &&& after.floating@ == if g.window.root is Some {
                before.floating@.insert(
                    g.window.root->0,
                    FloatingWindowData::placed(to, size),
                )
            } else {
                before.floating@
            }
            &&& after.active_grab == Some(
                ActiveGrab::Resize(
                    ResizeGrab { current_window_pos: to, current_window_size: size, ..g },
                ),
            )
            &&& after.tiled_swap_target == before.tiled_swap_target
        },
        Some(ActiveGrab::TiledResize(g)) => {
            &&& r == if g.window.root is Some && (drag.from_last.x != 0 || drag.from_last.y
                != 0) {
                Some(
                    GrabMotion::TiledResize {
                        window: g.window,
                        workspace_idx: g.workspace_idx,
                        edges: g.edges,
                        by: drag.from_last,
                    },
                )
            } else {
                Some(GrabMotion::Stay)
            }
            &&& after.floating@ == before.floating@
            &&& after.active_grab == before.active_grab
            &&& after.tiled_swap_target == before.tiled_swap_target
        },
        None => {
            &&& r is None
            &&& after.floating@ == before.floating@
            &&& after.active_grab == before.active_grab
            &&& after.tiled_swap_target == before.tiled_swap_target
        },
    }
}

/// How a lock cuts a resize short.
pub open spec fn resize_cancel(grab: Option<ActiveGrab>) -> ResizeCancel {
    match grab {
        Some(ActiveGrab::Resize(g)) => ResizeCancel::Floating {
            window: g.window,
            size: g.current_window_size,
        },
        Some(ActiveGrab::TiledResize(g)) => ResizeCancel::Tiled { window: g.window },
        _ => ResizeCancel::NoGrab,
    }
}

/// Whether `after` is `before` with whatever the pointer was doing ended, and `r`
/// is what is left to do.
pub open spec fn interactions_cancelled(before: GrabState, after: GrabState, r: LockCancel) -> bool {
    &&& after.active_grab is None
    &&& after.tiled_swap_target is None
    &&& !after.layout_saved
    &&& r.resize == resize_cancel(before.active_grab)
    &&& match before.active_grab {
        Some(ActiveGrab::TiledSwap(g)) => {
            &&& r.restore_layout == before.layout_saved
            &&& r.relayout
            &&& after.floating@ == without_root(before.floating@, g.window.root)
        },
        _ => {
            &&& !r.restore_layout
            &&& !r.relayout
            &&& after.floating@ == before.floating@
        },
    }
}

impl GrabState {
    pub open spec fn wf(&self) -> bool {
        self.floating.wf()
    }

    pub fn new() -> (r: Self)
        ensures
            r.wf(),
            r.active_grab is None,
            r.tiled_swap_target is None,
            !r.layout_saved,
            r.floating@ == Map::<u64, FloatingWindowData>::empty(),
    {
        GrabState {
            active_grab: None,
            tiled_swap_target: None,
            layout_saved: false,
            floating: SurfaceMap::new(),
        }
    }

    fn size_of(&self, root: Option<u64>, shown_size: Option<Size>) -> (r: Option<Size>)
        requires
            self.wf(),
        ensures
            r == known_size(self.floating@, root, shown_size),
    {
        match (root, shown_size) {
            (Some(root), None) => match self.floating.get(root) {
                Some(data) => Some(data.size),
                None => None,
            },
            _ => shown_size,
        }
    }

    fn move_floating(&mut self, root: Option<u64>, to: Point, shown_size: Option<Size>)
        requires
            old(self).wf(),
        ensures
            final(self).wf(),
            final(self).active_grab == old(self).active_grab,
            final(self).tiled_swap_target == old(self).tiled_swap_target,
            final(self).layout_saved == old(self).layout_saved,
            final(self).floating@ == with_moved(old(self).floating@, root, to, shown_size),
    {
        let size = self.size_of(root, shown_size);
        if let Some(root) = root {
            if let Some(size) = size {
                self.floating.insert(root, FloatingWindowData::new(to, size));
            }
        }
    }

    /// The windows of the workspace that a dragged tile can be swapped with.
    fn candidates(&self, windows: &Vec<SlotWindow>) -> (r: Vec<SwapCandidate>)
        requires
            self.wf(),
            forall|i: int|
                0 <= i < windows.len() ==> ((#[trigger] windows@[i]).geometry is Some
                    ==> windows@[i].geometry->0.in_range()),
        ensures
            r@ == swap_candidates(windows@, self.floating@),
            forall|i: int| 0 <= i < r.len() ==> (#[trigger] r@[i]).geometry.in_range(),
    {
        let mut r: Vec<SwapCandidate> = Vec::new();
        let mut i: usize = 0;
        proof {
            assert(windows@.subrange(0, 0) =~= Seq::<SlotWindow>::empty());
        }
        while i < windows.len()
            invariant
                i <= windows.len(),
                self.wf(),
                forall|k: int|
                    0 <= k < windows.len() ==> ((#[trigger] windows@[k]).geometry is Some
                        ==> windows@[k].geometry->0.in_range()),
                r@ == swap_candidates(windows@.subrange(0, i as int), self.floating@),
                forall|k: int| 0 <= k < r.len() ==> (#[trigger] r@[k]).geometry.in_range(),
            decreases windows.len() - i,
        {
            proof {
                let next = windows@.subrange(0, i + 1);
                assert(next.drop_last() =~= windows@.subrange(0, i as int));
                assert(next.last() == windows@[i as int]);
            }
            let window = windows[i];
            if let Some(root) = window.root {
                if let Some(geometry) = window.geometry {
                    if !self.floating.contains(root) && !window.fullscreen {
                        r.push(SwapCandidate { root, geometry });
                    }
                }
            }
            i = i + 1;
        }
        proof {
            assert(windows@.subrange(0, i as int) =~= windows@);
        }
        r
    }

    /// Follow the pointer with the active grab. `None` where there is none.
    /// `shown_size` is the size the grabbed window is shown at, `usable` the
    /// area that a floating window must not leave altogether; `windows` are
    /// those of the grabbed tile's workspace.
    pub fn handle_active_grab(
        &mut self,
        drag: Drag,
        pointer: Point,
        shown_size: Option<Size>,
        usable: Option<Rect>,
        windows: &Vec<SlotWindow>,
    ) -> (r: Option<GrabMotion>)
        requires
            old(self).wf(),
            motion_in_range(
                old(self).active_grab,
                drag,
                old(self).floating@,
                shown_size,
                usable,
            ),
            old(self).active_grab matches Some(ActiveGrab::TiledSwap(_)) ==> forall|i: int|
                0 <= i < windows.len() ==> ((#[trigger] windows@[i]).geometry is Some
                    ==> windows@[i].geometry->0.in_range()),
        ensures
            final(self).wf(),
            grab_followed(
                *old(self),
                *final(self),
                drag,
                pointer,
                shown_size,
                usable,
                windows@,
                r,
            ),
    {
        match self.active_grab {
            Some(ActiveGrab::Move(grab)) => {
                let at = dragged_window_location(grab.start_window_pos, drag.from_start);
                let size = self.size_of(grab.window.root, shown_size);
                let to = keep_reachable(at, size, usable);
                self.move_floating(grab.window.root, to, shown_size);
                Some(GrabMotion::Move { window: grab.window, to })
            },
            Some(ActiveGrab::TiledSwap(grab)) => {
                let to = dragged_window_location(grab.start_window_pos, drag.from_start);
                self.move_floating(grab.window.root, to, shown_size);
                let over_own_slot = original_tiled_slot_contains_pointer(
                    grab.start_window_pos,
                    grab.start_window_size,
                    pointer,
                );
                let target = if over_own_slot {
                    None
                } else {
                    match grab.window.root {
                        Some(source) => {
                            let candidates = self.candidates(windows);
                            tiled_swap_target_from_geometries(pointer, source, &candidates)
                        },
                        None => None,
                    }
                };
                let borders_changed = self.tiled_swap_target != target;
                self.tiled_swap_target = target;
                Some(GrabMotion::SwapMove { window: grab.window, to, borders_changed })
            },
            Some(ActiveGrab::Resize(grab)) => {
                let (at, size) = resized_window_geometry_from_start(
                    grab.start_window_pos,
                    grab.start_window_size,
                    drag.from_start,
                    grab.edges,
                );
                let to = keep_reachable(at, Some(size), usable);
                if let Some(root) = grab.window.root {
                    self.floating.insert(root, FloatingWindowData::new(to, size));
                }
                let mut next = grab;
                next.current_window_pos = to;
                next.current_window_size = size;
                self.active_grab = Some(ActiveGrab::Resize(next));
                Some(GrabMotion::Resize { window: grab.window, to, size })
            },
            Some(ActiveGrab::TiledResize(grab)) => {
                if grab.window.root.is_some() && (drag.from_last.x != 0 || drag.from_last.y != 0) {
                    Some(
                        GrabMotion::TiledResize {
                            window: grab.window,
                            workspace_idx: grab.workspace_idx,
                            edges: grab.edges,
                            by: drag.from_last,
                        },
                    )
                } else {
                    Some(GrabMotion::Stay)
                }
            },
            None => None,
        }
    }

    /// Whether `under` is a floating window that is grabbed with the logo key.
    pub open spec fn floating_under(&self, logo: bool, under: Option<UnderPointer>) -> bool {
        &&& logo
        &&& under is Some
        &&& under->0.window.root is Some
        &&& self.floating@.dom().contains(under->0.window.root->0)
    }

    /// Whether `under` is a tiled window that is grabbed with the logo key.
    pub open spec fn tiled_under(&self, logo: bool, under: Option<UnderPointer>) -> bool {
        &&& logo
        &&& under is Some
        &&& under->0.window.root is Some
        &&& !self.floating@.dom().contains(under->0.window.root->0)
        &&& !under->0.fullscreen
    }

    fn is_floating_under(&self, logo: bool, under: Option<UnderPointer>) -> (r: bool)
        requires
            self.wf(),
        ensures
            r == self.floating_under(logo, under),
    {
        match under {
            Some(hit) => match hit.window.root {
                Some(root) => logo && self.floating.contains(root),
                None => false,
            },
            None => false,
        }
    }

    fn is_tiled_under(&self, logo: bool, under: Option<UnderPointer>) -> (r: bool)
        requires
            self.wf(),
        ensures
            r == self.tiled_under(logo, under),
    {
        match under {
            Some(hit) => match hit.window.root {
                Some(root) => logo && !self.floating.contains(root) && !hit.fullscreen,
                None => false,
            },
            None => false,
        }
    }

    /// Start to move a floating window. True where a grab was started.
    pub fn try_start_move_grab(&mut self, logo: bool, under: Option<UnderPointer>) -> (r: bool)
        requires
            old(self).wf(),
        ensures
            final(self).wf(),
            final(self).floating == old(self).floating,
            final(self).tiled_swap_target == old(self).tiled_swap_target,
            final(self).layout_saved == old(self).layout_saved,
            r == (old(self).floating_under(logo, under) && under->0.geometry is Some),
            final(self).active_grab == if r {
                Some(move_grab(under->0))
            } else {
                old(self).active_grab
            },
    {
        if !self.is_floating_under(logo, under) {
            return false;
        }
        match under {
            Some(hit) => match hit.geometry {
                Some(geometry) => {
                    self.active_grab = Some(
                        ActiveGrab::Move(
                            MoveGrab { window: hit.window, start_window_pos: geometry.loc },
                        ),
                    );
                    true
                },
                None => false,
            },
            None => false,
        }
    }

    /// Start to drag a tiled window for a swap: it is detached from the layout,
    /// which is saved, and floats for the time of the drag.
    pub fn try_start_tiled_swap_grab(
        &mut self,
        logo: bool,
        under: Option<UnderPointer>,
        workspace_idx: usize,
    ) -> (r: bool)
        requires
            old(self).wf(),
        ensures
            final(self).wf(),
            r == (old(self).tiled_under(logo, under) && under->0.geometry is Some),
            !r ==> {
                &&& final(self).floating == old(self).floating
                &&& final(self).tiled_swap_target == old(self).tiled_swap_target
                &&& final(self).layout_saved == old(self).layout_saved
                &&& final(self).active_grab == old(self).active_grab
            },
            r ==> {
                let hit = under->0;
                let geometry = hit.geometry->0;
                &&& final(self).floating@ == old(self).floating@.insert(
                    hit.window.root->0,
                    FloatingWindowData::placed(geometry.loc, geometry.size),
                )
                &&& final(self).tiled_swap_target is None
                &&& final(self).layout_saved
                &&& final(self).active_grab == Some(tiled_swap_grab(hit, workspace_idx))
            },
    {
        if !self.is_tiled_under(logo, under) {
            return false;
        }
        match under {
            Some(hit) => match (hit.geometry, hit.window.root) {
                (Some(geometry), Some(root)) => {
                    self.floating.insert(
                        root,
                        FloatingWindowData::new(geometry.loc, geometry.size),
                    );
                    self.layout_saved = true;
                    self.active_grab = Some(
                        ActiveGrab::TiledSwap(
                            TiledSwapGrab {
                                window: hit.window,
                                workspace_idx,
                                start_window_pos: geometry.loc,
                                start_window_size: geometry.size,
                            },
                        ),
                    );
                    self.tiled_swap_target = None;
                    true
                },
                _ => false,
            },
            None => false,
        }
    }

    /// Start to resize a floating window by the edges nearest to the pointer.
    pub fn try_start_resize_grab(
        &mut self,
        logo: bool,
        under: Option<UnderPointer>,
        twice_x: i64,
        twice_y: i64,
    ) -> (r: bool)
        requires
            old(self).wf(),
        ensures
            final(self).wf(),
            final(self).floating == old(self).floating,
            final(self).tiled_swap_target == old(self).tiled_swap_target,
            final(self).layout_saved == old(self).layout_saved,
            r == (old(self).floating_under(logo, under) && under->0.geometry is Some),
            final(self).active_grab == if r {
                Some(resize_grab(under->0, twice_x, twice_y))
            } else {
                old(self).active_grab
            },
    {
        if !self.is_floating_under(logo, under) {
            return false;
        }
        match under {
            Some(hit) => match hit.geometry {
                Some(geometry) => {
                    let edges = resize_edges_for_pointer(
                        geometry.loc,
                        geometry.size,
                        twice_x,
                        twice_y,
                    );
                    self.active_grab = Some(
                        ActiveGrab::Resize(
                            ResizeGrab {
                                window: hit.window,
                                start_window_pos: geometry.loc,
                                start_window_size: geometry.size,
                                edges,
                                current_window_pos: geometry.loc,
                                current_window_size: geometry.size,
                            },
                        ),
                    );
                    true
                },
                None => false,
            },
            None => false,
        }
    }

    /// Start to resize a tiled window by the edges nearest to the pointer.
    pub fn try_start_tiled_resize_grab(
        &mut self,
        logo: bool,
        under: Option<UnderPointer>,
        workspace_idx: usize,
        twice_x: i64,
        twice_y: i64,
    ) -> (r: bool)
        requires
            old(self).wf(),
        ensures
            final(self).wf(),
            final(self).floating == old(self).floating,
            final(self).tiled_swap_target == old(self).tiled_swap_target,
            final(self).layout_saved == old(self).layout_saved,
            r == (old(self).tiled_under(logo, under) && under->0.geometry is Some),
            final(self).active_grab == if r {
                Some(tiled_resize_grab(under->0, workspace_idx, twice_x, twice_y))
            } else {
                old(self).active_grab
            },
    {
        if !self.is_tiled_under(logo, under) {
            return false;
        }
        match under {
            Some(hit) => match hit.geometry {
                Some(geometry) => {
                    let edges = resize_edges_for_pointer(
                        geometry.loc,
                        geometry.size,
                        twice_x,
                        twice_y,
                    );
                    self.active_grab = Some(
                        ActiveGrab::TiledResize(
                            TiledResizeGrab { window: hit.window, workspace_idx, edges },
                        ),
                    );
                    true
                },
                None => false,
            },
            None => false,
        }
    }

    /// End a swap grab with the pointer at `pointer`: the saved layout comes
    /// back and the window stops floating. Dropped over its own slot it is
    /// swapped with nothing.
    pub fn finish_tiled_swap_grab(&mut self, pointer: Point) -> (r: Option<SwapFinish>)
        requires
            old(self).wf(),
            old(self).active_grab matches Some(ActiveGrab::TiledSwap(g)) ==> (Rect {
                loc: g.start_window_pos,
                size: g.start_window_size,
            }).in_range(),
        ensures
            final(self).wf(),
            match old(self).active_grab {
                Some(ActiveGrab::TiledSwap(g)) => {
                    &&& final(self).active_grab is None
                    &&& final(self).tiled_swap_target is None
                    &&& !final(self).layout_saved
                    &&& final(self).floating@ == without_root(old(self).floating@, g.window.root)
                    &&& r == Some(
                        swap_finish(
                            g,
                            old(self).layout_saved,
                            old(self).tiled_swap_target,
                            pointer,
                        ),
                    )
                },
                _ => {
                    &&& r is None
                    &&& final(self).active_grab == old(self).active_grab
                    &&& final(self).tiled_swap_target == old(self).tiled_swap_target
                    &&& final(self).layout_saved == old(self).layout_saved
                    &&& final(self).floating@ == old(self).floating@
                },
            },
    {
        match self.active_grab {
            Some(ActiveGrab::TiledSwap(grab)) => {
                self.active_grab = None;
                let restore_layout = self.layout_saved;
                self.layout_saved = false;
                let target = self.tiled_swap_target;
                self.tiled_swap_target = None;
                match grab.window.root {
                    None => Some(SwapFinish { restore_layout, swap: None }),
                    Some(source) => {
                        let _ = self.floating.remove(source);
                        let dropped_in_original_slot = original_tiled_slot_contains_pointer(
                            grab.start_window_pos,
                            grab.start_window_size,
                            pointer,
                        );
                        let swap = match target {
                            Some(target) => if dropped_in_original_slot {
                                None
                            } else {
                                Some(
                                    TileSwap { workspace_idx: grab.workspace_idx, source, target },
                                )
                            },
                            None => None,
                        };
                        Some(SwapFinish { restore_layout, swap })
                    },
                }
            },
            _ => None,
        }
    }

    /// End a resize grab.
    pub fn finish_resize_grab(&mut self) -> (r: ResizeFinish)
        requires
            old(self).wf(),
        ensures
            final(self).wf(),
            final(self).tiled_swap_target == old(self).tiled_swap_target,
            final(self).layout_saved == old(self).layout_saved,
            r == resize_finish(old(self).active_grab),
            final(self).active_grab == if r == ResizeFinish::NoGrab {
                old(self).active_grab
            } else {
                None
            },
            final(self).floating@ == floating_after_resize(
                old(self).floating@,
                old(self).active_grab,
            ),
    {
        match self.active_grab {
            Some(ActiveGrab::Resize(grab)) => {
                self.active_grab = None;
                if let Some(root) = grab.window.root {
                    self.floating.insert(
                        root,
                        FloatingWindowData::new(grab.current_window_pos, grab.current_window_size),
                    );
                }
                ResizeFinish::Floating {
                    window: grab.window,
                    position: grab.current_window_pos,
                    size: grab.current_window_size,
                }
            },
            Some(ActiveGrab::TiledResize(grab)) => {
                self.active_grab = None;
                ResizeFinish::Tiled { window: grab.window, workspace_idx: grab.workspace_idx }
            },
            _ => ResizeFinish::NoGrab,
        }
    }

    /// End a move grab: the window stays where it is. True where there was one.
    pub fn finish_move_grab(&mut self) -> (r: bool)
        requires
            old(self).wf(),
        ensures
            final(self).wf(),
            final(self).floating == old(self).floating,
            final(self).tiled_swap_target == old(self).tiled_swap_target,
            final(self).layout_saved == old(self).layout_saved,
            r == (old(self).active_grab matches Some(ActiveGrab::Move(_))),
            final(self).active_grab == if r {
                None
            } else {
                old(self).active_grab
            },
    {
        match self.active_grab {
            Some(ActiveGrab::Move(_)) => {
                self.active_grab = None;
                true
            },
            _ => false,
        }
    }

    /// The session is being locked: whatever the pointer was doing ends here. A
    /// dragged tile goes back to its slot; a floating window that was resized
    /// keeps the size it was last asked for.
    pub fn cancel_interactions_for_lock(&mut self) -> (r: LockCancel)
        requires
            old(self).wf(),
        ensures
            final(self).wf(),
            interactions_cancelled(*old(self), *final(self), r),
    {
        let grab = self.active_grab;
        self.active_grab = None;
        self.tiled_swap_target = None;
        let saved = self.layout_saved;
        self.layout_saved = false;
        match grab {
            Some(ActiveGrab::TiledSwap(grab)) => {
                if let Some(root) = grab.window.root {
                    let _ = self.floating.remove(root);
                }
                LockCancel { restore_layout: saved, relayout: true, resize: ResizeCancel::NoGrab }
            },
            Some(ActiveGrab::Resize(grab)) => LockCancel {
                restore_layout: false,
                relayout: false,
                resize: ResizeCancel::Floating {
                    window: grab.window,
                    size: grab.current_window_size,
                },
            },
            Some(ActiveGrab::TiledResize(grab)) => LockCancel {
                restore_layout: false,
                relayout: false,
                resize: ResizeCancel::Tiled { window: grab.window },
            },
            _ => LockCancel {
                restore_layout: false,
                relayout: false,
                resize: ResizeCancel::NoGrab,
            },
        }
    }
}

/// A resize moves only the edges that were taken hold of: by the left or top
/// edge the opposite side stays where it was, by the right or bottom edge the
/// corner does. No resize makes a window vanish.
pub proof fn a_resize_keeps_the_opposite_corner(
    start_pos: Point,
    start_size: Size,
    d: Point,
    edges: ResizeEdges,
)
    requires
        resized_in_range(start_pos, start_size, d, edges),
        start_size.w >= 1,
        start_size.h >= 1,
    ensures
        ({
            let (pos, size) = resized(start_pos, start_size, d, edges);
            &&& size.w >= 1
            &&& size.h >= 1
            &&& edges.horizontal == ResizeHorizontalEdge::Left ==> pos.x + size.w == start_pos.x
                + start_size.w
            &&& edges.horizontal == ResizeHorizontalEdge::Right ==> pos.x == start_pos.x
            &&& edges.vertical == ResizeVerticalEdge::Top ==> pos.y + size.h == start_pos.y
                + start_size.h
            &&& edges.vertical == ResizeVerticalEdge::Bottom ==> pos.y == start_pos.y
        }),
{
}

/// A drag keeps the offset between the pointer and the window: two drags in a
/// row come out where one drag by their sum does.
pub proof fn drags_add_up(start: Point, first: Point, second: Point, both: Point)
    requires
        drag_in_range(start, first),
        drag_in_range(dragged(start, first), second),
        both.x == first.x + second.x,
        both.y == first.y + second.y,
    ensures
        dragged(dragged(start, first), second) == dragged(start, both),
{
}

/// A swap target is one of the candidates, under the pointer, and never the
/// dragged window; there is one whenever such a candidate exists.
pub proof fn swap_target_is_a_hit(candidates: Seq<SwapCandidate>, source_root: u64, pointer: Point)
    ensures
        match swap_target(candidates, source_root, pointer) {
            Some(root) => exists|i: int|
                0 <= i < candidates.len() && is_swap_hit(
                    #[trigger] candidates[i],
                    source_root,
                    pointer,
                ) && candidates[i].root == root && (forall|j: int|
                    0 <= j < i ==> !is_swap_hit(#[trigger] candidates[j], source_root, pointer)),
            None => forall|i: int|
                0 <= i < candidates.len() ==> !is_swap_hit(
                    #[trigger] candidates[i],
                    source_root,
                    pointer,
                ),
        },
    decreases candidates.len(),
{
    if candidates.len() > 0 {
        if is_swap_hit(candidates[0], source_root, pointer) {
            assert(is_swap_hit(candidates[0], source_root, pointer));
        } else {
            let rest = candidates.drop_first();
            swap_target_is_a_hit(rest, source_root, pointer);
            match swap_target(rest, source_root, pointer) {
                Some(root) => {
                    let i = choose|i: int|
                        0 <= i < rest.len() && is_swap_hit(#[trigger] rest[i], source_root, pointer)
                            && rest[i].root == root && (forall|j: int|
                            0 <= j < i ==> !is_swap_hit(#[trigger] rest[j], source_root, pointer));
                    assert(candidates[i + 1] == rest[i]);
                    assert forall|j: int| 0 <= j < i + 1 implies !is_swap_hit(
                        #[trigger] candidates[j],
                        source_root,
                        pointer,
                    ) by {
                        if j > 0 {
                            assert(candidates[j] == rest[j - 1]);
                        }
                    }
                },
                None => {
                    assert forall|i: int| 0 <= i < candidates.len() implies !is_swap_hit(
                        #[trigger] candidates[i],
                        source_root,
                        pointer,
                    ) by {
                        if i > 0 {
                            assert(candidates[i] == rest[i - 1]);
                        }
                    }
                },
            }
        }
    }
}

/// A floating window cannot be dragged or resized off the usable area: a strip
/// as wide and as high as the margin, or all of the window where it is smaller,
/// stays inside, wherever the area is large enough for that.
pub proof fn a_dragged_window_can_be_grabbed_again(pos: Point, size: Size, usable: Rect)
    requires
        reach_in_range(Some(size), Some(usable)),
        ONSCREEN_MARGIN <= usable.size.w,
        ONSCREEN_MARGIN <= usable.size.h,
        1 <= size.w,
        1 <= size.h,
    ensures
        ({
            let to = kept_reachable(pos, Some(size), Some(usable));
            let strip_w = min_int(ONSCREEN_MARGIN as int, size.w as int);
            let strip_h = min_int(ONSCREEN_MARGIN as int, size.h as int);
            &&& usable.loc.x + strip_w <= to.x + size.w
            &&& to.x + strip_w <= usable.right()
            &&& usable.loc.y + strip_h <= to.y + size.h
            &&& to.y + strip_h <= usable.bottom()
        }),
{
}

/// A window is resized by the corner nearest to the pointer: by the left edge in its left
/// half, by the top edge in its upper half.
pub proof fn the_nearest_corner_is_taken(pos: Point, size: Size, x: int, y: int)
    ensures
        ({
            let edges = edges_toward(pos, size, 2 * x, 2 * y);
            &&& edges.horizontal == ResizeHorizontalEdge::Left <==> x - pos.x < (pos.x + size.w) - x
            &&& edges.vertical == ResizeVerticalEdge::Top <==> y - pos.y < (pos.y + size.h) - y
        }),
{
}

/// The edges that are taken hold of follow the pointer, as long as a pixel is left: by the
/// right or bottom edge the window grows by the distance, by the left or top edge it moves
/// by it and shrinks by as much.
pub proof fn a_resize_follows_the_pointer(
    start_pos: Point,
    start_size: Size,
    d: Point,
    edges: ResizeEdges,
)
    requires
        resized_in_range(start_pos, start_size, d, edges),
        start_size.w >= 1,
        start_size.h >= 1,
    ensures
        ({
            let (pos, size) = resized(start_pos, start_size, d, edges);
            &&& edges.horizontal == ResizeHorizontalEdge::Right && start_size.w + d.x >= 1
                ==> size.w == start_size.w + d.x && pos.x == start_pos.x
            &&& edges.horizontal == ResizeHorizontalEdge::Left && start_size.w - d.x >= 1
                ==> size.w == start_size.w - d.x && pos.x == start_pos.x + d.x
            &&& edges.vertical == ResizeVerticalEdge::Bottom && start_size.h + d.y >= 1 ==> size.h
                == start_size.h + d.y && pos.y == start_pos.y
            &&& edges.vertical == ResizeVerticalEdge::Top && start_size.h - d.y >= 1 ==> size.h
                == start_size.h - d.y && pos.y == start_pos.y + d.y
        }),
{
}

/// A floating window that is moved goes as far as the pointer went since it was taken hold
/// of, keeps its size, and is remembered where it is.
pub proof fn a_moved_window_follows_the_pointer(
    before: GrabState,
    after: GrabState,
    grab: MoveGrab,
    drag: Drag,
    pointer: Point,
    size: Size,
    windows: Seq<SlotWindow>,
    r: Option<GrabMotion>,
    root: u64,
)
    requires
        grab_followed(before, after, drag, pointer, Some(size), None, windows, r),
        before.active_grab == Some(ActiveGrab::Move(grab)),
        grab.window.root == Some(root),
        drag_in_range(grab.start_window_pos, drag.from_start),
        size.w >= 1,
        size.h >= 1,
    ensures
        r matches Some(GrabMotion::Move { window, to }) && window == grab.window && to.x
            - grab.start_window_pos.x == drag.from_start.x && to.y - grab.start_window_pos.y
            == drag.from_start.y && after.floating@[root].position == to,
        after.floating@.dom().contains(root),
        after.floating@[root].size == size,
        after.active_grab == before.active_grab,
        forall|other: u64|
            other != root && before.floating@.dom().contains(other) ==> #[trigger] after.floating@[other]
                == before.floating@[other],
{
}

/// A floating window that is resized is remembered at the size and place that it was
/// resized to, and the scene is told of both.
pub proof fn a_resized_window_is_remembered(
    before: GrabState,
    after: GrabState,
    grab: ResizeGrab,
    drag: Drag,
    pointer: Point,
    shown_size: Option<Size>,
    windows: Seq<SlotWindow>,
    r: Option<GrabMotion>,
    root: u64,
)
    requires
        grab_followed(before, after, drag, pointer, shown_size, None, windows, r),
        before.active_grab == Some(ActiveGrab::Resize(grab)),
        grab.window.root == Some(root),
        resized_in_range(
            grab.start_window_pos,
            grab.start_window_size,
            drag.from_start,
            grab.edges,
        ),
        grab.start_window_size.w >= 1,
        grab.start_window_size.h >= 1,
    ensures
        ({
            let (pos, size) = resized(
                grab.start_window_pos,
                grab.start_window_size,
                drag.from_start,
                grab.edges,
            );
            &&& r == Some(GrabMotion::Resize { window: grab.window, to: pos, size })
            &&& after.floating@.dom().contains(root)
            &&& after.floating@[root].position == pos
            &&& after.floating@[root].size == size
            &&& after.active_grab matches Some(ActiveGrab::Resize(g)) && g.current_window_pos == pos
                && g.current_window_size == size && g.start_window_pos == grab.start_window_pos
                && g.start_window_size == grab.start_window_size && g.edges == grab.edges
        }),
{
    a_resize_keeps_the_opposite_corner(
        grab.start_window_pos,
        grab.start_window_size,
        drag.from_start,
        grab.edges,
    );
}

/// Whether a pointer is over a rectangle.
pub open spec fn is_over(geo: Rect, pointer: Point) -> bool {
    geo.loc.x <= pointer.x && pointer.x < geo.loc.x + geo.size.w && geo.loc.y <= pointer.y
        && pointer.y < geo.loc.y + geo.size.h
}

/// A dragged tile would be swapped with a tiled window that the pointer is over, never
/// with itself, a floating window or one that fills the screen; over its own slot with
/// nothing; and with nothing only where the pointer is over no such window.
pub proof fn a_dragged_tile_is_swapped_with_what_is_under_the_pointer(
    grab: TiledSwapGrab,
    windows: Seq<SlotWindow>,
    floating: Map<u64, FloatingWindowData>,
    pointer: Point,
    source: u64,
)
    requires
        grab.window.root == Some(source),
        grab.start_window_size.w >= 0,
        grab.start_window_size.h >= 0,
        grab.start_window_pos.x + grab.start_window_size.w <= i32::MAX,
        grab.start_window_pos.y + grab.start_window_size.h <= i32::MAX,
        forall|i: int|
            0 <= i < windows.len() && (#[trigger] windows[i]).geometry is Some
                ==> windows[i].geometry->0.size.w >= 0 && windows[i].geometry->0.size.h >= 0
                && windows[i].geometry->0.loc.x + windows[i].geometry->0.size.w <= i32::MAX
                && windows[i].geometry->0.loc.y + windows[i].geometry->0.size.h <= i32::MAX,
    ensures
        ({
            let slot = Rect { loc: grab.start_window_pos, size: grab.start_window_size };
            match drag_target(grab, windows, floating, pointer) {
                Some(root) => {
                    &&& root != source
                    &&& !is_over(slot, pointer)
                    &&& !floating.dom().contains(root)
                    &&& exists|i: int|
                        0 <= i < windows.len() && (#[trigger] windows[i]).root == Some(root)
                            && !windows[i].fullscreen && windows[i].geometry is Some && is_over(
                            windows[i].geometry->0,
                            pointer,
                        )
                },
                None => is_over(slot, pointer) || forall|i: int|
                    0 <= i < windows.len() && (#[trigger] windows[i]).root is Some
                        && windows[i].root != Some(source) && !floating.dom().contains(
                        windows[i].root->0,
                    ) && !windows[i].fullscreen && windows[i].geometry is Some ==> !is_over(
                        windows[i].geometry->0,
                        pointer,
                    ),
            }
        }),
{
    let candidates = swap_candidates(windows, floating);
    lemma_swap_candidates(windows, floating);
    swap_target_is_a_hit(candidates, source, pointer);
    let slot = Rect { loc: grab.start_window_pos, size: grab.start_window_size };
    match drag_target(grab, windows, floating, pointer) {
        Some(root) => {
            let k = choose|k: int|
                0 <= k < candidates.len() && is_swap_hit(
                    #[trigger] candidates[k],
                    source,
                    pointer,
                ) && candidates[k].root == root && (forall|j: int|
                    0 <= j < k ==> !is_swap_hit(#[trigger] candidates[j], source, pointer));
            let i = choose|i: int|
                0 <= i < windows.len() && is_candidate(#[trigger] windows[i], floating, candidates[k]);
            assert(windows[i].geometry is Some);
        },
        None => {
            if !is_over(slot, pointer) {
                assert forall|i: int|
                    0 <= i < windows.len() && (#[trigger] windows[i]).root is Some
                        && windows[i].root != Some(source) && !floating.dom().contains(
                        windows[i].root->0,
                    ) && !windows[i].fullscreen && windows[i].geometry is Some implies !is_over(
                    windows[i].geometry->0,
                    pointer,
                ) by {
                    let c = SwapCandidate {
                        root: windows[i].root->0,
                        geometry: windows[i].geometry->0,
                    };
                    assert(candidates.contains(c));
                    let k = candidates.index_of(c);
                    assert(!is_swap_hit(candidates[k], source, pointer));
                }
            }
        },
    }
}

/// Whether a window is one that a tile can be swapped with, and `candidate` is it.
pub open spec fn is_candidate(
    window: SlotWindow,
    floating: Map<u64, FloatingWindowData>,
    candidate: SwapCandidate,
) -> bool {
    &&& window.root == Some(candidate.root)
    &&& window.geometry == Some(candidate.geometry)
    &&& !window.fullscreen
    &&& !floating.dom().contains(candidate.root)
}

proof fn lemma_swap_candidates(windows: Seq<SlotWindow>, floating: Map<u64, FloatingWindowData>)
    ensures
        forall|k: int|
            0 <= k < swap_candidates(windows, floating).len() ==> exists|i: int|
                0 <= i < windows.len() && is_candidate(
                    #[trigger] windows[i],
                    floating,
                    #[trigger] swap_candidates(windows, floating)[k],
                ),
        forall|i: int|
            0 <= i < windows.len() && (#[trigger] windows[i]).root is Some
                && !floating.dom().contains(windows[i].root->0) && !windows[i].fullscreen
                && windows[i].geometry is Some ==> swap_candidates(windows, floating).contains(
                SwapCandidate { root: windows[i].root->0, geometry: windows[i].geometry->0 },
            ),
    decreases windows.len(),
{
    if windows.len() > 0 {
        let shorter = windows.drop_last();
        lemma_swap_candidates(shorter, floating);
        let rest = swap_candidates(shorter, floating);
        let all = swap_candidates(windows, floating);
        assert forall|k: int| 0 <= k < all.len() implies exists|i: int|
            0 <= i < windows.len() && is_candidate(#[trigger] windows[i], floating, #[trigger] all[k]) by {
            if k < rest.len() {
                assert(all[k] == rest[k]);
                let i = choose|i: int|
                    0 <= i < shorter.len() && is_candidate(#[trigger] shorter[i], floating, rest[k]);
                assert(windows[i] == shorter[i]);
            } else {
                assert(is_candidate(windows[windows.len() - 1], floating, all[k]));
            }
        }
        assert forall|i: int|
            0 <= i < windows.len() && (#[trigger] windows[i]).root is Some
                && !floating.dom().contains(windows[i].root->0) && !windows[i].fullscreen
                && windows[i].geometry is Some implies all.contains(
            SwapCandidate { root: windows[i].root->0, geometry: windows[i].geometry->0 },
        ) by {
            let c = SwapCandidate { root: windows[i].root->0, geometry: windows[i].geometry->0 };
            if i < shorter.len() {
                assert(shorter[i] == windows[i]);
                assert(rest.contains(c));
                let k = rest.index_of(c);
                assert(all[k] == c);
            } else {
                assert(all[rest.len() as int] == c);
            }
        }
    }
}

/// A dragged tile that is dropped over its own slot changes places with nothing; anywhere
/// else it does with the window it was dragged onto.
pub proof fn a_drop_swaps_with_the_target(
    grab: TiledSwapGrab,
    saved: bool,
    target: Option<u64>,
    pointer: Point,
    source: u64,
)
    requires
        grab.window.root == Some(source),
        grab.start_window_size.w >= 0,
        grab.start_window_size.h >= 0,
        grab.start_window_pos.x + grab.start_window_size.w <= i32::MAX,
        grab.start_window_pos.y + grab.start_window_size.h <= i32::MAX,
    ensures
        ({
            let slot = Rect { loc: grab.start_window_pos, size: grab.start_window_size };
            let finish = swap_finish(grab, saved, target, pointer);
            &&& finish.restore_layout == saved
            &&& is_over(slot, pointer) || target is None ==> finish.swap is None
            &&& !is_over(slot, pointer) && target is Some ==> finish.swap is Some
                && finish.swap->0.source == source && finish.swap->0.target == target->0
                && finish.swap->0.workspace_idx == grab.workspace_idx
        }),
{
}

} // verus!
