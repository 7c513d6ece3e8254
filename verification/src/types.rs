//! Values shared by the input handling and the compositor state.
use crate::geometry::{max_i32, max_int, Point, Size};
use vstd::prelude::*;

verus! {

/// A window, and the id of its root surface where it has a surface.
#[derive(Debug, Clone, Copy, PartialEq, Eq, Structural)]
pub struct WindowRef {
    pub id: u64,
    pub root: Option<u64>,
}

/// The pointer shapes a cursor theme can name.
#[derive(Debug, Clone, Copy, PartialEq, Eq, Structural)]
pub enum CursorIcon {
    Arrow,
    ContextMenu,
    Help,
    Pointer,
    Progress,
    Wait,
    Cell,
    Crosshair,
    Text,
    VerticalText,
    Alias,
    DragCopy,
    Move,
    NoDrop,
    NotAllowed,
    Grab,
    Grabbing,
    EResize,
    NResize,
    NeResize,
    NwResize,
    SResize,
    SeResize,
    SwResize,
    WResize,
    EwResize,
    NsResize,
    NeswResize,
    NwseResize,
    ColResize,
    RowResize,
    AllScroll,
    ZoomIn,
    ZoomOut,
    DndAsk,
    AllResize,
}

#[derive(Debug, Clone, Copy, PartialEq, Eq, Structural)]
pub enum ResizeHorizontalEdge {
    Left,
    Right,
}

#[derive(Debug, Clone, Copy, PartialEq, Eq, Structural)]
pub enum ResizeVerticalEdge {
    Top,
    Bottom,
}

/// The two edges of a window that follow the pointer.
#[derive(Debug, Clone, Copy, PartialEq, Eq, Structural)]
pub struct ResizeEdges {
    pub horizontal: ResizeHorizontalEdge,
    pub vertical: ResizeVerticalEdge,
}

impl ResizeEdges {
    /// The shape that points at the corner between the two edges.
    pub open spec fn icon(self) -> CursorIcon {
        match (self.vertical, self.horizontal) {
            (ResizeVerticalEdge::Top, ResizeHorizontalEdge::Left) => CursorIcon::NwResize,
            (ResizeVerticalEdge::Top, ResizeHorizontalEdge::Right) => CursorIcon::NeResize,
            (ResizeVerticalEdge::Bottom, ResizeHorizontalEdge::Left) => CursorIcon::SwResize,
            (ResizeVerticalEdge::Bottom, ResizeHorizontalEdge::Right) => CursorIcon::SeResize,
        }
    }

    pub fn cursor_icon(self) -> (r: CursorIcon)
        ensures
            r == self.icon(),
    {
        match (self.vertical, self.horizontal) {
            (ResizeVerticalEdge::Top, ResizeHorizontalEdge::Left) => CursorIcon::NwResize,
            (ResizeVerticalEdge::Top, ResizeHorizontalEdge::Right) => CursorIcon::NeResize,
            (ResizeVerticalEdge::Bottom, ResizeHorizontalEdge::Left) => CursorIcon::SwResize,
            (ResizeVerticalEdge::Bottom, ResizeHorizontalEdge::Right) => CursorIcon::SeResize,
        }
    }
}

/// Where a floating window is placed, and how large it is when restored.
#[derive(Debug, Clone, Copy, PartialEq, Eq, Structural)]
pub struct FloatingWindowData {
    pub position: Point,
    pub size: Size,
}

impl FloatingWindowData {
    /// `size`, but at least one pixel each way.
    pub open spec fn placed(position: Point, size: Size) -> FloatingWindowData {
        FloatingWindowData {
            position,
            size: Size {
                w: max_int(size.w as int, 1) as i32,
                h: max_int(size.h as int, 1) as i32,
            },
        }
    }

    pub fn new(position: Point, size: Size) -> (r: Self)
        ensures
            r == FloatingWindowData::placed(position, size),
    {
        FloatingWindowData { position, size: Size { w: max_i32(size.w, 1), h: max_i32(size.h, 1) } }
    }
}

/// An in-progress floating window move.
#[derive(Debug, Clone, Copy, PartialEq, Eq, Structural)]
pub struct MoveGrab {
    pub window: WindowRef,
    /// Window position when the grab started.
    pub start_window_pos: Point,
}

/// An in-progress swap of a tiled window.
#[derive(Debug, Clone, Copy, PartialEq, Eq, Structural)]
pub struct TiledSwapGrab {
    pub window: WindowRef,
    /// Workspace that owns the dragged window.
    pub workspace_idx: usize,
    pub start_window_pos: Point,
    pub start_window_size: Size,
}

/// An in-progress resize of a tiled window.
#[derive(Debug, Clone, Copy, PartialEq, Eq, Structural)]
pub struct TiledResizeGrab {
    pub window: WindowRef,
    pub workspace_idx: usize,
    pub edges: ResizeEdges,
}

/// An in-progress floating window resize.
#[derive(Debug, Clone, Copy, PartialEq, Eq, Structural)]
pub struct ResizeGrab {
    pub window: WindowRef,
    pub start_window_pos: Point,
    pub start_window_size: Size,
    pub edges: ResizeEdges,
    /// Latest requested position and size.
    pub current_window_pos: Point,
    pub current_window_size: Size,
}

/// The active pointer grab. Only one can be active at a time.
#[derive(Debug, Clone, Copy, PartialEq, Eq, Structural)]
pub enum ActiveGrab {
    Move(MoveGrab),
    TiledSwap(TiledSwapGrab),
    Resize(ResizeGrab),
    TiledResize(TiledResizeGrab),
}

/// A floating window is put where it is said to be, at its size, or at a pixel where that
/// is none.
pub proof fn floating_windows_keep_their_size(position: Point, size: Size)
    ensures
        FloatingWindowData::placed(position, size).position == position,
        size.w >= 1 ==> FloatingWindowData::placed(position, size).size.w == size.w,
        size.h >= 1 ==> FloatingWindowData::placed(position, size).size.h == size.h,
        size.w < 1 ==> FloatingWindowData::placed(position, size).size.w == 1,
        size.h < 1 ==> FloatingWindowData::placed(position, size).size.h == 1,
{
}

} // verus!
