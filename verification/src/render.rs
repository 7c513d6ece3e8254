//! What a frame is made of, and where each window is drawn in it.
use crate::animation::VisualRect;
use crate::geometry::{fits_i32, Point, Rect};
use vstd::prelude::*;

verus! {

/// A group of elements of a frame.
#[derive(Debug, Clone, Copy, PartialEq, Eq, Structural)]
pub enum ElementGroup {
    Cursor,
    LockSurface,
    LayersAbove,
    Borders,
    Windows,
    LayersBelow,
}

/// The groups of a frame from front to back. A locked session shows its lock
/// surface and the cursor, and nothing else at all.
pub open spec fn frame_groups(locked: bool, with_cursor: bool) -> Seq<ElementGroup> {
    let cursor = if with_cursor { seq![ElementGroup::Cursor] } else { Seq::empty() };
    if locked {
        cursor + seq![ElementGroup::LockSurface]
    } else {
        cursor + seq![
            ElementGroup::LayersAbove,
            ElementGroup::Borders,
            ElementGroup::Windows,
            ElementGroup::LayersBelow,
        ]
    }
}

pub fn element_order(locked: bool, with_cursor: bool) -> (r: Vec<ElementGroup>)
    ensures
        r@ == frame_groups(locked, with_cursor),
{
    let mut r: Vec<ElementGroup> = Vec::new();
    if with_cursor {
        r.push(ElementGroup::Cursor);
    }
    if locked {
        r.push(ElementGroup::LockSurface);
    } else {
        r.push(ElementGroup::LayersAbove);
        r.push(ElementGroup::Borders);
        r.push(ElementGroup::Windows);
        r.push(ElementGroup::LayersBelow);
    }
    proof {
        assert(r@ =~= frame_groups(locked, with_cursor));
    }
    r
}

/// What is behind all elements.
#[derive(Debug, Clone, Copy, PartialEq, Eq, Structural)]
pub enum ClearColor {
    Black,
    DarkGrey,
}

/// What shows where nothing is drawn.
pub open spec fn color_behind(locked: bool) -> ClearColor {
    if locked { ClearColor::Black } else { ClearColor::DarkGrey }
}

/// A locked session is cleared to black, so that an output without a lock
/// surface shows nothing.
pub fn clear_color(locked: bool) -> (r: ClearColor)
    ensures
        r == color_behind(locked),
{
    if locked {
        ClearColor::Black
    } else {
        ClearColor::DarkGrey
    }
}

/// How a window is drawn.
#[derive(Debug, Clone, Copy, PartialEq, Eq, Structural)]
pub enum WindowDrawing {
    /// Not on this output.
    Skip,
    /// Fitted into the rectangle, in coordinates of the output: revealed from
    /// its corner, or stretched to fill it.
    Animated { rect: Rect, reveal: bool },
    /// At the point, in coordinates of the output.
    Plain { at: Point },
}

/// A window of the scene.
#[derive(Debug, Clone, Copy, PartialEq, Eq, Structural)]
pub struct SceneWindow {
    pub visual: Option<VisualRect>,
    pub bbox: Rect,
    /// Where the scene has it, and the offset of its geometry within its
    /// surface.
    pub location: Option<Point>,
    pub geometry_loc: Point,
}

/// Whether the window's place relative to the output is within the
/// coordinates.
pub open spec fn drawing_in_range(window: SceneWindow, region: Rect) -> bool {
    &&& window.visual is Some ==> {
        &&& fits_i32(window.visual->0.rect.loc.x - region.loc.x)
        &&& fits_i32(window.visual->0.rect.loc.y - region.loc.y)
    }
    &&& window.visual is None && window.location is Some && region.overlapping(window.bbox) ==> {
        &&& fits_i32(window.location->0.x - window.geometry_loc.x)
        &&& fits_i32(window.location->0.x - window.geometry_loc.x - region.loc.x)
        &&& fits_i32(window.location->0.y - window.geometry_loc.y)
        &&& fits_i32(window.location->0.y - window.geometry_loc.y - region.loc.y)
    }
}

pub open spec fn drawing_of(window: SceneWindow, region: Rect) -> WindowDrawing {
    if window.visual is Some {
        let visual = window.visual->0;
        WindowDrawing::Animated {
            rect: Rect {
                loc: Point {
                    x: (visual.rect.loc.x - region.loc.x) as i32,
                    y: (visual.rect.loc.y - region.loc.y) as i32,
                },
                size: visual.rect.size,
            },
            reveal: visual.reveal,
        }
    } else if region.overlapping(window.bbox) && window.location is Some {
        WindowDrawing::Plain {
            at: Point {
                x: (window.location->0.x - window.geometry_loc.x - region.loc.x) as i32,
                y: (window.location->0.y - window.geometry_loc.y - region.loc.y) as i32,
            },
        }
    } else {
        WindowDrawing::Skip
    }
}

/// How a window is drawn on the output with the geometry `region`: through its
/// animation where it has one, else at its place where that is on the output.
pub fn window_drawing(window: SceneWindow, region: Rect) -> (r: WindowDrawing)
    requires
        drawing_in_range(window, region),
    ensures
        r == drawing_of(window, region),
{
    match window.visual {
        Some(visual) => WindowDrawing::Animated {
            rect: Rect {
                loc: Point {
                    x: visual.rect.loc.x - region.loc.x,
                    y: visual.rect.loc.y - region.loc.y,
                },
                size: visual.rect.size,
            },
            reveal: visual.reveal,
        },
        None => {
            if !region.overlaps(&window.bbox) {
                return WindowDrawing::Skip;
            }
            match window.location {
                Some(location) => WindowDrawing::Plain {
                    at: Point {
                        x: location.x - window.geometry_loc.x - region.loc.x,
                        y: location.y - window.geometry_loc.y - region.loc.y,
                    },
                },
                None => WindowDrawing::Skip,
            }
        },
    }
}

/// The drawings of all windows, front to back; `windows` are those of the
/// scene from back to front.
pub fn window_drawings(windows: &Vec<SceneWindow>, region: Rect) -> (r: Vec<WindowDrawing>)
    requires
        forall|i: int| 0 <= i < windows.len() ==> drawing_in_range(#[trigger] windows@[i], region),
    ensures
        r@ == windows@.reverse().map_values(|w: SceneWindow| drawing_of(w, region)),
{
    let ghost drawn = windows@.reverse().map_values(|w: SceneWindow| drawing_of(w, region));
    let mut r: Vec<WindowDrawing> = Vec::new();
    let mut i: usize = windows.len();
    while i > 0
        invariant
            i <= windows.len(),
            forall|k: int|
                0 <= k < windows.len() ==> drawing_in_range(#[trigger] windows@[k], region),
            drawn == windows@.reverse().map_values(|w: SceneWindow| drawing_of(w, region)),
            r@ =~= drawn.subrange(0, windows.len() - i),
        decreases i,
    {
        r.push(window_drawing(windows[i - 1], region));
        i = i - 1;
    }
    proof {
        assert(r@ =~= drawn);
    }
    r
}

/// Nothing of the desktop is part of a locked session's frame.
pub proof fn a_locked_frame_shows_no_desktop(with_cursor: bool, i: int)
    requires
        0 <= i < frame_groups(true, with_cursor).len(),
    ensures
        frame_groups(true, with_cursor)[i] == ElementGroup::Cursor || frame_groups(true, with_cursor)[i]
            == ElementGroup::LockSurface,
{
}

/// The cursor is in front of everything. On an unlocked screen the upper layers are in
/// front of the borders, these in front of the windows, and these of the lower layers.
pub proof fn the_cursor_is_in_front(locked: bool)
    ensures
        frame_groups(locked, true).len() == frame_groups(locked, false).len() + 1,
        frame_groups(locked, true)[0] == ElementGroup::Cursor,
        forall|i: int|
            0 <= i < frame_groups(locked, false).len() ==> #[trigger] frame_groups(locked, false)[i]
                == frame_groups(locked, true)[i + 1] && frame_groups(locked, false)[i]
                != ElementGroup::Cursor,
        frame_groups(false, false)[0] == ElementGroup::LayersAbove,
        frame_groups(false, false)[1] == ElementGroup::Borders,
        frame_groups(false, false)[2] == ElementGroup::Windows,
        frame_groups(false, false)[3] == ElementGroup::LayersBelow,
        frame_groups(false, false).len() == 4,
        frame_groups(true, false)[0] == ElementGroup::LockSurface,
        frame_groups(true, false).len() == 1,
{
}

/// A window that is animated is drawn where its animation is, any other one where it is,
/// less what its client draws around it; both as far from the corner of the output as they
/// are from the corner of what the output shows. One that the output does not show, or that
/// is nowhere, is not drawn.
pub proof fn windows_are_drawn_where_they_are(window: SceneWindow, region: Rect)
    requires
        drawing_in_range(window, region),
    ensures
        window.visual is Some ==> (drawing_of(window, region) matches WindowDrawing::Animated {
            rect,
            reveal,
        } && rect.loc.x + region.loc.x == window.visual->0.rect.loc.x && rect.loc.y + region.loc.y
            == window.visual->0.rect.loc.y && rect.size == window.visual->0.rect.size && reveal
            == window.visual->0.reveal),
        window.visual is None && window.location is Some && region.overlapping(window.bbox) ==> (
        drawing_of(window, region) matches WindowDrawing::Plain { at } && at.x + region.loc.x
            + window.geometry_loc.x == window.location->0.x && at.y + region.loc.y
            + window.geometry_loc.y == window.location->0.y),
        window.visual is None && (window.location is None || !region.overlapping(window.bbox))
            ==> drawing_of(window, region) is Skip,
{
}

/// A locked screen shows the lock surface and, where that is not up yet, nothing but black.
pub proof fn a_locked_screen_is_black(with_cursor: bool, i: int)
    requires
        0 <= i < frame_groups(true, with_cursor).len(),
    ensures
        color_behind(true) == ClearColor::Black,
        color_behind(false) != ClearColor::Black,
        frame_groups(true, with_cursor)[i] == ElementGroup::Cursor || frame_groups(
            true,
            with_cursor,
        )[i] == ElementGroup::LockSurface,
{
}

} // verus!
