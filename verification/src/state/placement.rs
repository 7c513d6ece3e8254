//! Where windows are placed: the usable areas, the size of tiles, and the
//! place and size of floating windows.
use crate::geometry::{
    div_trunc, fits_i32, half, max_i32, max_int, min_i32, min_int, third, Point, Rect, Size,
};
use crate::state::popup::{centered, centered_dialog_position, centered_in_range};
use crate::types::{FloatingWindowData, WindowRef};
use vstd::prelude::*;

verus! {

/// A cell of the tiling layout.
#[derive(Debug, Clone, Copy, PartialEq, Eq, Structural)]
pub struct Geometry {
    pub x: i32,
    pub y: i32,
    pub width: u32,
    pub height: u32,
}

/// What the shell surfaces leave of an output, in global coordinates.
pub open spec fn usable_of(output_geo: Rect, non_exclusive: Rect) -> Rect {
    Rect {
        loc: Point {
            x: (output_geo.loc.x + non_exclusive.loc.x) as i32,
            y: (output_geo.loc.y + non_exclusive.loc.y) as i32,
        },
        size: non_exclusive.size,
    }
}

pub open spec fn usable_in_range(output_geo: Rect, non_exclusive: Rect) -> bool {
    fits_i32(output_geo.loc.x + non_exclusive.loc.x) && fits_i32(
        output_geo.loc.y + non_exclusive.loc.y,
    )
}

/// The area that floating windows are kept reachable in: the output without
/// what shell surfaces reserve.
pub fn floating_usable_rect_for(output_geo: Rect, non_exclusive: Rect) -> (r: Rect)
    requires
        usable_in_range(output_geo, non_exclusive),
    ensures
        r == usable_of(output_geo, non_exclusive),
{
    Rect {
        loc: Point {
            x: output_geo.loc.x + non_exclusive.loc.x,
            y: output_geo.loc.y + non_exclusive.loc.y,
        },
        size: non_exclusive.size,
    }
}

/// The area that is tiled: the same, without a gap on each side.
pub fn tiling_usable_geometry_for(output_geo: Rect, non_exclusive: Rect, gap: i32) -> (r: Geometry)
    requires
        gap >= 0,
        usable_in_range(output_geo, non_exclusive),
        fits_i32(output_geo.loc.x + non_exclusive.loc.x + gap),
        fits_i32(output_geo.loc.y + non_exclusive.loc.y + gap),
    ensures
        r.x == output_geo.loc.x + non_exclusive.loc.x + gap,
        r.y == output_geo.loc.y + non_exclusive.loc.y + gap,
        r.width == max_int(non_exclusive.size.w - 2 * gap, 0),
        r.height == max_int(non_exclusive.size.h - 2 * gap, 0),
{
    let usable = floating_usable_rect_for(output_geo, non_exclusive);
    let w: i64 = usable.size.w as i64 - 2 * (gap as i64);
    let h: i64 = usable.size.h as i64 - 2 * (gap as i64);
    Geometry {
        x: usable.loc.x + gap,
        y: usable.loc.y + gap,
        width: if w > 0 {
            w as u32
        } else {
            0
        },
        height: if h > 0 {
            h as u32
        } else {
            0
        },
    }
}

/// The gap within a cell of the given extent: the configured one, but no more
/// than leaves room for the borders and a pixel of window.
pub open spec fn inner_gap(extent: int, gap: int, bw: int) -> int {
    min_int(gap, max_int(div_trunc(extent - 2 * bw - 1, 2), 0))
}

/// The extent of the window in a cell: what gaps and borders leave of it, and
/// at least a pixel.
pub open spec fn tiled_extent(extent: int, gap: int, bw: int) -> int {
    max_int(extent - 2 * inner_gap(extent, gap, bw) - 2 * bw, 1)
}

fn axis_gap(extent: u32, gap: i32, bw: i32) -> (r: i32)
    requires
        gap >= 0,
        bw >= 0,
        extent <= i32::MAX,
    ensures
        r == inner_gap(extent as int, gap as int, bw as int),
        0 <= r <= gap,
        2 * r <= max_int(extent - 2 * bw - 1, 0),
{
    let room: i64 = extent as i64 - 2 * (bw as i64) - 1;
    let share: i64 = if room > 0 {
        room / 2
    } else {
        0
    };
    if (gap as i64) < share {
        gap
    } else {
        share as i32
    }
}

/// The inner gap of a cell, across and down.
pub fn effective_inner_gap(cell_w: u32, cell_h: u32, gap: i32, bw: i32) -> (r: (i32, i32))
    requires
        gap >= 0,
        bw >= 0,
        cell_w <= i32::MAX,
        cell_h <= i32::MAX,
    ensures
        r.0 == inner_gap(cell_w as int, gap as int, bw as int),
        r.1 == inner_gap(cell_h as int, gap as int, bw as int),
{
    (axis_gap(cell_w, gap, bw), axis_gap(cell_h, gap, bw))
}

fn axis_extent(extent: u32, gap: i32, bw: i32) -> (r: i32)
    requires
        gap >= 0,
        bw >= 0,
        extent <= i32::MAX,
    ensures
        r == tiled_extent(extent as int, gap as int, bw as int),
        1 <= r,
{
    let g: i32 = axis_gap(extent, gap, bw);
    let w: i64 = extent as i64 - 2 * (g as i64) - 2 * (bw as i64);
    if w > 1 {
        w as i32
    } else {
        1
    }
}

/// The size of the window in a cell.
pub fn configured_tiled_size(geo: Geometry, gap: i32, bw: i32) -> (r: Size)
    requires
        gap >= 0,
        bw >= 0,
        geo.width <= i32::MAX,
        geo.height <= i32::MAX,
    ensures
        r.w == tiled_extent(geo.width as int, gap as int, bw as int),
        r.h == tiled_extent(geo.height as int, gap as int, bw as int),
        geo.width > 2 * bw + 2 * gap ==> r.w == geo.width - 2 * gap - 2 * bw,
        geo.height > 2 * bw + 2 * gap ==> r.h == geo.height - 2 * gap - 2 * bw,
{
    Size { w: axis_extent(geo.width, gap, bw), h: axis_extent(geo.height, gap, bw) }
}

/// The rectangle of the window in a cell.
pub open spec fn tile_rect(geo: Geometry, gap: int, bw: int) -> Rect {
    Rect {
        loc: Point {
            x: (geo.x + inner_gap(geo.width as int, gap, bw)) as i32,
            y: (geo.y + inner_gap(geo.height as int, gap, bw)) as i32,
        },
        size: Size {
            w: tiled_extent(geo.width as int, gap, bw) as i32,
            h: tiled_extent(geo.height as int, gap, bw) as i32,
        },
    }
}

/// Whether the window's place in a cell is within the coordinates.
pub open spec fn tile_in_range(geo: Geometry, gap: int, bw: int) -> bool {
    &&& geo.width <= i32::MAX
    &&& geo.height <= i32::MAX
    &&& fits_i32(geo.x + inner_gap(geo.width as int, gap, bw))
    &&& fits_i32(geo.y + inner_gap(geo.height as int, gap, bw))
}

/// A tiled window and its rectangle.
#[derive(Debug, Clone, Copy, PartialEq, Eq, Structural)]
pub struct TilePlacement {
    pub window: WindowRef,
    pub rect: Rect,
}

/// The tiled windows among the first `n` that have a surface and a cell, each
/// with its rectangle.
pub open spec fn placements_upto(
    windows: Seq<WindowRef>,
    cells: Seq<Option<Geometry>>,
    n: int,
    gap: int,
    bw: int,
) -> Seq<TilePlacement>
    decreases n,
{
    if n <= 0 {
        Seq::empty()
    } else {
        let rest = placements_upto(windows, cells, n - 1, gap, bw);
        if windows[n - 1].root is Some && cells[n - 1] is Some {
            rest.push(
                TilePlacement {
                    window: windows[n - 1],
                    rect: tile_rect(cells[n - 1]->0, gap, bw),
                },
            )
        } else {
            rest
        }
    }
}

/// The rectangles of a workspace's tiled windows; `cells` are the cells that
/// the layout gives them.
pub fn place_tiles(
    windows: &Vec<WindowRef>,
    cells: &Vec<Option<Geometry>>,
    gap: i32,
    bw: i32,
) -> (r: Vec<TilePlacement>)
    requires
        gap >= 0,
        bw >= 0,
        windows.len() == cells.len(),
        forall|i: int|
            0 <= i < cells.len() ==> ((#[trigger] cells@[i]) is Some ==> tile_in_range(
                cells@[i]->0,
                gap as int,
                bw as int,
            )),
    ensures
        r@ == placements_upto(windows@, cells@, windows@.len() as int, gap as int, bw as int),
        all_placed(r@, windows@, cells@, gap as int, bw as int),
{
    proof {
        every_tile_is_placed_in_its_cell(windows@, cells@, gap as int, bw as int);
    }
    let mut r: Vec<TilePlacement> = Vec::new();
    let mut i: usize = 0;
    while i < windows.len()
        invariant
            i <= windows.len(),
            gap >= 0,
            bw >= 0,
            windows.len() == cells.len(),
            forall|k: int|
                0 <= k < cells.len() ==> ((#[trigger] cells@[k]) is Some ==> tile_in_range(
                    cells@[k]->0,
                    gap as int,
                    bw as int,
                )),
            r@ == placements_upto(windows@, cells@, i as int, gap as int, bw as int),
        decreases windows.len() - i,
    {
        if windows[i].root.is_some() {
            if let Some(geo) = cells[i] {
                proof {
                    assert(cells@[i as int] is Some);
                }
                let (gx, gy): (i32, i32) = effective_inner_gap(geo.width, geo.height, gap, bw);
                let size = configured_tiled_size(geo, gap, bw);
                r.push(
                    TilePlacement {
                        window: windows[i],
                        rect: Rect { loc: Point { x: geo.x + gx, y: geo.y + gy }, size },
                    },
                );
            }
        }
        i = i + 1;
    }
    r
}

/// What a window says of its size along one axis: its cap, what its surfaces
/// take up, its geometry.
#[derive(Debug, Clone, Copy, PartialEq, Eq, Structural)]
pub struct SizeHints {
    pub min_size: Size,
    pub max_size: Size,
    pub bbox_size: Size,
    pub geo_size: Size,
}

/// The extent of a dialog where its window gives no usable hint: a third of
/// the area, at least `least`, and no more than the area.
pub open spec fn fallback_extent(usable: int, least: int) -> int {
    min_int(max_int(div_trunc(usable, 3), least), max_int(usable, 1))
}

/// A hint counts where it is given and smaller than the area: one as large is a
/// stand-in for "none", or left over from a tile.
pub open spec fn hinted(hint: int, usable: int) -> bool {
    0 < hint < usable
}

/// The extent of a floating dialog along one axis.
pub open spec fn dialog_extent(
    min: int,
    max: int,
    bbox: int,
    geo: int,
    usable: int,
    least: int,
) -> int {
    let candidate = if hinted(max, usable) {
        max
    } else if hinted(bbox, usable) {
        bbox
    } else if hinted(geo, usable) {
        geo
    } else {
        fallback_extent(usable, least)
    };
    let extent = max_int(min_int(candidate, usable), 1);
    if min > 0 { min_int(max_int(extent, min), max_int(usable, 1)) } else { extent }
}

fn extent_for(min: i32, max: i32, bbox: i32, geo: i32, usable: i32, least: i32) -> (r: i32)
    requires
        least >= 1,
    ensures
        r == dialog_extent(
            min as int,
            max as int,
            bbox as int,
            geo as int,
            usable as int,
            least as int,
        ),
{
    let fallback: i32 = min_i32(max_i32(third(usable), least), max_i32(usable, 1));
    let candidate: i32 = if max > 0 && max < usable {
        max
    } else if bbox > 0 && bbox < usable {
        bbox
    } else if geo > 0 && geo < usable {
        geo
    } else {
        fallback
    };
    let extent: i32 = max_i32(min_i32(candidate, usable), 1);
    if min > 0 {
        min_i32(max_i32(extent, min), max_i32(usable, 1))
    } else {
        extent
    }
}

pub open spec fn dialog_size(hints: SizeHints, usable: Size) -> Size {
    Size {
        w: dialog_extent(
            hints.min_size.w as int,
            hints.max_size.w as int,
            hints.bbox_size.w as int,
            hints.geo_size.w as int,
            usable.w as int,
            320,
        ) as i32,
        h: dialog_extent(
            hints.min_size.h as int,
            hints.max_size.h as int,
            hints.bbox_size.h as int,
            hints.geo_size.h as int,
            usable.h as int,
            200,
        ) as i32,
    }
}

/// Place and size of a floating dialog: sized by the best hint it gives, and
/// centred over its parent or in the usable area.
pub fn centered_floating_data(usable: Rect, parent: Option<Rect>, hints: SizeHints) -> (r:
    FloatingWindowData)
    requires
        centered_in_range(usable, dialog_size(hints, usable.size)),
    ensures
        r == FloatingWindowData::placed(
            centered(usable, parent, dialog_size(hints, usable.size)),
            dialog_size(hints, usable.size),
        ),
        r.size == dialog_size(hints, usable.size),
{
    let size = Size {
        w: extent_for(
            hints.min_size.w,
            hints.max_size.w,
            hints.bbox_size.w,
            hints.geo_size.w,
            usable.size.w,
            320,
        ),
        h: extent_for(
            hints.min_size.h,
            hints.max_size.h,
            hints.bbox_size.h,
            hints.geo_size.h,
            usable.size.h,
            200,
        ),
    };
    let position = centered_dialog_position(usable, parent, size);
    FloatingWindowData::new(position, size)
}

/// Place and size of a window that is made to float: half the output, in its
/// middle.
pub open spec fn half_output(output_geo: Rect) -> FloatingWindowData {
    let w = div_trunc(output_geo.size.w as int, 2);
    let h = div_trunc(output_geo.size.h as int, 2);
    FloatingWindowData {
        position: Point {
            x: (output_geo.loc.x + div_trunc(output_geo.size.w - w, 2)) as i32,
            y: (output_geo.loc.y + div_trunc(output_geo.size.h - h, 2)) as i32,
        },
        size: Size { w: w as i32, h: h as i32 },
    }
}

pub open spec fn half_in_range(output_geo: Rect) -> bool {
    &&& output_geo.size.w >= 0
    &&& output_geo.size.h >= 0
    &&& output_geo.in_range()
}

pub fn half_output_placement(output_geo: Rect) -> (r: FloatingWindowData)
    requires
        half_in_range(output_geo),
    ensures
        r == half_output(output_geo),
{
    let w: i32 = half(output_geo.size.w);
    let h: i32 = half(output_geo.size.h);
    FloatingWindowData {
        position: Point {
            x: output_geo.loc.x + half(output_geo.size.w - w),
            y: output_geo.loc.y + half(output_geo.size.h - h),
        },
        size: Size { w, h },
    }
}

/// A window with its borders and gaps never sticks out of its cell, as long as
/// the cell has room for the borders and a pixel.
pub proof fn tiles_stay_within_their_cells(extent: int, gap: int, bw: int)
    requires
        gap >= 0,
        bw >= 0,
        extent >= 2 * bw + 1,
    ensures
        ({
            let g = inner_gap(extent, gap, bw);
            let w = tiled_extent(extent, gap, bw);
            &&& 0 <= g <= gap
            &&& w >= 1
            &&& 2 * g + 2 * bw + w == extent
        }),
{
}

/// A cell that is large enough gets the configured gap.
pub proof fn large_cells_get_the_whole_gap(extent: int, gap: int, bw: int)
    requires
        gap >= 0,
        bw >= 0,
        extent >= 2 * gap + 2 * bw + 1,
    ensures
        inner_gap(extent, gap, bw) == gap,
{
}

/// A dialog is never larger than the usable area, and never smaller than a
/// pixel.
pub proof fn dialogs_fit_the_usable_area(hints: SizeHints, usable: Size)
    requires
        usable.w >= 1,
        usable.h >= 1,
    ensures
        1 <= dialog_size(hints, usable).w <= usable.w,
        1 <= dialog_size(hints, usable).h <= usable.h,
{
}

/// Whether a window's rectangle sits in a cell: it starts within the cell, at most
/// the gap away from its corner, is at least a pixel large, and, where the cell has
/// room for the borders and a pixel, ends with the same gap and both borders at the
/// far edges of the cell.
pub open spec fn sits_in_cell(rect: Rect, cell: Geometry, gap: int, bw: int) -> bool {
    &&& cell.x <= rect.loc.x <= cell.x + gap
    &&& cell.y <= rect.loc.y <= cell.y + gap
    &&& rect.size.w >= 1
    &&& rect.size.h >= 1
    &&& cell.width > 2 * bw ==> 2 * (rect.loc.x - cell.x) + rect.size.w + 2 * bw == cell.width
    &&& cell.height > 2 * bw ==> 2 * (rect.loc.y - cell.y) + rect.size.h + 2 * bw == cell.height
    &&& cell.width > 2 * bw + 2 * gap ==> rect.loc.x == cell.x + gap
    &&& cell.height > 2 * bw + 2 * gap ==> rect.loc.y == cell.y + gap
    &&& cell.width <= 2 * bw ==> rect.loc.x == cell.x && rect.size.w == 1
    &&& cell.height <= 2 * bw ==> rect.loc.y == cell.y && rect.size.h == 1
}

/// The window in a cell is where the cell is: inside it, with the gap round it and
/// room for both borders.
pub proof fn a_tile_sits_in_its_cell(cell: Geometry, gap: int, bw: int)
    requires
        gap >= 0,
        bw >= 0,
        tile_in_range(cell, gap, bw),
    ensures
        sits_in_cell(tile_rect(cell, gap, bw), cell, gap, bw),
{
}

/// Windows in cells that lie beside each other lie beside each other, with their
/// borders, and so for cells one above the other.
pub proof fn disjoint_cells_give_disjoint_tiles(a: Geometry, b: Geometry, gap: int, bw: int)
    requires
        gap >= 0,
        bw >= 0,
        tile_in_range(a, gap, bw),
        tile_in_range(b, gap, bw),
        a.width > 2 * bw,
        a.height > 2 * bw,
    ensures
        a.x + a.width <= b.x ==> tile_rect(a, gap, bw).loc.x + tile_rect(a, gap, bw).size.w + 2 * bw
            <= tile_rect(b, gap, bw).loc.x,
        a.y + a.height <= b.y ==> tile_rect(a, gap, bw).loc.y + tile_rect(a, gap, bw).size.h + 2
            * bw <= tile_rect(b, gap, bw).loc.y,
{
}

/// A cell that lies elsewhere has its window there: moving a cell moves the window
/// by as much and leaves its size.
pub proof fn tiles_move_with_their_cells(a: Geometry, b: Geometry, gap: int, bw: int)
    requires
        gap >= 0,
        bw >= 0,
        tile_in_range(a, gap, bw),
        tile_in_range(b, gap, bw),
        a.width == b.width,
        a.height == b.height,
    ensures
        tile_rect(b, gap, bw).loc.x - tile_rect(a, gap, bw).loc.x == b.x - a.x,
        tile_rect(b, gap, bw).loc.y - tile_rect(a, gap, bw).loc.y == b.y - a.y,
        tile_rect(b, gap, bw).size == tile_rect(a, gap, bw).size,
{
}

/// Whether placement `p` puts window number `i` into its own cell.
pub open spec fn places(
    p: TilePlacement,
    windows: Seq<WindowRef>,
    cells: Seq<Option<Geometry>>,
    i: int,
    gap: int,
    bw: int,
) -> bool {
    &&& 0 <= i < windows.len()
    &&& p.window == windows[i]
    &&& windows[i].root is Some
    &&& cells[i] is Some
    &&& sits_in_cell(p.rect, cells[i]->0, gap, bw)
}

/// Whether `r` puts each of the windows that have a surface and a cell into that
/// cell, and no others, in their order.
pub open spec fn all_placed(
    r: Seq<TilePlacement>,
    windows: Seq<WindowRef>,
    cells: Seq<Option<Geometry>>,
    gap: int,
    bw: int,
) -> bool {
    exists|from: Seq<int>| #[trigger] placed_from(r, windows, cells, gap, bw, from)
}

/// The same, with the number of the window of each placement.
pub open spec fn placed_from(
    r: Seq<TilePlacement>,
    windows: Seq<WindowRef>,
    cells: Seq<Option<Geometry>>,
    gap: int,
    bw: int,
    from: Seq<int>,
) -> bool {
    &&& from.len() == r.len()
    &&& forall|k: int|
        0 <= k < r.len() ==> places(#[trigger] r[k], windows, cells, from[k], gap, bw)
    &&& forall|j: int, k: int| 0 <= j < k < from.len() ==> #[trigger] from[j] < #[trigger] from[k]
    &&& forall|i: int|
        0 <= i < windows.len() && (#[trigger] windows[i]).root is Some && cells[i] is Some
            ==> from.contains(i)
}

proof fn lemma_placed_upto(
    windows: Seq<WindowRef>,
    cells: Seq<Option<Geometry>>,
    n: int,
    gap: int,
    bw: int,
) -> (from: Seq<int>)
    requires
        gap >= 0,
        bw >= 0,
        windows.len() == cells.len(),
        0 <= n <= windows.len(),
        forall|i: int|
            0 <= i < cells.len() ==> ((#[trigger] cells[i]) is Some ==> tile_in_range(
                cells[i]->0,
                gap,
                bw,
            )),
    ensures
        ({
            let r = placements_upto(windows, cells, n, gap, bw);
            &&& from.len() == r.len()
            &&& forall|k: int|
                0 <= k < r.len() ==> places(#[trigger] r[k], windows, cells, from[k], gap, bw)
                    && from[k] < n
            &&& forall|j: int, k: int|
                0 <= j < k < from.len() ==> #[trigger] from[j] < #[trigger] from[k]
            &&& forall|i: int|
                0 <= i < n && (#[trigger] windows[i]).root is Some && cells[i] is Some
                    ==> from.contains(i)
        }),
    decreases n,
{
    if n == 0 {
        Seq::empty()
    } else {
        let before = lemma_placed_upto(windows, cells, n - 1, gap, bw);
        let r = placements_upto(windows, cells, n, gap, bw);
        if windows[n - 1].root is Some && cells[n - 1] is Some {
            let from = before.push(n - 1);
            a_tile_sits_in_its_cell(cells[n - 1]->0, gap, bw);
            let earlier = placements_upto(windows, cells, n - 1, gap, bw);
            assert forall|k: int| 0 <= k < r.len() implies places(
                #[trigger] r[k],
                windows,
                cells,
                from[k],
                gap,
                bw,
            ) && from[k] < n by {
                if k < earlier.len() {
                    assert(r[k] == earlier[k]);
                }
            }
            assert forall|j: int, k: int| 0 <= j < k < from.len() implies #[trigger] from[j]
                < #[trigger] from[k] by {
                assert(earlier[j] == r[j]);
            }
            assert forall|i: int|
                0 <= i < n && (#[trigger] windows[i]).root is Some && cells[i] is Some implies from.contains(
            i) by {
                if i < n - 1 {
                    let k = before.index_of(i);
                    assert(before.contains(i));
                    assert(from[k] == i);
                } else {
                    assert(from[before.len() as int] == i);
                }
            }
            from
        } else {
            before
        }
    }
}

/// Every tiled window that has a cell is put into its own cell, and nothing else is
/// placed.
pub proof fn every_tile_is_placed_in_its_cell(
    windows: Seq<WindowRef>,
    cells: Seq<Option<Geometry>>,
    gap: int,
    bw: int,
)
    requires
        gap >= 0,
        bw >= 0,
        windows.len() == cells.len(),
        forall|i: int|
            0 <= i < cells.len() ==> ((#[trigger] cells[i]) is Some ==> tile_in_range(
                cells[i]->0,
                gap,
                bw,
            )),
    ensures
        all_placed(
            placements_upto(windows, cells, windows.len() as int, gap, bw),
            windows,
            cells,
            gap,
            bw,
        ),
{
    let from = lemma_placed_upto(windows, cells, windows.len() as int, gap, bw);
    assert(placed_from(
        placements_upto(windows, cells, windows.len() as int, gap, bw),
        windows,
        cells,
        gap,
        bw,
        from,
    ));
}

/// A floating dialog is as large as it asks to be, as far as that fits: its cap
/// where that is smaller than the area, else what its surfaces take up, else its
/// geometry; never less than its least size, as long as the area holds that.
pub proof fn a_dialog_has_the_size_it_asks_for(hints: SizeHints, usable: Size)
    requires
        usable.w >= 1,
        usable.h >= 1,
    ensures
        hints.min_size.w <= 0 && 0 < hints.max_size.w < usable.w ==> dialog_size(hints, usable).w
            == hints.max_size.w,
        hints.min_size.h <= 0 && 0 < hints.max_size.h < usable.h ==> dialog_size(hints, usable).h
            == hints.max_size.h,
        hints.min_size.w <= 0 && hints.max_size.w <= 0 && 0 < hints.bbox_size.w < usable.w
            ==> dialog_size(hints, usable).w == hints.bbox_size.w,
        hints.min_size.h <= 0 && hints.max_size.h <= 0 && 0 < hints.bbox_size.h < usable.h
            ==> dialog_size(hints, usable).h == hints.bbox_size.h,
        hints.min_size.w <= 0 && hints.max_size.w >= usable.w && 0 < hints.bbox_size.w < usable.w
            ==> dialog_size(hints, usable).w == hints.bbox_size.w,
        hints.min_size.h <= 0 && hints.max_size.h >= usable.h && 0 < hints.bbox_size.h < usable.h
            ==> dialog_size(hints, usable).h == hints.bbox_size.h,
        hints.min_size.w <= 0 && hints.max_size.w <= 0 && (hints.bbox_size.w <= 0
            || hints.bbox_size.w >= usable.w) && 0 < hints.geo_size.w < usable.w ==> dialog_size(
            hints,
            usable,
        ).w == hints.geo_size.w,
        hints.min_size.h <= 0 && hints.max_size.h <= 0 && (hints.bbox_size.h <= 0
            || hints.bbox_size.h >= usable.h) && 0 < hints.geo_size.h < usable.h ==> dialog_size(
            hints,
            usable,
        ).h == hints.geo_size.h,
        0 < hints.min_size.w <= usable.w ==> dialog_size(hints, usable).w >= hints.min_size.w,
        0 < hints.min_size.h <= usable.h ==> dialog_size(hints, usable).h >= hints.min_size.h,
        hints.min_size.w > usable.w ==> dialog_size(hints, usable).w == usable.w,
        hints.min_size.h > usable.h ==> dialog_size(hints, usable).h == usable.h,
        hints.min_size.w <= hints.max_size.w && 0 < hints.max_size.w < usable.w ==> dialog_size(
            hints,
            usable,
        ).w == hints.max_size.w,
        hints.min_size.h <= hints.max_size.h && 0 < hints.max_size.h < usable.h ==> dialog_size(
            hints,
            usable,
        ).h == hints.max_size.h,
{
}

/// A dialog that says nothing of its size gets a third of a large area each way.
pub proof fn a_silent_dialog_gets_a_third(hints: SizeHints, usable: Size)
    requires
        hints.min_size.w <= 0,
        hints.min_size.h <= 0,
        hints.max_size.w <= 0,
        hints.max_size.h <= 0,
        hints.bbox_size.w <= 0,
        hints.bbox_size.h <= 0,
        hints.geo_size.w <= 0,
        hints.geo_size.h <= 0,
    ensures
        usable.w >= 960 ==> 3 * dialog_size(hints, usable).w <= usable.w < 3 * dialog_size(
            hints,
            usable,
        ).w + 3,
        usable.h >= 600 ==> 3 * dialog_size(hints, usable).h <= usable.h < 3 * dialog_size(
            hints,
            usable,
        ).h + 3,
        320 <= usable.w <= 960 ==> dialog_size(hints, usable).w == 320,
        200 <= usable.h <= 600 ==> dialog_size(hints, usable).h == 200,
        1 <= usable.w <= 320 ==> dialog_size(hints, usable).w == usable.w,
        1 <= usable.h <= 200 ==> dialog_size(hints, usable).h == usable.h,
{
}

/// A window that is made to float takes half the output each way, with the same room
/// on both sides, to a pixel.
pub proof fn a_floated_window_is_in_the_middle(output: Rect)
    requires
        half_in_range(output),
    ensures
        ({
            let at = half_output(output).position;
            let size = half_output(output).size;
            &&& 2 * size.w <= output.size.w <= 2 * size.w + 1
            &&& 2 * size.h <= output.size.h <= 2 * size.h + 1
            &&& 0 <= (output.loc.x + output.size.w) - (at.x + size.w) - (at.x - output.loc.x) <= 1
            &&& 0 <= (output.loc.y + output.size.h) - (at.y + size.h) - (at.y - output.loc.y) <= 1
            &&& at.x >= output.loc.x
            &&& at.y >= output.loc.y
        }),
{
}

/// The area that floating windows are kept in is the part of the output that shell
/// surfaces leave, at its place on the desktop.
pub proof fn the_usable_area_is_at_its_place(output: Rect, non_exclusive: Rect)
    requires
        usable_in_range(output, non_exclusive),
    ensures
        usable_of(output, non_exclusive).loc.x - output.loc.x == non_exclusive.loc.x,
        usable_of(output, non_exclusive).loc.y - output.loc.y == non_exclusive.loc.y,
        usable_of(output, non_exclusive).size.w == non_exclusive.size.w,
        usable_of(output, non_exclusive).size.h == non_exclusive.size.h,
{
}

} // verus!
