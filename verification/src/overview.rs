//! The window overview: a grid of live thumbnails of every window on every
//! workspace, which appears while the logo key is held.
//!
//! Holding the key for [`HOLD_DELAY`] without pressing anything else brings the
//! grid up. Tab, the arrow keys or the pointer move the selection; letting go
//! activates the selected window. Any other key, or a button, cancels a grid
//! that is not up yet, so bindings and drags never see it flash.
use crate::geometry::{div_trunc, fits_i32, max_i32, max_int, min_int, Point, Rect, Size};
use crate::types::WindowRef;
use vstd::prelude::*;

verus! {

/// How long the key must be held, in nanoseconds.
pub const HOLD_DELAY: u64 = 180_000_000;

/// Empty space between the grid and the edges of the output.
pub const MARGIN: i32 = 48;

/// Space between grid cells.
pub const GAP: i32 = 16;

/// Space between a cell's edge and its thumbnail.
pub const CELL_PADDING: i32 = 6;

/// Which way a navigation key moves the selection.
#[derive(Debug, Clone, Copy, PartialEq, Eq, Structural)]
pub enum OverviewNav {
    Next,
    Prev,
    Left,
    Right,
    Up,
    Down,
}

/// The extent of one of `n` cells that share `room`, `gap` apart; at least one
/// pixel.
pub open spec fn cell_extent(room: int, n: int, gap: int) -> int {
    max_int(div_trunc(room - gap * (n - 1), n), 1)
}

/// The least number from `c` on whose square, times `h`, is at least `count`
/// times `w`; no more than `count`.
pub open spec fn columns_from(c: int, count: int, w: int, h: int) -> int
    decreases count - c,
{
    if c >= count || c * c * h >= count * w {
        c
    } else {
        columns_from(c + 1, count, w, h)
    }
}

/// Columns of a grid of `count` cells over an area of the given size: the square
/// root of `count` times the area's aspect ratio, rounded up, so that the cells
/// keep the proportions of the area. An area without extent counts as square.
pub open spec fn columns(count: int, area: Size) -> int {
    if count <= 0 {
        0
    } else if area.w > 0 && area.h > 0 {
        columns_from(1, count, area.w as int, area.h as int)
    } else {
        columns_from(1, count, 1, 1)
    }
}

proof fn lemma_columns_from(c: int, count: int, w: int, h: int)
    requires
        1 <= c <= count,
        w > 0,
        h > 0,
    ensures
        ({
            let r = columns_from(c, count, w, h);
            &&& c <= r <= count
            &&& r == count || r * r * h >= count * w
            &&& forall|k: int| c <= k < r ==> #[trigger] (k * k) * h < count * w
        }),
    decreases count - c,
{
    if !(c >= count || c * c * h >= count * w) {
        lemma_columns_from(c + 1, count, w, h);
        let r = columns_from(c, count, w, h);
        assert forall|k: int| c <= k < r implies #[trigger] (k * k) * h < count * w by {
            if k == c {
                assert((c * c) * h < count * w);
            }
        }
    }
}

/// See [`columns`].
pub fn grid_columns(count: usize, area: Size) -> (r: usize)
    ensures
        r == columns(count as int, area),
        count > 0 ==> 1 <= r <= count,
{
    if count == 0 {
        return 0;
    }
    let mut w: u128 = 1;
    let mut h: u128 = 1;
    if area.w > 0 && area.h > 0 {
        w = area.w as u128;
        h = area.h as u128;
    }
    let ghost (gw, gh) = (w as int, h as int);
    proof {
        assert(0 <= count * gw <= 0xFFFF_FFFF_FFFF_FFFF * 0x7FFF_FFFF) by (nonlinear_arith)
            requires
                0 <= count <= 0xFFFF_FFFF_FFFF_FFFF,
                1 <= gw <= 0x7FFF_FFFF,
        ;
    }
    let total: u128 = (count as u128) * w;
    let mut cols: usize = 1;
    proof {
        assert(1 * 1 * gh == gh);
    }
    while cols < count && (cols as u128) * (cols as u128) * h < total
        invariant_except_break
            1 <= cols <= count,
            w == gw,
            h == gh,
            1 <= gw <= 0x7FFF_FFFF,
            1 <= gh <= 0x7FFF_FFFF,
            total == count * gw,
            total <= 0xFFFF_FFFF_FFFF_FFFF * 0x7FFF_FFFF,
            0 <= cols * cols <= 0x1_0000_0000_0000_0000_0000_0000,
            0 <= (cols * cols) * gh <= 0x1_0000_0000_0000_0000_0000_0000 * 0x7FFF_FFFF,
            columns_from(1, count as int, gw, gh) == columns_from(
                cols as int,
                count as int,
                gw,
                gh,
            ),
        ensures
            1 <= cols <= count,
            cols == columns_from(1, count as int, gw, gh),
        decreases count - cols,
    {
        let ghost c = cols as int;
        proof {
            assert(c * c < total) by (nonlinear_arith)
                requires
                    (c * c) * gh < total,
                    gh >= 1,
            ;
            assert(c < 0x1_0000_0000_0000) by (nonlinear_arith)
                requires
                    c * c < 0xFFFF_FFFF_FFFF_FFFF * 0x7FFF_FFFF,
                    c >= 0,
            ;
            assert(0 <= (c + 1) * (c + 1) <= 0x1_0000_0000_0000_0000_0000_0000) by (nonlinear_arith)
                requires
                    0 <= c < 0x1_0000_0000_0000,
            ;
            let square = (c + 1) * (c + 1);
            assert(0 <= square * gh <= 0x1_0000_0000_0000_0000_0000_0000 * 0x7FFF_FFFF)
                by (nonlinear_arith)
                requires
                    0 <= square <= 0x1_0000_0000_0000_0000_0000_0000,
                    1 <= gh <= 0x7FFF_FFFF,
            ;
        }
        cols = cols + 1;
    }
    cols
}

/// The cells keep the proportions of the area: one column fewer would leave them
/// wider than it. No grid has more columns than cells.
pub proof fn columns_keep_the_proportions(count: int, area: Size)
    requires
        count >= 1,
        area.w > 0,
        area.h > 0,
    ensures
        ({
            let c = columns(count, area);
            &&& 1 <= c <= count
            &&& c == count || c * c * area.h >= count * area.w
            &&& c > 1 ==> (c - 1) * (c - 1) * area.h < count * area.w
        }),
{
    lemma_columns_from(1, count, area.w as int, area.h as int);
    let c = columns(count, area);
    if c > 1 {
        let k = c - 1;
        assert((k * k) * area.h < count * area.w);
    }
}

/// Rows of a grid of `count` cells, `cols` in a row.
pub open spec fn row_count(count: int, cols: int) -> int {
    (count + cols - 1) / cols
}

/// How many cells row `row` holds: all rows are full but the last.
pub open spec fn cells_in_row(count: int, cols: int, row: int) -> int {
    min_int(count - row * cols, cols)
}

/// The left edge of the cell in row `row` and column `col`: a row that is not
/// full is centred.
pub open spec fn cell_x(count: int, cols: int, area: Rect, gap: int, row: int, col: int) -> int {
    let w = cell_extent(area.size.w as int, cols, gap);
    let n = cells_in_row(count, cols, row);
    let row_width = n * w + (n - 1) * gap;
    area.loc.x + div_trunc(area.size.w - row_width, 2) + col * (w + gap)
}

/// The top edge of the cells in row `row`.
pub open spec fn cell_y(count: int, cols: int, area: Rect, gap: int, row: int) -> int {
    area.loc.y + row * (cell_extent(area.size.h as int, row_count(count, cols), gap) + gap)
}

/// Cell number `index` of the grid.
pub open spec fn cell_at(count: int, cols: int, area: Rect, gap: int, index: int) -> Rect {
    let row = index / cols;
    let col = index % cols;
    Rect {
        loc: Point {
            x: cell_x(count, cols, area, gap, row, col) as i32,
            y: cell_y(count, cols, area, gap, row) as i32,
        },
        size: Size {
            w: cell_extent(area.size.w as int, cols, gap) as i32,
            h: cell_extent(area.size.h as int, row_count(count, cols), gap) as i32,
        },
    }
}

/// Whether every cell of the grid lies within the coordinates.
pub open spec fn grid_in_range(count: int, cols: int, area: Rect, gap: int) -> bool {
    &&& count > 0 ==> {
        &&& cell_extent(area.size.w as int, cols, gap) <= i32::MAX
        &&& cell_extent(area.size.h as int, row_count(count, cols), gap) <= i32::MAX
    }
    &&& forall|index: int|
        0 <= index < count ==> {
            &&& fits_i32(#[trigger] cell_x(count, cols, area, gap, index / cols, index % cols))
            &&& fits_i32(cell_y(count, cols, area, gap, index / cols))
        }
}

proof fn lemma_product_bound(a: int, b: int, m: int, n: int)
    requires
        0 <= a <= m,
        -n <= b <= n,
    ensures
        -(m * n) <= a * b <= m * n,
{
    assert(-(m * n) <= a * b <= m * n) by (nonlinear_arith)
        requires
            0 <= a <= m,
            -n <= b <= n,
    ;
}

fn trunc_div(n: i128, d: i128) -> (r: i128)
    requires
        d > 0,
        n > i128::MIN,
    ensures
        r == div_trunc(n as int, d as int),
{
    if n >= 0 {
        n / d
    } else {
        -((-n) / d)
    }
}

fn extent_of(room: i32, n: usize, gap: i32) -> (r: i32)
    requires
        1 <= n <= i32::MAX,
        cell_extent(room as int, n as int, gap as int) <= i32::MAX,
    ensures
        r == cell_extent(room as int, n as int, gap as int),
        1 <= r,
{
    proof {
        lemma_product_bound(n - 1, gap as int, i32::MAX as int, i32::MAX + 1);
        assert((n - 1) * gap == gap * (n - 1)) by (nonlinear_arith);
    }
    let space: i128 = room as i128 - (gap as i128) * (n as i128 - 1);
    let share: i128 = trunc_div(space, n as i128);
    if share > 1 {
        share as i32
    } else {
        1
    }
}

/// Lay `count` cells out over `area`, `gap` apart, with a last row that is not
/// full centred.
pub fn cell_rects(count: usize, area: Rect, gap: i32) -> (r: Vec<Rect>)
    requires
        count <= i32::MAX,
        area.size.w > 0 && area.size.h > 0 ==> grid_in_range(
            count as int,
            columns(count as int, area.size),
            area,
            gap as int,
        ),
    ensures
        count == 0 || area.size.w <= 0 || area.size.h <= 0 ==> r.len() == 0,
        count > 0 && area.size.w > 0 && area.size.h > 0 ==> r@ == Seq::new(
            count as nat,
            |i: int|
                cell_at(count as int, columns(count as int, area.size), area, gap as int, i),
        ),
{
    let cols: usize = grid_columns(count, area.size);
    cells_in_columns(count, cols, area, gap)
}

/// The same with `cols` cells in a row.
fn cells_in_columns(count: usize, cols: usize, area: Rect, gap: i32) -> (r: Vec<Rect>)
    requires
        count > 0 ==> 1 <= cols <= count,
        count <= i32::MAX,
        area.size.w > 0 && area.size.h > 0 ==> grid_in_range(
            count as int,
            cols as int,
            area,
            gap as int,
        ),
    ensures
        count == 0 || area.size.w <= 0 || area.size.h <= 0 ==> r.len() == 0,
        count > 0 && area.size.w > 0 && area.size.h > 0 ==> r@ == Seq::new(
            count as nat,
            |i: int| cell_at(count as int, cols as int, area, gap as int, i),
        ),
{
    let mut r: Vec<Rect> = Vec::new();
    if count == 0 || area.size.w <= 0 || area.size.h <= 0 {
        return r;
    }
    let rows: usize = (count - 1) / cols + 1;
    proof {
        assert(rows == row_count(count as int, cols as int) && 1 <= rows <= count)
            by (nonlinear_arith)
            requires
                rows == (count - 1) as int / cols as int + 1,
                row_count(count as int, cols as int) == (count + cols - 1) as int / cols as int,
                1 <= cols <= count,
        ;
    }
    let cell_w: i32 = extent_of(area.size.w, cols, gap);
    let cell_h: i32 = extent_of(area.size.h, rows, gap);
    let mut index: usize = 0;
    while index < count
        invariant
            index <= count,
            1 <= cols <= count <= i32::MAX,
            1 <= rows <= count,
            rows == row_count(count as int, cols as int),
            cell_w == cell_extent(area.size.w as int, cols as int, gap as int),
            cell_h == cell_extent(area.size.h as int, rows as int, gap as int),
            1 <= cell_w,
            1 <= cell_h,
            grid_in_range(count as int, cols as int, area, gap as int),
            r@ =~= Seq::new(
                index as nat,
                |i: int| cell_at(count as int, cols as int, area, gap as int, i),
            ),
        decreases count - index,
    {
        let row: usize = index / cols;
        let col: usize = index % cols;
        proof {
            assert(row as int * cols as int <= index && row <= index && col < cols)
                by (nonlinear_arith)
                requires
                    row == index as int / cols as int,
                    col == index as int % cols as int,
                    cols >= 1,
                    index >= 0,
            ;
            let x = cell_x(
                count as int,
                cols as int,
                area,
                gap as int,
                index as int / cols as int,
                index as int % cols as int,
            );
            assert(fits_i32(x));
        }
        let left: usize = count - row * cols;
        let in_row: usize = if left < cols {
            left
        } else {
            cols
        };
        let n: i128 = in_row as i128;
        proof {
            lemma_product_bound(in_row as int, cell_w as int, i32::MAX as int, i32::MAX as int);
            lemma_product_bound(in_row - 1, gap as int, i32::MAX as int, i32::MAX + 1);
            lemma_product_bound(
                col as int,
                cell_w + gap,
                i32::MAX as int,
                i32::MAX + i32::MAX + 1,
            );
            lemma_product_bound(
                row as int,
                cell_h + gap,
                i32::MAX as int,
                i32::MAX + i32::MAX + 1,
            );
        }
        let row_width: i128 = n * (cell_w as i128) + (n - 1) * (gap as i128);
        let x: i128 = area.loc.x as i128 + trunc_div(area.size.w as i128 - row_width, 2) + (
        col as i128) * (cell_w as i128 + gap as i128);
        let y: i128 = area.loc.y as i128 + (row as i128) * (cell_h as i128 + gap as i128);
        r.push(
            Rect { loc: Point { x: x as i32, y: y as i32 }, size: Size { w: cell_w, h: cell_h } },
        );
        index = index + 1;
    }
    r
}

/// Where a navigation key moves the selection in a grid of `count` cells,
/// `cols` in a row. The cycle wraps round; the arrows stay put at the edges.
pub open spec fn nav_of(selected: int, count: int, cols: int, nav: OverviewNav) -> int {
    match nav {
        OverviewNav::Next => (selected + 1) % count,
        OverviewNav::Prev => (selected + count - 1) % count,
        OverviewNav::Left => if selected % cols == 0 {
            selected
        } else {
            selected - 1
        },
        OverviewNav::Right => if (selected + 1) % cols == 0 || selected + 1 >= count {
            selected
        } else {
            selected + 1
        },
        OverviewNav::Up => if selected >= cols {
            selected - cols
        } else {
            selected
        },
        OverviewNav::Down => if selected + cols < count {
            selected + cols
        } else {
            selected
        },
    }
}

/// The cell that `nav` moves to. A selection beyond the grid counts as its last
/// cell, and a grid without columns as one of a single column.
pub fn nav_target(selected: usize, count: usize, cols: usize, nav: OverviewNav) -> (r: usize)
    requires
        count > 0 && nav == OverviewNav::Prev ==> min_int(selected as int, count - 1) + count
            <= usize::MAX,
        count > 0 && nav == OverviewNav::Down ==> min_int(selected as int, count - 1) + max_int(
            cols as int,
            1,
        ) <= usize::MAX,
    ensures
        count == 0 ==> r == 0,
        count > 0 ==> r < count && r == nav_of(
            min_int(selected as int, count - 1),
            count as int,
            max_int(cols as int, 1),
            nav,
        ),
{
    if count == 0 {
        return 0;
    }
    let cols: usize = if cols == 0 {
        1
    } else {
        cols
    };
    let selected: usize = if selected < count - 1 {
        selected
    } else {
        count - 1
    };
    match nav {
        OverviewNav::Next => (selected + 1) % count,
        OverviewNav::Prev => (selected + count - 1) % count,
        OverviewNav::Left => {
            if selected % cols == 0 {
                selected
            } else {
                proof {
                    assert(selected > 0) by (nonlinear_arith)
                        requires
                            selected as int % cols as int != 0,
                            cols >= 1,
                            selected >= 0,
                    ;
                }
                selected - 1
            }
        },
        OverviewNav::Right => {
            let next: usize = selected + 1;
            if next % cols == 0 || next >= count {
                selected
            } else {
                next
            }
        },
        OverviewNav::Up => if selected >= cols {
            selected - cols
        } else {
            selected
        },
        OverviewNav::Down => {
            let next: usize = selected + cols;
            if next < count {
                next
            } else {
                selected
            }
        },
    }
}

pub const KEY_TAB: u32 = 0xff09;

pub const KEY_RETURN: u32 = 0xff0d;

pub const KEY_ESCAPE: u32 = 0xff1b;

pub const KEY_LEFT: u32 = 0xff51;

pub const KEY_UP: u32 = 0xff52;

pub const KEY_RIGHT: u32 = 0xff53;

pub const KEY_DOWN: u32 = 0xff54;

pub const KEY_KP_ENTER: u32 = 0xff8d;

pub const KEY_SUPER_L: u32 = 0xffeb;

pub const KEY_SUPER_R: u32 = 0xffec;

pub const KEY_ISO_LEFT_TAB: u32 = 0xfe20;

pub const KEY_SPACE: u32 = 0x20;

/// The way that a key moves the selection.
pub open spec fn nav_key(keysym: u32, shift: bool) -> Option<OverviewNav> {
    if keysym == KEY_TAB {
        if shift { Some(OverviewNav::Prev) } else { Some(OverviewNav::Next) }
    } else if keysym == KEY_ISO_LEFT_TAB {
        Some(OverviewNav::Prev)
    } else if keysym == KEY_LEFT {
        Some(OverviewNav::Left)
    } else if keysym == KEY_RIGHT {
        Some(OverviewNav::Right)
    } else if keysym == KEY_UP {
        Some(OverviewNav::Up)
    } else if keysym == KEY_DOWN {
        Some(OverviewNav::Down)
    } else {
        None
    }
}

pub fn nav_for_keysym(keysym: u32, shift: bool) -> (r: Option<OverviewNav>)
    ensures
        r == nav_key(keysym, shift),
{
    if keysym == KEY_TAB {
        if shift {
            Some(OverviewNav::Prev)
        } else {
            Some(OverviewNav::Next)
        }
    } else if keysym == KEY_ISO_LEFT_TAB {
        Some(OverviewNav::Prev)
    } else if keysym == KEY_LEFT {
        Some(OverviewNav::Left)
    } else if keysym == KEY_RIGHT {
        Some(OverviewNav::Right)
    } else if keysym == KEY_UP {
        Some(OverviewNav::Up)
    } else if keysym == KEY_DOWN {
        Some(OverviewNav::Down)
    } else {
        None
    }
}

/// Shift, Control, Caps Lock, Shift Lock, Meta and Alt (left and right), Hyper
/// (left and right), Num Lock and the third and fifth level shifts.
pub open spec fn modifier_key(keysym: u32) -> bool {
    ||| 0xffe1 <= keysym <= 0xffea
    ||| 0xffed <= keysym <= 0xffee
    ||| keysym == 0xff7f
    ||| keysym == 0xfe03
    ||| keysym == 0xfe11
}

/// Modifier keys that are never a selection or a dismissal on their own.
pub fn is_modifier_keysym(keysym: u32) -> (r: bool)
    ensures
        r == modifier_key(keysym),
{
    (0xffe1 <= keysym && keysym <= 0xffea) || (0xffed <= keysym && keysym <= 0xffee) || keysym
        == 0xff7f || keysym == 0xfe03 || keysym == 0xfe11
}

/// One thumbnail: the window and the workspace it lives on.
#[derive(Debug, Clone, Copy, PartialEq, Eq, Structural)]
pub struct OverviewItem {
    pub window: u64,
    pub root: u64,
    pub workspace: usize,
}

/// The open grid.
#[derive(Debug)]
pub struct Overview {
    pub items: Vec<OverviewItem>,
    /// Cell rectangles in coordinates of the output, one for each item.
    pub cells: Vec<Rect>,
    pub cols: usize,
    pub selected: usize,
    /// The output the grid is drawn on.
    pub output: u64,
}

impl Overview {
    /// There is something to select and it is selected; each item has its
    /// cell.
    pub open spec fn wf(&self) -> bool {
        &&& 0 < self.items@.len() <= i32::MAX
        &&& self.cells@.len() == self.items@.len()
        &&& self.selected < self.items@.len()
        &&& 1 <= self.cols <= self.items@.len()
    }
}

/// The windows of one workspace, oldest first; the flag says whether the
/// window is alive.
#[derive(Debug, Clone, Copy, PartialEq, Eq, Structural)]
pub struct OverviewWindow {
    pub window: WindowRef,
    pub alive: bool,
}

/// Whether a window with this root is already among `items`.
pub open spec fn has_root(items: Seq<OverviewItem>, root: u64) -> bool {
    exists|i: int| 0 <= i < items.len() && (#[trigger] items[i]).root == root
}

/// `items` and after them those of `windows` that are alive, have a surface
/// and are not among them yet.
pub open spec fn with_windows(
    items: Seq<OverviewItem>,
    windows: Seq<OverviewWindow>,
    workspace: usize,
) -> Seq<OverviewItem>
    decreases windows.len(),
{
    if windows.len() == 0 {
        items
    } else {
        let before = with_windows(items, windows.drop_last(), workspace);
        let w = windows.last();
        if w.alive && w.window.root is Some && !has_root(before, w.window.root->0) {
            before.push(
                OverviewItem { window: w.window.id, root: w.window.root->0, workspace },
            )
        } else {
            before
        }
    }
}

/// The items of the grid: the windows of every workspace, in order, each once.
pub open spec fn overview_items(workspaces: Seq<Vec<OverviewWindow>>) -> Seq<OverviewItem>
    decreases workspaces.len(),
{
    if workspaces.len() == 0 {
        Seq::empty()
    } else {
        with_windows(
            overview_items(workspaces.drop_last()),
            workspaces.last()@,
            (workspaces.len() - 1) as usize,
        )
    }
}

fn contains_root(items: &Vec<OverviewItem>, root: u64) -> (r: bool)
    ensures
        r == has_root(items@, root),
{
    let mut i: usize = 0;
    while i < items.len()
        invariant
            i <= items.len(),
            forall|k: int| 0 <= k < i ==> (#[trigger] items@[k]).root != root,
        decreases items.len() - i,
    {
        if items[i].root == root {
            return true;
        }
        i = i + 1;
    }
    false
}

/// The windows of every workspace, in workspace order. A window that is shown
/// on several workspaces is listed once.
pub fn collect_items(workspaces: &Vec<Vec<OverviewWindow>>) -> (r: Vec<OverviewItem>)
    ensures
        r@ == overview_items(workspaces@),
{
    let mut items: Vec<OverviewItem> = Vec::new();
    let mut w: usize = 0;
    proof {
        assert(workspaces@.subrange(0, 0) =~= Seq::<Vec<OverviewWindow>>::empty());
    }
    while w < workspaces.len()
        invariant
            w <= workspaces.len(),
            items@ == overview_items(workspaces@.subrange(0, w as int)),
        decreases workspaces.len() - w,
    {
        let windows = &workspaces[w];
        let ghost before = items@;
        let mut i: usize = 0;
        proof {
            assert(windows@.subrange(0, 0) =~= Seq::<OverviewWindow>::empty());
        }
        while i < windows.len()
            invariant
                i <= windows.len(),
                w < workspaces.len(),
                items@ == with_windows(before, windows@.subrange(0, i as int), w),
            decreases windows.len() - i,
        {
            proof {
                let next = windows@.subrange(0, i + 1);
                assert(next.drop_last() =~= windows@.subrange(0, i as int));
                assert(next.last() == windows@[i as int]);
            }
            let candidate = windows[i];
            if candidate.alive {
                if let Some(root) = candidate.window.root {
                    if !contains_root(&items, root) {
                        items.push(
                            OverviewItem { window: candidate.window.id, root, workspace: w },
                        );
                    }
                }
            }
            i = i + 1;
        }
        proof {
            assert(windows@.subrange(0, i as int) =~= windows@);
            let next = workspaces@.subrange(0, w + 1);
            assert(next.drop_last() =~= workspaces@.subrange(0, w as int));
            assert(next.last() == workspaces@[w as int]);
        }
        w = w + 1;
    }
    proof {
        assert(workspaces@.subrange(0, w as int) =~= workspaces@);
    }
    items
}

/// The area of the grid on an output of the given size.
pub open spec fn grid_area(size: Size) -> Rect {
    Rect {
        loc: Point { x: MARGIN, y: MARGIN },
        size: Size {
            w: max_int(size.w - 2 * MARGIN, 1) as i32,
            h: max_int(size.h - 2 * MARGIN, 1) as i32,
        },
    }
}

pub fn overview_area(size: Size) -> (r: Rect)
    requires
        size.w >= 0,
        size.h >= 0,
    ensures
        r == grid_area(size),
        r.size.w > 0,
        r.size.h > 0,
{
    Rect {
        loc: Point { x: MARGIN, y: MARGIN },
        size: Size { w: max_i32(size.w - 2 * MARGIN, 1), h: max_i32(size.h - 2 * MARGIN, 1) },
    }
}

/// The first item whose root is `focused`.
pub open spec fn item_with_root(items: Seq<OverviewItem>, focused: u64) -> int
    decreases items.len(),
{
    if items.len() == 0 {
        0
    } else if items[0].root == focused {
        0
    } else {
        1 + item_with_root(items.drop_first(), focused)
    }
}

/// The item that is selected at first: the focused window's, else the first.
pub open spec fn initial_selection(items: Seq<OverviewItem>, focused: Option<u64>) -> int {
    if focused is Some && has_root(items, focused->0) {
        item_with_root(items, focused->0)
    } else {
        0
    }
}

proof fn lemma_item_with_root(items: Seq<OverviewItem>, focused: u64, i: int)
    requires
        0 <= i < items.len(),
        items[i].root == focused,
        forall|k: int| 0 <= k < i ==> (#[trigger] items[k]).root != focused,
    ensures
        item_with_root(items, focused) == i,
    decreases i,
{
    if i > 0 {
        assert(items[0].root != focused);
        let rest = items.drop_first();
        assert forall|k: int| 0 <= k < i - 1 implies (#[trigger] rest[k]).root != focused by {
            assert(items[k + 1].root != focused);
        }
        lemma_item_with_root(rest, focused, i - 1);
    }
}

fn select_focused(items: &Vec<OverviewItem>, focused: Option<u64>) -> (r: usize)
    requires
        items.len() > 0,
    ensures
        r == initial_selection(items@, focused),
        r < items.len(),
{
    if let Some(root) = focused {
        let mut i: usize = 0;
        while i < items.len()
            invariant
                i <= items.len(),
                forall|k: int| 0 <= k < i ==> (#[trigger] items@[k]).root != root,
                focused == Some(root),
            decreases items.len() - i,
        {
            if items[i].root == root {
                proof {
                    lemma_item_with_root(items@, root, i as int);
                    assert(has_root(items@, root));
                }
                return i;
            }
            i = i + 1;
        }
    }
    0
}

/// What the grid looks like on an output of the given size.
pub fn build_overview(
    items: Vec<OverviewItem>,
    size: Size,
    output: u64,
    focused: Option<u64>,
) -> (r: Option<Overview>)
    requires
        size.w >= 0,
        size.h >= 0,
        items.len() <= i32::MAX,
        grid_in_range(
            items@.len() as int,
            columns(items@.len() as int, grid_area(size).size),
            grid_area(size),
            GAP as int,
        ),
    ensures
        items.len() == 0 <==> r is None,
        r matches Some(overview) ==> {
            let count = items@.len() as int;
            let cols = columns(count, grid_area(size).size);
            &&& overview.wf()
            &&& overview.items == items
            &&& overview.cells@ == Seq::new(
                items@.len(),
                |i: int| cell_at(count, cols, grid_area(size), GAP as int, i),
            )
            &&& overview.cols == cols
            &&& overview.selected == initial_selection(items@, focused)
            &&& overview.output == output
        },
{
    if items.len() == 0 {
        return None;
    }
    let area = overview_area(size);
    let cells = cell_rects(items.len(), area, GAP);
    let cols: usize = grid_columns(items.len(), area.size);
    let selected: usize = select_focused(&items, focused);
    Some(Overview { items, cells, cols, selected, output })
}

proof fn lemma_row_width(room: int, n: int, m: int)
    requires
        1 <= m <= n <= 1_000_000,
        1 <= room <= 1_000_000_000,
    ensures
        ({
            let e = cell_extent(room, n, GAP as int);
            &&& 1 <= e
            &&& 0 <= m * e + (m - 1) * GAP <= 1_000_000_000
        }),
{
    let e = cell_extent(room, n, GAP as int);
    let space = room - GAP * (n - 1);
    assert(m * e <= n * e) by (nonlinear_arith)
        requires
            1 <= m <= n,
            e >= 1,
    ;
    assert(m * e >= 1) by (nonlinear_arith)
        requires
            1 <= m,
            e >= 1,
    ;
    if space >= 0 && space / n >= 1 {
        assert(n * (space / n) <= space) by (nonlinear_arith)
            requires
                n >= 1,
        ;
    } else {
        assert(e == 1) by {
            if space < 0 {
                assert((-space) / n >= 0) by (nonlinear_arith)
                    requires
                        space < 0,
                        n >= 1,
                ;
            }
        }
        assert(n * e == n) by (nonlinear_arith)
            requires
                e == 1,
        ;
    }
}

/// A grid of at most a million windows on an output of at most a billion pixels
/// each way lies within the coordinates.
pub proof fn ordinary_grids_are_in_range(count: int, size: Size)
    requires
        0 <= count <= 1_000_000,
        0 <= size.w <= 1_000_000_000,
        0 <= size.h <= 1_000_000_000,
    ensures
        grid_in_range(count, columns(count, grid_area(size).size), grid_area(size), GAP as int),
{
    if count > 0 {
        let area = grid_area(size);
        let gap = GAP as int;
        lemma_columns_from(1, count, area.size.w as int, area.size.h as int);
        let cols = columns(count, area.size);
        let rows = row_count(count, cols);
        assert(1 <= rows <= count) by (nonlinear_arith)
            requires
                rows == (count + cols - 1) / cols,
                1 <= cols <= count,
        ;
        assert forall|index: int| 0 <= index < count implies {
            &&& fits_i32(#[trigger] cell_x(count, cols, area, gap, index / cols, index % cols))
            &&& fits_i32(cell_y(count, cols, area, gap, index / cols))
        } by {
            let row = index / cols;
            let col = index % cols;
            assert(0 <= row < rows && 0 <= col < cols && row * cols <= index) by (nonlinear_arith)
                requires
                    row == index / cols,
                    col == index % cols,
                    rows == (count + cols - 1) / cols,
                    0 <= index < count,
                    cols >= 1,
            ;
            let w = cell_extent(area.size.w as int, cols, gap);
            let h = cell_extent(area.size.h as int, rows, gap);
            let n = cells_in_row(count, cols, row);
            lemma_row_width(area.size.w as int, cols, n);
            lemma_row_width(area.size.w as int, cols, cols);
            lemma_row_width(area.size.h as int, rows, rows);
            assert(0 <= col * (w + gap) <= cols * w + (cols - 1) * gap) by (nonlinear_arith)
                requires
                    0 <= col <= cols - 1,
                    w >= 1,
                    gap >= 0,
            ;
            assert(0 <= row * (h + gap) <= rows * h + (rows - 1) * gap) by (nonlinear_arith)
                requires
                    0 <= row <= rows - 1,
                    h >= 1,
                    gap >= 0,
            ;
        }
    }
}

/// What a key event brings for the overview.
#[derive(Debug, Clone, Copy, PartialEq, Eq, Structural)]
pub struct OverviewKey {
    /// The logo key is down, after this event.
    pub logo: bool,
    pub shift: bool,
    pub keysym: u32,
    pub pressed: bool,
    pub now: u64,
    /// The overview is configured, the session is not locked, and no grab is
    /// active.
    pub allowed: bool,
}

/// What becomes of the key, and of the grid.
#[derive(Debug, Clone, Copy, PartialEq, Eq, Structural)]
pub struct OverviewOutcome {
    /// Neither a binding nor the client may see the key.
    pub consumed: bool,
    /// The selected window is to be focused.
    pub activate: Option<OverviewItem>,
    /// The screen changed.
    pub render: bool,
}

/// The grid, and the wait for it.
#[derive(Debug)]
pub struct OverviewState {
    pub logo_held: bool,
    /// Since when the key is held with nothing else pressed.
    pub hold: Option<u64>,
    pub overview: Option<Overview>,
}

/// What closing the grid does.
pub open spec fn closed_with(overview: Option<Overview>, activate: bool) -> OverviewOutcome {
    OverviewOutcome {
        consumed: false,
        activate: if overview is Some && activate {
            Some(overview->0.items@[overview->0.selected as int])
        } else {
            None
        },
        render: overview is Some,
    }
}

/// Whether a press is one of the keys that take part in the navigation of an
/// open grid.
pub open spec fn is_plain_press(before: bool, key: OverviewKey) -> bool {
    &&& key.pressed
    &&& !(key.logo && !before)
    &&& key.keysym != KEY_SUPER_L
    &&& key.keysym != KEY_SUPER_R
    &&& !modifier_key(key.keysym)
}

/// Whether `after` is `before` with a key event handled, and `r` is what becomes of it.
pub open spec fn key_handled(
    before: OverviewState,
    after: OverviewState,
    key: OverviewKey,
    r: OverviewOutcome,
) -> bool {
    let open = before.overview is Some;
    let released_logo = !key.pressed && before.logo_held && !key.logo;
    let armed = key.pressed && key.logo && !before.logo_held;
    let plain = is_plain_press(before.logo_held, key);
    let nav = nav_key(key.keysym, key.shift);
    let accepts = key.keysym == KEY_RETURN || key.keysym == KEY_KP_ENTER || key.keysym
        == KEY_SPACE;
    // The wait for the grid.
    &&& after.logo_held == key.logo
    &&& after.hold == if released_logo {
        None
    } else if !key.pressed {
        before.hold
    } else if armed {
        if key.allowed { Some(key.now) } else { before.hold }
    } else if key.keysym == KEY_SUPER_L || key.keysym == KEY_SUPER_R {
        before.hold
    } else {
        None
    }
    // The grid itself.
    &&& if released_logo {
        &&& after.overview is None
        &&& r == closed_with(before.overview, true)
    } else if !(plain && open) {
        &&& after.overview == before.overview
        &&& r == (OverviewOutcome { consumed: false, activate: None, render: false })
    } else if nav is Some {
        let grid = before.overview->0;
        let to = nav_of(
            grid.selected as int,
            grid.items@.len() as int,
            grid.cols as int,
            nav->0,
        );
        &&& after.overview == Some(Overview { selected: to as usize, ..grid })
        &&& r == (OverviewOutcome {
            consumed: true,
            activate: None,
            render: grid.selected != to,
        })
    } else {
        &&& after.overview is None
        &&& r == (OverviewOutcome {
            consumed: accepts || key.keysym == KEY_ESCAPE,
            ..closed_with(before.overview, accepts)
        })
    }
}

/// Whether `after` is `before` at `now`, and `open` says that the grid is to be opened.
pub open spec fn waited(
    before: OverviewState,
    after: OverviewState,
    now: u64,
    locked: bool,
    grab_active: bool,
    open: bool,
) -> bool {
    let held = if now >= before.hold->0 { now - before.hold->0 } else { 0 };
    let due = before.hold is Some && before.overview is None && held >= HOLD_DELAY;
    &&& open == (due && !locked && !grab_active)
    &&& after.hold == if due { None } else { before.hold }
}

/// Whether `after` is `before` after the pointer was pressed, and `r` what comes of it.
pub open spec fn press_handled(
    before: OverviewState,
    after: OverviewState,
    r: OverviewOutcome,
) -> bool {
    &&& after.overview is None
    &&& after.logo_held == before.logo_held
    &&& after.hold == before.hold
    &&& r == (OverviewOutcome {
        consumed: before.overview is Some,
        ..closed_with(before.overview, true)
    })
}

impl OverviewState {
    pub open spec fn wf(&self) -> bool {
        self.overview is Some ==> self.overview->0.wf()
    }

    pub fn new() -> (r: Self)
        ensures
            r.wf(),
            !r.logo_held,
            r.hold is None,
            r.overview is None,
    {
        OverviewState { logo_held: false, hold: None, overview: None }
    }

    /// Dismiss the grid; with `activate` the selected window is to be focused.
    pub fn close_overview(&mut self, activate: bool) -> (r: OverviewOutcome)
        requires
            old(self).wf(),
        ensures
            final(self).wf(),
            final(self).overview is None,
            final(self).logo_held == old(self).logo_held,
            final(self).hold == old(self).hold,
            r == closed_with(old(self).overview, activate),
    {
        match self.overview.take() {
            None => OverviewOutcome { consumed: false, activate: None, render: false },
            Some(overview) => {
                let item = if activate {
                    Some(overview.items[overview.selected])
                } else {
                    None
                };
                OverviewOutcome { consumed: false, activate: item, render: true }
            },
        }
    }

    /// Move the selection. True where it changed.
    fn set_overview_selection(&mut self, selected: usize) -> (changed: bool)
        requires
            old(self).wf(),
            old(self).overview is Some ==> selected < old(self).overview->0.items@.len(),
        ensures
            final(self).wf(),
            final(self).logo_held == old(self).logo_held,
            final(self).hold == old(self).hold,
            old(self).overview is None ==> !changed && final(self).overview is None,
            old(self).overview is Some ==> {
                let before = old(self).overview->0;
                &&& changed == (before.selected != selected)
                &&& final(self).overview == Some(Overview { selected, ..before })
            },
    {
        match self.overview.take() {
            None => false,
            Some(overview) => {
                let mut overview = overview;
                let changed = overview.selected != selected;
                overview.selected = selected;
                self.overview = Some(overview);
                changed
            },
        }
    }

    /// Move the selection with a navigation key.
    pub fn overview_nav(&mut self, nav: OverviewNav) -> (render: bool)
        requires
            old(self).wf(),
        ensures
            final(self).wf(),
            final(self).logo_held == old(self).logo_held,
            final(self).hold == old(self).hold,
            old(self).overview is None ==> !render && final(self).overview is None,
            old(self).overview is Some ==> {
                let before = old(self).overview->0;
                let to = nav_of(
                    before.selected as int,
                    before.items@.len() as int,
                    before.cols as int,
                    nav,
                );
                &&& render == (before.selected != to)
                &&& final(self).overview == Some(Overview { selected: to as usize, ..before })
            },
    {
        let target: usize = match &self.overview {
            None => {
                return false;
            },
            Some(overview) => nav_target(
                overview.selected,
                overview.items.len(),
                overview.cols,
                nav,
            ),
        };
        self.set_overview_selection(target)
    }

    /// Feed one key event to the overview, ahead of the bindings.
    ///
    /// A release is never kept from the client, or it would be left with a key
    /// that is stuck. Letting go of the logo key activates the selection. With
    /// the grid up, navigation keys move the selection, Escape dismisses it,
    /// Return and Space activate, and any other key dismisses it and goes its
    /// way.
    pub fn overview_handle_key(&mut self, key: OverviewKey) -> (r: OverviewOutcome)
        requires
            old(self).wf(),
        ensures
            final(self).wf(),
            key_handled(*old(self), *final(self), key, r),
    {
        let logo_before = self.logo_held;
        self.logo_held = key.logo;
        let nothing = OverviewOutcome { consumed: false, activate: None, render: false };
        if !key.pressed {
            if logo_before && !key.logo {
                self.hold = None;
                return self.close_overview(true);
            }
            return nothing;
        }
        if key.logo && !logo_before {
            if key.allowed {
                self.hold = Some(key.now);
            }
            return nothing;
        }
        if key.keysym == KEY_SUPER_L || key.keysym == KEY_SUPER_R {
            return nothing;
        }
        if is_modifier_keysym(key.keysym) {
            self.hold = None;
            return nothing;
        }
        self.hold = None;
        if self.overview.is_none() {
            return nothing;
        }
        if let Some(nav) = nav_for_keysym(key.keysym, key.shift) {
            let render = self.overview_nav(nav);
            return OverviewOutcome { consumed: true, activate: None, render };
        }
        if key.keysym == KEY_ESCAPE {
            let closed = self.close_overview(false);
            OverviewOutcome { consumed: true, activate: closed.activate, render: closed.render }
        } else if key.keysym == KEY_RETURN || key.keysym == KEY_KP_ENTER || key.keysym == KEY_SPACE {
            let closed = self.close_overview(true);
            OverviewOutcome { consumed: true, activate: closed.activate, render: closed.render }
        } else {
            self.close_overview(false)
        }
    }

    /// Cancel a grid that is not up yet: a button went down.
    pub fn cancel_overview_hold(&mut self)
        requires
            old(self).wf(),
        ensures
            final(self).wf(),
            final(self).hold is None,
            final(self).logo_held == old(self).logo_held,
            final(self).overview == old(self).overview,
    {
        self.hold = None;
    }

    /// Whether the grid is to be opened at `now`. A wait that has run its time
    /// is over either way: a grid that could not open is not tried again on
    /// every turn.
    pub fn tick_overview(&mut self, now: u64, locked: bool, grab_active: bool) -> (open: bool)
        requires
            old(self).wf(),
        ensures
            final(self).wf(),
            final(self).logo_held == old(self).logo_held,
            final(self).overview == old(self).overview,
            waited(*old(self), *final(self), now, locked, grab_active, open),
    {
        match self.hold {
            None => false,
            Some(since) => {
                if self.overview.is_some() || now.saturating_sub(since) < HOLD_DELAY {
                    return false;
                }
                self.hold = None;
                !locked && !grab_active
            },
        }
    }

    /// Select the cell under the pointer, at `local` in coordinates of the
    /// output (nowhere, where the output is gone). The motion is consumed while
    /// the grid is up.
    pub fn overview_pointer_moved(&mut self, local: Option<Point>) -> (r: OverviewOutcome)
        requires
            old(self).wf(),
        ensures
            final(self).wf(),
            final(self).logo_held == old(self).logo_held,
            final(self).hold == old(self).hold,
            r.consumed == (old(self).overview is Some),
            r.activate is None,
            old(self).overview is None ==> !r.render && final(self).overview is None,
            old(self).overview is Some ==> {
                let before = old(self).overview->0;
                let to = hovered(before.cells@, local, before.selected as int);
                &&& r.render == (before.selected != to)
                &&& final(self).overview == Some(Overview { selected: to as usize, ..before })
            },
    {
        let target: usize = match &self.overview {
            None => {
                return OverviewOutcome { consumed: false, activate: None, render: false };
            },
            Some(overview) => {
                let mut target: usize = overview.selected;
                if let Some(at) = local {
                    let cells = &overview.cells;
                    let mut i: usize = 0;
                    let mut found = false;
                    while i < cells.len() && !found
                        invariant
                            i <= cells.len(),
                            overview.wf(),
                            cells@ == overview.cells@,
                            !found ==> target == overview.selected && forall|k: int|
                                0 <= k < i ==> !(#[trigger] cells@[k]).covers(
                                    at.x as int,
                                    at.y as int,
                                ),
                            found ==> target < cells.len() && cells@[target as int].covers(
                                at.x as int,
                                at.y as int,
                            ) && forall|k: int|
                                0 <= k < target ==> !(#[trigger] cells@[k]).covers(
                                    at.x as int,
                                    at.y as int,
                                ),
                        decreases cells.len() - i,
                    {
                        if cells[i].contains(at.x, at.y) {
                            target = i;
                            found = true;
                        }
                        i = i + 1;
                    }
                    proof {
                        lemma_hovered(cells@, at, overview.selected as int, target as int, found);
                    }
                }
                target
            },
        };
        let render = self.set_overview_selection(target);
        OverviewOutcome { consumed: true, activate: None, render }
    }

    /// A button while the grid is up picks the selected thumbnail.
    pub fn overview_pointer_pressed(&mut self) -> (r: OverviewOutcome)
        requires
            old(self).wf(),
        ensures
            final(self).wf(),
            press_handled(*old(self), *final(self), r),
    {
        if self.overview.is_none() {
            return OverviewOutcome { consumed: false, activate: None, render: false };
        }
        let closed = self.close_overview(true);
        OverviewOutcome { consumed: true, activate: closed.activate, render: closed.render }
    }
}

/// The first of `cells` that covers the point.
pub open spec fn first_cell(cells: Seq<Rect>, at: Point) -> Option<int>
    decreases cells.len(),
{
    if cells.len() == 0 {
        None
    } else {
        match first_cell(cells.drop_last(), at) {
            Some(i) => Some(i),
            None => if cells.last().covers(at.x as int, at.y as int) {
                Some(cells.len() - 1)
            } else {
                None
            },
        }
    }
}

/// The cell selected by a pointer at `local`: the one it is over, else the one
/// that was.
pub open spec fn hovered(cells: Seq<Rect>, local: Option<Point>, selected: int) -> int {
    if local is Some && first_cell(cells, local->0) is Some {
        first_cell(cells, local->0)->0
    } else {
        selected
    }
}

proof fn lemma_first_cell(cells: Seq<Rect>, at: Point)
    ensures
        match first_cell(cells, at) {
            Some(i) => 0 <= i < cells.len() && cells[i].covers(at.x as int, at.y as int) && forall|
                k: int,
            |
                0 <= k < i ==> !(#[trigger] cells[k]).covers(at.x as int, at.y as int),
            None => forall|k: int|
                0 <= k < cells.len() ==> !(#[trigger] cells[k]).covers(at.x as int, at.y as int),
        },
    decreases cells.len(),
{
    if cells.len() > 0 {
        let rest = cells.drop_last();
        lemma_first_cell(rest, at);
        assert forall|k: int| 0 <= k < rest.len() implies #[trigger] cells[k] == rest[k] by {}
    }
}

proof fn lemma_hovered(cells: Seq<Rect>, at: Point, selected: int, target: int, found: bool)
    requires
        !found ==> target == selected && forall|k: int|
            0 <= k < cells.len() ==> !(#[trigger] cells[k]).covers(at.x as int, at.y as int),
        found ==> 0 <= target < cells.len() && cells[target].covers(at.x as int, at.y as int)
            && forall|k: int|
            0 <= k < target ==> !(#[trigger] cells[k]).covers(at.x as int, at.y as int),
    ensures
        target == hovered(cells, Some(at), selected),
{
    lemma_first_cell(cells, at);
}

/// The place of a thumbnail within its cell.
pub open spec fn padded(cell: Rect) -> Rect {
    Rect {
        loc: Point {
            x: (cell.loc.x + CELL_PADDING) as i32,
            y: (cell.loc.y + CELL_PADDING) as i32,
        },
        size: Size {
            w: max_int(cell.size.w - 2 * CELL_PADDING, 1) as i32,
            h: max_int(cell.size.h - 2 * CELL_PADDING, 1) as i32,
        },
    }
}

pub fn thumbnail_rect(cell: Rect) -> (r: Rect)
    requires
        fits_i32(cell.loc.x + CELL_PADDING),
        fits_i32(cell.loc.y + CELL_PADDING),
        cell.size.w >= 0,
        cell.size.h >= 0,
    ensures
        r == padded(cell),
{
    Rect {
        loc: Point { x: cell.loc.x + CELL_PADDING, y: cell.loc.y + CELL_PADDING },
        size: Size {
            w: max_i32(cell.size.w - 2 * CELL_PADDING, 1),
            h: max_i32(cell.size.h - 2 * CELL_PADDING, 1),
        },
    }
}

/// A coloured rectangle of the grid.
#[derive(Debug, Clone, Copy, PartialEq, Eq, Structural)]
pub enum OverviewQuad {
    /// The frame round the selected cell.
    Selection(Rect),
    /// The card behind thumbnail number `.0`.
    Card(usize, Rect),
    /// The dimmed backdrop over the whole output.
    Backdrop(Rect),
}

/// The rectangles behind the thumbnails, front to back: the frame, the cards,
/// the backdrop.
pub fn overview_quads(overview: &Overview, output_size: Size) -> (r: Vec<OverviewQuad>)
    requires
        overview.wf(),
    ensures
        r.len() == overview.cells@.len() + 2,
        r@[0] == OverviewQuad::Selection(overview.cells@[overview.selected as int]),
        forall|i: int|
            0 <= i < overview.cells@.len() ==> #[trigger] r@[i + 1] == OverviewQuad::Card(
                i as usize,
                overview.cells@[i],
            ),
        r@[overview.cells@.len() as int + 1] == OverviewQuad::Backdrop(
            Rect { loc: Point { x: 0, y: 0 }, size: output_size },
        ),
{
    let mut r: Vec<OverviewQuad> = Vec::new();
    r.push(OverviewQuad::Selection(overview.cells[overview.selected]));
    let mut i: usize = 0;
    while i < overview.cells.len()
        invariant
            i <= overview.cells.len(),
            overview.wf(),
            r.len() == i + 1,
            r@[0] == OverviewQuad::Selection(overview.cells@[overview.selected as int]),
            forall|k: int|
                0 <= k < i ==> #[trigger] r@[k + 1] == OverviewQuad::Card(
                    k as usize,
                    overview.cells@[k],
                ),
        decreases overview.cells.len() - i,
    {
        r.push(OverviewQuad::Card(i, overview.cells[i]));
        i = i + 1;
    }
    r.push(OverviewQuad::Backdrop(Rect { loc: Point { x: 0, y: 0 }, size: output_size }));
    r
}

/// The arrows never leave the row (left, right) or the column (up, down), and
/// no key ever leaves the grid.
pub proof fn navigation_stays_in_the_grid(selected: int, count: int, cols: int, nav: OverviewNav)
    requires
        0 <= selected < count,
        1 <= cols,
    ensures
        ({
            let to = nav_of(selected, count, cols, nav);
            &&& 0 <= to < count
            &&& nav == OverviewNav::Left || nav == OverviewNav::Right ==> to / cols == selected / cols
            &&& nav == OverviewNav::Up || nav == OverviewNav::Down ==> to % cols == selected % cols
        }),
{
    assert(0 <= (selected + 1) % count < count && 0 <= (selected + count - 1) % count < count)
        by (nonlinear_arith)
        requires
            0 <= selected < count,
    ;
    if nav == OverviewNav::Left && selected % cols != 0 {
        assert(selected > 0 && (selected - 1) / cols == selected / cols) by (nonlinear_arith)
            requires
                0 <= selected,
                cols >= 1,
                selected % cols != 0,
        ;
    }
    if nav == OverviewNav::Right && (selected + 1) % cols != 0 {
        assert((selected + 1) / cols == selected / cols) by (nonlinear_arith)
            requires
                0 <= selected,
                cols >= 1,
                (selected + 1) % cols != 0,
        ;
    }
    assert((selected + cols) % cols == selected % cols) by (nonlinear_arith)
        requires
            0 <= selected,
            cols >= 1,
    ;
    if selected >= cols {
        assert((selected - cols) % cols == selected % cols) by (nonlinear_arith)
            requires
                cols <= selected,
                cols >= 1,
        ;
    }
}

/// The place next to a cell, in the way of an arrow key.
pub open spec fn place_beside(selected: int, cols: int, nav: OverviewNav) -> int {
    match nav {
        OverviewNav::Left => selected - 1,
        OverviewNav::Right => selected + 1,
        OverviewNav::Up => selected - cols,
        _ => selected + cols,
    }
}

/// Whether a cell of the grid lies next to `selected`, in the way of an arrow
/// key: one of the same row, or of the same column.
pub open spec fn has_cell_beside(selected: int, count: int, cols: int, nav: OverviewNav) -> bool {
    let beside = place_beside(selected, cols, nav);
    &&& 0 <= beside < count
    &&& nav == OverviewNav::Left || nav == OverviewNav::Right ==> beside / cols == selected / cols
}

/// An arrow key moves to the next cell in its way, and stays put exactly where
/// there is none.
pub proof fn arrows_move_to_the_cell_beside(selected: int, count: int, cols: int, nav: OverviewNav)
    requires
        0 <= selected < count,
        1 <= cols,
        nav != OverviewNav::Next,
        nav != OverviewNav::Prev,
    ensures
        nav_of(selected, count, cols, nav) == if has_cell_beside(selected, count, cols, nav) {
            place_beside(selected, cols, nav)
        } else {
            selected
        },
        nav_of(selected, count, cols, nav) == selected <==> !has_cell_beside(
            selected,
            count,
            cols,
            nav,
        ),
{
    navigation_stays_in_the_grid(selected, count, cols, nav);
    if nav == OverviewNav::Left && selected > 0 && selected % cols == 0 {
        assert((selected - 1) / cols != selected / cols) by (nonlinear_arith)
            requires
                0 < selected,
                cols >= 1,
                selected % cols == 0,
        ;
    }
    if nav == OverviewNav::Left && selected % cols != 0 {
        assert(selected > 0) by (nonlinear_arith)
            requires
                0 <= selected,
                cols >= 1,
                selected % cols != 0,
        ;
    }
    if nav == OverviewNav::Right && (selected + 1) % cols == 0 {
        assert((selected + 1) / cols != selected / cols) by (nonlinear_arith)
            requires
                0 <= selected,
                cols >= 1,
                (selected + 1) % cols == 0,
        ;
    }
}

/// The selection after Tab was pressed `n` times.
pub open spec fn after_next(selected: int, count: int, cols: int, n: nat) -> int
    decreases n,
{
    if n == 0 {
        selected
    } else {
        nav_of(
            after_next(selected, count, cols, (n - 1) as nat),
            count,
            cols,
            OverviewNav::Next,
        )
    }
}

proof fn lemma_after_next(selected: int, count: int, cols: int, n: nat)
    requires
        0 <= selected < count,
        n <= count,
    ensures
        after_next(selected, count, cols, n) == if selected + n < count {
            selected + n
        } else {
            selected + n - count
        },
    decreases n,
{
    if n > 0 {
        lemma_after_next(selected, count, cols, (n - 1) as nat);
        let before = after_next(selected, count, cols, (n - 1) as nat);
        if before + 1 == count {
            assert((before + 1) % count == 0) by (nonlinear_arith)
                requires
                    before + 1 == count,
                    count > 0,
            ;
        } else {
            assert((before + 1) % count == before + 1) by (nonlinear_arith)
                requires
                    0 <= before,
                    before + 1 < count,
            ;
        }
    }
}

/// Whether Tab gets to a cell before it was pressed as often as there are cells.
pub open spec fn is_visited(selected: int, count: int, cols: int, cell: int) -> bool {
    exists|n: nat| n < count && #[trigger] after_next(selected, count, cols, n) == cell
}

/// Tab goes round the whole grid: pressed as often as there are cells, it
/// visits each of them exactly once and ends where it began.
pub proof fn next_goes_round_the_grid(selected: int, count: int, cols: int)
    requires
        0 <= selected < count,
    ensures
        after_next(selected, count, cols, count as nat) == selected,
        forall|cell: int| 0 <= cell < count ==> #[trigger] is_visited(selected, count, cols, cell),
        forall|m: nat, n: nat|
            m < n < count ==> #[trigger] after_next(selected, count, cols, m)
                != #[trigger] after_next(selected, count, cols, n),
{
    lemma_after_next(selected, count, cols, count as nat);
    assert forall|cell: int| 0 <= cell < count implies #[trigger] is_visited(
        selected,
        count,
        cols,
        cell,
    ) by {
        let n: nat = if cell >= selected {
            (cell - selected) as nat
        } else {
            (cell + count - selected) as nat
        };
        lemma_after_next(selected, count, cols, n);
        assert(after_next(selected, count, cols, n) == cell);
    }
    assert forall|m: nat, n: nat| m < n < count implies #[trigger] after_next(
        selected,
        count,
        cols,
        m,
    ) != #[trigger] after_next(selected, count, cols, n) by {
        lemma_after_next(selected, count, cols, m);
        lemma_after_next(selected, count, cols, n);
    }
}

/// Tab and Shift+Tab undo each other.
pub proof fn next_and_previous_are_inverse(selected: int, count: int, cols: int)
    requires
        0 <= selected < count,
    ensures
        nav_of(nav_of(selected, count, cols, OverviewNav::Next), count, cols, OverviewNav::Prev)
            == selected,
        nav_of(nav_of(selected, count, cols, OverviewNav::Prev), count, cols, OverviewNav::Next)
            == selected,
{
    let next = (selected + 1) % count;
    let prev = (selected + count - 1) % count;
    if selected + 1 == count {
        assert(next == 0 && (next + count - 1) % count == selected) by (nonlinear_arith)
            requires
                next == (selected + 1) % count,
                selected + 1 == count,
                count > 0,
        ;
    } else {
        assert(next == selected + 1 && (next + count - 1) % count == selected) by (nonlinear_arith)
            requires
                next == (selected + 1) % count,
                0 <= selected,
                selected + 1 < count,
        ;
    }
    if selected == 0 {
        assert(prev == count - 1 && (prev + 1) % count == selected) by (nonlinear_arith)
            requires
                prev == (selected + count - 1) % count,
                selected == 0,
                count > 0,
        ;
    } else {
        assert(prev == selected - 1 && (prev + 1) % count == selected) by (nonlinear_arith)
            requires
                prev == (selected + count - 1) % count,
                0 < selected < count,
        ;
    }
}

/// No window is listed twice.
pub proof fn every_window_is_listed_once(workspaces: Seq<Vec<OverviewWindow>>)
    ensures
        forall|i: int, j: int|
            0 <= i < j < overview_items(workspaces).len() ==> (#[trigger] overview_items(
                workspaces,
            )[i]).root != (#[trigger] overview_items(workspaces)[j]).root,
    decreases workspaces.len(),
{
    if workspaces.len() > 0 {
        every_window_is_listed_once(workspaces.drop_last());
        lemma_with_windows_distinct(
            overview_items(workspaces.drop_last()),
            workspaces.last()@,
            (workspaces.len() - 1) as usize,
        );
    }
}

proof fn lemma_with_windows_distinct(
    items: Seq<OverviewItem>,
    windows: Seq<OverviewWindow>,
    workspace: usize,
)
    requires
        forall|i: int, j: int|
            0 <= i < j < items.len() ==> (#[trigger] items[i]).root != (#[trigger] items[j]).root,
    ensures
        forall|i: int, j: int|
            0 <= i < j < with_windows(items, windows, workspace).len() ==> (
            #[trigger] with_windows(items, windows, workspace)[i]).root != (
            #[trigger] with_windows(items, windows, workspace)[j]).root,
    decreases windows.len(),
{
    if windows.len() > 0 {
        lemma_with_windows_distinct(items, windows.drop_last(), workspace);
        let before = with_windows(items, windows.drop_last(), workspace);
        let after = with_windows(items, windows, workspace);
        assert forall|i: int, j: int| 0 <= i < j < after.len() implies (#[trigger] after[i]).root != (
        #[trigger] after[j]).root by {
            assert(after[i] == before[i]);
            if j < before.len() {
                assert(after[j] == before[j]);
            } else if before[i].root == after[j].root {
                assert(has_root(before, after[j].root));
            }
        }
    }
}

/// Two cells of the grid never overlap.
pub proof fn cells_do_not_overlap(count: int, cols: int, area: Rect, gap: int, i: int, j: int)
    requires
        1 <= cols <= count <= i32::MAX,
        0 <= gap,
        area.size.w > 0,
        area.size.h > 0,
        grid_in_range(count, cols, area, gap),
        0 <= i < j < count,
    ensures
        !cell_at(count, cols, area, gap, i).overlapping(cell_at(count, cols, area, gap, j)),
{
    let w = cell_extent(area.size.w as int, cols, gap);
    let h = cell_extent(area.size.h as int, row_count(count, cols), gap);
    let (ri, ci) = (i / cols, i % cols);
    let (rj, cj) = (j / cols, j % cols);
    assert(fits_i32(cell_x(count, cols, area, gap, i / cols, i % cols)));
    assert(fits_i32(cell_x(count, cols, area, gap, j / cols, j % cols)));
    assert(ri <= rj && (ri == rj ==> ci < cj)) by (nonlinear_arith)
        requires
            ri == i / cols,
            rj == j / cols,
            ci == i % cols,
            cj == j % cols,
            0 <= i < j,
            cols >= 1,
    ;
    if ri == rj {
        assert(ci * (w + gap) + (w + gap) <= cj * (w + gap)) by (nonlinear_arith)
            requires
                ci + 1 <= cj,
                w + gap >= 0,
        ;
    } else {
        assert(ri * (h + gap) + (h + gap) <= rj * (h + gap)) by (nonlinear_arith)
            requires
                ri + 1 <= rj,
                h + gap >= 0,
        ;
    }
}

/// Cells follow each other along the rows from left to right, a gap apart and all of
/// one size, and the rows from the top of the area downward.
pub proof fn cells_run_along_the_rows(count: int, cols: int, area: Rect, gap: int, i: int)
    requires
        1 <= cols <= count <= i32::MAX,
        0 <= gap,
        area.size.w > 0,
        area.size.h > 0,
        grid_in_range(count, cols, area, gap),
        0 <= i < count,
    ensures
        ({
            let cell = cell_at(count, cols, area, gap, i);
            &&& cell.size.w >= 1
            &&& cell.size.h >= 1
            &&& i < cols ==> cell.loc.y == area.loc.y
            &&& i + 1 < count && (i + 1) % cols != 0 ==> {
                let next = cell_at(count, cols, area, gap, i + 1);
                &&& next.loc.x == cell.loc.x + cell.size.w + gap
                &&& next.loc.y == cell.loc.y
                &&& next.size == cell.size
            }
            &&& i + cols < count ==> {
                let below = cell_at(count, cols, area, gap, i + cols);
                &&& below.loc.y == cell.loc.y + cell.size.h + gap
                &&& below.size == cell.size
            }
        }),
{
    let w = cell_extent(area.size.w as int, cols, gap);
    let h = cell_extent(area.size.h as int, row_count(count, cols), gap);
    let (row, col) = (i / cols, i % cols);
    assert(fits_i32(cell_x(count, cols, area, gap, i / cols, i % cols)));
    if i < cols {
        assert(row == 0) by (nonlinear_arith)
            requires
                row == i / cols,
                0 <= i < cols,
        ;
        assert(row * (h + gap) == 0);
    }
    if i + 1 < count && (i + 1) % cols != 0 {
        assert(fits_i32(cell_x(count, cols, area, gap, (i + 1) / cols, (i + 1) % cols)));
        assert((i + 1) / cols == row && (i + 1) % cols == col + 1) by (nonlinear_arith)
            requires
                row == i / cols,
                col == i % cols,
                cols >= 1,
                i >= 0,
                (i + 1) % cols != 0,
        ;
        assert((col + 1) * (w + gap) == col * (w + gap) + w + gap) by (nonlinear_arith);
    }
    if i + cols < count {
        assert(fits_i32(cell_x(count, cols, area, gap, (i + cols) / cols, (i + cols) % cols)));
        assert((i + cols) / cols == row + 1) by (nonlinear_arith)
            requires
                row == i / cols,
                cols >= 1,
                i >= 0,
        ;
        assert((row + 1) * (h + gap) == row * (h + gap) + h + gap) by (nonlinear_arith);
    }
}

/// Whether the cells of an open grid are those of a grid over some area.
pub open spec fn is_laid_out(grid: Overview, area: Rect, gap: int) -> bool {
    let count = grid.items@.len() as int;
    &&& grid.wf()
    &&& count <= i32::MAX
    &&& gap >= 0
    &&& area.size.w > 0
    &&& area.size.h > 0
    &&& grid_in_range(count, grid.cols as int, area, gap)
    &&& grid.cells@ == Seq::new(
        grid.items@.len(),
        |i: int| cell_at(count, grid.cols as int, area, gap, i),
    )
}

/// An arrow key moves the selection to the side that it names: with the right arrow
/// a selection that changes is further right in the same row, with the left arrow
/// further left, with the arrow up higher and with the arrow down lower.
pub proof fn arrow_keys_point_the_way(
    before: OverviewState,
    after: OverviewState,
    key: OverviewKey,
    r: OverviewOutcome,
    area: Rect,
    gap: int,
)
    requires
        key_handled(before, after, key, r),
        before.overview is Some,
        is_laid_out(before.overview->0, area, gap),
        key.pressed,
        before.logo_held || !key.logo,
        0xff51 <= key.keysym <= 0xff54,
    ensures
        after.overview is Some,
        after.overview->0.items == before.overview->0.items,
        after.overview->0.cells == before.overview->0.cells,
        after.overview->0.selected < before.overview->0.items@.len(),
        r.consumed,
        r.activate is None,
        r.render <==> after.overview->0.selected != before.overview->0.selected,
        after.overview->0.selected != before.overview->0.selected ==> {
            let from = before.overview->0.cells@[before.overview->0.selected as int];
            let to = after.overview->0.cells@[after.overview->0.selected as int];
            &&& key.keysym == 0xff51 ==> to.loc.x < from.loc.x && to.loc.y == from.loc.y
            &&& key.keysym == 0xff52 ==> to.loc.y < from.loc.y
            &&& key.keysym == 0xff53 ==> to.loc.x > from.loc.x && to.loc.y == from.loc.y
            &&& key.keysym == 0xff54 ==> to.loc.y > from.loc.y
        },
{
    let grid = before.overview->0;
    let count = grid.items@.len() as int;
    let cols = grid.cols as int;
    let sel = grid.selected as int;
    let to = after.overview->0.selected as int;
    let nav = nav_key(key.keysym, key.shift)->0;
    navigation_stays_in_the_grid(sel, count, cols, nav);
    arrows_move_to_the_cell_beside(sel, count, cols, nav);
    if to != sel {
        let low = if to < sel { to } else { sel };
        cells_run_along_the_rows(count, cols, area, gap, low);
        if nav == OverviewNav::Left || nav == OverviewNav::Right {
            assert((low + 1) % cols != 0) by (nonlinear_arith)
                requires
                    (low + 1) / cols == low / cols,
                    cols >= 1,
                    low >= 0,
            ;
        }
    }
}

/// With one column the arrows up and down, and with one row the arrows left and right,
/// go from each cell to the next: an arrow that points at a cell moves there.
pub proof fn arrow_keys_reach_the_next_cell(
    before: OverviewState,
    after: OverviewState,
    key: OverviewKey,
    r: OverviewOutcome,
)
    requires
        key_handled(before, after, key, r),
        before.overview is Some,
        before.overview->0.wf(),
        key.pressed,
        before.logo_held || !key.logo,
    ensures
        ({
            let grid = before.overview->0;
            let to = after.overview->0.selected;
            &&& key.keysym == 0xff54 && grid.selected + grid.cols < grid.items@.len() ==> to
                == grid.selected + grid.cols
            &&& key.keysym == 0xff52 && grid.selected >= grid.cols ==> to == grid.selected
                - grid.cols
            &&& key.keysym == 0xff53 && grid.selected + 1 < grid.items@.len() && grid.cols
                == grid.items@.len() ==> to == grid.selected + 1
            &&& key.keysym == 0xff51 && grid.selected > 0 && grid.cols == grid.items@.len() ==> to
                == grid.selected - 1
        }),
{
    let grid = before.overview->0;
    let n = grid.items@.len() as int;
    let sel = grid.selected as int;
    if sel + 1 < n {
        assert((sel + 1) % n == sel + 1) by (nonlinear_arith)
            requires
                0 <= sel,
                sel + 1 < n,
        ;
    }
    assert(sel % n == sel) by (nonlinear_arith)
        requires
            0 <= sel < n,
    ;
}

/// Tab moves to the next window and from the last to the first, Shift and Tab the
/// other way; both keep the grid up and are kept from the client.
pub proof fn tab_goes_through_the_windows(
    before: OverviewState,
    after: OverviewState,
    key: OverviewKey,
    r: OverviewOutcome,
)
    requires
        key_handled(before, after, key, r),
        before.overview is Some,
        before.overview->0.wf(),
        key.pressed,
        before.logo_held || !key.logo,
        key.keysym == 0xff09 || key.keysym == 0xfe20,
    ensures
        after.overview is Some,
        after.overview->0.items == before.overview->0.items,
        r.consumed,
        r.activate is None,
        ({
            let n = before.overview->0.items@.len();
            let from = before.overview->0.selected;
            let to = after.overview->0.selected;
            if key.keysym == 0xff09 && !key.shift {
                to == if from + 1 < n { from + 1 } else { 0 }
            } else {
                to == if from > 0 { from - 1 } else { n - 1 }
            }
        }),
{
    let n = before.overview->0.items@.len() as int;
    let p = before.overview->0.selected as int;
    if p + 1 == n {
        assert((p + 1) % n == 0) by (nonlinear_arith)
            requires
                p + 1 == n,
                n > 0,
        ;
    } else {
        assert((p + 1) % n == p + 1) by (nonlinear_arith)
            requires
                0 <= p,
                p + 1 < n,
        ;
    }
    if p == 0 {
        assert((n - 1) % n == n - 1) by (nonlinear_arith)
            requires
                n > 0,
        ;
    } else {
        assert((p + n - 1) % n == p - 1) by (nonlinear_arith)
            requires
                0 < p < n,
        ;
    }
}

/// Letting go of the logo key, Return, the keypad's Enter and Space pick the selected
/// window and close the grid. Escape closes it and picks none. Any other key that is
/// no modifier closes it too, picks none, and goes its own way. A release is never
/// kept from the client.
pub proof fn keys_pick_or_dismiss(
    before: OverviewState,
    after: OverviewState,
    key: OverviewKey,
    r: OverviewOutcome,
)
    requires
        key_handled(before, after, key, r),
        before.overview is Some,
        before.overview->0.wf(),
    ensures
        ({
            let picked = before.overview->0.items@[before.overview->0.selected as int];
            let plain = key.pressed && (before.logo_held || !key.logo);
            let picks = key.keysym == 0xff0d || key.keysym == 0xff8d || key.keysym == 0x20;
            &&& !key.pressed ==> !r.consumed
            &&& !key.pressed && before.logo_held && !key.logo ==> after.overview is None && r.render
                && r.activate == Some(picked)
            &&& !key.pressed && (key.logo || !before.logo_held) ==> after.overview
                == before.overview && r.activate is None
            &&& plain && picks ==> after.overview is None && r.consumed && r.activate == Some(
                picked,
            )
            &&& plain && key.keysym == 0xff1b ==> after.overview is None && r.consumed
                && r.activate is None && r.render
            &&& plain && 0x21 <= key.keysym <= 0xff ==> after.overview is None && !r.consumed
                && r.activate is None
            &&& plain && (key.keysym == 0xffeb || key.keysym == 0xffec || 0xffe1 <= key.keysym
                <= 0xffea) ==> after.overview == before.overview && !r.consumed
                && r.activate is None
        }),
{
}

/// The wait for the grid begins when the logo key goes down alone and ends with the
/// key, or with any other key. Without a grid no key is kept from the client and none
/// picks a window.
pub proof fn the_wait_begins_and_ends_with_the_logo_key(
    before: OverviewState,
    after: OverviewState,
    key: OverviewKey,
    r: OverviewOutcome,
)
    requires
        key_handled(before, after, key, r),
    ensures
        after.logo_held == key.logo,
        key.pressed && key.logo && !before.logo_held && key.allowed ==> after.hold == Some(key.now),
        !key.pressed && before.logo_held && !key.logo ==> after.hold is None,
        key.pressed && (before.logo_held || !key.logo) && key.keysym != 0xffeb && key.keysym
            != 0xffec ==> after.hold is None,
        before.overview is None ==> after.overview is None && !r.consumed && r.activate is None,
{
}

/// The grid opens once the key was held for a hundred and eighty milliseconds, no
/// sooner, once, and not while the session is locked or a grab is active.
pub proof fn the_grid_opens_after_the_wait(
    before: OverviewState,
    after: OverviewState,
    now: u64,
    locked: bool,
    grab_active: bool,
    open: bool,
)
    requires
        waited(before, after, now, locked, grab_active, open),
        before.overview is None,
    ensures
        open ==> before.hold is Some && now >= before.hold->0 + 180_000_000 && !locked
            && !grab_active && after.hold is None,
        before.hold is Some && now >= before.hold->0 + 180_000_000 && !locked && !grab_active
            ==> open,
        before.hold is Some && now < before.hold->0 + 180_000_000 ==> !open && after.hold
            == before.hold,
{
}

/// The pointer selects the cell that it is over, and changes nothing beside the cells.
pub proof fn the_pointer_selects_what_it_is_over(cells: Seq<Rect>, at: Point, selected: int)
    requires
        forall|k: int|
            0 <= k < cells.len() ==> (#[trigger] cells[k]).loc.x + cells[k].size.w <= i32::MAX
                && cells[k].loc.y + cells[k].size.h <= i32::MAX && cells[k].size.w >= 0
                && cells[k].size.h >= 0,
    ensures
        ({
            let to = hovered(cells, Some(at), selected);
            &&& to != selected ==> 0 <= to < cells.len()
            &&& (exists|k: int| 0 <= k < cells.len() && is_over(#[trigger] cells[k], at)) ==> 0 <= to
                < cells.len() && is_over(cells[to], at)
            &&& (forall|k: int| 0 <= k < cells.len() ==> !is_over(#[trigger] cells[k], at)) ==> to
                == selected
        }),
        hovered(cells, None, selected) == selected,
{
    lemma_first_cell(cells, at);
    assert forall|k: int| 0 <= k < cells.len() implies (is_over(#[trigger] cells[k], at)
        <==> cells[k].covers(at.x as int, at.y as int)) by {}
}

/// Whether a point lies in a rectangle.
pub open spec fn is_over(cell: Rect, at: Point) -> bool {
    cell.loc.x <= at.x && at.x < cell.loc.x + cell.size.w && cell.loc.y <= at.y && at.y < cell.loc.y
        + cell.size.h
}

/// The grid opens on the window that has the keyboard, and on the first where none of
/// the listed ones has it.
pub proof fn the_focused_window_is_selected_first(items: Seq<OverviewItem>, focused: Option<u64>)
    requires
        items.len() > 0,
    ensures
        ({
            let at = initial_selection(items, focused);
            &&& 0 <= at < items.len()
            &&& (exists|i: int|
                0 <= i < items.len() && Some((#[trigger] items[i]).root) == focused) ==> Some(
                items[at].root,
            ) == focused
            &&& (forall|i: int|
                0 <= i < items.len() ==> Some((#[trigger] items[i]).root) != focused) ==> at == 0
        }),
{
    if focused is Some && has_root(items, focused->0) {
        lemma_first_item(items, focused->0);
    }
}

proof fn lemma_first_item(items: Seq<OverviewItem>, root: u64)
    requires
        has_root(items, root),
    ensures
        0 <= item_with_root(items, root) < items.len(),
        items[item_with_root(items, root)].root == root,
    decreases items.len(),
{
    if items[0].root != root {
        let i = choose|i: int| 0 <= i < items.len() && (#[trigger] items[i]).root == root;
        let rest = items.drop_first();
        assert(rest[i - 1].root == root);
        lemma_first_item(rest, root);
    }
}

/// The overview lists exactly the windows that are alive and have a surface, each with
/// a workspace that it is on.
pub proof fn the_overview_lists_the_living(workspaces: Seq<Vec<OverviewWindow>>)
    requires
        workspaces.len() <= usize::MAX,
    ensures
        forall|i: int|
            0 <= i < overview_items(workspaces).len() ==> is_listed(
                #[trigger] overview_items(workspaces)[i],
                workspaces,
            ),
        forall|w: int, k: int|
            0 <= w < workspaces.len() && 0 <= k < workspaces[w]@.len() && (
            #[trigger] workspaces[w]@[k]).alive && workspaces[w]@[k].window.root is Some
                ==> exists|i: int|
                0 <= i < overview_items(workspaces).len() && (#[trigger] overview_items(
                    workspaces,
                )[i]).root == workspaces[w]@[k].window.root->0,
    decreases workspaces.len(),
{
    if workspaces.len() > 0 {
        let shorter = workspaces.drop_last();
        the_overview_lists_the_living(shorter);
        let before = overview_items(shorter);
        let n = workspaces.len() - 1;
        lemma_with_windows_lists(before, workspaces.last()@, n as usize);
        let all = overview_items(workspaces);
        assert forall|i: int| 0 <= i < all.len() implies is_listed(#[trigger] all[i], workspaces) by {
            if i < before.len() {
                assert(all[i] == before[i]);
                assert(shorter[before[i].workspace as int] == workspaces[before[i].workspace as int]);
            } else {
                let k = choose|k: int|
                    0 <= k < workspaces.last()@.len() && is_item_of(
                        all[i],
                        #[trigger] workspaces.last()@[k],
                    );
                assert(is_item_of(all[i], workspaces[n]@[k]));
            }
        }
        assert forall|w: int, k: int|
            0 <= w < workspaces.len() && 0 <= k < workspaces[w]@.len() && (
            #[trigger] workspaces[w]@[k]).alive && workspaces[w]@[k].window.root is Some implies exists|
            i: int,
        |
            0 <= i < all.len() && (#[trigger] all[i]).root == workspaces[w]@[k].window.root->0 by {
            let root = workspaces[w]@[k].window.root->0;
            if w < n {
                assert(shorter[w] == workspaces[w]);
                let i = choose|i: int| 0 <= i < before.len() && (#[trigger] before[i]).root == root;
                assert(all[i] == before[i]);
            } else {
                assert(has_root(all, root));
            }
        }
    }
}

/// Whether an item stands for a window.
pub open spec fn is_item_of(item: OverviewItem, window: OverviewWindow) -> bool {
    &&& window.alive
    &&& window.window.root == Some(item.root)
    &&& window.window.id == item.window
}

/// Whether an item stands for a window of the workspace that it names.
pub open spec fn is_listed(item: OverviewItem, workspaces: Seq<Vec<OverviewWindow>>) -> bool {
    &&& item.workspace < workspaces.len()
    &&& exists|k: int|
        0 <= k < workspaces[item.workspace as int]@.len() && is_item_of(
            item,
            #[trigger] workspaces[item.workspace as int]@[k],
        )
}

proof fn lemma_with_windows_lists(
    items: Seq<OverviewItem>,
    windows: Seq<OverviewWindow>,
    workspace: usize,
)
    ensures
        ({
            let all = with_windows(items, windows, workspace);
            &&& all.len() >= items.len()
            &&& forall|i: int| 0 <= i < items.len() ==> #[trigger] all[i] == items[i]
            &&& forall|i: int|
                items.len() <= i < all.len() ==> (#[trigger] all[i]).workspace == workspace
                    && exists|k: int|
                    0 <= k < windows.len() && is_item_of(all[i], #[trigger] windows[k])
            &&& forall|k: int|
                0 <= k < windows.len() && (#[trigger] windows[k]).alive && windows[k].window.root is Some
                    ==> has_root(all, windows[k].window.root->0)
        }),
    decreases windows.len(),
{
    if windows.len() > 0 {
        let shorter = windows.drop_last();
        lemma_with_windows_lists(items, shorter, workspace);
        let before = with_windows(items, shorter, workspace);
        let all = with_windows(items, windows, workspace);
        let last = windows.last();
        assert forall|i: int| items.len() <= i < all.len() implies (#[trigger] all[i]).workspace
            == workspace && exists|k: int|
            0 <= k < windows.len() && is_item_of(all[i], #[trigger] windows[k]) by {
            if i < before.len() {
                assert(all[i] == before[i]);
                let k = choose|k: int|
                    0 <= k < shorter.len() && is_item_of(before[i], #[trigger] shorter[k]);
                assert(windows[k] == shorter[k]);
            } else {
                assert(is_item_of(all[i], windows[windows.len() - 1]));
            }
        }
        assert forall|k: int|
            0 <= k < windows.len() && (#[trigger] windows[k]).alive && windows[k].window.root is Some implies has_root(
        all, windows[k].window.root->0) by {
            let root = windows[k].window.root->0;
            if k < shorter.len() {
                assert(shorter[k] == windows[k]);
                assert(has_root(before, root));
            }
            if has_root(before, root) {
                let i = choose|i: int| 0 <= i < before.len() && (#[trigger] before[i]).root == root;
                assert(all[i] == before[i]);
            } else {
                assert(all[before.len() as int].root == root);
            }
        }
    }
}

/// A thumbnail leaves six pixels of its cell free on every side, where the cell is
/// large enough; the grid leaves forty-eight of the output.
pub proof fn thumbnails_and_grids_keep_their_distance(cell: Rect, output: Size)
    requires
        cell.size.w > 12,
        cell.size.h > 12,
        fits_i32(cell.loc.x + cell.size.w),
        fits_i32(cell.loc.y + cell.size.h),
        output.w > 96,
        output.h > 96,
    ensures
        padded(cell).loc.x - cell.loc.x == 6,
        padded(cell).loc.y - cell.loc.y == 6,
        (cell.loc.x + cell.size.w) - (padded(cell).loc.x + padded(cell).size.w) == 6,
        (cell.loc.y + cell.size.h) - (padded(cell).loc.y + padded(cell).size.h) == 6,
        grid_area(output).loc.x == 48,
        grid_area(output).loc.y == 48,
        output.w - (grid_area(output).loc.x + grid_area(output).size.w) == 48,
        output.h - (grid_area(output).loc.y + grid_area(output).size.h) == 48,
{
}

/// The grid has the fewest columns with which it is no taller for its width, counted in
/// windows, than its area is: `columns` by as many rows as that leaves compare as the area's
/// width and height do. It never has more columns than windows.
pub proof fn the_grid_has_the_shape_of_its_area(count: int, area: Size, fewer: int)
    requires
        count > 0,
        area.w > 0,
        area.h > 0,
    ensures
        ({
            let cols = columns(count, area);
            &&& 1 <= cols <= count
            &&& cols < count ==> cols * cols * area.h >= count * area.w
            &&& 1 <= fewer < cols ==> (fewer * fewer) * area.h < count * area.w
        }),
{
    lemma_columns_from(1, count, area.w as int, area.h as int);
    let cols = columns(count, area);
    if 1 <= fewer < cols {
        assert((fewer * fewer) * area.h < count * area.w);
    }
}

/// A press while the grid is up picks the selected window and closes the grid; otherwise it
/// is none of the grid's.
pub proof fn a_press_picks_the_selected_window(
    before: OverviewState,
    after: OverviewState,
    r: OverviewOutcome,
)
    requires
        before.wf(),
        press_handled(before, after, r),
    ensures
        after.overview is None,
        before.overview is Some ==> r.consumed && r.render && r.activate == Some(
            before.overview->0.items@[before.overview->0.selected as int],
        ),
        before.overview is None ==> !r.consumed && !r.render && r.activate is None,
{
}

/// A key that only modifies others leaves the grid as it is: Shift, Control, the locks,
/// Meta, Alt, Hyper and the level shifts.
pub proof fn modifiers_leave_the_grid_open(
    before: OverviewState,
    after: OverviewState,
    key: OverviewKey,
    r: OverviewOutcome,
)
    requires
        key_handled(before, after, key, r),
        key.pressed,
        key.keysym == 0xffe1 || key.keysym == 0xffe2 || key.keysym == 0xffe3 || key.keysym == 0xffe4
            || key.keysym == 0xffe5 || key.keysym == 0xffe6 || key.keysym == 0xffe7 || key.keysym
            == 0xffe8 || key.keysym == 0xffe9 || key.keysym == 0xffea || key.keysym == 0xffed
            || key.keysym == 0xffee || key.keysym == 0xff7f || key.keysym == 0xfe03 || key.keysym
            == 0xfe11,
    ensures
        after.overview == before.overview,
        !r.consumed,
        r.activate is None,
{
}

} // verus!
