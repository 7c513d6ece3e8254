//! Points, sizes and rectangles in whole pixels.
use vstd::prelude::*;

verus! {

#[derive(Debug, Clone, Copy, PartialEq, Eq, Structural)]
pub struct Point {
    pub x: i32,
    pub y: i32,
}

#[derive(Debug, Clone, Copy, PartialEq, Eq, Structural)]
pub struct Size {
    pub w: i32,
    pub h: i32,
}

/// A rectangle by its top-left corner and its size. It covers the pixels from
/// `loc` up to, but not including, `loc + size`.
#[derive(Debug, Clone, Copy, PartialEq, Eq, Structural)]
pub struct Rect {
    pub loc: Point,
    pub size: Size,
}

/// Whether a number can be a coordinate.
pub open spec fn fits_i32(n: int) -> bool {
    i32::MIN <= n <= i32::MAX
}

/// The coordinate nearest to `n`.
pub open spec fn saturated_i32(n: int) -> int {
    if n < i32::MIN {
        i32::MIN as int
    } else if n > i32::MAX {
        i32::MAX as int
    } else {
        n
    }
}

pub open spec fn min_int(a: int, b: int) -> int {
    if a <= b { a } else { b }
}

pub open spec fn max_int(a: int, b: int) -> int {
    if a >= b { a } else { b }
}

/// `n` moved into `lo..=hi`.
pub open spec fn clamped(n: int, lo: int, hi: int) -> int {
    if n < lo {
        lo
    } else if n > hi {
        hi
    } else {
        n
    }
}

/// Integer division that rounds toward zero.
pub open spec fn div_trunc(n: int, d: int) -> int
    recommends
        d > 0,
{
    if n >= 0 { n / d } else { -((-n) / d) }
}

pub fn max_i32(a: i32, b: i32) -> (r: i32)
    ensures
        r == max_int(a as int, b as int),
{
    if a >= b { a } else { b }
}

pub fn min_i32(a: i32, b: i32) -> (r: i32)
    ensures
        r == min_int(a as int, b as int),
{
    if a <= b { a } else { b }
}

pub fn clamp_i32(n: i32, lo: i32, hi: i32) -> (r: i32)
    ensures
        r == clamped(n as int, lo as int, hi as int),
{
    if n < lo {
        lo
    } else if n > hi {
        hi
    } else {
        n
    }
}

/// Half of `n`, rounded toward zero.
pub fn half(n: i32) -> (r: i32)
    ensures
        r == div_trunc(n as int, 2),
        n >= 0 ==> 0 <= r <= n,
        n <= 0 ==> n <= r <= 0,
{
    if n >= 0 {
        n / 2
    } else if n == i32::MIN {
        -1_073_741_824
    } else {
        -((-n) / 2)
    }
}

/// A third of `n`, rounded toward zero.
pub fn third(n: i32) -> (r: i32)
    ensures
        r == div_trunc(n as int, 3),
{
    if n >= 0 {
        n / 3
    } else if n == i32::MIN {
        -715_827_882
    } else {
        -((-n) / 3)
    }
}

pub fn saturating_add_i32(a: i32, b: i32) -> (r: i32)
    ensures
        r == saturated_i32(a + b),
{
    let sum: i64 = a as i64 + b as i64;
    if sum > i32::MAX as i64 {
        i32::MAX
    } else if sum < i32::MIN as i64 {
        i32::MIN
    } else {
        sum as i32
    }
}

impl Point {
    pub fn new(x: i32, y: i32) -> (r: Self)
        ensures
            r == (Point { x, y }),
    {
        Point { x, y }
    }
}

impl Size {
    pub fn new(w: i32, h: i32) -> (r: Self)
        ensures
            r == (Size { w, h }),
    {
        Size { w, h }
    }
}

impl Rect {
    pub fn new(loc: Point, size: Size) -> (r: Self)
        ensures
            r == (Rect { loc, size }),
    {
        Rect { loc, size }
    }

    /// The first column to the right of the rectangle.
    pub open spec fn right(self) -> int {
        self.loc.x + self.size.w
    }

    /// The first row below the rectangle.
    pub open spec fn bottom(self) -> int {
        self.loc.y + self.size.h
    }

    /// Whether the far corner of the rectangle is a point too.
    pub open spec fn in_range(self) -> bool {
        fits_i32(self.right()) && fits_i32(self.bottom())
    }

    /// Whether the rectangle covers the pixel at `(x, y)`.
    pub open spec fn covers(self, x: int, y: int) -> bool {
        &&& self.loc.x <= x < saturated_i32(self.right())
        &&& self.loc.y <= y < saturated_i32(self.bottom())
    }

    pub fn contains(&self, x: i32, y: i32) -> (r: bool)
        ensures
            r == self.covers(x as int, y as int),
    {
        x >= self.loc.x && x < saturating_add_i32(self.loc.x, self.size.w) && y >= self.loc.y && y
            < saturating_add_i32(self.loc.y, self.size.h)
    }

    /// Whether the two rectangles overlap; rectangles that only touch do not.
    pub open spec fn overlapping(self, other: Rect) -> bool {
        &&& self.loc.x < saturated_i32(other.right())
        &&& other.loc.x < saturated_i32(self.right())
        &&& self.loc.y < saturated_i32(other.bottom())
        &&& other.loc.y < saturated_i32(self.bottom())
    }

    pub fn overlaps(&self, other: &Rect) -> (r: bool)
        ensures
            r == self.overlapping(*other),
    {
        self.loc.x < saturating_add_i32(other.loc.x, other.size.w) && other.loc.x
            < saturating_add_i32(self.loc.x, self.size.w) && self.loc.y < saturating_add_i32(
            other.loc.y,
            other.size.h,
        ) && other.loc.y < saturating_add_i32(self.loc.y, self.size.h)
    }
}

/// Rectangles that overlap are exactly those, of positive extent, that have a
/// pixel in common.
pub proof fn overlap_is_a_shared_pixel(a: Rect, b: Rect)
    requires
        a.size.w > 0,
        a.size.h > 0,
        b.size.w > 0,
        b.size.h > 0,
    ensures
        a.overlapping(b) <==> exists|x: int, y: int| #[trigger] a.covers(x, y) && b.covers(x, y),
{
    if a.overlapping(b) {
        let x = max_int(a.loc.x as int, b.loc.x as int);
        let y = max_int(a.loc.y as int, b.loc.y as int);
        if a.loc.x < i32::MAX && b.loc.x < i32::MAX && a.loc.y < i32::MAX && b.loc.y < i32::MAX {
            assert(a.covers(x, y) && b.covers(x, y));
        }
    }
}

/// A rectangle covers the pixels from its corner on, as many each way as its size says,
/// and two rectangles overlap where each begins before the other ends.
pub proof fn a_rectangle_covers_its_pixels(r: Rect, other: Rect, x: int, y: int)
    requires
        r.loc.x + r.size.w <= i32::MAX,
        r.loc.y + r.size.h <= i32::MAX,
        r.size.w >= 0,
        r.size.h >= 0,
        other.loc.x + other.size.w <= i32::MAX,
        other.loc.y + other.size.h <= i32::MAX,
        other.size.w >= 0,
        other.size.h >= 0,
    ensures
        r.covers(x, y) <==> r.loc.x <= x < r.loc.x + r.size.w && r.loc.y <= y < r.loc.y + r.size.h,
        r.overlapping(other) <==> r.loc.x < other.loc.x + other.size.w && other.loc.x < r.loc.x
            + r.size.w && r.loc.y < other.loc.y + other.size.h && other.loc.y < r.loc.y + r.size.h,
        r.overlapping(other) == other.overlapping(r),
{
}

/// What is clamped stays within its bounds, and is left alone where it is within them.
pub proof fn clamping_keeps_what_is_within(n: int, lo: int, hi: int)
    requires
        lo <= hi,
    ensures
        lo <= clamped(n, lo, hi) <= hi,
        lo <= n <= hi ==> clamped(n, lo, hi) == n,
        n < lo ==> clamped(n, lo, hi) == lo,
        n > hi ==> clamped(n, lo, hi) == hi,
{
}

} // verus!
