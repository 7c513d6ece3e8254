//! Screen captures: the region that is captured, the client's buffer, and the
//! captures that wait for a frame.
use crate::geometry::{max_int, min_int, saturated_i32, saturating_add_i32, fits_i32, Point, Rect, Size};
use vstd::prelude::*;

verus! {

/// What is captured and into what, in pixels of the output's buffer.
#[derive(Debug, Clone, Copy, PartialEq, Eq, Structural)]
pub struct ScreencopyGeometry {
    pub render_size: Size,
    pub logical_output_size: Size,
    pub buffer_size: Size,
    pub logical_region: Rect,
    pub buffer_region: Rect,
    /// Bytes from one row of the client's buffer to the next, at least.
    pub shm_stride: i32,
}

/// The part of `region` that lies on an output of the given size.
pub open spec fn clipped(region: Rect, output: Size) -> Rect {
    let x = max_int(region.loc.x as int, 0);
    let y = max_int(region.loc.y as int, 0);
    Rect {
        loc: Point { x: x as i32, y: y as i32 },
        size: Size {
            w: (min_int(saturated_i32(region.right()), output.w as int) - x) as i32,
            h: (min_int(saturated_i32(region.bottom()), output.h as int) - y) as i32,
        },
    }
}

/// The logical region to capture: the requested one, cut to the output, or all
/// of it. `None` where nothing is left.
pub open spec fn part_of(logical_output_size: Size, requested_region: Option<Rect>) -> Option<Rect> {
    let whole = Rect { loc: Point { x: 0, y: 0 }, size: logical_output_size };
    let region = if requested_region is Some { requested_region->0 } else { whole };
    let part = clipped(region, logical_output_size);
    if region.overlapping(whole) && part.size.w > 0 && part.size.h > 0 {
        Some(part)
    } else {
        None
    }
}

/// See [`part_of`].
pub fn capture_region(logical_output_size: Size, requested_region: Option<Rect>) -> (r: Option<Rect>)
    requires
        logical_output_size.w >= 0,
        logical_output_size.h >= 0,
        requested_region is Some ==> requested_region->0.size.w >= 0 && requested_region->0.size.h
            >= 0,
    ensures
        r == part_of(logical_output_size, requested_region),
{
    let whole = Rect { loc: Point { x: 0, y: 0 }, size: logical_output_size };
    let region = match requested_region {
        Some(region) => region,
        None => whole,
    };
    if !region.overlaps(&whole) {
        return None;
    }
    let right: i32 = saturating_add_i32(region.loc.x, region.size.w);
    let bottom: i32 = saturating_add_i32(region.loc.y, region.size.h);
    let x: i32 = if region.loc.x > 0 {
        region.loc.x
    } else {
        0
    };
    let y: i32 = if region.loc.y > 0 {
        region.loc.y
    } else {
        0
    };
    let end_x: i32 = if right < logical_output_size.w {
        right
    } else {
        logical_output_size.w
    };
    let end_y: i32 = if bottom < logical_output_size.h {
        bottom
    } else {
        logical_output_size.h
    };
    let part = Rect { loc: Point { x, y }, size: Size { w: end_x - x, h: end_y - y } };
    if part.size.w <= 0 || part.size.h <= 0 {
        return None;
    }
    Some(part)
}

/// How an output is turned and mirrored.
#[derive(Debug, Clone, Copy, PartialEq, Eq, Structural)]
pub enum Transform {
    Normal,
    Rotated90,
    Rotated180,
    Rotated270,
    Flipped,
    Flipped90,
    Flipped180,
    Flipped270,
}

impl Transform {
    /// Whether width and height change places.
    pub open spec fn is_sideways(self) -> bool {
        ||| self == Transform::Rotated90
        ||| self == Transform::Rotated270
        ||| self == Transform::Flipped90
        ||| self == Transform::Flipped270
    }

    /// A size after the turn.
    pub open spec fn turned_size(self, size: Size) -> Size {
        if self.is_sideways() { Size { w: size.h, h: size.w } } else { size }
    }

    /// A rectangle of an area of the given size, after the turn of that area.
    pub open spec fn turned_rect(self, rect: Rect, area: Size) -> Rect {
        let from_right = (area.w - rect.right()) as i32;
        let from_bottom = (area.h - rect.bottom()) as i32;
        let loc = match self {
            Transform::Normal => rect.loc,
            Transform::Rotated90 => Point { x: from_bottom, y: rect.loc.x },
            Transform::Rotated180 => Point { x: from_right, y: from_bottom },
            Transform::Rotated270 => Point { x: rect.loc.y, y: from_right },
            Transform::Flipped => Point { x: from_right, y: rect.loc.y },
            Transform::Flipped90 => Point { x: from_bottom, y: from_right },
            Transform::Flipped180 => Point { x: rect.loc.x, y: from_bottom },
            Transform::Flipped270 => Point { x: rect.loc.y, y: rect.loc.x },
        };
        Rect { loc, size: self.turned_size(rect.size) }
    }

    pub fn transform_size(self, size: Size) -> (r: Size)
        ensures
            r == self.turned_size(size),
    {
        match self {
            Transform::Rotated90 | Transform::Rotated270 | Transform::Flipped90
            | Transform::Flipped270 => Size { w: size.h, h: size.w },
            _ => size,
        }
    }

    /// The rectangle lies within the area.
    pub fn transform_rect_in(self, rect: Rect, area: Size) -> (r: Rect)
        requires
            lies_within(rect, area),
        ensures
            r == self.turned_rect(rect, area),
    {
        let from_right: i32 = area.w - rect.loc.x - rect.size.w;
        let from_bottom: i32 = area.h - rect.loc.y - rect.size.h;
        let loc = match self {
            Transform::Normal => rect.loc,
            Transform::Rotated90 => Point { x: from_bottom, y: rect.loc.x },
            Transform::Rotated180 => Point { x: from_right, y: from_bottom },
            Transform::Rotated270 => Point { x: rect.loc.y, y: from_right },
            Transform::Flipped => Point { x: from_right, y: rect.loc.y },
            Transform::Flipped90 => Point { x: from_bottom, y: from_right },
            Transform::Flipped180 => Point { x: rect.loc.x, y: from_bottom },
            Transform::Flipped270 => Point { x: rect.loc.y, y: rect.loc.x },
        };
        Rect { loc, size: self.transform_size(rect.size) }
    }
}

/// Whether a rectangle lies within an area of the given size, which starts at the
/// origin.
pub open spec fn lies_within(rect: Rect, area: Size) -> bool {
    &&& 0 <= rect.loc.x <= rect.right() <= area.w
    &&& 0 <= rect.loc.y <= rect.bottom() <= area.h
}

/// A turn keeps a rectangle within its area, however the area is turned.
pub proof fn a_turn_stays_within_the_area(transform: Transform, rect: Rect, area: Size)
    requires
        lies_within(rect, area),
    ensures
        lies_within(transform.turned_rect(rect, area), transform.turned_size(area)),
{
}

/// Whether `r` is the geometry of a capture of `part` of an output, or says that no
/// pixel of the buffer is left of it.
pub open spec fn captured_part<G: Fn(Size) -> Size, H: Fn(Rect) -> Rect>(
    render_size: Size,
    transform: Transform,
    logical: Size,
    part: Rect,
    to_buffer_size: G,
    to_buffer_region: H,
    r: Option<ScreencopyGeometry>,
) -> bool {
    exists|region: Rect|
        {
            &&& #[trigger] to_buffer_region.ensures(
                (transform.turned_rect(part, logical),),
                region,
            )
            &&& if region.size.w > 0 && region.size.h > 0 {
                &&& r is Some
                &&& r->0.render_size == render_size
                &&& r->0.logical_output_size == logical
                &&& to_buffer_size.ensures((logical,), r->0.buffer_size)
                &&& r->0.logical_region == part
                &&& r->0.buffer_region == region
                &&& r->0.shm_stride == region.size.w * 4
            } else {
                r is None
            }
        }
}

/// Whether `r` is the geometry of a capture of the requested region of an output,
/// or says that there is nothing to capture.
pub open spec fn captured<F: Fn(Size) -> Size, G: Fn(Size) -> Size, H: Fn(Rect) -> Rect>(
    render_size: Size,
    transform: Transform,
    requested_region: Option<Rect>,
    to_logical: F,
    to_buffer_size: G,
    to_buffer_region: H,
    r: Option<ScreencopyGeometry>,
) -> bool {
    exists|logical: Size|
        {
            &&& #[trigger] to_logical.ensures((transform.turned_size(render_size),), logical)
            &&& match part_of(logical, requested_region) {
                None => r is None,
                Some(part) => captured_part(
                    render_size,
                    transform,
                    logical,
                    part,
                    to_buffer_size,
                    to_buffer_region,
                    r,
                ),
            }
        }
}

/// The geometry of a capture of the requested region of an output, or of all of
/// it. `None` where the region has no pixel on it. The scale of an output is a
/// fraction, so that the caller converts: `to_logical` a size in pixels, and
/// `to_buffer_size` and `to_buffer_region` a size and a rectangle back.
pub fn capture_geometry<F: Fn(Size) -> Size, G: Fn(Size) -> Size, H: Fn(Rect) -> Rect>(
    render_size: Size,
    transform: Transform,
    requested_region: Option<Rect>,
    to_logical: F,
    to_buffer_size: G,
    to_buffer_region: H,
) -> (r: Option<ScreencopyGeometry>)
    requires
        requested_region is Some ==> requested_region->0.size.w >= 0 && requested_region->0.size.h
            >= 0,
        to_logical.requires((transform.turned_size(render_size),)),
        forall|logical: Size| #[trigger]
            to_logical.ensures((transform.turned_size(render_size),), logical) ==> {
                &&& logical.w >= 0
                &&& logical.h >= 0
                &&& to_buffer_size.requires((logical,))
                &&& part_of(logical, requested_region) matches Some(part)
                    ==> to_buffer_region.requires((transform.turned_rect(part, logical),))
            },
        forall|part: Rect, region: Rect| #[trigger]
            to_buffer_region.ensures((part,), region) ==> fits_i32(region.size.w * 4),
    ensures
        captured(
            render_size,
            transform,
            requested_region,
            to_logical,
            to_buffer_size,
            to_buffer_region,
            r,
        ),
{
    let logical_output_size = to_logical(transform.transform_size(render_size));
    let logical_region = match capture_region(logical_output_size, requested_region) {
        Some(part) => part,
        None => {
            return None;
        },
    };
    let buffer_size = to_buffer_size(logical_output_size);
    let turned = transform.transform_rect_in(logical_region, logical_output_size);
    let buffer_region = to_buffer_region(turned);
    proof {
        assert(to_logical.ensures((transform.turned_size(render_size),), logical_output_size));
        assert(to_buffer_region.ensures((turned,), buffer_region));
    }
    if buffer_region.size.w <= 0 || buffer_region.size.h <= 0 {
        return None;
    }
    Some(
        ScreencopyGeometry {
            render_size,
            logical_output_size,
            buffer_size,
            logical_region,
            buffer_region,
            shm_stride: buffer_region.size.w * 4,
        },
    )
}

/// The top row, counted from the other end of `height` rows, of `h` rows that
/// start at row `y`.
pub open spec fn flipped_y(height: int, y: int, h: int) -> int {
    height - (y + h)
}

/// The region to read back from the framebuffer, whose rows run from bottom to
/// top.
pub fn readback_region(geometry: &ScreencopyGeometry) -> (r: Rect)
    requires
        fits_i32(geometry.buffer_size.h - geometry.buffer_region.loc.y),
        fits_i32(geometry.buffer_size.h - geometry.buffer_region.bottom()),
    ensures
        r.loc.x == geometry.buffer_region.loc.x,
        r.loc.y == flipped_y(
            geometry.buffer_size.h as int,
            geometry.buffer_region.loc.y as int,
            geometry.buffer_region.size.h as int,
        ),
        r.size == geometry.buffer_region.size,
{
    Rect {
        loc: Point {
            x: geometry.buffer_region.loc.x,
            y: geometry.buffer_size.h - geometry.buffer_region.loc.y - geometry.buffer_region.size.h,
        },
        size: geometry.buffer_region.size,
    }
}

/// What the client says of its shared-memory buffer.
#[derive(Debug, Clone, Copy, PartialEq, Eq, Structural)]
pub struct ShmBuffer {
    /// Its pixels have the captured format.
    pub argb8888: bool,
    pub width: i32,
    pub height: i32,
    pub stride: i32,
    pub offset: i32,
}

/// Whether a buffer in a pool of `len` bytes can take the capture.
pub open spec fn buffer_fits(data: ShmBuffer, len: int, geometry: ScreencopyGeometry) -> bool {
    &&& data.argb8888
    &&& data.width == geometry.buffer_region.size.w
    &&& data.height == geometry.buffer_region.size.h
    &&& data.stride >= geometry.shm_stride
    &&& data.offset >= 0
    &&& data.offset + data.stride * data.height <= len
}

/// Validate the client's buffer.
pub fn validate_shm_buffer(data: ShmBuffer, len: usize, geometry: &ScreencopyGeometry) -> (r: bool)
    requires
        geometry.buffer_region.size.h > 0,
        geometry.shm_stride > 0,
    ensures
        r == buffer_fits(data, len as int, *geometry),
{
    if !data.argb8888 || data.width != geometry.buffer_region.size.w || data.height
        != geometry.buffer_region.size.h || data.stride < geometry.shm_stride || data.offset < 0 {
        return false;
    }
    let total: usize = match (data.stride as usize).checked_mul(data.height as usize) {
        Some(total) => total,
        None => {
            return false;
        },
    };
    let end: usize = match (data.offset as usize).checked_add(total) {
        Some(end) => end,
        None => {
            return false;
        },
    };
    end <= len
}

/// Whether byte `at` of the buffer belongs to a captured row.
pub open spec fn in_row(at: int, offset: int, stride: int, row_bytes: int, row: int) -> bool {
    offset + row * stride <= at < offset + row * stride + row_bytes
}

/// The buffer after the first `rows` rows of `pixels` were written into it:
/// row after row at the buffer's own stride, and nothing between them.
pub open spec fn rows_written(
    before: Seq<u8>,
    after: Seq<u8>,
    pixels: Seq<u8>,
    offset: int,
    stride: int,
    row_bytes: int,
    rows: int,
) -> bool {
    &&& after.len() == before.len()
    &&& forall|row: int, k: int|
        0 <= row < rows && 0 <= k < row_bytes ==> #[trigger] after[offset + row * stride + k]
            == pixels[row * row_bytes + k]
    &&& forall|at: int|
        0 <= at < before.len() && (forall|row: int|
            0 <= row < rows ==> !(#[trigger] in_row(at, offset, stride, row_bytes, row)))
            ==> #[trigger] after[at] == before[at]
}

/// Copy the captured rows into the client's buffer, whose contents are `dst`.
/// False where too few pixels were captured: then nothing is written.
pub fn write_pixels_into_buffer(
    dst: &mut Vec<u8>,
    data: ShmBuffer,
    pixels: &Vec<u8>,
    geometry: &ScreencopyGeometry,
) -> (r: bool)
    requires
        geometry.buffer_region.size.h > 0,
        geometry.shm_stride > 0,
        buffer_fits(data, old(dst)@.len() as int, *geometry),
    ensures
        r == (pixels@.len() >= geometry.shm_stride * geometry.buffer_region.size.h),
        r ==> rows_written(
            old(dst)@,
            final(dst)@,
            pixels@,
            data.offset as int,
            data.stride as int,
            geometry.shm_stride as int,
            geometry.buffer_region.size.h as int,
        ),
        !r ==> final(dst)@ == old(dst)@,
{
    let row_bytes: usize = geometry.shm_stride as usize;
    let rows: usize = geometry.buffer_region.size.h as usize;
    let needed: usize = match row_bytes.checked_mul(rows) {
        Some(needed) => needed,
        None => {
            proof {
                assert(pixels.len() <= usize::MAX);
            }
            return false;
        },
    };
    if pixels.len() < needed {
        return false;
    }
    let stride: usize = data.stride as usize;
    let offset: usize = data.offset as usize;
    let len: usize = dst.len();
    let ghost before = dst@;
    let ghost total = stride as int * rows as int;
    proof {
        assert(offset + total <= before.len());
    }
    let mut row: usize = 0;
    while row < rows
        invariant
            row <= rows,
            0 < row_bytes <= stride,
            needed == row_bytes * rows,
            needed <= pixels.len(),
            total == stride * rows,
            offset + total <= before.len(),
            before.len() == len,
            rows_written(
                before,
                dst@,
                pixels@,
                offset as int,
                stride as int,
                row_bytes as int,
                row as int,
            ),
        decreases rows - row,
    {
        proof {
            lemma_row_fits(row as int, rows as int, stride as int);
            lemma_row_fits(row as int, rows as int, row_bytes as int);
        }
        let src_start: usize = row * row_bytes;
        let dst_start: usize = offset + row * stride;
        let ghost done = dst@;
        let mut k: usize = 0;
        while k < row_bytes
            invariant
                k <= row_bytes,
                row < rows,
                0 < row_bytes <= stride,
                src_start == row * row_bytes,
                dst_start == offset + row * stride,
                src_start + row_bytes <= pixels.len(),
                dst_start + stride <= before.len(),
                before.len() == len,
                done.len() == before.len(),
                dst@.len() == done.len(),
                forall|j: int| 0 <= j < k ==> #[trigger] dst@[dst_start + j] == pixels@[src_start + j],
                forall|at: int|
                    0 <= at < done.len() && !(dst_start <= at < dst_start + k) ==> #[trigger] dst@[at]
                        == done[at],
            decreases row_bytes - k,
        {
            let byte: u8 = pixels[src_start + k];
            dst.set(dst_start + k, byte);
            k = k + 1;
        }
        proof {
            lemma_row_added(
                before,
                done,
                dst@,
                pixels@,
                offset as int,
                stride as int,
                row_bytes as int,
                row as int,
            );
        }
        row = row + 1;
    }
    true
}

proof fn lemma_row_fits(row: int, rows: int, width: int)
    requires
        0 <= row < rows,
        0 <= width,
    ensures
        0 <= row * width,
        row * width + width <= rows * width,
        row * width + width <= width * rows,
{
    assert(0 <= row * width && row * width + width <= rows * width) by (nonlinear_arith)
        requires
            0 <= row,
            row + 1 <= rows,
            0 <= width,
    ;
    assert(rows * width == width * rows) by (nonlinear_arith);
}

proof fn lemma_row_added(
    before: Seq<u8>,
    done: Seq<u8>,
    after: Seq<u8>,
    pixels: Seq<u8>,
    offset: int,
    stride: int,
    row_bytes: int,
    row: int,
)
    requires
        0 <= row,
        0 <= offset,
        0 < row_bytes <= stride,
        rows_written(before, done, pixels, offset, stride, row_bytes, row),
        after.len() == done.len(),
        offset + row * stride + stride <= before.len(),
        forall|j: int|
            0 <= j < row_bytes ==> #[trigger] after[offset + row * stride + j] == pixels[row * row_bytes
                + j],
        forall|at: int|
            0 <= at < done.len() && !(offset + row * stride <= at < offset + row * stride + row_bytes)
                ==> #[trigger] after[at] == done[at],
    ensures
        rows_written(before, after, pixels, offset, stride, row_bytes, row + 1),
{
    assert forall|r: int, k: int| 0 <= r < row + 1 && 0 <= k < row_bytes implies #[trigger] after[
        offset + r * stride + k] == pixels[r * row_bytes + k] by {
        if r < row {
            assert(r * stride + stride <= row * stride && 0 <= r * stride) by (nonlinear_arith)
                requires
                    0 <= r,
                    r + 1 <= row,
                    stride > 0,
            ;
            assert(after[offset + r * stride + k] == done[offset + r * stride + k]);
        }
    }
    assert forall|at: int|
        0 <= at < before.len() && (forall|r: int|
            0 <= r < row + 1 ==> !(#[trigger] in_row(at, offset, stride, row_bytes, r))) implies
        #[trigger] after[at] == before[at] by {
        assert(!in_row(at, offset, stride, row_bytes, row));
        assert(after[at] == done[at]);
    }
}

/// A capture that waits for its buffer, or for the next frame.
#[derive(Debug, Clone, Copy, PartialEq, Eq, Structural)]
pub struct PendingScreencopyFrame {
    pub frame: u64,
    pub output: u64,
    pub geometry: ScreencopyGeometry,
    pub overlay_cursor: bool,
    pub buffer: Option<u64>,
    pub copy_with_damage: bool,
}

/// What a copy request meets.
#[derive(Debug, Clone, Copy, PartialEq, Eq, Structural)]
pub enum CopyOutcome {
    /// No such capture is pending.
    Unknown,
    /// It has a buffer already: a protocol error.
    AlreadyUsed,
    /// The buffer cannot take it: a protocol error, and the capture is gone.
    InvalidBuffer,
    /// It is copied with the next frame.
    Queued,
}

/// Index of the first capture with the given id, or the number of captures.
pub open spec fn pending_index(pending: Seq<PendingScreencopyFrame>, frame: u64) -> int
    decreases pending.len(),
{
    if pending.len() == 0 {
        0
    } else if pending[0].frame == frame {
        0
    } else {
        1 + pending_index(pending.drop_first(), frame)
    }
}

proof fn lemma_pending_index(pending: Seq<PendingScreencopyFrame>, frame: u64, i: int)
    requires
        0 <= i <= pending.len(),
        forall|k: int| 0 <= k < i ==> (#[trigger] pending[k]).frame != frame,
        i < pending.len() ==> pending[i].frame == frame,
    ensures
        pending_index(pending, frame) == i,
    decreases i,
{
    if i > 0 {
        assert(pending[0].frame != frame);
        let rest = pending.drop_first();
        assert forall|k: int| 0 <= k < i - 1 implies (#[trigger] rest[k]).frame != frame by {
            assert(pending[k + 1].frame != frame);
        }
        lemma_pending_index(rest, frame, i - 1);
    }
}

fn find_pending(pending: &Vec<PendingScreencopyFrame>, frame: u64) -> (r: usize)
    ensures
        r == pending_index(pending@, frame),
        r <= pending.len(),
        r < pending.len() ==> pending@[r as int].frame == frame,
{
    let mut i: usize = 0;
    while i < pending.len() && pending[i].frame != frame
        invariant
            i <= pending.len(),
            forall|k: int| 0 <= k < i ==> (#[trigger] pending@[k]).frame != frame,
        decreases pending.len() - i,
    {
        i = i + 1;
    }
    proof {
        lemma_pending_index(pending@, frame, i as int);
    }
    i
}

/// Forget a capture.
pub fn drop_screencopy_frame(pending: &mut Vec<PendingScreencopyFrame>, frame: u64)
    ensures
        final(pending)@ == old(pending)@.filter(|p: PendingScreencopyFrame| p.frame != frame),
{
    let ghost before = pending@;
    let ghost keep = |p: PendingScreencopyFrame| p.frame != frame;
    let mut kept: Vec<PendingScreencopyFrame> = Vec::new();
    let mut i: usize = 0;
    proof {
        reveal(Seq::filter);
        assert(before.subrange(0, 0) =~= Seq::<PendingScreencopyFrame>::empty());
    }
    while i < pending.len()
        invariant
            i <= pending.len(),
            pending@ == before,
            keep == (|p: PendingScreencopyFrame| p.frame != frame),
            kept@ == before.subrange(0, i as int).filter(keep),
        decreases pending.len() - i,
    {
        proof {
            reveal(Seq::filter);
            let next = before.subrange(0, i + 1);
            assert(next.drop_last() =~= before.subrange(0, i as int));
            assert(next.last() == before[i as int]);
        }
        if pending[i].frame != frame {
            kept.push(pending[i]);
        }
        i = i + 1;
    }
    proof {
        assert(before.subrange(0, i as int) =~= before);
    }
    *pending = kept;
}

/// Whether `after` is `before` after a client handed over a buffer for a frame.
pub open spec fn copy_queued(
    before: Seq<PendingScreencopyFrame>,
    after: Seq<PendingScreencopyFrame>,
    frame: u64,
    buffer: u64,
    copy_with_damage: bool,
    valid: bool,
    r: CopyOutcome,
) -> bool {
    &&& {
        let i = pending_index(before, frame);
        if i >= before.len() {
            r == CopyOutcome::Unknown && after == before
        } else if before[i].buffer is Some {
            r == CopyOutcome::AlreadyUsed && after == before
        } else if !valid {
            &&& r == CopyOutcome::InvalidBuffer
            &&& after == before.filter(
                |p: PendingScreencopyFrame| p.frame != frame,
            )
        } else {
            &&& r == CopyOutcome::Queued
            &&& after == before.update(
                i,
                PendingScreencopyFrame {
                    buffer: Some(buffer),
                    copy_with_damage,
                    ..before[i]
                },
            )
        }
    }
}

/// The client offers a buffer for a capture; `valid` says whether it can take
/// it.
pub fn queue_screencopy_copy(
    pending: &mut Vec<PendingScreencopyFrame>,
    frame: u64,
    buffer: u64,
    copy_with_damage: bool,
    valid: bool,
) -> (r: CopyOutcome)
    ensures
        copy_queued(old(pending)@, final(pending)@, frame, buffer, copy_with_damage, valid, r),
{
    let i: usize = find_pending(pending, frame);
    if i >= pending.len() {
        return CopyOutcome::Unknown;
    }
    let mut entry = pending[i];
    if entry.buffer.is_some() {
        return CopyOutcome::AlreadyUsed;
    }
    if !valid {
        drop_screencopy_frame(pending, frame);
        return CopyOutcome::InvalidBuffer;
    }
    entry.buffer = Some(buffer);
    entry.copy_with_damage = copy_with_damage;
    pending.set(i, entry);
    CopyOutcome::Queued
}

/// Whether a capture can be served by a frame of `output`.
pub open spec fn is_ready(pending: PendingScreencopyFrame, output: u64) -> bool {
    pending.output == output && pending.buffer is Some
}

/// Whether `after` is `before` without the frames `r` that an output can fill now.
pub open spec fn ready_taken(
    before: Seq<PendingScreencopyFrame>,
    after: Seq<PendingScreencopyFrame>,
    output: u64,
    r: Seq<PendingScreencopyFrame>,
) -> bool {
    &&& r == before.filter(|p: PendingScreencopyFrame| is_ready(p, output))
    &&& after == before.filter(|p: PendingScreencopyFrame| !is_ready(p, output))
}

/// Take out the captures that a frame of `output` serves, oldest first. The
/// others stay, in order.
pub fn take_ready_screencopies(
    pending: &mut Vec<PendingScreencopyFrame>,
    output: u64,
) -> (r: Vec<PendingScreencopyFrame>)
    ensures
        ready_taken(old(pending)@, final(pending)@, output, r@),
{
    let ghost before = pending@;
    let ghost ready = |p: PendingScreencopyFrame| is_ready(p, output);
    let ghost waiting = |p: PendingScreencopyFrame| !is_ready(p, output);
    let mut taken: Vec<PendingScreencopyFrame> = Vec::new();
    let mut kept: Vec<PendingScreencopyFrame> = Vec::new();
    let mut i: usize = 0;
    proof {
        reveal(Seq::filter);
        assert(before.subrange(0, 0) =~= Seq::<PendingScreencopyFrame>::empty());
    }
    while i < pending.len()
        invariant
            i <= pending.len(),
            pending@ == before,
            ready == (|p: PendingScreencopyFrame| is_ready(p, output)),
            waiting == (|p: PendingScreencopyFrame| !is_ready(p, output)),
            taken@ == before.subrange(0, i as int).filter(ready),
            kept@ == before.subrange(0, i as int).filter(waiting),
        decreases pending.len() - i,
    {
        proof {
            reveal(Seq::filter);
            let next = before.subrange(0, i + 1);
            assert(next.drop_last() =~= before.subrange(0, i as int));
            assert(next.last() == before[i as int]);
        }
        let entry = pending[i];
        if entry.output == output && entry.buffer.is_some() {
            taken.push(entry);
        } else {
            kept.push(entry);
        }
        i = i + 1;
    }
    proof {
        assert(before.subrange(0, i as int) =~= before);
    }
    *pending = kept;
    taken
}

/// What the client is told at the end. The buffer is released in any case.
#[derive(Debug, Clone, Copy, PartialEq, Eq, Structural)]
pub enum CopyReply {
    /// The capture failed.
    Failed,
    /// It is ready, with its rows inverted; where asked for, all of it counts
    /// as damaged. The time is split in two halves.
    Ready { damage: bool, tv_sec_hi: u32, tv_sec_lo: u32 },
}

/// The reply to a capture that was rendered (or was not) at `secs`; only
/// frames of the second version of the protocol know damage.
pub fn copy_reply(written: bool, copy_with_damage: bool, version: u32, secs: u64) -> (r: CopyReply)
    ensures
        r == if written {
            CopyReply::Ready {
                damage: copy_with_damage && version >= 2,
                tv_sec_hi: (secs as int / 0x1_0000_0000) as u32,
                tv_sec_lo: (secs as int % 0x1_0000_0000) as u32,
            }
        } else {
            CopyReply::Failed
        },
{
    if !written {
        return CopyReply::Failed;
    }
    CopyReply::Ready {
        damage: copy_with_damage && version >= 2,
        tv_sec_hi: (secs / 0x1_0000_0000) as u32,
        tv_sec_lo: (secs % 0x1_0000_0000) as u32,
    }
}

/// A captured region never leaves the output.
pub proof fn captures_stay_on_the_output(region: Rect, output: Size)
    requires
        region.size.w >= 0,
        region.size.h >= 0,
        output.w >= 0,
        output.h >= 0,
        clipped(region, output).size.w > 0,
        clipped(region, output).size.h > 0,
        region.overlapping(Rect { loc: Point { x: 0, y: 0 }, size: output }),
    ensures
        ({
            let part = clipped(region, output);
            &&& 0 <= part.loc.x && part.right() <= output.w
            &&& 0 <= part.loc.y && part.bottom() <= output.h
        }),
{
}

/// Flipping a region twice gives it back, and a region within the buffer stays
/// within it.
pub proof fn flipping_twice_is_nothing(height: int, y: int, h: int)
    ensures
        flipped_y(height, flipped_y(height, y, h), h) == y,
        0 <= y && y + h <= height ==> 0 <= flipped_y(height, y, h) && flipped_y(height, y, h) + h
            <= height,
{
}

/// What is captured of a requested region is exactly what of it lies on the output.
pub proof fn what_is_captured_is_on_both(region: Rect, output: Size, x: int, y: int)
    requires
        output.w >= 0,
        output.h >= 0,
        region.loc.x + region.size.w <= i32::MAX,
        region.loc.y + region.size.h <= i32::MAX,
        part_of(output, Some(region)) is Some,
    ensures
        ({
            let part = part_of(output, Some(region))->0;
            (part.loc.x <= x < part.loc.x + part.size.w && part.loc.y <= y < part.loc.y
                + part.size.h) <==> (region.loc.x <= x < region.loc.x + region.size.w
                && region.loc.y <= y < region.loc.y + region.size.h && 0 <= x < output.w && 0 <= y
                < output.h)
        }),
{
}

/// Without a region the whole output is captured, as far as there is any.
pub proof fn the_whole_output_is_captured(output: Size)
    requires
        output.w > 0,
        output.h > 0,
    ensures
        part_of(output, None) is Some,
        part_of(output, None)->0.loc.x == 0,
        part_of(output, None)->0.loc.y == 0,
        part_of(output, None)->0.size == output,
{
}

/// Where a pixel of an area comes to lie when the area is turned: a quarter turn takes the
/// rows to columns, a half turn reverses both, and a flipped turn reverses the columns
/// first.
pub open spec fn turned_pixel(transform: Transform, area: Size, x: int, y: int) -> (int, int) {
    match transform {
        Transform::Normal => (x, y),
        Transform::Rotated90 => (area.h - 1 - y, x),
        Transform::Rotated180 => (area.w - 1 - x, area.h - 1 - y),
        Transform::Rotated270 => (y, area.w - 1 - x),
        Transform::Flipped => (area.w - 1 - x, y),
        Transform::Flipped90 => (area.h - 1 - y, area.w - 1 - x),
        Transform::Flipped180 => (x, area.h - 1 - y),
        Transform::Flipped270 => (y, x),
    }
}

/// A rectangle is turned with its pixels: one lies in it exactly where its turned place
/// lies in the turned rectangle.
pub proof fn a_rectangle_turns_with_its_pixels(
    transform: Transform,
    rect: Rect,
    area: Size,
    x: int,
    y: int,
)
    requires
        0 <= rect.loc.x,
        0 <= rect.size.w,
        rect.loc.x + rect.size.w <= area.w,
        0 <= rect.loc.y,
        0 <= rect.size.h,
        rect.loc.y + rect.size.h <= area.h,
    ensures
        ({
            let to = transform.turned_rect(rect, area);
            let (u, v) = turned_pixel(transform, area, x, y);
            (rect.loc.x <= x < rect.loc.x + rect.size.w && rect.loc.y <= y < rect.loc.y
                + rect.size.h) <==> (to.loc.x <= u < to.loc.x + to.size.w && to.loc.y <= v
                < to.loc.y + to.size.h)
        }),
{
}

/// A quarter turn forward and one back is nothing, and so is each flipped turn twice but
/// for the quarter turns, which take the half turn; an area keeps its pixels.
pub proof fn turns_are_undone(area: Size, x: int, y: int)
    ensures
        ({
            let turned = Transform::Rotated90.turned_size(area);
            let (u, v) = turned_pixel(Transform::Rotated90, area, x, y);
            turned_pixel(Transform::Rotated270, turned, u, v) == (x, y)
        }),
        ({
            let (u, v) = turned_pixel(Transform::Rotated180, area, x, y);
            turned_pixel(Transform::Rotated180, area, u, v) == (x, y)
        }),
        ({
            let (u, v) = turned_pixel(Transform::Flipped, area, x, y);
            turned_pixel(Transform::Flipped, area, u, v) == (x, y)
        }),
        ({
            let (u, v) = turned_pixel(Transform::Flipped180, area, x, y);
            turned_pixel(Transform::Flipped180, area, u, v) == (x, y)
        }),
        Transform::Rotated90.turned_size(area) == (Size { w: area.h, h: area.w }),
        Transform::Rotated180.turned_size(area) == area,
        Transform::Flipped.turned_size(area) == area,
{
}

/// What is read from the bottom up stands as far from the bottom as it did from the top.
pub proof fn reading_from_below_keeps_the_distance(height: int, y: int, h: int)
    ensures
        height - (flipped_y(height, y, h) + h) == y,
{
}

/// A client's buffer is taken only where it has the size and the format that it was told,
/// rows that are long enough, and room for all of them.
pub proof fn buffers_have_room(data: ShmBuffer, len: int, geometry: ScreencopyGeometry, row: int)
    requires
        buffer_fits(data, len, geometry),
        geometry.shm_stride == geometry.buffer_region.size.w * 4,
        0 <= row < data.height,
        data.stride >= 0,
    ensures
        data.argb8888,
        data.width == geometry.buffer_region.size.w,
        data.height == geometry.buffer_region.size.h,
        0 <= data.offset,
        data.offset + row * data.stride + 4 * data.width <= len,
{
    assert(row * data.stride + data.stride <= data.stride * data.height) by (nonlinear_arith)
        requires
            0 <= row < data.height,
            data.stride >= 0,
    ;
}

/// A frame with a fitting buffer is taken by the next frame of its own output, once, with
/// that buffer; one without a buffer, or of another output, waits on.
pub proof fn a_queued_copy_is_taken_once(
    before: Seq<PendingScreencopyFrame>,
    queued: Seq<PendingScreencopyFrame>,
    after: Seq<PendingScreencopyFrame>,
    frame: u64,
    buffer: u64,
    damage: bool,
    output: u64,
    taken: Seq<PendingScreencopyFrame>,
    i: int,
)
    requires
        copy_queued(before, queued, frame, buffer, damage, true, CopyOutcome::Queued),
        ready_taken(queued, after, output, taken),
        0 <= i < before.len(),
        before[i].frame == frame,
        forall|a: int, b: int|
            0 <= a < b < before.len() ==> (#[trigger] before[a]).frame != (
            #[trigger] before[b]).frame,
    ensures
        before[i].buffer is None,
        queued[i].buffer == Some(buffer),
        queued[i].copy_with_damage == damage,
        queued[i].output == before[i].output,
        before[i].output == output ==> taken.contains(queued[i]) && !after.contains(queued[i]),
        before[i].output != output ==> !taken.contains(queued[i]) && after.contains(queued[i]),
        forall|k: int|
            0 <= k < before.len() && k != i && before[k].buffer is None ==> after.contains(
                #[trigger] before[k],
            ),
{
    lemma_first_pending(before, frame);
    let at = pending_index(before, frame);
    assert(at == i) by {
        if at < i {
            assert(before[at].frame != before[i].frame);
        }
    }
    let ready = |p: PendingScreencopyFrame| is_ready(p, output);
    let waits = |p: PendingScreencopyFrame| !is_ready(p, output);
    if before[i].output == output {
        queued.lemma_filter_contains(ready, i);
        if after.contains(queued[i]) {
            queued.lemma_filter_pred(waits, after.index_of(queued[i]));
        }
    } else {
        queued.lemma_filter_contains(waits, i);
        if taken.contains(queued[i]) {
            queued.lemma_filter_pred(ready, taken.index_of(queued[i]));
        }
    }
    assert forall|k: int| 0 <= k < before.len() && k != i && before[k].buffer is None implies after.contains(
        #[trigger] before[k]) by {
        assert(queued[k] == before[k]);
        queued.lemma_filter_contains(waits, k);
    }
}

proof fn lemma_first_pending(pending: Seq<PendingScreencopyFrame>, frame: u64)
    ensures
        ({
            let k = pending_index(pending, frame);
            &&& 0 <= k <= pending.len()
            &&& k < pending.len() ==> pending[k].frame == frame
            &&& forall|j: int| 0 <= j < k ==> (#[trigger] pending[j]).frame != frame
        }),
    decreases pending.len(),
{
    if pending.len() > 0 && pending[0].frame != frame {
        let rest = pending.drop_first();
        lemma_first_pending(rest, frame);
        assert forall|j: int| 0 <= j < pending_index(pending, frame) implies (
        #[trigger] pending[j]).frame != frame by {
            if j > 0 {
                assert(pending[j] == rest[j - 1]);
            }
        }
    }
}

/// A capture takes four bytes a pixel, keeps what was asked for and the region of the
/// buffer that it comes to, and is none where that region is empty.
pub proof fn a_capture_takes_four_bytes_a_pixel<G: Fn(Size) -> Size, H: Fn(Rect) -> Rect>(
    render_size: Size,
    transform: Transform,
    logical: Size,
    part: Rect,
    to_buffer_size: G,
    to_buffer_region: H,
    r: ScreencopyGeometry,
)
    requires
        captured_part(
            render_size,
            transform,
            logical,
            part,
            to_buffer_size,
            to_buffer_region,
            Some(r),
        ),
    ensures
        r.shm_stride == 4 * r.buffer_region.size.w,
        r.buffer_region.size.w > 0,
        r.buffer_region.size.h > 0,
        r.logical_region == part,
        r.render_size == render_size,
        r.logical_output_size == logical,
        to_buffer_region.ensures((transform.turned_rect(part, logical),), r.buffer_region),
{
}

} // verus!
