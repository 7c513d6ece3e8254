//! Rectangles with parts cut out of them.
use crate::geometry::{
    max_i32, max_int, min_i32, min_int, saturated_i32, saturating_add_i32, Point, Rect, Size,
};
use vstd::prelude::*;

verus! {

/// Whether the extents of a rectangle are not negative.
pub open spec fn is_proper(r: Rect) -> bool {
    r.size.w >= 0 && r.size.h >= 0
}

pub open spec fn all_proper(rects: Seq<Rect>) -> bool {
    forall|i: int| 0 <= i < rects.len() ==> is_proper(#[trigger] rects[i])
}

/// Whether one of the rectangles covers the pixel.
pub open spec fn covered(rects: Seq<Rect>, x: int, y: int) -> bool {
    exists|i: int| 0 <= i < rects.len() && (#[trigger] rects[i]).covers(x, y)
}

/// Whether no two of the rectangles cover the same pixel.
pub open spec fn disjoint(rects: Seq<Rect>) -> bool {
    forall|i: int, j: int, x: int, y: int|
        0 <= i < j < rects.len() && #[trigger] rects[i].covers(x, y)
            ==> !#[trigger] rects[j].covers(x, y)
}

/// The rectangle between two corners; the second one is just outside.
pub open spec fn between(left: int, top: int, right: int, bottom: int) -> Rect {
    Rect {
        loc: Point { x: left as i32, y: top as i32 },
        size: Size { w: (right - left) as i32, h: (bottom - top) as i32 },
    }
}

/// A rectangle as a list, which is empty where it has no extent.
pub open spec fn unless_empty(r: Rect) -> Seq<Rect> {
    if r.size.w == 0 || r.size.h == 0 { Seq::empty() } else { seq![r] }
}

/// What is left of `item` without `other`, which overlaps it: the parts above,
/// left of, right of and below what they share.
pub open spec fn parts_outside(item: Rect, other: Rect) -> Seq<Rect> {
    let item_right = saturated_i32(item.right());
    let item_bottom = saturated_i32(item.bottom());
    let left = max_int(item.loc.x as int, other.loc.x as int);
    let top = max_int(item.loc.y as int, other.loc.y as int);
    let right = min_int(item_right, saturated_i32(other.right()));
    let bottom = min_int(item_bottom, saturated_i32(other.bottom()));
    unless_empty(between(item.loc.x as int, item.loc.y as int, item_right, top)) + unless_empty(
        between(item.loc.x as int, top, left, bottom),
    ) + unless_empty(between(right, top, item_right, bottom)) + unless_empty(
        between(item.loc.x as int, bottom, item_right, item_bottom),
    )
}

/// The rectangles that `other` leaves whole.
pub open spec fn untouched(items: Seq<Rect>, other: Rect) -> Seq<Rect>
    decreases items.len(),
{
    if items.len() == 0 {
        Seq::empty()
    } else {
        let rest = untouched(items.drop_last(), other);
        if items.last().overlapping(other) { rest } else { rest.push(items.last()) }
    }
}

/// The parts that `other` leaves of those it cuts.
pub open spec fn cut_parts(items: Seq<Rect>, other: Rect) -> Seq<Rect>
    decreases items.len(),
{
    if items.len() == 0 {
        Seq::empty()
    } else {
        let rest = cut_parts(items.drop_last(), other);
        if items.last().overlapping(other) {
            rest + parts_outside(items.last(), other)
        } else {
            rest
        }
    }
}

/// What is left of a rectangle after others were cut out of it, one by one.
pub open spec fn rects_left(rect: Rect, others: Seq<Rect>) -> Seq<Rect>
    decreases others.len(),
{
    if others.len() == 0 {
        seq![rect]
    } else {
        let before = rects_left(rect, others.drop_last());
        untouched(before, others.last()) + cut_parts(before, others.last())
    }
}

fn push_unless_empty(parts: &mut Vec<Rect>, left: i32, top: i32, right: i32, bottom: i32)
    requires
        left <= right,
        top <= bottom,
        right - left <= i32::MAX,
        bottom - top <= i32::MAX,
    ensures
        final(parts)@ == old(parts)@ + unless_empty(
            between(left as int, top as int, right as int, bottom as int),
        ),
{
    let ghost before = parts@;
    let w: i32 = (right as i64 - left as i64) as i32;
    let h: i32 = (bottom as i64 - top as i64) as i32;
    if w != 0 && h != 0 {
        parts.push(Rect { loc: Point { x: left, y: top }, size: Size { w, h } });
    }
    proof {
        assert(parts@ =~= before + unless_empty(
            between(left as int, top as int, right as int, bottom as int),
        ));
    }
}

fn push_parts_outside(parts: &mut Vec<Rect>, item: Rect, other: Rect)
    requires
        is_proper(item),
        is_proper(other),
        item.overlapping(other),
    ensures
        final(parts)@ == old(parts)@ + parts_outside(item, other),
{
    let ghost before = parts@;
    let item_right: i32 = saturating_add_i32(item.loc.x, item.size.w);
    let item_bottom: i32 = saturating_add_i32(item.loc.y, item.size.h);
    let left: i32 = max_i32(item.loc.x, other.loc.x);
    let top: i32 = max_i32(item.loc.y, other.loc.y);
    let right: i32 = min_i32(item_right, saturating_add_i32(other.loc.x, other.size.w));
    let bottom: i32 = min_i32(item_bottom, saturating_add_i32(other.loc.y, other.size.h));
    push_unless_empty(parts, item.loc.x, item.loc.y, item_right, top);
    push_unless_empty(parts, item.loc.x, top, left, bottom);
    push_unless_empty(parts, right, top, item_right, bottom);
    push_unless_empty(parts, item.loc.x, bottom, item_right, item_bottom);
    proof {
        assert(parts@ =~= before + parts_outside(item, other));
    }
}

pub(crate) proof fn lemma_covered_concat(a: Seq<Rect>, b: Seq<Rect>, x: int, y: int)
    ensures
        covered(a + b, x, y) <==> covered(a, x, y) || covered(b, x, y),
{
    let both = a + b;
    if covered(a, x, y) {
        let i = choose|i: int| 0 <= i < a.len() && (#[trigger] a[i]).covers(x, y);
        assert(both[i].covers(x, y));
    }
    if covered(b, x, y) {
        let i = choose|i: int| 0 <= i < b.len() && (#[trigger] b[i]).covers(x, y);
        assert(both[a.len() + i].covers(x, y));
    }
    if covered(both, x, y) {
        let i = choose|i: int| 0 <= i < both.len() && (#[trigger] both[i]).covers(x, y);
        if i < a.len() {
            assert(a[i].covers(x, y));
        } else {
            assert(b[i - a.len()].covers(x, y));
        }
    }
}

proof fn lemma_disjoint_concat(a: Seq<Rect>, b: Seq<Rect>)
    requires
        disjoint(a),
        disjoint(b),
        forall|x: int, y: int| !(#[trigger] covered(a, x, y) && covered(b, x, y)),
    ensures
        disjoint(a + b),
{
    let both = a + b;
    assert forall|i: int, j: int, x: int, y: int|
        0 <= i < j < both.len() && #[trigger] both[i].covers(x, y) implies !#[trigger] both[
    j].covers(x, y) by {
        if j < a.len() {
            assert(both[i] == a[i] && both[j] == a[j]);
        } else if i >= a.len() {
            assert(both[i] == b[i - a.len()] && both[j] == b[j - a.len()]);
        } else if both[j].covers(x, y) {
            assert(a[i].covers(x, y));
            assert(b[j - a.len()].covers(x, y));
            assert(covered(a, x, y) && covered(b, x, y));
        }
    }
}

proof fn lemma_unless_empty(left: int, top: int, right: int, bottom: int, x: int, y: int)
    requires
        i32::MIN <= left <= right <= i32::MAX,
        i32::MIN <= top <= bottom <= i32::MAX,
        right - left <= i32::MAX,
        bottom - top <= i32::MAX,
    ensures
        covered(unless_empty(between(left, top, right, bottom)), x, y) <==> left <= x < right && top
            <= y < bottom,
{
    let r = between(left, top, right, bottom);
    let list = unless_empty(r);
    if left <= x < right && top <= y < bottom {
        assert(list[0].covers(x, y));
    }
}

proof fn lemma_four_parts(a: Seq<Rect>, b: Seq<Rect>, c: Seq<Rect>, d: Seq<Rect>, x: int, y: int)
    ensures
        covered(a + b, x, y) <==> covered(a, x, y) || covered(b, x, y),
        covered(a + b + c, x, y) <==> covered(a, x, y) || covered(b, x, y) || covered(c, x, y),
        covered(a + b + c + d, x, y) <==> covered(a, x, y) || covered(b, x, y) || covered(c, x, y)
            || covered(d, x, y),
{
    lemma_covered_concat(a, b, x, y);
    lemma_covered_concat(a + b, c, x, y);
    lemma_covered_concat(a + b + c, d, x, y);
}

/// The parts cover what `item` covers and `other` does not, each pixel once.
proof fn lemma_parts_outside(item: Rect, other: Rect)
    requires
        is_proper(item),
        is_proper(other),
        item.overlapping(other),
    ensures
        forall|x: int, y: int| #[trigger]
            covered(parts_outside(item, other), x, y) <==> item.covers(x, y) && !other.covers(x, y),
        disjoint(parts_outside(item, other)),
        all_proper(parts_outside(item, other)),
{
    let item_right = saturated_i32(item.right());
    let item_bottom = saturated_i32(item.bottom());
    let left = max_int(item.loc.x as int, other.loc.x as int);
    let top = max_int(item.loc.y as int, other.loc.y as int);
    let right = min_int(item_right, saturated_i32(other.right()));
    let bottom = min_int(item_bottom, saturated_i32(other.bottom()));
    let ix = item.loc.x as int;
    let iy = item.loc.y as int;
    let a = unless_empty(between(ix, iy, item_right, top));
    let b = unless_empty(between(ix, top, left, bottom));
    let c = unless_empty(between(right, top, item_right, bottom));
    let d = unless_empty(between(ix, bottom, item_right, item_bottom));
    let parts = parts_outside(item, other);
    assert(parts == a + b + c + d);
    assert forall|x: int, y: int|
        {
            &&& #[trigger] covered(a, x, y) <==> (ix <= x < item_right && iy <= y < top)
            &&& covered(b, x, y) <==> (ix <= x < left && top <= y < bottom)
            &&& covered(c, x, y) <==> (right <= x < item_right && top <= y < bottom)
            &&& covered(d, x, y) <==> (ix <= x < item_right && bottom <= y < item_bottom)
        } by {
        lemma_unless_empty(ix, iy, item_right, top, x, y);
        lemma_unless_empty(ix, top, left, bottom, x, y);
        lemma_unless_empty(right, top, item_right, bottom, x, y);
        lemma_unless_empty(ix, bottom, item_right, item_bottom, x, y);
    }
    assert forall|x: int, y: int| #[trigger] covered(parts, x, y) <==> item.covers(x, y)
        && !other.covers(x, y) by {
        lemma_four_parts(a, b, c, d, x, y);
    }
    lemma_disjoint_concat(a, b);
    assert forall|x: int, y: int| !(#[trigger] covered(a + b, x, y) && covered(c, x, y)) by {
        lemma_four_parts(a, b, c, d, x, y);
    }
    lemma_disjoint_concat(a + b, c);
    assert forall|x: int, y: int| !(#[trigger] covered(a + b + c, x, y) && covered(d, x, y)) by {
        lemma_four_parts(a, b, c, d, x, y);
    }
    lemma_disjoint_concat(a + b + c, d);
}

proof fn lemma_cut(items: Seq<Rect>, other: Rect)
    requires
        all_proper(items),
        is_proper(other),
        disjoint(items),
    ensures
        ({
            let whole = untouched(items, other);
            let parts = cut_parts(items, other);
            &&& all_proper(whole)
            &&& all_proper(parts)
            &&& disjoint(whole)
            &&& disjoint(parts)
            &&& forall|x: int, y: int| #[trigger]
                covered(whole, x, y) ==> covered(items, x, y) && !other.covers(x, y)
            &&& forall|x: int, y: int| #[trigger]
                covered(parts, x, y) ==> covered(items, x, y) && !other.covers(x, y)
            &&& forall|x: int, y: int| #[trigger]
                covered(items, x, y) && !other.covers(x, y) ==> covered(whole, x, y) || covered(
                    parts,
                    x,
                    y,
                )
            &&& forall|x: int, y: int| !(#[trigger] covered(whole, x, y) && covered(parts, x, y))
        }),
    decreases items.len(),
{
    if items.len() > 0 {
        let rest = items.drop_last();
        let last = items.last();
        assert(items =~= rest + seq![last]);
        assert forall|i: int| 0 <= i < rest.len() implies is_proper(#[trigger] rest[i]) by {
            assert(rest[i] == items[i]);
        }
        assert(is_proper(items[items.len() - 1]));
        assert forall|i: int, j: int, x: int, y: int|
            0 <= i < j < rest.len() && #[trigger] rest[i].covers(x, y) implies !#[trigger] rest[
        j].covers(x, y) by {
            assert(rest[i] == items[i] && rest[j] == items[j]);
        }
        lemma_cut(rest, other);
        let whole = untouched(rest, other);
        let parts = cut_parts(rest, other);
        assert forall|x: int, y: int| true implies {
            &&& #[trigger] covered(items, x, y) <==> covered(rest, x, y) || last.covers(x, y)
            &&& !(#[trigger] covered(rest, x, y) && last.covers(x, y))
            &&& covered(seq![last], x, y) <==> last.covers(x, y)
        } by {
            lemma_covered_concat(rest, seq![last], x, y);
            assert(seq![last][0] == last);
            if last.covers(x, y) {
                assert(covered(seq![last], x, y));
                if covered(rest, x, y) {
                    let i = choose|i: int| 0 <= i < rest.len() && (#[trigger] rest[i]).covers(x, y);
                    assert(items[i].covers(x, y));
                    assert(items[items.len() - 1].covers(x, y));
                }
            }
        }
        if last.overlapping(other) {
            let outside = parts_outside(last, other);
            lemma_parts_outside(last, other);
            assert forall|x: int, y: int| !(#[trigger] covered(parts, x, y) && covered(
                outside,
                x,
                y,
            )) by {
                assert(covered(rest, x, y) || !covered(rest, x, y));
            }
            lemma_disjoint_concat(parts, outside);
            assert forall|x: int, y: int| true implies (#[trigger] covered(parts + outside, x, y)
                <==> covered(parts, x, y) || covered(outside, x, y)) by {
                lemma_covered_concat(parts, outside, x, y);
            }
            assert forall|x: int, y: int| #[trigger]
                covered(items, x, y) && !other.covers(x, y) implies covered(whole, x, y) || covered(
                parts + outside,
                x,
                y,
            ) by {
                assert(covered(rest, x, y) || last.covers(x, y));
                assert(covered(outside, x, y) || !covered(outside, x, y));
            }
            assert forall|x: int, y: int| #[trigger] covered(parts + outside, x, y) implies covered(
                items,
                x,
                y,
            ) && !other.covers(x, y) by {
                assert(covered(rest, x, y) || !covered(rest, x, y));
            }
            assert forall|x: int, y: int| !(#[trigger] covered(whole, x, y) && covered(
                parts + outside,
                x,
                y,
            )) by {
                assert(covered(rest, x, y) || !covered(rest, x, y));
            }
        } else {
            let one = seq![last];
            assert(whole.push(last) =~= whole + one);
            lemma_apart(last, other);
            assert forall|x: int, y: int| !(#[trigger] covered(whole, x, y) && covered(one, x, y)) by {
                assert(covered(rest, x, y) || !covered(rest, x, y));
            }
            lemma_disjoint_concat(whole, one);
            assert forall|x: int, y: int| true implies (#[trigger] covered(whole + one, x, y) <==> covered(
                whole,
                x,
                y,
            ) || last.covers(x, y)) by {
                lemma_covered_concat(whole, one, x, y);
                assert(covered(rest, x, y) || !covered(rest, x, y));
            }
            assert forall|x: int, y: int| #[trigger] covered(whole + one, x, y) implies covered(
                items,
                x,
                y,
            ) && !other.covers(x, y) by {
                assert(covered(rest, x, y) || !covered(rest, x, y));
            }
            assert forall|x: int, y: int| #[trigger] covered(parts, x, y) implies covered(
                items,
                x,
                y,
            ) && !other.covers(x, y) by {
                assert(covered(rest, x, y));
            }
            assert forall|x: int, y: int| #[trigger]
                covered(items, x, y) && !other.covers(x, y) implies covered(whole + one, x, y)
                || covered(parts, x, y) by {
                assert(covered(rest, x, y) || last.covers(x, y));
            }
            assert forall|x: int, y: int| !(#[trigger] covered(whole + one, x, y) && covered(
                parts,
                x,
                y,
            )) by {
                assert(covered(rest, x, y) || !covered(rest, x, y));
            }
        }
    }
}

/// Rectangles that do not overlap share no pixel.
proof fn lemma_apart(a: Rect, b: Rect)
    requires
        !a.overlapping(b),
    ensures
        forall|x: int, y: int| !(#[trigger] a.covers(x, y) && b.covers(x, y)),
{
}

/// Cutting rectangles out of another one leaves exactly the pixels of that one
/// that none of the others covers, each of them once.
pub proof fn what_is_left_is_what_is_not_covered(rect: Rect, others: Seq<Rect>)
    requires
        is_proper(rect),
        all_proper(others),
    ensures
        forall|x: int, y: int| #[trigger]
            covered(rects_left(rect, others), x, y) <==> rect.covers(x, y) && !covered(
                others,
                x,
                y,
            ),
        disjoint(rects_left(rect, others)),
        all_proper(rects_left(rect, others)),
    decreases others.len(),
{
    let left = rects_left(rect, others);
    if others.len() == 0 {
        assert(left == seq![rect]);
        assert forall|x: int, y: int| #[trigger] covered(left, x, y) <==> rect.covers(x, y)
            && !covered(others, x, y) by {
            if rect.covers(x, y) {
                assert(left[0].covers(x, y));
            }
        }
    } else {
        let rest = others.drop_last();
        let other = others.last();
        assert(others =~= rest + seq![other]);
        assert forall|i: int| 0 <= i < rest.len() implies is_proper(#[trigger] rest[i]) by {
            assert(rest[i] == others[i]);
        }
        assert(is_proper(others[others.len() - 1]));
        what_is_left_is_what_is_not_covered(rect, rest);
        let before = rects_left(rect, rest);
        lemma_cut(before, other);
        let whole = untouched(before, other);
        let parts = cut_parts(before, other);
        lemma_disjoint_concat(whole, parts);
        assert forall|x: int, y: int| #[trigger] covered(left, x, y) <==> rect.covers(x, y)
            && !covered(others, x, y) by {
            lemma_covered_concat(whole, parts, x, y);
            lemma_covered_concat(rest, seq![other], x, y);
            assert(seq![other][0] == other);
            assert(covered(seq![other], x, y) <==> other.covers(x, y)) by {
                if other.covers(x, y) {
                    assert(seq![other][0].covers(x, y));
                }
            }
            assert(covered(before, x, y) <==> rect.covers(x, y) && !covered(rest, x, y));
        }
    }
}

/// Cut rectangles out of another one.
pub fn subtract_rects(rect: Rect, others: &Vec<Rect>) -> (r: Vec<Rect>)
    requires
        is_proper(rect),
        all_proper(others@),
    ensures
        r@ == rects_left(rect, others@),
        forall|x: int, y: int| #[trigger]
            covered(r@, x, y) <==> rect.covers(x, y) && !covered(others@, x, y),
        disjoint(r@),
        all_proper(r@),
{
    let mut left: Vec<Rect> = Vec::new();
    left.push(rect);
    let mut n: usize = 0;
    proof {
        assert(others@.subrange(0, 0) =~= Seq::<Rect>::empty());
        assert(left@ =~= seq![rect]);
    }
    while n < others.len()
        invariant
            n <= others.len(),
            is_proper(rect),
            all_proper(others@),
            left@ == rects_left(rect, others@.subrange(0, n as int)),
        decreases others.len() - n,
    {
        let other = others[n];
        let ghost done = others@.subrange(0, n as int);
        let ghost items = left@;
        proof {
            assert(all_proper(done));
            what_is_left_is_what_is_not_covered(rect, done);
            let next = others@.subrange(0, n + 1);
            assert(next.drop_last() =~= done);
            assert(next.last() == other);
        }
        let mut whole: Vec<Rect> = Vec::new();
        let mut parts: Vec<Rect> = Vec::new();
        let mut i: usize = 0;
        proof {
            assert(items.subrange(0, 0) =~= Seq::<Rect>::empty());
        }
        while i < left.len()
            invariant
                i <= left.len(),
                left@ == items,
                all_proper(items),
                is_proper(other),
                whole@ == untouched(items.subrange(0, i as int), other),
                parts@ == cut_parts(items.subrange(0, i as int), other),
            decreases left.len() - i,
        {
            proof {
                let next = items.subrange(0, i + 1);
                assert(next.drop_last() =~= items.subrange(0, i as int));
                assert(next.last() == items[i as int]);
            }
            let item = left[i];
            if item.overlaps(&other) {
                push_parts_outside(&mut parts, item, other);
            } else {
                whole.push(item);
            }
            i = i + 1;
        }
        proof {
            assert(items.subrange(0, i as int) =~= items);
        }
        whole.append(&mut parts);
        left = whole;
        n = n + 1;
    }
    proof {
        assert(others@.subrange(0, n as int) =~= others@);
        what_is_left_is_what_is_not_covered(rect, others@);
    }
    left
}

} // verus!
