//! Window borders: where they run, what hides them, and which are highlighted.
use crate::geometry::{fits_i32, Point, Rect, Size};
use crate::region::{
    all_proper, covered, is_proper, lemma_covered_concat, rects_left, subtract_rects, what_is_left_is_what_is_not_covered,
};
use vstd::prelude::*;
use vstd::std_specs::cmp::PartialEqSpec;

verus! {

/// Whether the strips of a border of width `bw` round `geo` stay within the
/// coordinates.
pub open spec fn strips_in_range(geo: Rect, bw: i32) -> bool {
    bw > 0 ==> {
        &&& fits_i32(geo.loc.x - bw)
        &&& fits_i32(geo.loc.y - bw)
        &&& fits_i32(geo.size.w + 2 * bw)
        &&& geo.in_range()
    }
}

/// Whether `geo` with a border of width `bw` stays within the coordinates.
pub open spec fn expanded_in_range(geo: Rect, bw: i32) -> bool {
    bw > 0 ==> {
        &&& fits_i32(geo.loc.x - bw)
        &&& fits_i32(geo.loc.y - bw)
        &&& fits_i32(geo.size.w + 2 * bw)
        &&& fits_i32(geo.size.h + 2 * bw)
    }
}

pub open spec fn border_in_range(geo: Rect, bw: i32) -> bool {
    strips_in_range(geo, bw) && expanded_in_range(geo, bw)
}

/// The four strips of a border: above, below, left and right of the window.
/// The first two take in the corners.
pub open spec fn strips_of(geo: Rect, bw: i32) -> Seq<Rect> {
    let (x, y, w, h) = (geo.loc.x, geo.loc.y, geo.size.w, geo.size.h);
    seq![
        Rect {
            loc: Point { x: (x - bw) as i32, y: (y - bw) as i32 },
            size: Size { w: (w + 2 * bw) as i32, h: bw },
        },
        Rect {
            loc: Point { x: (x - bw) as i32, y: (y + h) as i32 },
            size: Size { w: (w + 2 * bw) as i32, h: bw },
        },
        Rect { loc: Point { x: (x - bw) as i32, y }, size: Size { w: bw, h } },
        Rect { loc: Point { x: (x + w) as i32, y }, size: Size { w: bw, h } },
    ]
}

fn border_rectangles(geo: Rect, bw: i32) -> (r: Vec<Rect>)
    requires
        bw > 0,
        strips_in_range(geo, bw),
    ensures
        r@ == strips_of(geo, bw),
{
    let x: i32 = geo.loc.x;
    let y: i32 = geo.loc.y;
    let w: i32 = geo.size.w;
    let h: i32 = geo.size.h;
    let outer_w: i32 = (w as i64 + 2 * (bw as i64)) as i32;
    let left: i32 = x - bw;
    let above: i32 = y - bw;
    let r = vec![
        Rect { loc: Point { x: left, y: above }, size: Size { w: outer_w, h: bw } },
        Rect { loc: Point { x: left, y: y + h }, size: Size { w: outer_w, h: bw } },
        Rect { loc: Point { x: left, y }, size: Size { w: bw, h } },
        Rect { loc: Point { x: x + w, y }, size: Size { w: bw, h } },
    ];
    proof {
        assert(r@ =~= strips_of(geo, bw));
    }
    r
}

/// `geo` and its border.
pub open spec fn expanded(geo: Rect, bw: i32) -> Rect {
    if bw <= 0 {
        geo
    } else {
        Rect {
            loc: Point { x: (geo.loc.x - bw) as i32, y: (geo.loc.y - bw) as i32 },
            size: Size { w: (geo.size.w + 2 * bw) as i32, h: (geo.size.h + 2 * bw) as i32 },
        }
    }
}

pub fn expand_by_border(geo: Rect, bw: i32) -> (r: Rect)
    requires
        expanded_in_range(geo, bw),
    ensures
        r == expanded(geo, bw),
{
    if bw <= 0 {
        return geo;
    }
    Rect {
        loc: Point { x: geo.loc.x - bw, y: geo.loc.y - bw },
        size: Size {
            w: (geo.size.w as i64 + 2 * (bw as i64)) as i32,
            h: (geo.size.h as i64 + 2 * (bw as i64)) as i32,
        },
    }
}

/// The strips of a window's border; none where it has no width.
pub open spec fn border_strips_of(geo: Rect, bw: i32) -> Seq<Rect> {
    if bw <= 0 { Seq::empty() } else { strips_of(geo, bw) }
}

/// The strips of a window's border, before what other windows cover of them is
/// cut out.
pub fn border_strips(window_geo: Rect, bw: i32) -> (r: Vec<Rect>)
    requires
        strips_in_range(window_geo, bw),
    ensures
        r@ == border_strips_of(window_geo, bw),
{
    if bw <= 0 {
        return Vec::new();
    }
    border_rectangles(window_geo, bw)
}

pub open spec fn any_overlaps(rects: Seq<Rect>, other: Rect) -> bool {
    exists|i: int| 0 <= i < rects.len() && (#[trigger] rects[i]).overlapping(other)
}

/// Whether a shell surface lies over a window's border.
pub fn window_border_overlaps_layer(window_geo: Rect, layer_geo: Rect, bw: i32) -> (r: bool)
    requires
        strips_in_range(window_geo, bw),
    ensures
        r == any_overlaps(border_strips_of(window_geo, bw), layer_geo),
{
    let strips = border_strips(window_geo, bw);
    let mut i: usize = 0;
    while i < strips.len()
        invariant
            i <= strips.len(),
            strips@ == border_strips_of(window_geo, bw),
            forall|k: int| 0 <= k < i ==> !(#[trigger] strips@[k]).overlapping(layer_geo),
        decreases strips.len() - i,
    {
        if strips[i].overlaps(&layer_geo) {
            return true;
        }
        i = i + 1;
    }
    false
}

/// Whether one of the shown windows has a border that one of the shown shell
/// surfaces lies over.
pub open spec fn layer_over_border(
    windows: Seq<Option<Rect>>,
    layers: Seq<Option<Rect>>,
    bw: i32,
) -> bool {
    exists|l: int, w: int|
        0 <= l < layers.len() && 0 <= w < windows.len() && (#[trigger] layers[l]) is Some && (
        #[trigger] windows[w]) is Some && any_overlaps(
            border_strips_of(windows[w]->0, bw),
            layers[l]->0,
        )
}

/// Whether a top or overlay surface actually lies over a border. A panel that
/// reserves its own strip does not hide borders by being there.
pub fn has_layer_surface_overlapping_borders(
    windows: &Vec<Option<Rect>>,
    layers: &Vec<Option<Rect>>,
    bw: i32,
) -> (r: bool)
    requires
        forall|i: int|
            0 <= i < windows.len() ==> ((#[trigger] windows@[i]) is Some ==> strips_in_range(
                windows@[i]->0,
                bw,
            )),
    ensures
        r == layer_over_border(windows@, layers@, bw),
{
    let mut l: usize = 0;
    while l < layers.len()
        invariant
            l <= layers.len(),
            forall|i: int|
                0 <= i < windows.len() ==> ((#[trigger] windows@[i]) is Some ==> strips_in_range(
                    windows@[i]->0,
                    bw,
                )),
            forall|k: int, w: int|
                0 <= k < l && 0 <= w < windows.len() && (#[trigger] layers@[k]) is Some && (
                #[trigger] windows@[w]) is Some ==> !any_overlaps(
                    border_strips_of(windows@[w]->0, bw),
                    layers@[k]->0,
                ),
        decreases layers.len() - l,
    {
        if let Some(layer_geo) = layers[l] {
            let mut w: usize = 0;
            while w < windows.len()
                invariant
                    w <= windows.len(),
                    l < layers.len(),
                    layers@[l as int] == Some(layer_geo),
                    forall|i: int|
                        0 <= i < windows.len() ==> ((#[trigger] windows@[i]) is Some
                            ==> strips_in_range(windows@[i]->0, bw)),
                    forall|k: int|
                        0 <= k < w && (#[trigger] windows@[k]) is Some ==> !any_overlaps(
                            border_strips_of(windows@[k]->0, bw),
                            layer_geo,
                        ),
                decreases windows.len() - w,
            {
                if let Some(window_geo) = windows[w] {
                    if window_border_overlaps_layer(window_geo, layer_geo, bw) {
                        proof {
                            assert(layers@[l as int] is Some && windows@[w as int] is Some);
                        }
                        return true;
                    }
                }
                w = w + 1;
            }
        }
        l = l + 1;
    }
    false
}

/// Whether a window takes part in a swap: it is the dragged one or the one it
/// would be swapped with.
pub fn root_is_swap_highlighted<T: PartialEq>(
    root: &T,
    dragged_root: Option<&T>,
    target_root: Option<&T>,
) -> (r: bool)
    requires
        T::obeys_eq_spec(),
    ensures
        r == ((dragged_root is Some && dragged_root->0.eq_spec(root)) || (target_root is Some
            && target_root->0.eq_spec(root))),
{
    let dragged = match dragged_root {
        Some(dragged) => *dragged == *root,
        None => false,
    };
    let target = match target_root {
        Some(target) => *target == *root,
        None => false,
    };
    dragged || target
}

/// A window of the scene, as far as its border goes.
#[derive(Debug, Clone, Copy, PartialEq, Eq, Structural)]
pub struct BorderWindow {
    pub geometry: Option<Rect>,
    pub root: Option<u64>,
    /// The window's own surface, where it is a Wayland one.
    pub toplevel: Option<u64>,
    pub floating: bool,
}

/// The border of one window, before what covers it is cut out.
#[derive(Debug)]
pub struct WindowBorder {
    /// The window that the border runs round.
    pub geometry: Rect,
    /// The floating windows in front, with their borders.
    pub occluders: Vec<Rect>,
    /// Drawn in the colour of the focused window.
    pub highlighted: bool,
}

/// The floating windows of `windows[from..]` that are shown, with their
/// borders.
pub open spec fn occluders_from(windows: Seq<BorderWindow>, from: int, bw: i32) -> Seq<Rect>
    decreases windows.len() - from,
{
    if from >= windows.len() {
        Seq::empty()
    } else {
        let rest = occluders_from(windows, from + 1, bw);
        let w = windows[from];
        if w.root is Some && w.floating && w.geometry is Some {
            seq![expanded(w.geometry->0, bw)] + rest
        } else {
            rest
        }
    }
}

/// Whether a window's border is drawn as that of the focused one.
pub open spec fn is_highlighted(
    window: BorderWindow,
    focused: Option<u64>,
    dragged: Option<u64>,
    target: Option<u64>,
) -> bool {
    ||| window.toplevel is Some && window.toplevel == focused
    ||| window.root is Some && (window.root == dragged || window.root == target)
}

/// Whether `border` is that of window number `i`, which is shown.
pub open spec fn is_border_of(
    border: WindowBorder,
    windows: Seq<BorderWindow>,
    i: int,
    bw: i32,
    focused: Option<u64>,
    dragged: Option<u64>,
    target: Option<u64>,
) -> bool {
    &&& windows[i].geometry == Some(border.geometry)
    &&& border.occluders@ == occluders_from(windows, i + 1, bw)
    &&& border.highlighted == is_highlighted(windows[i], focused, dragged, target)
}

/// The shown windows among the first `n`, by number.
pub open spec fn shown_before(windows: Seq<BorderWindow>, n: int) -> Seq<int>
    decreases n,
{
    if n <= 0 {
        Seq::empty()
    } else if windows[n - 1].geometry is Some {
        shown_before(windows, n - 1).push(n - 1)
    } else {
        shown_before(windows, n - 1)
    }
}

fn collect_occluders(windows: &Vec<BorderWindow>, from: usize, bw: i32) -> (r: Vec<Rect>)
    requires
        from <= windows.len(),
        forall|i: int|
            0 <= i < windows.len() ==> ((#[trigger] windows@[i]).geometry is Some
                ==> border_in_range(windows@[i].geometry->0, bw)),
    ensures
        r@ == occluders_from(windows@, from as int, bw),
{
    let mut r: Vec<Rect> = Vec::new();
    let mut i: usize = from;
    while i < windows.len()
        invariant
            from <= i <= windows.len(),
            forall|k: int|
                0 <= k < windows.len() ==> ((#[trigger] windows@[k]).geometry is Some
                    ==> border_in_range(windows@[k].geometry->0, bw)),
            occluders_from(windows@, from as int, bw) == r@ + occluders_from(windows@, i as int, bw),
        decreases windows.len() - i,
    {
        let window = windows[i];
        let ghost before = r@;
        if window.root.is_some() && window.floating {
            if let Some(geometry) = window.geometry {
                let occluder = expand_by_border(geometry, bw);
                r.push(occluder);
                proof {
                    let rest = occluders_from(windows@, i + 1, bw);
                    assert(before + (seq![occluder] + rest) =~= r@ + rest);
                }
            }
        }
        i = i + 1;
    }
    proof {
        assert(r@ + Seq::<Rect>::empty() =~= r@);
    }
    r
}

/// The borders of all shown windows, from back to front. `windows` are those of
/// the scene without one that fills the screen. There is no border at all
/// where it has no width or a shell surface lies over one.
pub fn plan_borders(
    windows: &Vec<BorderWindow>,
    layers: &Vec<Option<Rect>>,
    bw: i32,
    focused: Option<u64>,
    dragged: Option<u64>,
    target: Option<u64>,
) -> (r: Vec<WindowBorder>)
    requires
        forall|i: int|
            0 <= i < windows.len() ==> ((#[trigger] windows@[i]).geometry is Some
                ==> border_in_range(windows@[i].geometry->0, bw)),
    ensures
        ({
            let geometries = windows@.map_values(|w: BorderWindow| w.geometry);
            let shown = shown_before(windows@, windows.len() as int);
            if bw == 0 || layer_over_border(geometries, layers@, bw) {
                r.len() == 0
            } else {
                &&& r.len() == shown.len()
                &&& forall|k: int|
                    0 <= k < r.len() ==> is_border_of(
                        #[trigger] r@[k],
                        windows@,
                        shown[k],
                        bw,
                        focused,
                        dragged,
                        target,
                    )
            }
        }),
{
    let mut r: Vec<WindowBorder> = Vec::new();
    if bw == 0 {
        return r;
    }
    let mut geometries: Vec<Option<Rect>> = Vec::new();
    let mut g: usize = 0;
    while g < windows.len()
        invariant
            g <= windows.len(),
            geometries@ =~= windows@.map_values(|w: BorderWindow| w.geometry).subrange(0, g as int),
        decreases windows.len() - g,
    {
        geometries.push(windows[g].geometry);
        g = g + 1;
    }
    proof {
        assert(geometries@ =~= windows@.map_values(|w: BorderWindow| w.geometry));
        assert forall|i: int|
            0 <= i < geometries.len() && (#[trigger] geometries@[i]) is Some implies border_in_range(
            geometries@[i]->0,
            bw,
        ) by {
            assert(windows@[i].geometry == geometries@[i]);
        }
    }
    if has_layer_surface_overlapping_borders(&geometries, layers, bw) {
        return r;
    }
    let mut i: usize = 0;
    while i < windows.len()
        invariant
            i <= windows.len(),
            forall|k: int|
                0 <= k < windows.len() ==> ((#[trigger] windows@[k]).geometry is Some
                    ==> border_in_range(windows@[k].geometry->0, bw)),
            r.len() == shown_before(windows@, i as int).len(),
            forall|k: int|
                0 <= k < r.len() ==> is_border_of(
                    #[trigger] r@[k],
                    windows@,
                    shown_before(windows@, i as int)[k],
                    bw,
                    focused,
                    dragged,
                    target,
                ),
        decreases windows.len() - i,
    {
        let window = windows[i];
        if let Some(geometry) = window.geometry {
            let occluders = collect_occluders(windows, i + 1, bw);
            let is_focused = match (window.toplevel, focused) {
                (Some(surface), Some(focused)) => surface == focused,
                _ => false,
            };
            let is_swap_highlighted = match window.root {
                Some(root) => match (dragged, target) {
                    (Some(a), Some(b)) => root_is_swap_highlighted(&root, Some(&a), Some(&b)),
                    (Some(a), None) => root_is_swap_highlighted(&root, Some(&a), None),
                    (None, Some(b)) => root_is_swap_highlighted(&root, None, Some(&b)),
                    (None, None) => false,
                },
                None => false,
            };
            let border = WindowBorder {
                geometry,
                occluders,
                highlighted: is_focused || is_swap_highlighted,
            };
            proof {
                assert(is_border_of(border, windows@, i as int, bw, focused, dragged, target));
            }
            r.push(border);
        }
        i = i + 1;
    }
    r
}

/// A piece of a border and whether it is highlighted.
#[derive(Debug, Clone, Copy, PartialEq, Eq, Structural)]
pub struct BorderFragment {
    pub rect: Rect,
    pub highlighted: bool,
}

/// What the occluders leave of rectangles: the pieces of each, in order.
pub open spec fn pieces_left(rects: Seq<Rect>, occluders: Seq<Rect>) -> Seq<Rect>
    decreases rects.len(),
{
    if rects.len() == 0 {
        Seq::empty()
    } else {
        pieces_left(rects.drop_last(), occluders) + rects_left(rects.last(), occluders)
    }
}

proof fn lemma_pieces_left(rects: Seq<Rect>, occluders: Seq<Rect>)
    requires
        all_proper(rects),
        all_proper(occluders),
    ensures
        forall|x: int, y: int| #[trigger]
            covered(pieces_left(rects, occluders), x, y) <==> covered(rects, x, y) && !covered(
                occluders,
                x,
                y,
            ),
        all_proper(pieces_left(rects, occluders)),
    decreases rects.len(),
{
    let left = pieces_left(rects, occluders);
    if rects.len() > 0 {
        let rest = rects.drop_last();
        let last = rects.last();
        assert forall|i: int| 0 <= i < rest.len() implies is_proper(#[trigger] rest[i]) by {
            assert(rest[i] == rects[i]);
        }
        assert(is_proper(rects[rects.len() - 1]));
        lemma_pieces_left(rest, occluders);
        what_is_left_is_what_is_not_covered(last, occluders);
        let before = pieces_left(rest, occluders);
        let added = rects_left(last, occluders);
        assert(rects =~= rest + seq![last]);
        assert forall|x: int, y: int| #[trigger] covered(left, x, y) <==> covered(rects, x, y)
            && !covered(occluders, x, y) by {
            lemma_covered_concat(before, added, x, y);
            lemma_covered_concat(rest, seq![last], x, y);
            assert(seq![last][0] == last);
            assert(covered(before, x, y) <==> covered(rest, x, y) && !covered(occluders, x, y));
            assert(covered(added, x, y) <==> last.covers(x, y) && !covered(occluders, x, y));
        }
    }
}

/// The parts of a window's border that the occluders do not cover.
pub fn visible_border_rectangles(window_geo: Rect, bw: i32, occluders: &Vec<Rect>) -> (r: Vec<Rect>)
    requires
        strips_in_range(window_geo, bw),
        bw > 0 ==> is_proper(window_geo),
        all_proper(occluders@),
    ensures
        r@ == pieces_left(border_strips_of(window_geo, bw), occluders@),
        forall|x: int, y: int| #[trigger]
            covered(r@, x, y) <==> covered(border_strips_of(window_geo, bw), x, y) && !covered(
                occluders@,
                x,
                y,
            ),
{
    let strips = border_strips(window_geo, bw);
    let mut r: Vec<Rect> = Vec::new();
    let mut i: usize = 0;
    proof {
        assert(all_proper(strips@));
        assert(strips@.subrange(0, 0) =~= Seq::<Rect>::empty());
    }
    while i < strips.len()
        invariant
            i <= strips.len(),
            all_proper(strips@),
            all_proper(occluders@),
            r@ == pieces_left(strips@.subrange(0, i as int), occluders@),
        decreases strips.len() - i,
    {
        let mut pieces = subtract_rects(strips[i], occluders);
        r.append(&mut pieces);
        proof {
            let next = strips@.subrange(0, i + 1);
            assert(next.drop_last() =~= strips@.subrange(0, i as int));
            assert(next.last() == strips@[i as int]);
        }
        i = i + 1;
    }
    proof {
        assert(strips@.subrange(0, i as int) =~= strips@);
        lemma_pieces_left(strips@, occluders@);
    }
    r
}

/// What can be seen of the border of window number `i`.
pub open spec fn visible_border_of(windows: Seq<BorderWindow>, i: int, bw: i32) -> Seq<Rect> {
    pieces_left(
        border_strips_of(windows[i].geometry->0, bw),
        occluders_from(windows, i + 1, bw),
    )
}

/// What can be seen of the borders of the first `n` windows.
pub open spec fn fragments_before(
    windows: Seq<BorderWindow>,
    n: int,
    bw: i32,
    focused: Option<u64>,
    dragged: Option<u64>,
    target: Option<u64>,
) -> Seq<BorderFragment>
    decreases n,
{
    if n <= 0 {
        Seq::empty()
    } else {
        let before = fragments_before(windows, n - 1, bw, focused, dragged, target);
        let highlighted = is_highlighted(windows[n - 1], focused, dragged, target);
        if windows[n - 1].geometry is Some {
            before + visible_border_of(windows, n - 1, bw).map_values(
                |rect: Rect| BorderFragment { rect, highlighted },
            )
        } else {
            before
        }
    }
}

fn push_fragments(fragments: &mut Vec<BorderFragment>, rects: &Vec<Rect>, highlighted: bool)
    ensures
        final(fragments)@ == old(fragments)@ + rects@.map_values(
            |rect: Rect| BorderFragment { rect, highlighted },
        ),
{
    let ghost before = fragments@;
    let ghost mapped = rects@.map_values(|rect: Rect| BorderFragment { rect, highlighted });
    let mut k: usize = 0;
    proof {
        assert(before + mapped.subrange(0, 0) =~= before);
    }
    while k < rects.len()
        invariant
            k <= rects.len(),
            mapped == rects@.map_values(|rect: Rect| BorderFragment { rect, highlighted }),
            fragments@ == before + mapped.subrange(0, k as int),
        decreases rects.len() - k,
    {
        fragments.push(BorderFragment { rect: rects[k], highlighted });
        proof {
            assert(before + mapped.subrange(0, k + 1) =~= (before + mapped.subrange(0, k as int)).push(
                mapped[k as int],
            ));
        }
        k = k + 1;
    }
    proof {
        assert(mapped.subrange(0, k as int) =~= mapped);
    }
}

proof fn lemma_occluders_are_proper(windows: Seq<BorderWindow>, from: int, bw: i32)
    requires
        0 <= from,
        forall|i: int|
            0 <= i < windows.len() ==> ((#[trigger] windows[i]).geometry is Some
                ==> border_in_range(windows[i].geometry->0, bw) && is_proper(
                windows[i].geometry->0,
            )),
    ensures
        all_proper(occluders_from(windows, from, bw)),
    decreases windows.len() - from,
{
    if from < windows.len() {
        lemma_occluders_are_proper(windows, from + 1, bw);
        assert(windows[from].geometry is Some ==> is_proper(expanded(windows[from].geometry->0, bw)));
    }
}

/// The pieces of all borders that can be seen, from back to front, each with
/// whether it is highlighted. There is none where the border has no width or a
/// shell surface lies over one.
pub fn border_elements(
    windows: &Vec<BorderWindow>,
    layers: &Vec<Option<Rect>>,
    bw: i32,
    focused: Option<u64>,
    dragged: Option<u64>,
    target: Option<u64>,
) -> (r: Vec<BorderFragment>)
    requires
        forall|i: int|
            0 <= i < windows.len() ==> ((#[trigger] windows@[i]).geometry is Some
                ==> border_in_range(windows@[i].geometry->0, bw) && is_proper(
                windows@[i].geometry->0,
            )),
    ensures
        r@ == (if bw == 0 || layer_over_border(
            windows@.map_values(|w: BorderWindow| w.geometry),
            layers@,
            bw,
        ) {
            Seq::empty()
        } else {
            fragments_before(windows@, windows.len() as int, bw, focused, dragged, target)
        }),
{
    let borders = plan_borders(windows, layers, bw, focused, dragged, target);
    let ghost none = bw == 0 || layer_over_border(
        windows@.map_values(|w: BorderWindow| w.geometry),
        layers@,
        bw,
    );
    let mut r: Vec<BorderFragment> = Vec::new();
    let mut n: usize = 0;
    let mut k: usize = 0;
    if borders.len() == 0 {
        proof {
            if !none {
                lemma_nothing_shown(windows@, windows.len() as int, bw, focused, dragged, target);
            }
        }
        return r;
    }
    while n < windows.len()
        invariant
            n <= windows.len(),
            k == shown_before(windows@, n as int).len(),
            borders.len() == shown_before(windows@, windows.len() as int).len(),
            forall|j: int|
                0 <= j < borders.len() ==> is_border_of(
                    #[trigger] borders@[j],
                    windows@,
                    shown_before(windows@, windows.len() as int)[j],
                    bw,
                    focused,
                    dragged,
                    target,
                ),
            forall|i: int|
                0 <= i < windows.len() ==> ((#[trigger] windows@[i]).geometry is Some
                    ==> border_in_range(windows@[i].geometry->0, bw) && is_proper(
                    windows@[i].geometry->0,
                )),
            r@ == fragments_before(windows@, n as int, bw, focused, dragged, target),
        decreases windows.len() - n,
    {
        if windows[n].geometry.is_some() {
            proof {
                lemma_shown_grows(windows@, n + 1, windows.len() as int);
                lemma_occluders_are_proper(windows@, n + 1, bw);
                assert(shown_before(windows@, n + 1)[k as int] == n);
                assert(shown_before(windows@, windows.len() as int)[k as int] == n);
                assert(is_border_of(
                    borders@[k as int],
                    windows@,
                    n as int,
                    bw,
                    focused,
                    dragged,
                    target,
                ));
            }
            let rects = visible_border_rectangles(
                borders[k].geometry,
                bw,
                &borders[k].occluders,
            );
            push_fragments(&mut r, &rects, borders[k].highlighted);
            k = k + 1;
        }
        n = n + 1;
    }
    r
}

proof fn lemma_shown_grows(windows: Seq<BorderWindow>, m: int, n: int)
    requires
        0 <= m <= n <= windows.len(),
    ensures
        shown_before(windows, m).len() <= shown_before(windows, n).len(),
        forall|k: int|
            0 <= k < shown_before(windows, m).len() ==> shown_before(windows, n)[k]
                == #[trigger] shown_before(windows, m)[k],
    decreases n - m,
{
    if m < n {
        lemma_shown_grows(windows, m, n - 1);
    }
}

proof fn lemma_nothing_shown(
    windows: Seq<BorderWindow>,
    n: int,
    bw: i32,
    focused: Option<u64>,
    dragged: Option<u64>,
    target: Option<u64>,
)
    requires
        0 <= n <= windows.len(),
        shown_before(windows, n).len() == 0,
    ensures
        fragments_before(windows, n, bw, focused, dragged, target) == Seq::<BorderFragment>::empty(),
    decreases n,
{
    if n > 0 {
        lemma_nothing_shown(windows, n - 1, bw, focused, dragged, target);
    }
}

/// What can be seen of a window's border is the ring round the window without
/// what a shown floating window in front of it covers, borders included.
pub proof fn floating_windows_hide_the_borders_behind_them(
    windows: Seq<BorderWindow>,
    i: int,
    bw: i32,
    x: int,
    y: int,
)
    requires
        0 <= i < windows.len(),
        windows[i].geometry is Some,
        forall|k: int|
            0 <= k < windows.len() ==> ((#[trigger] windows[k]).geometry is Some
                ==> border_in_range(windows[k].geometry->0, bw) && is_proper(
                windows[k].geometry->0,
            )),
    ensures
        covered(visible_border_of(windows, i, bw), x, y) <==> {
            &&& covered(border_strips_of(windows[i].geometry->0, bw), x, y)
            &&& forall|k: int|
                i < k < windows.len() && (#[trigger] windows[k]).root is Some && windows[k].floating
                    && windows[k].geometry is Some ==> !expanded(windows[k].geometry->0, bw).covers(
                    x,
                    y,
                )
        },
{
    lemma_occluders_are_proper(windows, i + 1, bw);
    let strips = border_strips_of(windows[i].geometry->0, bw);
    let occluders = occluders_from(windows, i + 1, bw);
    assert(all_proper(strips));
    lemma_pieces_left(strips, occluders);
    assert(covered(pieces_left(strips, occluders), x, y) <==> covered(strips, x, y) && !covered(
        occluders,
        x,
        y,
    ));
    lemma_occluders_cover(windows, i + 1, bw, x, y);
}

proof fn lemma_occluders_cover(windows: Seq<BorderWindow>, from: int, bw: i32, x: int, y: int)
    requires
        0 <= from <= windows.len(),
    ensures
        covered(occluders_from(windows, from, bw), x, y) <==> exists|k: int|
            from <= k < windows.len() && (#[trigger] windows[k]).root is Some && windows[k].floating
                && windows[k].geometry is Some && expanded(windows[k].geometry->0, bw).covers(x, y),
    decreases windows.len() - from,
{
    if from < windows.len() {
        lemma_occluders_cover(windows, from + 1, bw, x, y);
        let rest = occluders_from(windows, from + 1, bw);
        let w = windows[from];
        if w.root is Some && w.floating && w.geometry is Some {
            let own = seq![expanded(w.geometry->0, bw)];
            lemma_covered_concat(own, rest, x, y);
            assert(own[0] == expanded(w.geometry->0, bw));
        }
    }
}

/// The strips of a border cover exactly the ring between the window and its
/// expanded rectangle, no pixel of it twice, and nothing of the window itself.
pub proof fn the_strips_are_the_ring(geo: Rect, bw: i32, x: int, y: int)
    requires
        bw > 0,
        geo.size.w >= 0,
        geo.size.h >= 0,
        border_in_range(geo, bw),
        expanded(geo, bw).in_range(),
    ensures
        (exists|i: int|
            0 <= i < strips_of(geo, bw).len() && (#[trigger] strips_of(geo, bw)[i]).covers(x, y))
            <==> expanded(geo, bw).covers(x, y) && !geo.covers(x, y),
        forall|i: int, j: int|
            0 <= i < j < strips_of(geo, bw).len() && (#[trigger] strips_of(geo, bw)[i]).covers(x, y)
                ==> !(#[trigger] strips_of(geo, bw)[j]).covers(x, y),
{
    let strips = strips_of(geo, bw);
    assert(strips.len() == 4);
    if expanded(geo, bw).covers(x, y) && !geo.covers(x, y) {
        if y < geo.loc.y {
            assert(strips[0].covers(x, y));
        } else if y >= geo.bottom() {
            assert(strips[1].covers(x, y));
        } else if x < geo.loc.x {
            assert(strips[2].covers(x, y));
        } else {
            assert(strips[3].covers(x, y));
        }
    }
}

/// The border of the focused window is highlighted, and so are those of a tile that is
/// dragged and of the one it would be swapped with; no other is.
pub proof fn focused_and_swapped_windows_are_highlighted(
    window: BorderWindow,
    focused: Option<u64>,
    dragged: Option<u64>,
    target: Option<u64>,
    id: u64,
)
    ensures
        window.toplevel == Some(id) && focused == Some(id) ==> is_highlighted(
            window,
            focused,
            dragged,
            target,
        ),
        window.root == Some(id) && dragged == Some(id) ==> is_highlighted(
            window,
            focused,
            dragged,
            target,
        ),
        window.root == Some(id) && target == Some(id) ==> is_highlighted(
            window,
            focused,
            dragged,
            target,
        ),
        window.toplevel != focused && window.root != dragged && window.root != target
            ==> !is_highlighted(window, focused, dragged, target),
        window.toplevel is None && window.root is None ==> !is_highlighted(
            window,
            focused,
            dragged,
            target,
        ),
{
}

/// A window hides as far as its border reaches: its width more on each side.
pub proof fn a_window_hides_with_its_border(geo: Rect, bw: i32)
    requires
        bw > 0,
        expanded_in_range(geo, bw),
    ensures
        expanded(geo, bw).loc.x == geo.loc.x - bw,
        expanded(geo, bw).loc.y == geo.loc.y - bw,
        expanded(geo, bw).loc.x + expanded(geo, bw).size.w == geo.loc.x + geo.size.w + bw,
        expanded(geo, bw).loc.y + expanded(geo, bw).size.h == geo.loc.y + geo.size.h + bw,
{
}

/// A border lies around its window: a pixel is on one of its strips exactly where it is
/// off the window and no farther from it than the border is wide.
pub proof fn borders_lie_around_their_windows(geo: Rect, bw: i32, x: int, y: int)
    requires
        bw > 0,
        geo.size.w >= 0,
        geo.size.h >= 0,
        strips_in_range(geo, bw),
    ensures
        ({
            let strips = border_strips_of(geo, bw);
            let on = |r: Rect|
                r.loc.x <= x < r.loc.x + r.size.w && r.loc.y <= y < r.loc.y + r.size.h;
            let near = geo.loc.x - bw <= x < geo.loc.x + geo.size.w + bw && geo.loc.y - bw <= y
                < geo.loc.y + geo.size.h + bw;
            let inside = geo.loc.x <= x < geo.loc.x + geo.size.w && geo.loc.y <= y < geo.loc.y
                + geo.size.h;
            &&& strips.len() == 4
            &&& (on(strips[0]) || on(strips[1]) || on(strips[2]) || on(strips[3])) <==> (near
                && !inside)
        }),
{
}

} // verus!
