//! Keyboard focus: the nearest window or output in a direction, the cycle
//! through the tiles, and what a change of focus means for the windows.
use crate::config::FocusDirection;
use crate::geometry::{max_int, Rect};
use crate::state::output::Outputs;
use vstd::prelude::*;

verus! {

/// How well a candidate lies in a direction. Smaller is better, compared field
/// by field from the first.
#[derive(Debug, Clone, Copy, PartialEq, Eq, Structural)]
pub struct DirectionScore {
    /// The candidate lies off the band that the current rectangle spans.
    pub off_band: bool,
    /// Distance between the facing edges.
    pub primary_gap: i64,
    /// Distance from the band.
    pub secondary_gap: i64,
    /// Twice the distances of the centres, along and across the direction.
    pub primary_delta: i64,
    pub secondary_delta: i64,
}

impl DirectionScore {
    pub open spec fn less(self, other: DirectionScore) -> bool {
        if self.off_band != other.off_band {
            !self.off_band
        } else if self.primary_gap != other.primary_gap {
            self.primary_gap < other.primary_gap
        } else if self.secondary_gap != other.secondary_gap {
            self.secondary_gap < other.secondary_gap
        } else if self.primary_delta != other.primary_delta {
            self.primary_delta < other.primary_delta
        } else {
            self.secondary_delta < other.secondary_delta
        }
    }

    fn is_less(&self, other: &DirectionScore) -> (r: bool)
        ensures
            r == self.less(*other),
    {
        if self.off_band != other.off_band {
            !self.off_band
        } else if self.primary_gap != other.primary_gap {
            self.primary_gap < other.primary_gap
        } else if self.secondary_gap != other.secondary_gap {
            self.secondary_gap < other.secondary_gap
        } else if self.primary_delta != other.primary_delta {
            self.primary_delta < other.primary_delta
        } else {
            self.secondary_delta < other.secondary_delta
        }
    }
}

/// The distance between two intervals; none where they overlap or touch.
pub open spec fn gap_between(
    first_start: int,
    first_end: int,
    second_start: int,
    second_end: int,
) -> int {
    if first_end <= second_start {
        second_start - first_end
    } else if second_end <= first_start {
        first_start - second_end
    } else {
        0
    }
}

pub fn interval_gap(first_start: i64, first_end: i64, second_start: i64, second_end: i64) -> (r: i64)
    requires
        i32::MIN + i32::MIN <= first_start <= i32::MAX + i32::MAX,
        i32::MIN + i32::MIN <= first_end <= i32::MAX + i32::MAX,
        i32::MIN + i32::MIN <= second_start <= i32::MAX + i32::MAX,
        i32::MIN + i32::MIN <= second_end <= i32::MAX + i32::MAX,
    ensures
        r == gap_between(
            first_start as int,
            first_end as int,
            second_start as int,
            second_end as int,
        ),
        first_start <= first_end && second_start <= second_end ==> r >= 0,
{
    if first_end <= second_start {
        second_start - first_end
    } else if second_end <= first_start {
        first_start - second_end
    } else {
        0
    }
}

pub open spec fn abs_int(n: int) -> int {
    if n >= 0 { n } else { -n }
}

/// Twice the coordinates of a rectangle's centre.
pub open spec fn center_x2(rect: Rect) -> int {
    2 * rect.loc.x + rect.size.w
}

pub open spec fn center_y2(rect: Rect) -> int {
    2 * rect.loc.y + rect.size.h
}

/// Whether the candidate's centre lies in the direction.
pub open spec fn lies_toward(current: Rect, candidate: Rect, direction: FocusDirection) -> bool {
    match direction {
        FocusDirection::Left => center_x2(candidate) < center_x2(current),
        FocusDirection::Right => center_x2(candidate) > center_x2(current),
        FocusDirection::Up => center_y2(candidate) < center_y2(current),
        FocusDirection::Down => center_y2(candidate) > center_y2(current),
    }
}

/// The distance between the facing edges of the two rectangles.
pub open spec fn edge_gap(current: Rect, candidate: Rect, direction: FocusDirection) -> int {
    match direction {
        FocusDirection::Left => max_int(current.loc.x - candidate.right(), 0),
        FocusDirection::Right => max_int(candidate.loc.x - current.right(), 0),
        FocusDirection::Up => max_int(current.loc.y - candidate.bottom(), 0),
        FocusDirection::Down => max_int(candidate.loc.y - current.bottom(), 0),
    }
}

/// The distance of the candidate from the band that `current` spans.
pub open spec fn band_gap(current: Rect, candidate: Rect, direction: FocusDirection) -> int {
    match direction {
        FocusDirection::Left | FocusDirection::Right => gap_between(
            current.loc.y as int,
            current.bottom(),
            candidate.loc.y as int,
            candidate.bottom(),
        ),
        FocusDirection::Up | FocusDirection::Down => gap_between(
            current.loc.x as int,
            current.right(),
            candidate.loc.x as int,
            candidate.right(),
        ),
    }
}

pub open spec fn score_of(current: Rect, candidate: Rect, direction: FocusDirection) -> Option<
    DirectionScore,
> {
    let dx = abs_int(center_x2(candidate) - center_x2(current));
    let dy = abs_int(center_y2(candidate) - center_y2(current));
    let horizontal = direction == FocusDirection::Left || direction == FocusDirection::Right;
    if lies_toward(current, candidate, direction) {
        Some(
            DirectionScore {
                off_band: band_gap(current, candidate, direction) != 0,
                primary_gap: edge_gap(current, candidate, direction) as i64,
                secondary_gap: band_gap(current, candidate, direction) as i64,
                primary_delta: (if horizontal { dx } else { dy }) as i64,
                secondary_delta: (if horizontal { dy } else { dx }) as i64,
            },
        )
    } else {
        None
    }
}

fn abs_i64(n: i64) -> (r: i64)
    requires
        n > i64::MIN,
    ensures
        r == abs_int(n as int),
{
    if n >= 0 {
        n
    } else {
        -n
    }
}

fn positive_part(n: i64) -> (r: i64)
    ensures
        r == max_int(n as int, 0),
{
    if n >= 0 {
        n
    } else {
        0
    }
}

/// How well `candidate` lies in `direction` of `current`; `None` where it does
/// not lie there at all.
pub fn directional_candidate_score(
    current: Rect,
    candidate: Rect,
    direction: FocusDirection,
) -> (r: Option<DirectionScore>)
    ensures
        r == score_of(current, candidate, direction),
{
    let cur_x: i64 = current.loc.x as i64;
    let cur_y: i64 = current.loc.y as i64;
    let cur_right: i64 = cur_x + current.size.w as i64;
    let cur_bottom: i64 = cur_y + current.size.h as i64;
    let cand_x: i64 = candidate.loc.x as i64;
    let cand_y: i64 = candidate.loc.y as i64;
    let cand_right: i64 = cand_x + candidate.size.w as i64;
    let cand_bottom: i64 = cand_y + candidate.size.h as i64;
    let cur_cx: i64 = cur_x * 2 + current.size.w as i64;
    let cur_cy: i64 = cur_y * 2 + current.size.h as i64;
    let cand_cx: i64 = cand_x * 2 + candidate.size.w as i64;
    let cand_cy: i64 = cand_y * 2 + candidate.size.h as i64;
    let in_direction = match direction {
        FocusDirection::Left => cand_cx < cur_cx,
        FocusDirection::Right => cand_cx > cur_cx,
        FocusDirection::Up => cand_cy < cur_cy,
        FocusDirection::Down => cand_cy > cur_cy,
    };
    if !in_direction {
        return None;
    }
    let (primary_gap, secondary_gap, primary_delta, secondary_delta): (i64, i64, i64, i64) =
        match direction {
        FocusDirection::Left => (
            positive_part(cur_x - cand_right),
            interval_gap(cur_y, cur_bottom, cand_y, cand_bottom),
            abs_i64(cur_cx - cand_cx),
            abs_i64(cur_cy - cand_cy),
        ),
        FocusDirection::Right => (
            positive_part(cand_x - cur_right),
            interval_gap(cur_y, cur_bottom, cand_y, cand_bottom),
            abs_i64(cand_cx - cur_cx),
            abs_i64(cur_cy - cand_cy),
        ),
        FocusDirection::Up => (
            positive_part(cur_y - cand_bottom),
            interval_gap(cur_x, cur_right, cand_x, cand_right),
            abs_i64(cur_cy - cand_cy),
            abs_i64(cur_cx - cand_cx),
        ),
        FocusDirection::Down => (
            positive_part(cand_y - cur_bottom),
            interval_gap(cur_x, cur_right, cand_x, cand_right),
            abs_i64(cand_cy - cur_cy),
            abs_i64(cur_cx - cand_cx),
        ),
    };
    Some(
        DirectionScore {
            off_band: secondary_gap != 0,
            primary_gap,
            secondary_gap,
            primary_delta,
            secondary_delta,
        },
    )
}

/// A window or output that focus could go to.
#[derive(Debug, Clone, Copy, PartialEq, Eq, Structural)]
pub struct FocusCandidate {
    pub index: usize,
    pub geometry: Rect,
}

/// Whether candidate number `i` is the best one: it lies in the direction, no
/// other is better, and of those as good it is the first.
pub open spec fn is_best(
    current: Rect,
    candidates: Seq<FocusCandidate>,
    direction: FocusDirection,
    i: int,
) -> bool {
    &&& 0 <= i < candidates.len()
    &&& score_of(current, candidates[i].geometry, direction) is Some
    &&& forall|j: int|
        0 <= j < candidates.len() && score_of(
            current,
            (#[trigger] candidates[j]).geometry,
            direction,
        ) is Some ==> {
            let best = score_of(current, candidates[i].geometry, direction)->0;
            let other = score_of(current, candidates[j].geometry, direction)->0;
            !other.less(best) && (j < i ==> best.less(other))
        }
}

/// The best candidate in a direction.
pub fn best_directional_focus_candidate(
    current: Rect,
    candidates: &Vec<FocusCandidate>,
    direction: FocusDirection,
) -> (r: Option<usize>)
    ensures
        match r {
            Some(index) => exists|i: int|
                is_best(current, candidates@, direction, i) && (#[trigger] candidates@[i]).index
                    == index,
            None => forall|i: int|
                0 <= i < candidates.len() ==> score_of(
                    current,
                    (#[trigger] candidates@[i]).geometry,
                    direction,
                ) is None,
        },
{
    let mut best: Option<(usize, DirectionScore)> = None;
    let mut i: usize = 0;
    while i < candidates.len()
        invariant
            i <= candidates.len(),
            match best {
                Some((b, score)) => {
                    &&& b < i
                    &&& score_of(current, candidates@[b as int].geometry, direction) == Some(score)
                    &&& is_best(current, candidates@.subrange(0, i as int), direction, b as int)
                },
                None => forall|k: int|
                    0 <= k < i ==> score_of(
                        current,
                        (#[trigger] candidates@[k]).geometry,
                        direction,
                    ) is None,
            },
        decreases candidates.len() - i,
    {
        let ghost before = candidates@.subrange(0, i as int);
        let ghost after = candidates@.subrange(0, i + 1);
        proof {
            assert forall|k: int| 0 <= k < i implies #[trigger] after[k] == before[k] by {}
            assert(after[i as int] == candidates@[i as int]);
        }
        let candidate = candidates[i];
        match directional_candidate_score(current, candidate.geometry, direction) {
            None => {
                proof {
                    if best is Some {
                        assert forall|j: int|
                            0 <= j < after.len() && score_of(
                                current,
                                (#[trigger] after[j]).geometry,
                                direction,
                            ) is Some implies {
                            let chosen = score_of(
                                current,
                                after[(best->0).0 as int].geometry,
                                direction,
                            )->0;
                            let other = score_of(current, after[j].geometry, direction)->0;
                            !other.less(chosen) && (j < (best->0).0 ==> chosen.less(other))
                        } by {
                            assert(before[j] == after[j]);
                        }
                    }
                }
            },
            Some(score) => {
                let better = match best {
                    None => true,
                    Some((_, held)) => score.is_less(&held),
                };
                let ghost held = best;
                if better {
                    best = Some((i, score));
                }
                proof {
                    let b = (best->0).0 as int;
                    assert forall|j: int|
                        0 <= j < after.len() && score_of(
                            current,
                            (#[trigger] after[j]).geometry,
                            direction,
                        ) is Some implies {
                        let chosen = score_of(current, after[b].geometry, direction)->0;
                        let other = score_of(current, after[j].geometry, direction)->0;
                        !other.less(chosen) && (j < b ==> chosen.less(other))
                    } by {
                        if j < i {
                            assert(before[j] == after[j]);
                            if held is Some {
                                assert(before[(held->0).0 as int] == after[(held->0).0 as int]);
                            } else {
                                assert(candidates@[j] == after[j]);
                            }
                        }
                    }
                    assert(is_best(current, after, direction, b));
                }
            },
        }
        i = i + 1;
    }
    proof {
        assert(candidates@.subrange(0, i as int) =~= candidates@);
    }
    match best {
        Some((b, _)) => {
            proof {
                assert(candidates@[b as int].index == candidates@[b as int].index);
            }
            Some(candidates[b].index)
        },
        None => None,
    }
}

/// The candidates among `geometries`: those that are shown, without number
/// `skip`.
pub open spec fn candidates_among(geometries: Seq<Option<Rect>>, skip: usize) -> Seq<FocusCandidate>
    decreases geometries.len(),
{
    if geometries.len() == 0 {
        Seq::empty()
    } else {
        let rest = candidates_among(geometries.drop_last(), skip);
        let i = geometries.len() - 1;
        if i != skip && geometries.last() is Some {
            rest.push(FocusCandidate { index: i as usize, geometry: geometries.last()->0 })
        } else {
            rest
        }
    }
}

/// The candidates are numbers of `geometries`, none of them `skip`.
pub proof fn lemma_candidates_among(geometries: Seq<Option<Rect>>, skip: usize)
    requires
        geometries.len() <= usize::MAX,
    ensures
        forall|i: int|
            0 <= i < candidates_among(geometries, skip).len() ==> (#[trigger] candidates_among(
                geometries,
                skip,
            )[i]).index < geometries.len() && candidates_among(geometries, skip)[i].index != skip,
    decreases geometries.len(),
{
    if geometries.len() > 0 {
        let rest = candidates_among(geometries.drop_last(), skip);
        let all = candidates_among(geometries, skip);
        lemma_candidates_among(geometries.drop_last(), skip);
        assert forall|i: int| 0 <= i < all.len() implies (#[trigger] all[i]).index
            < geometries.len() && all[i].index != skip by {
            if i < rest.len() {
                assert(all[i] == rest[i]);
            }
        }
    }
}

fn collect_candidates(geometries: &Vec<Option<Rect>>, skip: usize) -> (r: Vec<FocusCandidate>)
    ensures
        r@ == candidates_among(geometries@, skip),
{
    let mut r: Vec<FocusCandidate> = Vec::new();
    let mut i: usize = 0;
    proof {
        assert(geometries@.subrange(0, 0) =~= Seq::<Option<Rect>>::empty());
    }
    while i < geometries.len()
        invariant
            i <= geometries.len(),
            r@ == candidates_among(geometries@.subrange(0, i as int), skip),
        decreases geometries.len() - i,
    {
        proof {
            let next = geometries@.subrange(0, i + 1);
            assert(next.drop_last() =~= geometries@.subrange(0, i as int));
            assert(next.last() == geometries@[i as int]);
        }
        if i != skip {
            if let Some(geometry) = geometries[i] {
                r.push(FocusCandidate { index: i, geometry });
            }
        }
        i = i + 1;
    }
    proof {
        assert(geometries@.subrange(0, i as int) =~= geometries@);
    }
    r
}

/// Whether `r` is the nearest of `geometries` in a direction, seen from number
/// `current_idx`; none where that one is not shown, or nothing lies there.
pub open spec fn is_nearest(
    current_idx: Option<usize>,
    geometries: Seq<Option<Rect>>,
    direction: FocusDirection,
    r: Option<usize>,
) -> bool {
    let known = current_idx is Some && current_idx->0 < geometries.len()
        && geometries[current_idx->0 as int] is Some;
    let current = geometries[current_idx->0 as int]->0;
    let candidates = candidates_among(geometries, current_idx->0);
    if !known {
        r is None
    } else {
        match r {
            Some(index) => exists|i: int|
                is_best(current, candidates, direction, i) && (#[trigger] candidates[i]).index
                    == index,
            None => forall|i: int|
                0 <= i < candidates.len() ==> score_of(
                    current,
                    (#[trigger] candidates[i]).geometry,
                    direction,
                ) is None,
        }
    }
}

/// The window that focus goes to from window `current_idx` in a direction.
/// `geometries` are those of the workspace's windows, where they are shown.
pub fn focus_in_direction(
    current_idx: Option<usize>,
    geometries: &Vec<Option<Rect>>,
    direction: FocusDirection,
) -> (r: Option<usize>)
    ensures
        is_nearest(current_idx, geometries@, direction, r),
        goes_to_a_side(current_idx, geometries@, direction, r),
{
    let count: usize = geometries.len();
    let r = match current_idx {
        None => None,
        Some(idx) => if idx >= count {
            None
        } else {
            match geometries[idx] {
                None => None,
                Some(current) => {
                    let candidates = collect_candidates(geometries, idx);
                    best_directional_focus_candidate(current, &candidates, direction)
                },
            }
        },
    };
    proof {
        focus_moves_to_the_named_side(current_idx, geometries@, direction, r);
    }
    r
}

impl Outputs {
    /// Index of the nearest output in a direction. `geometries` are those of
    /// the outputs, where they are known.
    pub fn output_in_direction(
        &self,
        geometries: &Vec<Option<Rect>>,
        direction: FocusDirection,
    ) -> (r: Option<usize>)
        requires
            self.wf(),
            geometries.len() == self.outputs@.len(),
        ensures
            is_nearest(Some(self.focused_output), geometries@, direction, r),
            goes_to_a_side(Some(self.focused_output), geometries@, direction, r),
    {
        focus_in_direction(Some(self.focused_output), geometries, direction)
    }
}

/// The place in the cycle after `current` (or before it) among `len` places;
/// the first one where focus is on none of them.
pub open spec fn cycled(current: Option<usize>, len: int, forward: bool) -> int {
    match current {
        Some(pos) => if forward {
            (pos + 1) % len
        } else {
            (pos + len - 1) % len
        },
        None => 0,
    }
}

/// The next (or previous) place in a cycle over `len` tiles.
pub fn cycle_position(current: Option<usize>, len: usize, forward: bool) -> (r: usize)
    requires
        len > 0,
        current is Some ==> current->0 < len,
    ensures
        r == cycled(current, len as int, forward),
        r < len,
{
    match current {
        Some(pos) => {
            if forward {
                if pos + 1 == len {
                    proof {
                        assert((pos + 1) as int % len as int == 0) by (nonlinear_arith)
                            requires
                                pos + 1 == len,
                                len > 0,
                        ;
                    }
                    0
                } else {
                    proof {
                        assert((pos + 1) as int % len as int == pos + 1) by (nonlinear_arith)
                            requires
                                pos + 1 < len,
                        ;
                    }
                    pos + 1
                }
            } else if pos == 0 {
                proof {
                    assert((len - 1) as int % len as int == len - 1) by (nonlinear_arith)
                        requires
                            len > 0,
                    ;
                }
                len - 1
            } else {
                proof {
                    assert((pos + len - 1) as int % len as int == pos - 1) by (nonlinear_arith)
                        requires
                            0 < pos < len,
                    ;
                }
                pos - 1
            }
        },
        None => 0,
    }
}

/// What a change of the keyboard focus does to a workspace.
#[derive(Debug, Clone, Copy, PartialEq, Eq, Structural)]
pub struct FocusChange {
    /// Window that stops being the active one.
    pub deactivate: Option<usize>,
    /// Window that becomes the active one.
    pub activate: Option<usize>,
    /// The focused window that the workspace remembers.
    pub focused_idx: Option<usize>,
}

/// Whether `r` is what follows when the keyboard goes from one window of a workspace to
/// another, or out of it.
pub open spec fn focus_noted(
    old_idx: Option<usize>,
    new_idx: Option<usize>,
    r: FocusChange,
) -> bool {
    &&& r.deactivate == if new_idx != old_idx {
        old_idx
    } else {
        None
    }
    &&& r.activate == if new_idx != old_idx {
        new_idx
    } else {
        None
    }
    &&& r.focused_idx == if new_idx is Some {
        new_idx
    } else {
        old_idx
    }
}

/// The keyboard focus went to window `new_idx` of the workspace, or out of it.
/// The workspace remembers its last focused window in either case.
pub fn note_keyboard_focus_change(old_idx: Option<usize>, new_idx: Option<usize>) -> (r: FocusChange)
    ensures
        focus_noted(old_idx, new_idx, r),
{
    let changed = match (old_idx, new_idx) {
        (Some(a), Some(b)) => a != b,
        (None, None) => false,
        _ => true,
    };
    FocusChange {
        deactivate: if changed {
            old_idx
        } else {
            None
        },
        activate: if changed {
            new_idx
        } else {
            None
        },
        focused_idx: if new_idx.is_some() {
            new_idx
        } else {
            old_idx
        },
    }
}

/// What setting the keyboard focus takes, in order.
#[derive(Debug, Clone, Copy, PartialEq, Eq, Structural)]
pub struct FocusSteps {
    /// Dismiss the popup grabs first, the keyboard's before the pointer's.
    pub unset_keyboard_grab: bool,
    pub unset_pointer_grab: bool,
    /// Release the pointer constraint of the surface that had the focus. Only
    /// where the focus is taken away altogether: nobody else is told then.
    pub release_constraint_of: Option<u64>,
    /// Tell the workspace that the focus is gone.
    pub note_focus_lost: bool,
}

/// The steps that set the focus, or take it away (`unfocus`). `None` where the
/// seat has no keyboard.
pub fn plan_keyboard_focus(
    has_keyboard: bool,
    keyboard_grabbed: bool,
    pointer_grabbed: bool,
    unfocus: bool,
    previous: Option<u64>,
) -> (r: Option<FocusSteps>)
    ensures
        r == if has_keyboard {
            Some(
                FocusSteps {
                    unset_keyboard_grab: keyboard_grabbed,
                    unset_pointer_grab: pointer_grabbed,
                    release_constraint_of: if unfocus { previous } else { None },
                    note_focus_lost: unfocus,
                },
            )
        } else {
            None
        },
{
    if !has_keyboard {
        return None;
    }
    Some(
        FocusSteps {
            unset_keyboard_grab: keyboard_grabbed,
            unset_pointer_grab: pointer_grabbed,
            release_constraint_of: if unfocus {
                previous
            } else {
                None
            },
            note_focus_lost: unfocus,
        },
    )
}

/// A step forward and a step back in the cycle end where they began.
pub proof fn cycling_forth_and_back_is_nothing(pos: usize, len: usize)
    requires
        pos < len,
    ensures
        ({
            let next = cycled(Some(pos), len as int, true);
            &&& 0 <= next < len
            &&& cycled(Some(next as usize), len as int, false) == pos
        }),
{
    let l = len as int;
    let p = pos as int;
    if p + 1 == l {
        assert((p + 1) % l == 0) by (nonlinear_arith)
            requires
                p + 1 == l,
                l > 0,
        ;
        assert((0 + l - 1) % l == l - 1) by (nonlinear_arith)
            requires
                l > 0,
        ;
    } else {
        assert((p + 1) % l == p + 1) by (nonlinear_arith)
            requires
                0 <= p,
                p + 1 < l,
        ;
        assert((p + 1 + l - 1) % l == p) by (nonlinear_arith)
            requires
                0 <= p < l,
        ;
    }
}

/// Left undoes Right as far as direction goes: a candidate lies to the right of
/// a rectangle exactly if that lies to the left of it, and so for up and down.
pub proof fn directions_are_opposite(a: Rect, b: Rect)
    ensures
        lies_toward(a, b, FocusDirection::Right) <==> lies_toward(b, a, FocusDirection::Left),
        lies_toward(a, b, FocusDirection::Down) <==> lies_toward(b, a, FocusDirection::Up),
        edge_gap(a, b, FocusDirection::Right) == edge_gap(b, a, FocusDirection::Left),
        edge_gap(a, b, FocusDirection::Down) == edge_gap(b, a, FocusDirection::Up),
{
}

/// A candidate within the band always beats one outside it, however near.
pub proof fn a_neighbour_in_the_band_is_preferred(
    current: Rect,
    inside: Rect,
    outside: Rect,
    direction: FocusDirection,
)
    requires
        lies_toward(current, inside, direction),
        lies_toward(current, outside, direction),
        band_gap(current, inside, direction) == 0,
        band_gap(current, outside, direction) != 0,
    ensures
        score_of(current, inside, direction)->0.less(score_of(current, outside, direction)->0),
{
}

/// Whether the middle of `b` lies to the named side of the middle of `a`.
pub open spec fn is_on_side(a: Rect, b: Rect, direction: FocusDirection) -> bool {
    match direction {
        FocusDirection::Left => b.loc.x + b.loc.x + b.size.w < a.loc.x + a.loc.x + a.size.w,
        FocusDirection::Right => b.loc.x + b.loc.x + b.size.w > a.loc.x + a.loc.x + a.size.w,
        FocusDirection::Up => b.loc.y + b.loc.y + b.size.h < a.loc.y + a.loc.y + a.size.h,
        FocusDirection::Down => b.loc.y + b.loc.y + b.size.h > a.loc.y + a.loc.y + a.size.h,
    }
}

/// Whether `b` shares rows with `a`, for left and right, or columns, for up and
/// down; edges that touch count.
pub open spec fn is_in_line(a: Rect, b: Rect, direction: FocusDirection) -> bool {
    match direction {
        FocusDirection::Left | FocusDirection::Right => {
            &&& b.loc.y <= a.loc.y + a.size.h
            &&& a.loc.y <= b.loc.y + b.size.h
        },
        FocusDirection::Up | FocusDirection::Down => {
            &&& b.loc.x <= a.loc.x + a.size.w
            &&& a.loc.x <= b.loc.x + b.size.w
        },
    }
}

/// Whether the near edge of `b` is at most `d` beyond the edge of `a` on that side.
pub open spec fn is_within(a: Rect, b: Rect, direction: FocusDirection, d: int) -> bool {
    match direction {
        FocusDirection::Left => a.loc.x - (b.loc.x + b.size.w) <= d,
        FocusDirection::Right => b.loc.x - (a.loc.x + a.size.w) <= d,
        FocusDirection::Up => a.loc.y - (b.loc.y + b.size.h) <= d,
        FocusDirection::Down => b.loc.y - (a.loc.y + a.size.h) <= d,
    }
}

/// Focus goes to what lies on the named side. Of what does, something in line goes
/// before anything that is not, and of two that are alike in that, the one with the
/// nearer facing edge goes first.
pub proof fn focus_goes_to_the_nearest_neighbour(
    current: Rect,
    candidates: Seq<FocusCandidate>,
    direction: FocusDirection,
    i: int,
    j: int,
    d: int,
)
    requires
        is_best(current, candidates, direction, i),
        0 <= j < candidates.len(),
        is_on_side(current, candidates[j].geometry, direction),
        current.size.w >= 0,
        current.size.h >= 0,
        candidates[i].geometry.size.w >= 0,
        candidates[i].geometry.size.h >= 0,
        candidates[j].geometry.size.w >= 0,
        candidates[j].geometry.size.h >= 0,
        d >= 0,
    ensures
        is_on_side(current, candidates[i].geometry, direction),
        is_in_line(current, candidates[j].geometry, direction) ==> is_in_line(
            current,
            candidates[i].geometry,
            direction,
        ),
        is_in_line(current, candidates[j].geometry, direction) && is_within(
            current,
            candidates[j].geometry,
            direction,
            d,
        ) ==> is_within(current, candidates[i].geometry, direction, d),
        !is_in_line(current, candidates[i].geometry, direction) && is_within(
            current,
            candidates[j].geometry,
            direction,
            d,
        ) ==> is_within(current, candidates[i].geometry, direction, d),
{
    let best = candidates[i].geometry;
    let other = candidates[j].geometry;
    assert(lies_toward(current, other, direction));
    assert(score_of(current, other, direction) is Some);
    assert(band_gap(current, other, direction) == 0 <==> is_in_line(current, other, direction));
    assert(band_gap(current, best, direction) == 0 <==> is_in_line(current, best, direction));
    assert(edge_gap(current, other, direction) <= d <==> is_within(current, other, direction, d));
    assert(edge_gap(current, best, direction) <= d <==> is_within(current, best, direction, d));
}

/// A rectangle seen in a mirror that stands on the vertical axis.
pub open spec fn mirrored(r: Rect, m: Rect) -> bool {
    &&& m.loc.x == -(r.loc.x + r.size.w)
    &&& m.loc.y == r.loc.y
    &&& m.size == r.size
}

/// A rectangle with rows and columns exchanged.
pub open spec fn turned(r: Rect, t: Rect) -> bool {
    &&& t.loc.x == r.loc.y
    &&& t.loc.y == r.loc.x
    &&& t.size.w == r.size.h
    &&& t.size.h == r.size.w
}

/// All directions are alike: what holds to the right holds to the left in a mirror,
/// and downward where rows and columns are exchanged.
pub proof fn all_directions_are_alike(a: Rect, b: Rect, ma: Rect, mb: Rect, ta: Rect, tb: Rect)
    requires
        mirrored(a, ma),
        mirrored(b, mb),
        turned(a, ta),
        turned(b, tb),
    ensures
        score_of(a, b, FocusDirection::Right) == score_of(ma, mb, FocusDirection::Left),
        score_of(a, b, FocusDirection::Right) == score_of(ta, tb, FocusDirection::Down),
        score_of(a, b, FocusDirection::Left) == score_of(ta, tb, FocusDirection::Up),
{
}

/// Of two in line and equally near, the one whose middle is nearer goes first; what
/// is nearer in no way does not go before what came first.
pub proof fn ties_go_to_the_nearer_middle(
    current: Rect,
    candidates: Seq<FocusCandidate>,
    i: int,
    j: int,
)
    requires
        is_best(current, candidates, FocusDirection::Right, i),
        0 <= j < candidates.len(),
        i != j,
        is_on_side(current, candidates[j].geometry, FocusDirection::Right),
        is_in_line(current, candidates[j].geometry, FocusDirection::Right),
        current.size.w >= 0,
        current.size.h >= 0,
        candidates[i].geometry.size.w >= 0,
        candidates[i].geometry.size.h >= 0,
        candidates[j].geometry.size.w >= 0,
        candidates[j].geometry.size.h >= 0,
        candidates[i].geometry.loc.x == candidates[j].geometry.loc.x,
    ensures
        candidates[i].geometry.size.w <= candidates[j].geometry.size.w,
        candidates[i].geometry == candidates[j].geometry ==> i < j,
{
    let best = candidates[i].geometry;
    let other = candidates[j].geometry;
    assert(score_of(current, other, FocusDirection::Right) is Some);
    assert(band_gap(current, other, FocusDirection::Right) == 0);
    assert(center_x2(best) > center_x2(current));
}

/// Whether `r` is where focus goes from number `from` of `geometries`: to another one
/// that is shown and lies on the named side, and nowhere exactly where `from` is not
/// shown or nothing lies there.
pub open spec fn goes_to_a_side(
    from: Option<usize>,
    geometries: Seq<Option<Rect>>,
    direction: FocusDirection,
    r: Option<usize>,
) -> bool {
    let known = from is Some && from->0 < geometries.len() && geometries[from->0 as int] is Some;
    match r {
        Some(to) => {
            &&& known
            &&& to < geometries.len()
            &&& to != from->0
            &&& geometries[to as int] is Some
            &&& is_on_side(
                geometries[from->0 as int]->0,
                geometries[to as int]->0,
                direction,
            )
        },
        None => !known || forall|k: int|
            0 <= k < geometries.len() && k != from->0 && (#[trigger] geometries[k]) is Some
                ==> !is_on_side(geometries[from->0 as int]->0, geometries[k]->0, direction),
    }
}

/// Every other rectangle that is shown is a candidate, under its own number, and
/// nothing else is.
pub proof fn candidates_are_the_others(geometries: Seq<Option<Rect>>, skip: usize)
    requires
        geometries.len() <= usize::MAX,
    ensures
        forall|i: int|
            0 <= i < candidates_among(geometries, skip).len() ==> {
                let c = #[trigger] candidates_among(geometries, skip)[i];
                c.index < geometries.len() && c.index != skip && geometries[c.index as int] == Some(
                    c.geometry,
                )
            },
        forall|k: int|
            0 <= k < geometries.len() && k != skip && (#[trigger] geometries[k]) is Some
                ==> candidates_among(geometries, skip).contains(
                FocusCandidate { index: k as usize, geometry: geometries[k]->0 },
            ),
    decreases geometries.len(),
{
    if geometries.len() > 0 {
        let shorter = geometries.drop_last();
        let rest = candidates_among(shorter, skip);
        let all = candidates_among(geometries, skip);
        candidates_are_the_others(shorter, skip);
        assert forall|i: int| 0 <= i < all.len() implies {
            let c = #[trigger] all[i];
            c.index < geometries.len() && c.index != skip && geometries[c.index as int] == Some(
                c.geometry,
            )
        } by {
            if i < rest.len() {
                assert(all[i] == rest[i]);
                assert(shorter[rest[i].index as int] == geometries[rest[i].index as int]);
            }
        }
        assert forall|k: int|
            0 <= k < geometries.len() && k != skip && (#[trigger] geometries[k]) is Some implies all.contains(
        FocusCandidate { index: k as usize, geometry: geometries[k]->0 }) by {
            let c = FocusCandidate { index: k as usize, geometry: geometries[k]->0 };
            if k < shorter.len() {
                assert(shorter[k] == geometries[k]);
                assert(rest.contains(c));
                let at = rest.index_of(c);
                assert(all[at] == c);
            } else {
                assert(all[rest.len() as int] == c);
            }
        }
    }
}

/// Focus goes to a window or output that is shown on the named side, and stays
/// exactly where there is none.
pub proof fn focus_moves_to_the_named_side(
    from: Option<usize>,
    geometries: Seq<Option<Rect>>,
    direction: FocusDirection,
    r: Option<usize>,
)
    requires
        geometries.len() <= usize::MAX,
        is_nearest(from, geometries, direction, r),
    ensures
        goes_to_a_side(from, geometries, direction, r),
{
    let known = from is Some && from->0 < geometries.len() && geometries[from->0 as int] is Some;
    if known {
        let current = geometries[from->0 as int]->0;
        let candidates = candidates_among(geometries, from->0);
        candidates_are_the_others(geometries, from->0);
        match r {
            Some(index) => {
                let i = choose|i: int|
                    is_best(current, candidates, direction, i) && (#[trigger] candidates[i]).index
                        == index;
                assert(lies_toward(current, candidates[i].geometry, direction));
            },
            None => {
                assert forall|k: int|
                    0 <= k < geometries.len() && k != from->0 && (
                    #[trigger] geometries[k]) is Some implies !is_on_side(
                    current,
                    geometries[k]->0,
                    direction,
                ) by {
                    let c = FocusCandidate { index: k as usize, geometry: geometries[k]->0 };
                    assert(candidates.contains(c));
                    let at = candidates.index_of(c);
                    assert(candidates[at] == c);
                }
            },
        }
    }
}

/// No rectangle that is shown in line on the named side has a nearer facing edge than
/// the one that focus goes to.
pub proof fn focus_skips_no_neighbour(
    from: usize,
    geometries: Seq<Option<Rect>>,
    direction: FocusDirection,
    to: usize,
    other: int,
    d: int,
)
    requires
        geometries.len() <= usize::MAX,
        is_nearest(Some(from), geometries, direction, Some(to)),
        0 <= other < geometries.len(),
        other != from,
        geometries[other] is Some,
        forall|k: int|
            0 <= k < geometries.len() && (#[trigger] geometries[k]) is Some
                ==> geometries[k]->0.size.w >= 0 && geometries[k]->0.size.h >= 0,
        is_on_side(geometries[from as int]->0, geometries[other]->0, direction),
        is_in_line(geometries[from as int]->0, geometries[other]->0, direction),
        is_within(geometries[from as int]->0, geometries[other]->0, direction, d),
        d >= 0,
    ensures
        to < geometries.len(),
        geometries[to as int] is Some,
        is_in_line(geometries[from as int]->0, geometries[to as int]->0, direction),
        is_within(geometries[from as int]->0, geometries[to as int]->0, direction, d),
{
    let current = geometries[from as int]->0;
    let candidates = candidates_among(geometries, from);
    candidates_are_the_others(geometries, from);
    let i = choose|i: int|
        is_best(current, candidates, direction, i) && (#[trigger] candidates[i]).index == to;
    let c = FocusCandidate { index: other as usize, geometry: geometries[other]->0 };
    assert(candidates.contains(c));
    let j = candidates.index_of(c);
    assert(candidates[j] == c);
    assert(geometries[candidates[i].index as int] == Some(candidates[i].geometry));
    focus_goes_to_the_nearest_neighbour(current, candidates, direction, i, j, d);
}

/// The cycle goes from each place to the next and from the last to the first, and
/// backward the other way; from nowhere it goes to the first place.
pub proof fn the_cycle_goes_in_order(pos: usize, len: int)
    requires
        pos < len,
    ensures
        pos + 1 < len ==> cycled(Some(pos), len, true) == pos + 1,
        pos + 1 == len ==> cycled(Some(pos), len, true) == 0,
        pos > 0 ==> cycled(Some(pos), len, false) == pos - 1,
        pos == 0 ==> cycled(Some(pos), len, false) == len - 1,
        cycled(None, len, true) == 0,
        cycled(None, len, false) == 0,
{
    let p = pos as int;
    if p + 1 == len {
        assert((p + 1) % len == 0) by (nonlinear_arith)
            requires
                p + 1 == len,
                len > 0,
        ;
    } else {
        assert((p + 1) % len == p + 1) by (nonlinear_arith)
            requires
                0 <= p,
                p + 1 < len,
        ;
    }
    if p == 0 {
        assert((len - 1) % len == len - 1) by (nonlinear_arith)
            requires
                len > 0,
        ;
    } else {
        assert((p + len - 1) % len == p - 1) by (nonlinear_arith)
            requires
                0 < p < len,
        ;
    }
}

/// The window that gets the keyboard is shown active and the one that loses it is not; the
/// one that got it is remembered, and where it goes out of the workspace the last one stays
/// remembered.
pub proof fn the_window_with_the_keyboard_is_active(from: usize, to: usize, r: FocusChange)
    ensures
        from != to && focus_noted(Some(from), Some(to), r) ==> r.activate == Some(to)
            && r.deactivate == Some(from) && r.focused_idx == Some(to),
        focus_noted(Some(from), Some(from), r) ==> r.activate is None && r.deactivate is None
            && r.focused_idx == Some(from),
        focus_noted(Some(from), None, r) ==> r.deactivate == Some(from) && r.activate is None
            && r.focused_idx == Some(from),
        focus_noted(None, Some(to), r) ==> r.activate == Some(to) && r.deactivate is None
            && r.focused_idx == Some(to),
{
}

} // verus!
