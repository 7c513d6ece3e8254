//! Outputs: which workspace each shows, where it lies, and what happens to the
//! workspaces and floating windows when one comes or goes.
use crate::geometry::{
    clamp_i32, clamped, fits_i32, max_i32, max_int, min_i32, min_int, Point, Rect, Size,
};
use crate::surface_map::SurfaceMap;
use crate::types::FloatingWindowData;
use vstd::prelude::*;

verus! {

/// One output, as far as placement goes.
#[derive(Debug, Clone, Copy, PartialEq, Eq, Structural)]
pub struct OutputCtx {
    pub output: u64,
    /// Top-left corner in the global coordinate space.
    pub position: Point,
    /// Index of the workspace that is visible on this output.
    pub active_workspace: usize,
}

/// Minimum pixels of a floating window kept inside the usable area per axis,
/// so that it can always be grabbed again.
pub const ONSCREEN_MARGIN: i32 = 48;

/// Whether `ws` is the lowest workspace that is not in `shown`.
pub open spec fn is_lowest_free(ws: usize, shown: Seq<usize>, num_workspaces: usize) -> bool {
    &&& ws < num_workspaces
    &&& !shown.contains(ws)
    &&& forall|k: usize| k < ws ==> #[trigger] shown.contains(k)
}

/// Whether every workspace is in `shown`.
pub open spec fn all_shown(shown: Seq<usize>, num_workspaces: usize) -> bool {
    forall|k: usize| k < num_workspaces ==> #[trigger] shown.contains(k)
}

fn contains_index(indices: &[usize], index: usize) -> (r: bool)
    ensures
        r == indices@.contains(index),
{
    let mut i: usize = 0;
    while i < indices.len()
        invariant
            i <= indices.len(),
            forall|k: int| 0 <= k < i ==> indices@[k] != index,
        decreases indices.len() - i,
    {
        if indices[i] == index {
            return true;
        }
        i = i + 1;
    }
    false
}

/// The workspace a newly added output should display: the lowest one that is
/// not shown on another output, else the first.
pub fn pick_initial_workspace(shown_on_other_outputs: &[usize], num_workspaces: usize) -> (r: usize)
    ensures
        if all_shown(shown_on_other_outputs@, num_workspaces) {
            r == 0
        } else {
            is_lowest_free(r, shown_on_other_outputs@, num_workspaces)
        },
{
    let mut ws: usize = 0;
    while ws < num_workspaces
        invariant
            ws <= num_workspaces,
            forall|k: usize| k < ws ==> #[trigger] shown_on_other_outputs@.contains(k),
        decreases num_workspaces - ws,
    {
        if !contains_index(shown_on_other_outputs, ws) {
            return ws;
        }
        ws = ws + 1;
    }
    0
}

/// The result of removing one output from the registry: the outputs behind it
/// move up by one, so every stored output index has to be mapped.
#[derive(Debug, Clone, PartialEq, Eq)]
pub struct OutputRemovalPlan {
    /// New index of the output that adopts the removed output's workspaces, or
    /// `None` when no outputs remain.
    pub survivor: Option<usize>,
    /// New home of each workspace, in workspace order.
    pub workspace_outputs: Vec<usize>,
    /// New index of the focused output.
    pub focused_output: usize,
}

/// Where the output index `old` goes when `removed_idx` is removed: the removed
/// output's own things go to the first output.
pub open spec fn remapped(old: usize, removed_idx: usize) -> usize {
    if old == removed_idx {
        0
    } else if old > removed_idx {
        (old - 1) as usize
    } else {
        old
    }
}

fn remap(old: usize, removed_idx: usize) -> (r: usize)
    ensures
        r == remapped(old, removed_idx),
{
    if old == removed_idx {
        0
    } else if old > removed_idx {
        old - 1
    } else {
        old
    }
}

/// Map every output index after the removal of `removed_idx` from
/// `output_count` outputs.
pub fn plan_output_removal(
    removed_idx: usize,
    output_count: usize,
    workspace_outputs: &[usize],
    focused_output: usize,
) -> (r: OutputRemovalPlan)
    ensures
        r.survivor == if output_count > 1 {
            Some(0usize)
        } else {
            None
        },
        r.workspace_outputs@ == workspace_outputs@.map_values(
            |old: usize| remapped(old, removed_idx),
        ),
        r.focused_output == remapped(focused_output, removed_idx),
{
    let mut mapped: Vec<usize> = Vec::new();
    let mut i: usize = 0;
    while i < workspace_outputs.len()
        invariant
            i <= workspace_outputs.len(),
            mapped@ =~= workspace_outputs@.map_values(
                |old: usize| remapped(old, removed_idx),
            ).subrange(0, i as int),
        decreases workspace_outputs.len() - i,
    {
        mapped.push(remap(workspace_outputs[i], removed_idx));
        i = i + 1;
    }
    proof {
        assert(mapped@ =~= workspace_outputs@.map_values(|old: usize| remapped(old, removed_idx)));
    }
    OutputRemovalPlan {
        survivor: if output_count > 1 {
            Some(0)
        } else {
            None
        },
        workspace_outputs: mapped,
        focused_output: remap(focused_output, removed_idx),
    }
}

/// `value` moved between `lo` and `hi`; `hi` where the two have crossed.
pub open spec fn clamped_or_high(value: int, lo: int, hi: int) -> int {
    if lo > hi { hi } else { clamped(value, lo, hi) }
}

/// One axis of a floating window's place: at least `margin` of its `extent`
/// stays between `start` and `start + room`.
pub open spec fn kept_in_view(pos: int, extent: int, start: int, room: int, margin: int) -> int {
    let m = min_int(margin, max_int(extent, 1));
    clamped_or_high(pos, start + m - extent, start + room - m)
}

/// Whether the numbers of one axis stay in range.
pub open spec fn view_in_range(extent: int, start: int, room: int, margin: int) -> bool {
    let m = min_int(margin, max_int(extent, 1));
    fits_i32(start + m - extent) && fits_i32(start + room - m)
}

pub open spec fn clamped_into(pos: Point, size: Size, usable: Rect, margin: int) -> Point {
    Point {
        x: kept_in_view(
            pos.x as int,
            size.w as int,
            usable.loc.x as int,
            usable.size.w as int,
            margin,
        ) as i32,
        y: kept_in_view(
            pos.y as int,
            size.h as int,
            usable.loc.y as int,
            usable.size.h as int,
            margin,
        ) as i32,
    }
}

pub open spec fn clamp_in_range(size: Size, usable: Rect, margin: int) -> bool {
    &&& view_in_range(size.w as int, usable.loc.x as int, usable.size.w as int, margin)
    &&& view_in_range(size.h as int, usable.loc.y as int, usable.size.h as int, margin)
}

fn keep_in_view(pos: i32, extent: i32, start: i32, room: i32, margin: i32) -> (r: i32)
    requires
        view_in_range(extent as int, start as int, room as int, margin as int),
    ensures
        r == kept_in_view(pos as int, extent as int, start as int, room as int, margin as int),
{
    let m: i32 = min_i32(margin, max_i32(extent, 1));
    let lo: i32 = (start as i64 + m as i64 - extent as i64) as i32;
    let hi: i32 = (start as i64 + room as i64 - m as i64) as i32;
    if lo > hi {
        hi
    } else {
        clamp_i32(pos, lo, hi)
    }
}

/// Clamp a window's top-left corner so that at least `margin` pixels of it
/// stay inside `usable`.
pub fn clamp_into_usable(pos: Point, size: Size, usable: Rect, margin: i32) -> (r: Point)
    requires
        clamp_in_range(size, usable, margin as int),
    ensures
        r == clamped_into(pos, size, usable, margin as int),
{
    Point {
        x: keep_in_view(pos.x, size.w, usable.loc.x, usable.size.w, margin),
        y: keep_in_view(pos.y, size.h, usable.loc.y, usable.size.h, margin),
    }
}

/// The outputs, the focused one, and the output each workspace is at home on.
#[derive(Debug)]
pub struct Outputs {
    pub outputs: Vec<OutputCtx>,
    pub focused_output: usize,
    /// Home output of each workspace.
    pub homes: Vec<usize>,
}

/// What happened to the registry when an output was removed.
#[derive(Debug, Clone, Copy, PartialEq, Eq, Structural)]
pub struct OutputRemoved {
    /// The workspace that was visible on it.
    pub visible_workspace: usize,
    /// No output is left.
    pub headless: bool,
}

pub open spec fn index_of_output(outputs: Seq<OutputCtx>, output: u64) -> Option<int>
    decreases outputs.len(),
{
    if outputs.len() == 0 {
        None
    } else if outputs.last().output == output {
        Some(outputs.len() - 1)
    } else {
        index_of_output(outputs.drop_last(), output)
    }
}

/// The number found is that of an output with this id; none is found where there is
/// no such output.
pub proof fn lemma_index_of_output(outputs: Seq<OutputCtx>, output: u64)
    ensures
        match index_of_output(outputs, output) {
            Some(i) => 0 <= i < outputs.len() && outputs[i].output == output,
            None => forall|i: int| 0 <= i < outputs.len() ==> (#[trigger] outputs[i]).output != output,
        },
    decreases outputs.len(),
{
    if outputs.len() > 0 && outputs.last().output != output {
        lemma_index_of_output(outputs.drop_last(), output);
        if index_of_output(outputs.drop_last(), output) is None {
            assert forall|i: int| 0 <= i < outputs.len() implies (#[trigger] outputs[i]).output != output by {
                if i < outputs.len() - 1 {
                    assert(outputs.drop_last()[i].output != output);
                }
            }
        }
    }
}

/// The left edges of outputs of the given widths that stand side by side.
pub open spec fn packed_x(widths: Seq<Option<i32>>, i: int) -> int
    decreases i,
{
    if i <= 0 {
        0
    } else {
        packed_x(widths, i - 1) + match widths[i - 1] {
            Some(w) => max_int(w as int, 0),
            None => 0,
        }
    }
}

proof fn lemma_packed_x_grows(widths: Seq<Option<i32>>, i: int, n: int)
    requires
        0 <= i <= n,
    ensures
        0 <= packed_x(widths, i) <= packed_x(widths, n),
    decreases n,
{
    if i < n {
        lemma_packed_x_grows(widths, i, n - 1);
    } else if i > 0 {
        lemma_packed_x_grows(widths, i - 1, i - 1);
    }
}

/// Whether `after` is `before` with an output, at a position.
pub open spec fn output_added(
    before: Outputs,
    after: Outputs,
    output: u64,
    position: Point,
) -> bool {
    &&& match index_of_output(before.outputs@, output) {
        Some(i) => {
            &&& after.outputs@ == before.outputs@.update(
                i,
                OutputCtx { position, ..before.outputs@[i] },
            )
            &&& after.homes@ == before.homes@
            &&& after.focused_output == before.focused_output
        },
        None => {
            let n = before.outputs@.len();
            let ws = after.outputs@[n as int].active_workspace;
            &&& if all_shown(before.shown(), before.homes@.len() as usize) {
                ws == 0
            } else {
                is_lowest_free(ws, before.shown(), before.homes@.len() as usize)
            }
            &&& after.outputs@ == before.outputs@.push(
                OutputCtx { output, position, active_workspace: ws },
            )
            &&& after.homes@ == before.homes@.update(ws as int, n as usize)
            &&& after.focused_output == before.focused_output
        },
    }
}

impl Outputs {
    /// There is a workspace; every index that is stored is one; no output is
    /// registered twice; one of the outputs is focused and every workspace is at
    /// home on one (on the first one to come, while there is none).
    pub open spec fn wf(&self) -> bool {
        &&& self.homes@.len() >= 1
        &&& forall|i: int|
            0 <= i < self.outputs@.len() ==> (#[trigger] self.outputs@[i]).active_workspace
                < self.homes@.len()
        &&& forall|i: int, j: int|
            0 <= i < j < self.outputs@.len() ==> (#[trigger] self.outputs@[i]).output != (
            #[trigger] self.outputs@[j]).output
        &&& self.focused_output < max_int(self.outputs@.len() as int, 1)
        &&& forall|w: int|
            0 <= w < self.homes@.len() ==> (#[trigger] self.homes@[w]) < max_int(
                self.outputs@.len() as int,
                1,
            )
    }

    /// The workspaces that the outputs show, in their order.
    pub open spec fn shown(&self) -> Seq<usize> {
        self.outputs@.map_values(|ctx: OutputCtx| ctx.active_workspace)
    }

    /// The workspace that is visible on the focused output; the first one
    /// while there is no output.
    pub open spec fn active(&self) -> usize {
        if self.focused_output < self.outputs@.len() {
            self.outputs@[self.focused_output as int].active_workspace
        } else {
            0
        }
    }

    /// No outputs, and `num_workspaces` workspaces.
    pub fn new(num_workspaces: usize) -> (r: Self)
        requires
            num_workspaces >= 1,
        ensures
            r.wf(),
            r.outputs@.len() == 0,
            r.focused_output == 0,
            r.homes@ == Seq::new(num_workspaces as nat, |i: int| 0usize),
    {
        let mut homes: Vec<usize> = Vec::new();
        let mut i: usize = 0;
        while i < num_workspaces
            invariant
                i <= num_workspaces,
                homes@ =~= Seq::new(i as nat, |k: int| 0usize),
            decreases num_workspaces - i,
        {
            homes.push(0);
            i = i + 1;
        }
        Outputs { outputs: Vec::new(), focused_output: 0, homes }
    }

    fn position_of(&self, output: u64) -> (r: Option<usize>)
        requires
            self.wf(),
        ensures
            match r {
                Some(i) => i < self.outputs.len() && self.outputs@[i as int].output == output
                    && index_of_output(self.outputs@, output) == Some(i as int),
                None => index_of_output(self.outputs@, output) is None && forall|i: int|
                    0 <= i < self.outputs.len() ==> (#[trigger] self.outputs@[i]).output != output,
            },
    {
        let mut i: usize = 0;
        while i < self.outputs.len()
            invariant
                i <= self.outputs.len(),
                self.wf(),
                forall|k: int| 0 <= k < i ==> (#[trigger] self.outputs@[k]).output != output,
            decreases self.outputs.len() - i,
        {
            if self.outputs[i].output == output {
                proof {
                    lemma_index_of_output(self.outputs@, output);
                }
                return Some(i);
            }
            i = i + 1;
        }
        proof {
            lemma_index_of_output(self.outputs@, output);
        }
        None
    }

    /// Index of `output` in the registry.
    pub fn index_of(&self, output: u64) -> (r: Option<usize>)
        requires
            self.wf(),
        ensures
            match r {
                Some(i) => i < self.outputs@.len() && self.outputs@[i as int].output == output,
                None => forall|i: int|
                    0 <= i < self.outputs@.len() ==> (#[trigger] self.outputs@[i]).output != output,
            },
    {
        self.position_of(output)
    }

    /// Register an output at `position`. One that is known already only moves.
    /// A new one shows the lowest workspace that no other output shows, which
    /// makes its home there.
    pub fn add_output(&mut self, output: u64, position: Point)
        requires
            old(self).wf(),
            old(self).outputs@.len() < usize::MAX,
        ensures
            final(self).wf(),
            output_added(*old(self), *final(self), output, position),
    {
        if let Some(i) = self.position_of(output) {
            let mut ctx = self.outputs[i];
            ctx.position = position;
            self.outputs.set(i, ctx);
            return ;
        }
        let new_idx: usize = self.outputs.len();
        let shown = self.shown_workspaces();
        let active_workspace = pick_initial_workspace(shown.as_slice(), self.homes.len());
        proof {
            assert(active_workspace < self.homes@.len());
        }
        self.homes.set(active_workspace, new_idx);
        self.outputs.push(OutputCtx { output, position, active_workspace });
        if self.focused_output >= self.outputs.len() {
            self.focused_output = 0;
        }
    }

    /// The workspaces that the outputs show, in their order.
    pub fn shown_workspaces(&self) -> (r: Vec<usize>)
        ensures
            r@ == self.shown(),
    {
        let mut r: Vec<usize> = Vec::new();
        let mut i: usize = 0;
        while i < self.outputs.len()
            invariant
                i <= self.outputs.len(),
                r@ =~= self.shown().subrange(0, i as int),
            decreases self.outputs.len() - i,
        {
            r.push(self.outputs[i].active_workspace);
            i = i + 1;
        }
        proof {
            assert(r@ =~= self.shown());
        }
        r
    }

    /// The active workspace of the focused output; the first one while there
    /// is no output.
    pub fn active_workspace(&self) -> (r: usize)
        ensures
            r == self.active(),
    {
        if self.focused_output < self.outputs.len() {
            self.outputs[self.focused_output].active_workspace
        } else {
            0
        }
    }

    /// Make `idx` the visible workspace of the focused output and home it
    /// there.
    pub fn set_active_workspace(&mut self, idx: usize)
        requires
            old(self).wf(),
            idx < old(self).homes@.len(),
        ensures
            final(self).wf(),
            final(self).focused_output == old(self).focused_output,
            final(self).outputs@ == if old(self).outputs@.len() > 0 {
                let focused = old(self).focused_output as int;
                old(self).outputs@.update(
                    focused,
                    OutputCtx { active_workspace: idx, ..old(self).outputs@[focused] },
                )
            } else {
                old(self).outputs@
            },
            final(self).homes@ == old(self).homes@.update(idx as int, old(self).focused_output),
    {
        let focused: usize = self.focused_output;
        if focused < self.outputs.len() {
            let mut ctx = self.outputs[focused];
            ctx.active_workspace = idx;
            self.outputs.set(focused, ctx);
        }
        self.homes.set(idx, focused);
    }

    /// The output that owns keyboard focus and receives new windows.
    pub fn focused_output(&self) -> (r: Option<u64>)
        requires
            self.wf(),
        ensures
            r == if self.outputs@.len() > 0 {
                Some(self.outputs@[self.focused_output as int].output)
            } else {
                None
            },
    {
        if self.outputs.len() > 0 {
            Some(self.outputs[self.focused_output].output)
        } else {
            None
        }
    }

    /// The output under a window's centre or a point where there is one
    /// (`under`), else the focused output.
    pub fn output_or_focused(&self, under: Option<u64>) -> (r: Option<u64>)
        requires
            self.wf(),
        ensures
            r == if under is Some {
                under
            } else if self.outputs@.len() > 0 {
                Some(self.outputs@[self.focused_output as int].output)
            } else {
                None
            },
    {
        match under {
            Some(output) => Some(output),
            None => self.focused_output(),
        }
    }

    /// Remove an output that is gone. Its workspaces move to the first output
    /// that is left; with none left everything stays as it is for the next one.
    pub fn remove_output(&mut self, output: u64) -> (r: Option<OutputRemoved>)
        requires
            old(self).wf(),
        ensures
            final(self).wf(),
            match index_of_output(old(self).outputs@, output) {
                None => {
                    &&& r is None
                    &&& final(self).outputs@ == old(self).outputs@
                    &&& final(self).homes@ == old(self).homes@
                    &&& final(self).focused_output == old(self).focused_output
                },
                Some(i) => {
                    &&& r == Some(
                        OutputRemoved {
                            visible_workspace: old(self).outputs@[i].active_workspace,
                            headless: old(self).outputs@.len() == 1,
                        },
                    )
                    &&& final(self).outputs@ == old(self).outputs@.remove(i)
                    &&& final(self).homes@ == old(self).homes@.map_values(
                        |home: usize| remapped(home, i as usize),
                    )
                    &&& final(self).focused_output == remapped(
                        old(self).focused_output,
                        i as usize,
                    )
                },
            },
    {
        match self.position_of(output) {
            None => None,
            Some(removed_idx) => {
                let visible_workspace: usize = self.outputs[removed_idx].active_workspace;
                let count: usize = self.outputs.len();
                let plan = plan_output_removal(
                    removed_idx,
                    count,
                    self.homes.as_slice(),
                    self.focused_output,
                );
                let _ = self.outputs.remove(removed_idx);
                self.homes = plan.workspace_outputs;
                self.focused_output = plan.focused_output;
                proof {
                    let before = old(self).outputs@;
                    let after = self.outputs@;
                    assert forall|a: int, b: int| 0 <= a < b < after.len() implies (
                    #[trigger] after[a]).output != (#[trigger] after[b]).output by {
                        let a2 = if a < removed_idx { a } else { a + 1 };
                        let b2 = if b < removed_idx { b } else { b + 1 };
                        assert(before[a2].output != before[b2].output);
                    }
                    assert forall|a: int| 0 <= a < after.len() implies (
                    #[trigger] after[a]).active_workspace < self.homes@.len() by {
                        let a2 = if a < removed_idx { a } else { a + 1 };
                        assert(before[a2].active_workspace < old(self).homes@.len());
                    }
                    assert forall|w: int| 0 <= w < self.homes@.len() implies (
                    #[trigger] self.homes@[w]) < max_int(after.len() as int, 1) by {
                        assert(old(self).homes@[w] < max_int(before.len() as int, 1));
                    }
                }
                Some(OutputRemoved { visible_workspace, headless: self.outputs.len() == 0 })
            },
        }
    }

    /// Put all outputs side by side from left to right. `widths` are their
    /// widths, where they are known.
    pub fn recompute_output_positions(&mut self, widths: &Vec<Option<i32>>)
        requires
            old(self).wf(),
            widths.len() == old(self).outputs@.len(),
            packed_x(widths@, widths.len() as int) <= i32::MAX,
        ensures
            final(self).wf(),
            final(self).homes@ == old(self).homes@,
            final(self).focused_output == old(self).focused_output,
            final(self).outputs@.len() == old(self).outputs@.len(),
            forall|i: int|
                0 <= i < final(self).outputs@.len() ==> #[trigger] final(self).outputs@[i] == (
                OutputCtx {
                    position: Point { x: packed_x(widths@, i) as i32, y: 0 },
                    ..old(self).outputs@[i]
                }),
    {
        let ghost before = self.outputs@;
        let mut x: i32 = 0;
        let mut i: usize = 0;
        while i < self.outputs.len()
            invariant
                i <= self.outputs.len(),
                self.outputs@.len() == before.len(),
                widths.len() == before.len(),
                packed_x(widths@, widths.len() as int) <= i32::MAX,
                x == packed_x(widths@, i as int),
                self.homes@ == old(self).homes@,
                self.focused_output == old(self).focused_output,
                forall|k: int|
                    0 <= k < i ==> #[trigger] self.outputs@[k] == (OutputCtx {
                        position: Point { x: packed_x(widths@, k) as i32, y: 0 },
                        ..before[k]
                    }),
                forall|k: int| i <= k < before.len() ==> self.outputs@[k] == before[k],
            decreases self.outputs.len() - i,
        {
            let width: i32 = match widths[i] {
                Some(w) => max_i32(w, 0),
                None => 0,
            };
            let mut ctx = self.outputs[i];
            ctx.position = Point { x, y: 0 };
            self.outputs.set(i, ctx);
            proof {
                lemma_packed_x_grows(widths@, i + 1, widths.len() as int);
            }
            x = x + width;
            i = i + 1;
        }
        proof {
            let after = self.outputs@;
            assert forall|a: int, b: int| 0 <= a < b < after.len() implies (
            #[trigger] after[a]).output != (#[trigger] after[b]).output by {
                assert(before[a].output != before[b].output);
            }
            assert forall|a: int| 0 <= a < after.len() implies (
            #[trigger] after[a]).active_workspace < self.homes@.len() by {
                assert(before[a].active_workspace < old(self).homes@.len());
            }
        }
    }
}

/// The floating windows after each was pulled back into the usable area of its
/// output: only those that stick out move.
pub open spec fn reclamped(data: FloatingWindowData, usable: Option<Rect>) -> FloatingWindowData {
    if usable is Some {
        let to = clamped_into(data.position, data.size, usable->0, ONSCREEN_MARGIN as int);
        if to == data.position { data } else { FloatingWindowData::placed(to, data.size) }
    } else {
        data
    }
}

/// Pull every floating window back so that a strip of it can be grabbed.
/// `usables` are the usable areas of the windows' outputs, in the order of the
/// map. The result lists the windows that moved.
pub fn reclamp_floating_windows(
    floating: &mut SurfaceMap<FloatingWindowData>,
    usables: &Vec<Option<Rect>>,
) -> (moved: Vec<u64>)
    requires
        old(floating).wf(),
        usables.len() == old(floating).order().len(),
        forall|i: int|
            0 <= i < usables.len() ==> ((#[trigger] usables@[i]) is Some ==> clamp_in_range(
                old(floating)@[old(floating).order()[i]].size,
                usables@[i]->0,
                ONSCREEN_MARGIN as int,
            )),
    ensures
        final(floating).wf(),
        final(floating).order() == old(floating).order(),
        final(floating)@.dom() == old(floating)@.dom(),
        forall|i: int|
            0 <= i < usables.len() ==> final(floating)@[#[trigger] old(floating).order()[i]]
                == reclamped(old(floating)@[old(floating).order()[i]], usables@[i]),
        forall|id: u64| #[trigger]
            moved@.contains(id) <==> old(floating)@.dom().contains(id) && final(floating)@[id].position
                != old(floating)@[id].position,
{
    let ghost before = floating@;
    let ghost order = floating.order();
    let roots = floating.ids();
    proof {
        floating.order_lists_the_map();
    }
    let mut moved: Vec<u64> = Vec::new();
    let mut i: usize = 0;
    while i < roots.len()
        invariant
            i <= roots.len(),
            roots@ == order,
            order.no_duplicates(),
            forall|id: u64| #[trigger] order.contains(id) <==> before.dom().contains(id),
            usables.len() == order.len(),
            floating.wf(),
            floating.order() == order,
            floating@.dom() == before.dom(),
            forall|k: int|
                0 <= k < usables.len() ==> ((#[trigger] usables@[k]) is Some ==> clamp_in_range(
                    before[order[k]].size,
                    usables@[k]->0,
                    ONSCREEN_MARGIN as int,
                )),
            forall|k: int|
                0 <= k < i ==> floating@[#[trigger] order[k]] == reclamped(
                    before[order[k]],
                    usables@[k],
                ),
            forall|k: int| i <= k < order.len() ==> floating@[#[trigger] order[k]] == before[order[k]],
            forall|id: u64| #[trigger]
                moved@.contains(id) <==> before.dom().contains(id) && floating@[id].position
                    != before[id].position,
        decreases roots.len() - i,
    {
        let root = roots[i];
        let ghost current = floating@;
        let ghost moved0 = moved@;
        proof {
            assert(order.contains(root));
            assert(order[i as int] == root);
        }
        if let Some(data) = floating.get(root) {
            if let Some(usable) = usables[i] {
                proof {
                    assert(usables@[i as int] is Some);
                }
                let to = clamp_into_usable(data.position, data.size, usable, ONSCREEN_MARGIN);
                if to != data.position {
                    floating.insert(root, FloatingWindowData::new(to, data.size));
                    moved.push(root);
                    proof {
                        assert(floating@.dom() =~= before.dom());
                        assert forall|id: u64| #[trigger]
                            moved@.contains(id) <==> before.dom().contains(id)
                                && floating@[id].position != before[id].position by {
                            if id == root {
                                assert(moved@[moved0.len() as int] == root);
                            } else {
                                assert(moved@.contains(id) <==> moved0.contains(id)) by {
                                    if moved0.contains(id) {
                                        let k = moved0.index_of(id);
                                        assert(moved@[k] == id);
                                    }
                                    if moved@.contains(id) {
                                        let k = moved@.index_of(id);
                                        assert(moved0[k] == id);
                                    }
                                }
                                assert(floating@[id] == current[id]);
                            }
                        }
                        assert forall|k: int| i + 1 <= k < order.len() implies floating@[
                        #[trigger] order[k]] == before[order[k]] by {
                            assert(order[k] != root);
                        }
                        assert forall|k: int| 0 <= k < i + 1 implies floating@[#[trigger] order[k]]
                            == reclamped(before[order[k]], usables@[k]) by {
                            if k < i {
                                assert(order[k] != root);
                            }
                        }
                    }
                }
            }
        }
        i = i + 1;
    }
    moved
}

/// A window that was pulled back shows a strip of at least the margin (or all
/// of itself, where it is smaller) inside the usable area, wherever that is
/// large enough to hold such a strip.
pub proof fn a_reclamped_window_can_be_grabbed(pos: Point, size: Size, usable: Rect, margin: int)
    requires
        clamp_in_range(size, usable, margin),
        1 <= margin,
        margin <= usable.size.w,
        margin <= usable.size.h,
        1 <= size.w,
        1 <= size.h,
    ensures
        ({
            let to = clamped_into(pos, size, usable, margin);
            let strip_w = min_int(margin, size.w as int);
            let strip_h = min_int(margin, size.h as int);
            &&& to.x + size.w >= usable.loc.x + strip_w
            &&& to.x + strip_w <= usable.right()
            &&& to.y + size.h >= usable.loc.y + strip_h
            &&& to.y + strip_h <= usable.bottom()
        }),
{
}

/// Pulling a window back twice is the same as once.
pub proof fn reclamping_is_idempotent(pos: Point, size: Size, usable: Rect, margin: int)
    requires
        clamp_in_range(size, usable, margin),
    ensures
        clamped_into(clamped_into(pos, size, usable, margin), size, usable, margin) == clamped_into(
            pos,
            size,
            usable,
            margin,
        ),
{
}

/// After a removal every stored index names an output that is left (or the
/// first one, while none is): the mapped indices are below the new count.
pub proof fn removal_leaves_valid_indices(old_index: usize, removed_idx: usize, output_count: usize)
    requires
        removed_idx < output_count,
        old_index < output_count,
    ensures
        remapped(old_index, removed_idx) < max_int(output_count - 1, 1),
{
}

/// An output that stays keeps its workspaces: two indices that were different,
/// and were not removed, stay different, in the same order.
pub proof fn removal_keeps_the_order(a: usize, b: usize, removed_idx: usize)
    requires
        a < b,
        a != removed_idx,
        b != removed_idx,
    ensures
        remapped(a, removed_idx) < remapped(b, removed_idx),
{
}

/// With a workspace for every output, no two outputs ever show the same one:
/// adding an output keeps it so.
pub proof fn a_new_output_shows_a_hidden_workspace(
    shown: Seq<usize>,
    num_workspaces: usize,
    ws: usize,
)
    requires
        shown.len() < num_workspaces,
        if all_shown(shown, num_workspaces) {
            ws == 0
        } else {
            is_lowest_free(ws, shown, num_workspaces)
        },
    ensures
        !shown.contains(ws),
{
    if all_shown(shown, num_workspaces) {
        let all = Seq::new(num_workspaces as nat, |i: int| i as usize);
        assert(all.no_duplicates());
        assert forall|k: usize| all.to_set().contains(k) implies #[trigger] shown.to_set().contains(
            k,
        ) by {
            let i = choose|i: int| 0 <= i < all.len() && all[i] == k;
            assert(k < num_workspaces);
            assert(shown.contains(k));
        }
        all.unique_seq_to_set();
        shown.lemma_cardinality_of_set();
        vstd::set_lib::lemma_len_subset(all.to_set(), shown.to_set());
    }
}

/// After an output is gone every index still names the output it named, and what named
/// the one that is gone names the first.
pub proof fn removal_renames_no_output(outputs: Seq<OutputCtx>, old_index: usize, removed: usize)
    requires
        removed < outputs.len(),
        old_index < outputs.len(),
        outputs.len() > 1,
    ensures
        old_index != removed ==> outputs.remove(removed as int)[remapped(
            old_index,
            removed,
        ) as int] == outputs[old_index as int],
        old_index == removed ==> remapped(old_index, removed) == 0,
{
}

/// Outputs stand side by side from the left edge, in order: each starts where the one
/// before it ends.
pub proof fn outputs_stand_side_by_side(widths: Seq<Option<i32>>, i: int, w: i32)
    requires
        0 <= i < widths.len(),
        w >= 0,
    ensures
        packed_x(widths, 0) == 0,
        widths[i] == Some(w) ==> packed_x(widths, i + 1) == packed_x(widths, i) + w,
        widths[i] is None ==> packed_x(widths, i + 1) == packed_x(widths, i),
{
}

/// A floating window that can be seen well enough stays where it is; one beyond an edge
/// comes back just as far as leaves the margin in view, and in no case does its size
/// change.
pub proof fn windows_in_view_stay(data: FloatingWindowData, usable: Rect)
    requires
        data.size.w >= 48,
        data.size.h >= 48,
        usable.size.w >= 96,
        usable.size.h >= 96,
        clamp_in_range(data.size, usable, 48),
    ensures
        ({
            let to = reclamped(data, Some(usable)).position;
            &&& usable.loc.x <= data.position.x && data.position.x + 48 <= usable.loc.x
                + usable.size.w ==> to.x == data.position.x
            &&& usable.loc.y <= data.position.y && data.position.y + 48 <= usable.loc.y
                + usable.size.h ==> to.y == data.position.y
            &&& data.position.x + data.size.w < usable.loc.x + 48 ==> to.x + data.size.w
                == usable.loc.x + 48
            &&& data.position.y + data.size.h < usable.loc.y + 48 ==> to.y + data.size.h
                == usable.loc.y + 48
            &&& data.position.x + 48 > usable.loc.x + usable.size.w ==> to.x + 48 == usable.loc.x
                + usable.size.w
            &&& data.position.y + 48 > usable.loc.y + usable.size.h ==> to.y + 48 == usable.loc.y
                + usable.size.h
            &&& to.x + data.size.w >= usable.loc.x + 48
            &&& to.y + data.size.h >= usable.loc.y + 48
        }),
        reclamped(data, Some(usable)).size == data.size,
        reclamped(data, None) == data,
{
}

/// A new output shows a workspace that no other one shows, as long as there is one, and the
/// lowest such; it stands where it was put, and the others show what they did.
pub proof fn a_new_output_shows_a_free_workspace(
    before: Outputs,
    after: Outputs,
    output: u64,
    position: Point,
    free: usize,
)
    requires
        before.wf(),
        output_added(before, after, output, position),
        forall|i: int|
            0 <= i < before.outputs@.len() ==> (#[trigger] before.outputs@[i]).output != output,
    ensures
        ({
            let n = before.outputs@.len() as int;
            &&& after.outputs@.len() == n + 1
            &&& after.outputs@[n].output == output
            &&& after.outputs@[n].position == position
            &&& forall|i: int|
                0 <= i < n ==> #[trigger] after.outputs@[i] == before.outputs@[i]
            &&& after.focused_output == before.focused_output
            &&& free < before.homes@.len() && (forall|i: int|
                0 <= i < n ==> (#[trigger] before.outputs@[i]).active_workspace != free) ==> ({
                let ws = after.outputs@[n].active_workspace;
                &&& ws <= free
                &&& forall|i: int|
                    0 <= i < n ==> (#[trigger] before.outputs@[i]).active_workspace != ws
                &&& after.homes@[ws as int] == n
            })
        }),
{
    let outputs: usize = before.outputs.len();
    let homes: usize = before.homes.len();
    lemma_no_such_output(before.outputs@, output);
    let shown = before.shown();
    let n = before.outputs@.len() as int;
    if free < homes && (forall|i: int|
        0 <= i < n ==> (#[trigger] before.outputs@[i]).active_workspace != free) {
        assert(!shown.contains(free)) by {
            if shown.contains(free) {
                let i = shown.index_of(free);
                assert(shown[i] == before.outputs@[i].active_workspace);
            }
        }
        let ws = after.outputs@[n].active_workspace;
        assert forall|i: int| 0 <= i < n implies (#[trigger] before.outputs@[i]).active_workspace
            != ws by {
            assert(shown[i] == before.outputs@[i].active_workspace);
            assert(shown.contains(shown[i]));
        }
    }
}

proof fn lemma_no_such_output(outputs: Seq<OutputCtx>, output: u64)
    requires
        forall|i: int| 0 <= i < outputs.len() ==> (#[trigger] outputs[i]).output != output,
    ensures
        index_of_output(outputs, output) is None,
    decreases outputs.len(),
{
    if outputs.len() > 0 {
        let rest = outputs.drop_last();
        assert forall|i: int| 0 <= i < rest.len() implies (#[trigger] rest[i]).output != output by {
            assert(rest[i] == outputs[i]);
        }
        assert(outputs[outputs.len() - 1].output != output);
        lemma_no_such_output(rest, output);
    }
}

} // verus!
