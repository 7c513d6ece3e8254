//! Laying a workspace out on its output, and what its animations follow.
use crate::animation::{
    living_targets, reconciled, still_running, AnimationManager, AnimationSettings, VisualRect,
    WindowAnimation,
};
use crate::geometry::{Rect, Size};
use crate::state::desktop::{Desktop, Step};
use crate::state::placement::{
    all_placed, configured_tiled_size, place_tiles, placements_upto, tile_in_range, tiled_extent,
    Geometry, TilePlacement,
};
use crate::state::tiling::{is_tiled, tiled_windows_in_workspace};
use crate::surface_map::SurfaceMap;
use crate::types::{FloatingWindowData, WindowRef};
use vstd::prelude::*;

verus! {

/// The floating windows of a workspace go back to where they are.
pub open spec fn remap_floating(
    windows: Seq<WindowRef>,
    floating: Map<u64, FloatingWindowData>,
) -> Seq<Step>
    decreases windows.len(),
{
    if windows.len() == 0 {
        Seq::empty()
    } else {
        let rest = remap_floating(windows.drop_last(), floating);
        let w = windows.last();
        if w.root is Some && floating.dom().contains(w.root->0) {
            rest.push(
                Step::Show { window: w.id, at: floating[w.root->0].position, activate: false },
            )
        } else {
            rest
        }
    }
}

/// See [`remap_floating`].
pub fn remap_floating_windows(
    windows: &Vec<WindowRef>,
    floating: &SurfaceMap<FloatingWindowData>,
) -> (r: Vec<Step>)
    requires
        floating.wf(),
    ensures
        r@ == remap_floating(windows@, floating@),
{
    let mut r: Vec<Step> = Vec::new();
    let mut i: usize = 0;
    proof {
        assert(windows@.subrange(0, 0) =~= Seq::<WindowRef>::empty());
    }
    while i < windows.len()
        invariant
            i <= windows.len(),
            floating.wf(),
            r@ == remap_floating(windows@.subrange(0, i as int), floating@),
        decreases windows.len() - i,
    {
        proof {
            let next = windows@.subrange(0, i + 1);
            assert(next.drop_last() =~= windows@.subrange(0, i as int));
            assert(next.last() == windows@[i as int]);
        }
        if let Some(root) = windows[i].root {
            if let Some(data) = floating.get(root) {
                r.push(
                    Step::Show { window: windows[i].id, at: data.position, activate: false },
                );
            }
        }
        i = i + 1;
    }
    proof {
        assert(windows@.subrange(0, i as int) =~= windows@);
    }
    r
}

/// How a workspace is laid out.
#[derive(Debug)]
pub struct Relayout {
    /// The tiled windows and their rectangles.
    pub tiles: Vec<TilePlacement>,
    /// What brings the floating windows back.
    pub floats: Vec<Step>,
    /// A frame is due.
    pub render: bool,
}

impl Desktop {
    /// The tiled windows of a workspace.
    pub open spec fn tiled(&self, workspace_idx: int) -> Seq<WindowRef> {
        self.workspaces@[workspace_idx].windows@.filter(
            |w: WindowRef| is_tiled(w, self.workspaces@, self.floating()),
        )
    }

    /// Lay a workspace out on an output. `has_area` says whether the area for
    /// its tiles is known, `cells` are the cells that the layout gives to its
    /// tiled windows. A workspace without tiled windows has only its floating
    /// ones put back.
    pub fn relayout_output(
        &self,
        workspace_idx: usize,
        has_area: bool,
        cells: &Vec<Option<Geometry>>,
        gap: i32,
        bw: i32,
    ) -> (r: Relayout)
        requires
            self.wf(),
            workspace_idx < self.workspaces@.len(),
            gap >= 0,
            bw >= 0,
            cells.len() == self.tiled(workspace_idx as int).len(),
            forall|i: int|
                0 <= i < cells.len() ==> ((#[trigger] cells@[i]) is Some ==> tile_in_range(
                    cells@[i]->0,
                    gap as int,
                    bw as int,
                )),
        ensures
            ({
                let tiled = self.tiled(workspace_idx as int);
                let lays_tiles = has_area && tiled.len() > 0;
                &&& r.render == lays_tiles
                &&& r.tiles@ == if lays_tiles {
                    placements_upto(tiled, cells@, tiled.len() as int, gap as int, bw as int)
                } else {
                    Seq::empty()
                }
                &&& lays_tiles ==> all_placed(r.tiles@, tiled, cells@, gap as int, bw as int)
                &&& r.floats@ == if has_area {
                    remap_floating(
                        self.workspaces@[workspace_idx as int].windows@,
                        self.floating(),
                    )
                } else {
                    Seq::empty()
                }
            }),
    {
        if !has_area {
            return Relayout { tiles: Vec::new(), floats: Vec::new(), render: false };
        }
        let floats = remap_floating_windows(
            &self.workspaces[workspace_idx].windows,
            &self.grabs.floating,
        );
        let tiled = tiled_windows_in_workspace(
            &self.workspaces,
            &self.grabs.floating,
            workspace_idx,
        );
        proof {
            assert(tiled@ == self.tiled(workspace_idx as int));
        }
        if tiled.len() == 0 {
            return Relayout { tiles: Vec::new(), floats, render: false };
        }
        let tiles = place_tiles(&tiled, cells, gap, bw);
        Relayout { tiles, floats, render: true }
    }

    /// How many tiles a workspace would have with one more window.
    pub fn tile_count_with_new(&self, workspace_idx: usize) -> (r: usize)
        requires
            self.wf(),
            workspace_idx < self.workspaces@.len(),
            self.tiled(workspace_idx as int).len() < usize::MAX,
        ensures
            r == self.tiled(workspace_idx as int).len() + 1,
    {
        let tiled = tiled_windows_in_workspace(
            &self.workspaces,
            &self.grabs.floating,
            workspace_idx,
        );
        tiled.len() + 1
    }
}

/// The size that a new window is asked for: that of the tile it would get. A
/// window with a parent chooses its own, as does one for which the layout has no
/// cell.
pub fn initial_toplevel_size(has_parent: bool, cell: Option<Geometry>, gap: i32, bw: i32) -> (r:
    Option<Size>)
    requires
        gap >= 0,
        bw >= 0,
        cell is Some ==> cell->0.width <= i32::MAX && cell->0.height <= i32::MAX,
    ensures
        if has_parent || cell is None {
            r is None
        } else {
            &&& r is Some
            &&& r->0.w == tiled_extent(cell->0.width as int, gap as int, bw as int)
            &&& r->0.h == tiled_extent(cell->0.height as int, gap as int, bw as int)
        },
{
    if has_parent {
        return None;
    }
    match cell {
        Some(cell) => Some(configured_tiled_size(cell, gap, bw)),
        None => None,
    }
}

/// The animations in flight and the resting rectangles after the first `n`
/// placements were taken over. `betweens` is what the curve of each window's
/// animation gives now.
pub open spec fn followed(
    settings: AnimationSettings,
    running: Map<u64, WindowAnimation>,
    resting: Map<u64, Rect>,
    tiles: Seq<TilePlacement>,
    betweens: Seq<Rect>,
    suppress: bool,
    now: u64,
    n: int,
) -> (Map<u64, WindowAnimation>, Map<u64, Rect>)
    decreases n,
{
    if n <= 0 {
        (running, resting)
    } else {
        let (anims, targets) = followed(
            settings,
            running,
            resting,
            tiles,
            betweens,
            suppress,
            now,
            n - 1,
        );
        let root = tiles[n - 1].window.root->0;
        let rect = tiles[n - 1].rect;
        if tiles[n - 1].window.root is None {
            (anims, targets)
        } else if suppress {
            (anims.remove(root), targets.insert(root, rect))
        } else {
            (
                reconciled(settings, anims, targets, root, rect, now, betweens[n - 1]),
                targets.insert(root, rect),
            )
        }
    }
}

impl AnimationManager {
    /// Let the animations follow the tiles to their new rectangles. `suppress`
    /// puts them there at once: so it is while a window owns the screen.
    pub fn follow_tiles(
        &mut self,
        tiles: &Vec<TilePlacement>,
        betweens: &Vec<Rect>,
        suppress: bool,
        now: u64,
    )
        requires
            old(self).wf(),
            tiles.len() == betweens.len(),
        ensures
            final(self).wf(),
            final(self).settings() == old(self).settings(),
            (final(self).running(), final(self).resting()) == followed(
                old(self).settings(),
                old(self).running(),
                old(self).resting(),
                tiles@,
                betweens@,
                suppress,
                now,
                tiles@.len() as int,
            ),
    {
        let mut i: usize = 0;
        while i < tiles.len()
            invariant
                i <= tiles.len(),
                tiles.len() == betweens.len(),
                self.wf(),
                self.settings() == old(self).settings(),
                (self.running(), self.resting()) == followed(
                    old(self).settings(),
                    old(self).running(),
                    old(self).resting(),
                    tiles@,
                    betweens@,
                    suppress,
                    now,
                    i as int,
                ),
            decreases tiles.len() - i,
        {
            if let Some(root) = tiles[i].window.root {
                if suppress {
                    self.track_target(root, tiles[i].rect);
                } else {
                    self.reconcile(root, tiles[i].rect, now, betweens[i]);
                }
            }
            i = i + 1;
        }
    }
}

/// Whether animations are put off: the settings say so for windows that own the
/// screen, and one does.
pub fn suppress_animations(animations: &AnimationManager, screen_owned: bool) -> (r: bool)
    ensures
        r == (animations.settings().disable_for_fullscreen && screen_owned),
{
    animations.disable_for_fullscreen() && screen_owned
}

/// The rectangle that a window is drawn into: what its animation shows, else
/// where it is.
pub fn visual_geometry(animated: Option<VisualRect>, geometry: Option<Rect>) -> (r: Option<Rect>)
    ensures
        r == if animated is Some {
            Some(animated->0.rect)
        } else {
            geometry
        },
{
    match animated {
        Some(visual) => Some(visual.rect),
        None => geometry,
    }
}

/// Whether a frame is due, and the number by which changed borders are told.
#[derive(Debug, Clone, Copy, PartialEq, Eq, Structural)]
pub struct Repaint {
    pub needs_render: bool,
    pub border_commit_serial: u64,
}

impl Repaint {
    /// The number after `n`.
    pub open spec fn serial_after(n: u64) -> u64 {
        if n == u64::MAX { 0 } else { (n + 1) as u64 }
    }

    /// The borders changed.
    pub fn invalidate_borders(&mut self)
        ensures
            final(self).needs_render,
            final(self).border_commit_serial == Repaint::serial_after(
                old(self).border_commit_serial,
            ),
    {
        self.border_commit_serial = self.border_commit_serial.wrapping_add(1);
        self.needs_render = true;
    }

    /// Advance the animations. While one is active, and once more when the last
    /// has ended, a frame is due and the borders are drawn anew. `dead` are the
    /// windows that are gone.
    pub fn tick_animations(
        &mut self,
        animations: &mut AnimationManager,
        now: u64,
        dead: &Vec<u64>,
    ) -> (active: bool)
        requires
            old(animations).wf(),
        ensures
            final(animations).wf(),
            final(animations).settings() == old(animations).settings(),
            final(animations).running() == still_running(old(animations).running(), dead@, now),
            final(animations).resting() == living_targets(old(animations).resting(), dead@),
            active == (final(animations).running() != Map::<u64, WindowAnimation>::empty()),
            ({
                let was_active = old(animations).running() != Map::<u64, WindowAnimation>::empty();
                *final(self) == if active || was_active {
                    Repaint {
                        needs_render: true,
                        border_commit_serial: Repaint::serial_after(
                            old(self).border_commit_serial,
                        ),
                    }
                } else {
                    *old(self)
                }
            }),
    {
        let was_active = animations.has_active();
        let active = animations.tick(now, dead);
        if active || was_active {
            self.invalidate_borders();
        }
        active
    }
}

/// While a window owns the screen and that puts animations off, laying out
/// starts none: each window that was laid out rests at its rectangle.
pub proof fn suppressed_tiles_do_not_move(
    settings: AnimationSettings,
    running: Map<u64, WindowAnimation>,
    resting: Map<u64, Rect>,
    tiles: Seq<TilePlacement>,
    betweens: Seq<Rect>,
    now: u64,
    n: int,
    i: int,
)
    requires
        0 <= i < n <= tiles.len(),
        tiles[i].window.root is Some,
        forall|j: int|
            i < j < n ==> (#[trigger] tiles[j]).window.root != tiles[i].window.root,
    ensures
        ({
            let (anims, targets) = followed(
                settings,
                running,
                resting,
                tiles,
                betweens,
                true,
                now,
                n,
            );
            let root = tiles[i].window.root->0;
            &&& !anims.dom().contains(root)
            &&& targets.dom().contains(root)
            &&& targets[root] == tiles[i].rect
        }),
    decreases n,
{
    if i < n - 1 {
        suppressed_tiles_do_not_move(settings, running, resting, tiles, betweens, now, n - 1, i);
        assert(tiles[n - 1].window.root != tiles[i].window.root);
    }
}

} // verus!
