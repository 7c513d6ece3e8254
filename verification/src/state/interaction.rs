//! What follows the start, the motion and the end of an interactive move, swap or
//! resize, in order.
use crate::geometry::{Point, Rect, Size};
use crate::input::grab::{
    grab_followed, motion_in_range, Drag, GrabMotion, LockCancel, ResizeCancel, ResizeFinish,
    SlotWindow, SwapFinish, UnderPointer,
};
use crate::input::pointer::{button_handled, ButtonFacts, ButtonPlan};
use crate::state::desktop::{windows_swapped, Desktop, Step};
use crate::state::placement::{configured_tiled_size, tiled_extent, Geometry};
use crate::state::tiling::{fills_a_screen, is_root_fullscreen};
use crate::types::{ActiveGrab, WindowRef};
use vstd::prelude::*;

verus! {

/// The cell that the layout gives to a tiled window, where it has one.
#[derive(Debug, Clone, Copy, PartialEq, Eq, Structural)]
pub struct TileCell {
    pub cell: Option<Geometry>,
    pub gap: i32,
    pub bw: i32,
}

impl TileCell {
    pub open spec fn in_range(self) -> bool {
        &&& self.gap >= 0
        &&& self.bw >= 0
        &&& self.cell is Some ==> self.cell->0.width <= i32::MAX && self.cell->0.height <= i32::MAX
    }

    /// The size of the window in the cell.
    pub open spec fn size(self) -> Option<Size> {
        match self.cell {
            Some(cell) => Some(
                Size {
                    w: tiled_extent(cell.width as int, self.gap as int, self.bw as int) as i32,
                    h: tiled_extent(cell.height as int, self.gap as int, self.bw as int) as i32,
                },
            ),
            None => None,
        }
    }

    fn target_size(&self) -> (r: Option<Size>)
        requires
            self.in_range(),
        ensures
            r == self.size(),
    {
        match self.cell {
            Some(cell) => Some(configured_tiled_size(cell, self.gap, self.bw)),
            None => None,
        }
    }
}

/// The steps that give the keyboard to a grabbed window and put it in front.
pub open spec fn take_hold_steps(window: WindowRef) -> Seq<Step> {
    (if window.root is Some {
        seq![Step::Focus { root: window.root }]
    } else {
        Seq::empty()
    }) + seq![Step::Raise { window: window.id, activate: true }, Step::Render]
}

/// The steps when a window is taken hold of.
pub open spec fn start_steps(grab: ActiveGrab, shown_size: Size, tile: Option<Size>) -> Seq<Step> {
    match grab {
        ActiveGrab::Move(g) => take_hold_steps(g.window).push(Step::RefreshCursor),
        ActiveGrab::TiledSwap(g) => seq![Step::SaveLayout] + take_hold_steps(g.window) + (
        if g.window.root is Some {
            seq![Step::RemoveTile { workspace: g.workspace_idx, root: g.window.root->0 }]
        } else {
            Seq::empty()
        }) + seq![
            Step::InvalidateBorders,
            Step::Relayout,
            Step::Raise { window: g.window.id, activate: true },
            Step::RefreshCursor,
        ],
        ActiveGrab::Resize(g) => take_hold_steps(g.window) + seq![
            Step::Resize { window: g.window.id, size: Some(g.start_window_size), resizing: true },
            Step::RefreshCursor,
        ],
        ActiveGrab::TiledResize(g) => take_hold_steps(g.window) + seq![
            Step::Resize {
                window: g.window.id,
                size: if tile is Some { tile } else { Some(shown_size) },
                resizing: true,
            },
            Step::RefreshCursor,
        ],
    }
}

/// The steps when a dragged tile is let go of: the layout comes back, and the tile
/// is swapped or goes back to its slot. `swappable` says whether the two windows
/// may change places.
pub open spec fn drop_steps(window: WindowRef, finish: SwapFinish, swappable: bool) -> Seq<Step> {
    let restore = if finish.restore_layout { seq![Step::RestoreLayout] } else { Seq::empty() };
    if window.root is None {
        restore + seq![Step::InvalidateBorders, Step::Relayout, Step::RefreshCursor]
    } else {
        let swap = finish.swap->0;
        restore + seq![
            if finish.swap is Some && swappable {
                Step::SwapTiles {
                    workspace: swap.workspace_idx,
                    first: swap.source,
                    second: swap.target,
                }
            } else {
                Step::Relayout
            },
            Step::InvalidateBorders,
            Step::RefreshCursor,
        ]
    }
}

/// The steps when a resize ends. `tile` is the size of the window's tile.
pub open spec fn resize_end_steps(finish: ResizeFinish, tile: Option<Size>) -> Seq<Step> {
    match finish {
        ResizeFinish::NoGrab => Seq::empty(),
        ResizeFinish::Tiled { window, workspace_idx: _ } => seq![
            Step::Resize {
                window: window.id,
                size: if window.root is Some { tile } else { None },
                resizing: false,
            },
            Step::RefreshCursor,
        ],
        ResizeFinish::Floating { window, position, size } => seq![
            Step::Resize { window: window.id, size: Some(size), resizing: false },
            Step::Show { window: window.id, at: position, activate: true },
            Step::RefreshCursor,
        ],
    }
}

/// The steps that a button leads to on `desktop`, whose grab was `before`. A
/// button that goes to a client leads to none.
pub open spec fn button_steps(
    desktop: Desktop,
    before: Option<ActiveGrab>,
    facts: ButtonFacts,
    plan: ButtonPlan,
    tile: Option<Size>,
) -> Seq<Step> {
    match plan {
        ButtonPlan::Deliver { .. } => Seq::empty(),
        ButtonPlan::FinishedMove => seq![Step::RefreshCursor],
        ButtonPlan::FinishedTiledSwap(finish) => {
            let swap = finish.swap->0;
            drop_steps(
                before->0->TiledSwap_0.window,
                finish,
                desktop.swappable(swap.workspace_idx, swap.source, swap.target),
            )
        },
        ButtonPlan::FinishedResize(finish) => resize_end_steps(finish, tile),
        _ => start_steps(
            desktop.grabs.active_grab->0,
            facts.window_under->0.geometry->0.size,
            tile,
        ),
    }
}

fn push_take_hold(steps: &mut Vec<Step>, window: WindowRef)
    ensures
        final(steps)@ == old(steps)@ + take_hold_steps(window),
{
    let ghost before = steps@;
    if window.root.is_some() {
        steps.push(Step::Focus { root: window.root });
    }
    steps.push(Step::Raise { window: window.id, activate: true });
    steps.push(Step::Render);
    proof {
        assert(steps@ =~= before + take_hold_steps(window));
    }
}

fn list_start_steps(grab: ActiveGrab, shown_size: Size, tile: Option<Size>) -> (r: Vec<Step>)
    ensures
        r@ == start_steps(grab, shown_size, tile),
{
    let mut steps: Vec<Step> = Vec::new();
    match grab {
        ActiveGrab::Move(g) => {
            push_take_hold(&mut steps, g.window);
            steps.push(Step::RefreshCursor);
        },
        ActiveGrab::TiledSwap(g) => {
            steps.push(Step::SaveLayout);
            push_take_hold(&mut steps, g.window);
            if let Some(root) = g.window.root {
                steps.push(Step::RemoveTile { workspace: g.workspace_idx, root });
            }
            steps.push(Step::InvalidateBorders);
            steps.push(Step::Relayout);
            steps.push(Step::Raise { window: g.window.id, activate: true });
            steps.push(Step::RefreshCursor);
        },
        ActiveGrab::Resize(g) => {
            push_take_hold(&mut steps, g.window);
            steps.push(
                Step::Resize {
                    window: g.window.id,
                    size: Some(g.start_window_size),
                    resizing: true,
                },
            );
            steps.push(Step::RefreshCursor);
        },
        ActiveGrab::TiledResize(g) => {
            push_take_hold(&mut steps, g.window);
            let size = match tile {
                Some(size) => size,
                None => shown_size,
            };
            steps.push(Step::Resize { window: g.window.id, size: Some(size), resizing: true });
            steps.push(Step::RefreshCursor);
        },
    }
    proof {
        assert(steps@ =~= start_steps(grab, shown_size, tile));
    }
    steps
}

fn list_drop_steps(window: WindowRef, finish: SwapFinish, swappable: bool) -> (r: Vec<Step>)
    ensures
        r@ == drop_steps(window, finish, swappable),
{
    let mut steps: Vec<Step> = Vec::new();
    if finish.restore_layout {
        steps.push(Step::RestoreLayout);
    }
    if window.root.is_none() {
        steps.push(Step::InvalidateBorders);
        steps.push(Step::Relayout);
    } else {
        match finish.swap {
            Some(swap) if swappable => {
                steps.push(
                    Step::SwapTiles {
                        workspace: swap.workspace_idx,
                        first: swap.source,
                        second: swap.target,
                    },
                );
            },
            _ => {
                steps.push(Step::Relayout);
            },
        }
        steps.push(Step::InvalidateBorders);
    }
    steps.push(Step::RefreshCursor);
    proof {
        assert(steps@ =~= drop_steps(window, finish, swappable));
    }
    steps
}

fn list_resize_end_steps(finish: ResizeFinish, tile: Option<Size>) -> (r: Vec<Step>)
    ensures
        r@ == resize_end_steps(finish, tile),
{
    let mut steps: Vec<Step> = Vec::new();
    match finish {
        ResizeFinish::NoGrab => {},
        ResizeFinish::Tiled { window, workspace_idx: _ } => {
            let size = if window.root.is_some() {
                tile
            } else {
                None
            };
            steps.push(Step::Resize { window: window.id, size, resizing: false });
            steps.push(Step::RefreshCursor);
        },
        ResizeFinish::Floating { window, position, size } => {
            steps.push(Step::Resize { window: window.id, size: Some(size), resizing: false });
            steps.push(Step::Show { window: window.id, at: position, activate: true });
            steps.push(Step::RefreshCursor);
        },
    }
    proof {
        assert(steps@ =~= resize_end_steps(finish, tile));
    }
    steps
}

/// The steps that carry out a motion of the active grab.
pub open spec fn motion_steps_of(motion: GrabMotion) -> Seq<Step> {
    match motion {
        GrabMotion::Stay => Seq::empty(),
        GrabMotion::Move { window, to } => seq![
            Step::Show { window: window.id, at: to, activate: true },
        ],
        GrabMotion::SwapMove { window, to, borders_changed } => seq![
            Step::Show { window: window.id, at: to, activate: true },
        ] + (if borders_changed { seq![Step::InvalidateBorders] } else { Seq::empty() }),
        GrabMotion::Resize { window, to, size } => seq![
            Step::Show { window: window.id, at: to, activate: true },
            Step::Resize { window: window.id, size: Some(size), resizing: true },
        ],
        GrabMotion::TiledResize { window, workspace_idx, edges, by } => if window.root is Some {
            seq![Step::ResizeTile { workspace: workspace_idx, root: window.root->0, edges, by }]
        } else {
            Seq::empty()
        },
    }
}

/// See [`motion_steps_of`].
pub fn motion_steps(motion: GrabMotion) -> (r: Vec<Step>)
    ensures
        r@ == motion_steps_of(motion),
{
    let mut steps: Vec<Step> = Vec::new();
    match motion {
        GrabMotion::Stay => {},
        GrabMotion::Move { window, to } => {
            steps.push(Step::Show { window: window.id, at: to, activate: true });
        },
        GrabMotion::SwapMove { window, to, borders_changed } => {
            steps.push(Step::Show { window: window.id, at: to, activate: true });
            if borders_changed {
                steps.push(Step::InvalidateBorders);
            }
        },
        GrabMotion::Resize { window, to, size } => {
            steps.push(Step::Show { window: window.id, at: to, activate: true });
            steps.push(Step::Resize { window: window.id, size: Some(size), resizing: true });
        },
        GrabMotion::TiledResize { window, workspace_idx, edges, by } => {
            if let Some(root) = window.root {
                steps.push(Step::ResizeTile { workspace: workspace_idx, root, edges, by });
            }
        },
    }
    proof {
        assert(steps@ =~= motion_steps_of(motion));
    }
    steps
}

/// The layout was asked to move the edges of a window's tile. Where it did, the
/// tiles are laid out again and the window is asked for the size of its tile.
pub fn tile_resized(window: WindowRef, done: bool, tile: TileCell) -> (r: Vec<Step>)
    requires
        tile.in_range(),
    ensures
        r@ == if !done {
            Seq::empty()
        } else if tile.cell is None {
            seq![Step::Relayout]
        } else {
            seq![
                Step::Relayout,
                Step::Resize { window: window.id, size: tile.size(), resizing: true },
            ]
        },
{
    let mut steps: Vec<Step> = Vec::new();
    if done {
        steps.push(Step::Relayout);
        let size = tile.target_size();
        if size.is_some() {
            steps.push(Step::Resize { window: window.id, size, resizing: true });
        }
    }
    proof {
        assert(steps@ =~= if !done {
            Seq::empty()
        } else if tile.cell is None {
            seq![Step::Relayout]
        } else {
            seq![
                Step::Relayout,
                Step::Resize { window: window.id, size: tile.size(), resizing: true },
            ]
        });
    }
    steps
}

/// The steps that a lock leads to where it cuts a grab short.
pub open spec fn cancel_steps_of(cancel: LockCancel) -> Seq<Step> {
    (if cancel.restore_layout { seq![Step::RestoreLayout] } else { Seq::empty() }) + (
    if cancel.relayout { seq![Step::Relayout] } else { Seq::empty() }) + (match cancel.resize {
        ResizeCancel::NoGrab => Seq::empty(),
        ResizeCancel::Tiled { window } => seq![
            Step::Resize { window: window.id, size: None, resizing: false },
        ],
        ResizeCancel::Floating { window, size } => seq![
            Step::Resize { window: window.id, size: Some(size), resizing: false },
        ],
    }) + seq![Step::RefreshCursor]
}

/// See [`cancel_steps_of`]. The pointer is let go of before the last of them.
pub fn cancel_steps(cancel: LockCancel) -> (r: Vec<Step>)
    ensures
        r@ == cancel_steps_of(cancel),
{
    let mut steps: Vec<Step> = Vec::new();
    if cancel.restore_layout {
        steps.push(Step::RestoreLayout);
    }
    if cancel.relayout {
        steps.push(Step::Relayout);
    }
    match cancel.resize {
        ResizeCancel::NoGrab => {},
        ResizeCancel::Tiled { window } => {
            steps.push(Step::Resize { window: window.id, size: None, resizing: false });
        },
        ResizeCancel::Floating { window, size } => {
            steps.push(Step::Resize { window: window.id, size: Some(size), resizing: false });
        },
    }
    steps.push(Step::RefreshCursor);
    proof {
        assert(steps@ =~= cancel_steps_of(cancel));
    }
    steps
}

impl Desktop {
    /// What is known of a button event, with what the desktop knows filled in: the
    /// active workspace, and whether the window under the pointer fills a screen.
    pub open spec fn facts_here(&self, facts: ButtonFacts) -> ButtonFacts {
        ButtonFacts {
            workspace_idx: self.active() as usize,
            window_under: match facts.window_under {
                Some(under) => Some(
                    UnderPointer {
                        fullscreen: under.window.root is Some && fills_a_screen(
                            self.workspaces@,
                            under.window.root->0,
                        ),
                        ..under
                    },
                ),
                None => None,
            },
            ..facts
        }
    }

    fn complete_facts(&self, facts: ButtonFacts) -> (r: ButtonFacts)
        requires
            self.wf(),
        ensures
            r == self.facts_here(facts),
    {
        let mut facts = facts;
        facts.workspace_idx = self.outputs.active_workspace();
        if let Some(under) = facts.window_under {
            let fullscreen = match under.window.root {
                Some(root) => is_root_fullscreen(&self.workspaces, root),
                None => false,
            };
            facts.window_under =
            Some(UnderPointer { window: under.window, geometry: under.geometry, fullscreen });
        }
        facts
    }

    /// Handle a button event and list what follows: for a grab that starts, the
    /// window gets the keyboard and comes to the front, and a tile leaves the
    /// layout; for one that ends, the layout comes back and the tile is swapped,
    /// or the window keeps its last size. `tile` is the cell of the window that
    /// is taken hold of or let go of.
    pub fn handle_pointer_button(&mut self, facts: ButtonFacts, tile: TileCell) -> (r: (
        ButtonPlan,
        Vec<Step>,
    ))
        requires
            old(self).wf(),
            tile.in_range(),
            old(self).grabs.active_grab matches Some(ActiveGrab::TiledSwap(g)) ==> (Rect {
                loc: g.start_window_pos,
                size: g.start_window_size,
            }).in_range(),
        ensures
            final(self).wf(),
            final(self).workspaces == old(self).workspaces,
            final(self).outputs == old(self).outputs,
            final(self).books == old(self).books,
            button_handled(old(self).grabs, final(self).grabs, old(self).facts_here(facts), r.0),
            r.1@ == button_steps(
                *final(self),
                old(self).grabs.active_grab,
                old(self).facts_here(facts),
                r.0,
                tile.size(),
            ),
    {
        let facts = self.complete_facts(facts);
        let before = self.grabs.active_grab;
        let plan = self.grabs.handle_pointer_button(facts);
        let size = tile.target_size();
        let steps = match plan {
            ButtonPlan::Deliver { .. } => Vec::new(),
            ButtonPlan::FinishedMove => {
                let mut steps: Vec<Step> = Vec::new();
                steps.push(Step::RefreshCursor);
                proof {
                    assert(steps@ =~= seq![Step::RefreshCursor]);
                }
                steps
            },
            ButtonPlan::FinishedTiledSwap(finish) => {
                let swappable = match finish.swap {
                    Some(swap) => self.may_swap_tiles(swap.workspace_idx, swap.source, swap.target),
                    None => false,
                };
                match before {
                    Some(ActiveGrab::TiledSwap(grab)) => {
                        let steps = list_drop_steps(grab.window, finish, swappable);
                        proof {
                            let swap = finish.swap->0;
                            assert(steps@ =~= drop_steps(
                                grab.window,
                                finish,
                                self.swappable(swap.workspace_idx, swap.source, swap.target),
                            ));
                        }
                        steps
                    },
                    _ => Vec::new(),
                }
            },
            ButtonPlan::FinishedResize(finish) => list_resize_end_steps(finish, size),
            _ => match (self.grabs.active_grab, facts.window_under) {
                (Some(grab), Some(under)) => match under.geometry {
                    Some(geometry) => list_start_steps(grab, geometry.size, size),
                    None => Vec::new(),
                },
                _ => Vec::new(),
            },
        };
        (plan, steps)
    }

    /// The windows of a workspace as a drag sees them; `geometries` is where each
    /// is shown.
    pub open spec fn slots(&self, workspace_idx: int, geometries: Seq<Option<Rect>>) -> Seq<
        SlotWindow,
    > {
        let windows = self.workspaces@[workspace_idx].windows@;
        Seq::new(
            windows.len(),
            |i: int|
                SlotWindow {
                    root: windows[i].root,
                    fullscreen: windows[i].root is Some && fills_a_screen(
                        self.workspaces@,
                        windows[i].root->0,
                    ),
                    geometry: geometries[i],
                },
        )
    }

    fn list_slots(&self, workspace_idx: usize, geometries: &Vec<Option<Rect>>) -> (r: Vec<
        SlotWindow,
    >)
        requires
            self.wf(),
            workspace_idx < self.workspaces@.len(),
            geometries.len() == self.workspaces@[workspace_idx as int].windows@.len(),
        ensures
            r@ == self.slots(workspace_idx as int, geometries@),
    {
        let windows = &self.workspaces[workspace_idx].windows;
        let ghost all = self.slots(workspace_idx as int, geometries@);
        let mut r: Vec<SlotWindow> = Vec::new();
        let mut i: usize = 0;
        while i < windows.len()
            invariant
                i <= windows.len(),
                self.wf(),
                workspace_idx < self.workspaces@.len(),
                windows@ == self.workspaces@[workspace_idx as int].windows@,
                geometries.len() == windows.len(),
                all == self.slots(workspace_idx as int, geometries@),
                r@ =~= all.subrange(0, i as int),
            decreases windows.len() - i,
        {
            let fullscreen = match windows[i].root {
                Some(root) => is_root_fullscreen(&self.workspaces, root),
                None => false,
            };
            r.push(SlotWindow { root: windows[i].root, fullscreen, geometry: geometries[i] });
            i = i + 1;
        }
        proof {
            assert(r@ =~= all);
        }
        r
    }

    /// The windows that the active grab could be swapped with are those of the
    /// workspace it was taken from; none but a dragged tile is swapped.
    pub open spec fn grab_slots(&self, geometries: Seq<Option<Rect>>) -> Seq<SlotWindow> {
        match self.grabs.active_grab {
            Some(ActiveGrab::TiledSwap(g)) => self.slots(g.workspace_idx as int, geometries),
            _ => Seq::empty(),
        }
    }

    /// The pointer was moved with a grab active: bring it up to date, and list
    /// what the scene has to do. `geometries` is where the windows of the dragged
    /// tile's workspace are shown; `None` where no grab is active.
    pub fn handle_active_grab(
        &mut self,
        drag: Drag,
        pointer: Point,
        shown_size: Option<Size>,
        usable: Option<Rect>,
        geometries: &Vec<Option<Rect>>,
    ) -> (r: Option<Vec<Step>>)
        requires
            old(self).wf(),
            motion_in_range(
                old(self).grabs.active_grab,
                drag,
                old(self).floating(),
                shown_size,
                usable,
            ),
            old(self).grabs.active_grab matches Some(ActiveGrab::TiledSwap(g)) ==> {
                &&& g.workspace_idx < old(self).workspaces@.len()
                &&& geometries.len() == old(
                    self,
                ).workspaces@[g.workspace_idx as int].windows@.len()
                &&& forall|i: int|
                    0 <= i < geometries.len() ==> ((#[trigger] geometries@[i]) is Some
                        ==> geometries@[i]->0.in_range())
            },
        ensures
            final(self).wf(),
            final(self).workspaces == old(self).workspaces,
            final(self).outputs == old(self).outputs,
            final(self).books == old(self).books,
            exists|motion: Option<GrabMotion>|
                {
                    &&& #[trigger] grab_followed(
                        old(self).grabs,
                        final(self).grabs,
                        drag,
                        pointer,
                        shown_size,
                        usable,
                        old(self).grab_slots(geometries@),
                        motion,
                    )
                    &&& r is Some <==> motion is Some
                    &&& motion is Some ==> r->0@ == motion_steps_of(motion->0)
                },
    {
        let slots = match self.grabs.active_grab {
            Some(ActiveGrab::TiledSwap(grab)) => self.list_slots(grab.workspace_idx, geometries),
            _ => Vec::new(),
        };
        proof {
            assert(slots@ =~= self.grab_slots(geometries@));
        }
        let motion = self.grabs.handle_active_grab(drag, pointer, shown_size, usable, &slots);
        proof {
            assert(grab_followed(
                old(self).grabs,
                self.grabs,
                drag,
                pointer,
                shown_size,
                usable,
                old(self).grab_slots(geometries@),
                motion,
            ));
        }
        match motion {
            Some(motion) => Some(motion_steps(motion)),
            None => None,
        }
    }

    /// The layout was asked to swap two tiles. Where it did, their windows change
    /// places in the list of the workspace; where not, the tiles go back to where
    /// they were.
    pub fn tiles_swapped(
        &mut self,
        workspace_idx: usize,
        first: u64,
        second: u64,
        done: bool,
    ) -> (r: Vec<Step>)
        requires
            old(self).wf(),
            workspace_idx < old(self).workspaces@.len(),
        ensures
            final(self).wf(),
            ({
                let found = windows_swapped(
                    *old(self),
                    *final(self),
                    workspace_idx,
                    first,
                    second,
                    true,
                    r@,
                );
                let lost = windows_swapped(
                    *old(self),
                    *final(self),
                    workspace_idx,
                    first,
                    second,
                    false,
                    Seq::empty(),
                );
                if done {
                    found || (lost && r@ == seq![Step::Relayout])
                } else {
                    *final(self) == *old(self) && r@ == seq![Step::Relayout]
                }
            }),
    {
        if done {
            let (swapped, steps) = self.swap_tiled_windows(workspace_idx, first, second);
            if swapped {
                return steps;
            }
            proof {
                assert(steps@ =~= Seq::<Step>::empty());
            }
        }
        let mut steps: Vec<Step> = Vec::new();
        steps.push(Step::Relayout);
        proof {
            assert(steps@ =~= seq![Step::Relayout]);
        }
        steps
    }
}

/// A dragged tile that is swapped with nothing goes back to its place: the layout
/// that was saved when it was taken hold of is put back first, the tiles are laid
/// out again, and no two of them change places.
pub proof fn a_dropped_tile_goes_back(
    desktop: Desktop,
    before: Option<ActiveGrab>,
    facts: ButtonFacts,
    finish: SwapFinish,
    tile: Option<Size>,
)
    requires
        before matches Some(ActiveGrab::TiledSwap(_)),
        finish.restore_layout,
        finish.swap is None,
    ensures
        ({
            let steps = button_steps(
                desktop,
                before,
                facts,
                ButtonPlan::FinishedTiledSwap(finish),
                tile,
            );
            &&& steps[0] == Step::RestoreLayout
            &&& steps.contains(Step::Relayout)
            &&& forall|i: int| 0 <= i < steps.len() ==> !(#[trigger] steps[i] is SwapTiles)
        }),
{
    let steps = button_steps(desktop, before, facts, ButtonPlan::FinishedTiledSwap(finish), tile);
    if before->0->TiledSwap_0.window.root is None {
        assert(steps[2] == Step::Relayout);
    } else {
        assert(steps[1] == Step::Relayout);
    }
}

/// A tile that is dropped onto another one changes places with it, where both may; it goes
/// back to where it was otherwise. The layout from before the drag comes back first.
pub proof fn a_dropped_tile_is_swapped_with_its_target(
    window: WindowRef,
    finish: SwapFinish,
    swappable: bool,
)
    requires
        window.root is Some,
    ensures
        ({
            let steps = drop_steps(window, finish, swappable);
            &&& finish.restore_layout ==> steps[0] == Step::RestoreLayout
            &&& finish.swap is Some && swappable ==> steps.contains(
                Step::SwapTiles {
                    workspace: finish.swap->0.workspace_idx,
                    first: finish.swap->0.source,
                    second: finish.swap->0.target,
                },
            )
            &&& finish.swap is None || !swappable ==> steps.contains(Step::Relayout) && forall|
                i: int,
            |
                0 <= i < steps.len() ==> !((#[trigger] steps[i]) is SwapTiles)
            &&& steps.contains(Step::InvalidateBorders)
        }),
{
    let steps = drop_steps(window, finish, swappable);
    let n: int = if finish.restore_layout { 1 } else { 0 };
    assert(steps.len() == n + 3);
    assert(steps[n] == if finish.swap is Some && swappable {
        Step::SwapTiles {
            workspace: finish.swap->0.workspace_idx,
            first: finish.swap->0.source,
            second: finish.swap->0.target,
        }
    } else {
        Step::Relayout
    });
    assert(steps[n + 1] == Step::InvalidateBorders);
}

/// A tile is asked for the size of its cell less its gaps and borders.
pub proof fn a_tile_is_asked_for_the_size_of_its_cell(tile: TileCell)
    requires
        tile.in_range(),
        tile.cell is Some,
    ensures
        tile.size() is Some,
        tile.cell->0.width > 2 * tile.gap + 2 * tile.bw ==> tile.size()->0.w + 2 * tile.gap + 2
            * tile.bw == tile.cell->0.width,
        tile.cell->0.height > 2 * tile.gap + 2 * tile.bw ==> tile.size()->0.h + 2 * tile.gap + 2
            * tile.bw == tile.cell->0.height,
        tile.size()->0.w >= 1,
        tile.size()->0.h >= 1,
{
}

/// What a button does goes by the workspace in view, and by whether the window under the
/// pointer fills a screen.
pub proof fn buttons_go_by_what_is_in_view(desktop: Desktop, facts: ButtonFacts, root: u64)
    requires
        desktop.wf(),
    ensures
        desktop.facts_here(facts).workspace_idx == desktop.active(),
        desktop.facts_here(facts).button == facts.button,
        desktop.facts_here(facts).pressed == facts.pressed,
        facts.window_under is None ==> desktop.facts_here(facts).window_under is None,
        facts.window_under is Some ==> ({
            let under = desktop.facts_here(facts).window_under->0;
            &&& under.window == facts.window_under->0.window
            &&& under.geometry == facts.window_under->0.geometry
            &&& under.window.root == Some(root) ==> (under.fullscreen <==> exists|w: int|
                0 <= w < desktop.workspaces@.len() && (#[trigger] desktop.workspaces@[w]).fullscreen
                    is Some && desktop.workspaces@[w].fullscreen->0.root == Some(root))
        }),
{
    let homes: usize = desktop.outputs.homes.len();
}

} // verus!
