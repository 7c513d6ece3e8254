//! The desktop: workspaces, outputs and what is known of each window, and what
//! has to be done in the scene when a window starts or stops to float, to
//! stick or to fill the screen.
//!
//! The functions bring the desktop up to date and list the steps that the
//! scene, the layout and the clients have to take, in order.
use crate::geometry::{Point, Rect, Size};
use crate::input::grab::GrabState;
use crate::state::output::Outputs;
use crate::state::placement::{half_in_range, half_output, half_output_placement};
use crate::state::tiling::{
    fills_a_screen, focused_tiled_window_root, index_with_root, is_root_fullscreen, split_target,
    window_index_for_root, Workspace,
};
use crate::state::workspace::{float_toggle_transition, FloatToggleTransition};
use crate::surface_map::SurfaceMap;
use crate::types::{FloatingWindowData, ResizeEdges, WindowRef};
use vstd::prelude::*;

verus! {

/// One thing to do in the scene, the layout or to a client.
#[derive(Debug, Clone, Copy, PartialEq, Eq, Structural)]
pub enum Step {
    /// Take the window out of the scene.
    Hide { window: u64 },
    /// Show the window at a point.
    Show { window: u64, at: Point, activate: bool },
    /// Put the window in front of the others.
    Raise { window: u64, activate: bool },
    /// Put it in front in the X server's own order too, where it is an X11
    /// window.
    RaiseInX11 { window: u64 },
    /// Ask the window for a size, or its own where there is none, and tell it
    /// whether it fills the screen.
    Configure { window: u64, size: Option<Size>, fullscreen: Option<bool> },
    /// Tell the window that it is no longer being resized.
    EndResize { window: u64 },
    /// Ask the window for a size, or its own where there is none, and tell it
    /// whether it is being resized.
    Resize { window: u64, size: Option<Size>, resizing: bool },
    /// Answer the client with what it was told already.
    Acknowledge,
    /// Keep a copy of the layout.
    SaveLayout,
    /// Put the copy of the layout back.
    RestoreLayout,
    /// Let the layout swap two tiles, and say whether it did.
    SwapTiles { workspace: usize, first: u64, second: u64 },
    /// Let the layout move the edges of a tile, and say whether it did.
    ResizeTile { workspace: usize, root: u64, edges: ResizeEdges, by: Point },
    /// Give the window a tile, split off that of another one.
    InsertTile { workspace: usize, root: u64, split: Option<u64> },
    RemoveTile { workspace: usize, root: u64 },
    ForgetAnimation { root: u64 },
    /// The borders changed: they are drawn anew.
    InvalidateBorders,
    /// Look up the compositor's own cursor again.
    RefreshCursor,
    Relayout,
    /// Put the outputs side by side.
    RepackOutputs,
    /// Pull the floating windows back onto their outputs.
    ReclampFloating,
    /// Put the floating windows of the active workspace in front.
    RaiseFloating,
    /// Put the sticky windows in front.
    RaiseSticky,
    PublishWorkspaces,
    /// Give the keyboard to the window, or take it away.
    Focus { root: Option<u64> },
    /// Give the keyboard to the window once the running callback is done.
    FocusAfterDispatch { root: u64 },
    Render,
    /// No frame is due any more: there is nothing to draw on.
    CancelRender,
}

/// What is known of windows besides their place in a workspace, by root.
#[derive(Debug)]
pub struct Books {
    /// Shown on every workspace.
    pub sticky: SurfaceMap<()>,
    /// Have shown a buffer: only these can be unmapped by their clients.
    pub mapped_with_buffer: SurfaceMap<()>,
    /// Were asked for their natural size and are centred when they have it.
    pub pending_float_centers: SurfaceMap<()>,
    /// Announced before they were mapped that they are dialogs.
    pub pending_should_float: SurfaceMap<()>,
    /// The mapped windows.
    pub window_lookup: SurfaceMap<WindowRef>,
    /// The windows that are not mapped yet, oldest first.
    pub pending_windows: Vec<WindowRef>,
}

impl Books {
    pub open spec fn wf(&self) -> bool {
        &&& self.sticky.wf()
        &&& self.mapped_with_buffer.wf()
        &&& self.pending_float_centers.wf()
        &&& self.pending_should_float.wf()
        &&& self.window_lookup.wf()
    }

    pub fn new() -> (r: Self)
        ensures
            r.wf(),
            r.sticky@ == Map::<u64, ()>::empty(),
            r.mapped_with_buffer@ == Map::<u64, ()>::empty(),
            r.pending_float_centers@ == Map::<u64, ()>::empty(),
            r.pending_should_float@ == Map::<u64, ()>::empty(),
            r.window_lookup@ == Map::<u64, WindowRef>::empty(),
            r.pending_windows@ == Seq::<WindowRef>::empty(),
    {
        Books {
            sticky: SurfaceMap::new(),
            mapped_with_buffer: SurfaceMap::new(),
            pending_float_centers: SurfaceMap::new(),
            pending_should_float: SurfaceMap::new(),
            window_lookup: SurfaceMap::new(),
            pending_windows: Vec::new(),
        }
    }
}

/// Workspaces, outputs, the pointer grab with the floating windows, and what
/// else is known of the windows.
#[derive(Debug)]
pub struct Desktop {
    pub workspaces: Vec<Workspace<WindowRef>>,
    pub outputs: Outputs,
    pub grabs: GrabState,
    pub books: Books,
}

/// Whether the grab itself, apart from the floating windows, is the same.
pub open spec fn same_grab(a: GrabState, b: GrabState) -> bool {
    &&& a.active_grab == b.active_grab
    &&& a.tiled_swap_target == b.tiled_swap_target
    &&& a.layout_saved == b.layout_saved
}

/// Whether two workspaces are the same but for the window that fills the
/// screen.
pub open spec fn same_windows(a: Workspace<WindowRef>, b: Workspace<WindowRef>) -> bool {
    a.windows@ == b.windows@ && a.focused_idx == b.focused_idx
}

/// Whether the workspaces `a` are `b` but for the window that fills the screen
/// of number `idx`, which is `fullscreen`.
pub open spec fn with_fullscreen(
    a: Seq<Workspace<WindowRef>>,
    b: Seq<Workspace<WindowRef>>,
    idx: int,
    fullscreen: Option<WindowRef>,
) -> bool {
    &&& a.len() == b.len()
    &&& forall|k: int| 0 <= k < b.len() && k != idx ==> #[trigger] a[k] == b[k]
    &&& same_windows(a[idx], b[idx])
    &&& a[idx].fullscreen == fullscreen
}

/// The windows that are not in the scene (`shown` are, and `also` is) are put
/// back into it.
pub open spec fn remap_hidden(
    windows: Seq<WindowRef>,
    shown: Seq<u64>,
    also: Option<u64>,
) -> Seq<Step>
    decreases windows.len(),
{
    if windows.len() == 0 {
        Seq::empty()
    } else {
        let rest = remap_hidden(windows.drop_last(), shown, also);
        let id = windows.last().id;
        if shown.contains(id) || also == Some(id) {
            rest
        } else {
            rest.push(Step::Show { window: id, at: Point { x: 0, y: 0 }, activate: false })
        }
    }
}

/// All windows but one are taken out of the scene.
pub open spec fn unmap_others(windows: Seq<WindowRef>, keep: u64) -> Seq<Step>
    decreases windows.len(),
{
    if windows.len() == 0 {
        Seq::empty()
    } else {
        let rest = unmap_others(windows.drop_last(), keep);
        if windows.last().id == keep {
            rest
        } else {
            rest.push(Step::Hide { window: windows.last().id })
        }
    }
}

pub fn push_remap_hidden(
    steps: &mut Vec<Step>,
    windows: &Vec<WindowRef>,
    shown: &Vec<u64>,
    also: Option<u64>,
)
    ensures
        final(steps)@ == old(steps)@ + remap_hidden(windows@, shown@, also),
{
    let ghost before = steps@;
    let mut i: usize = 0;
    proof {
        assert(windows@.subrange(0, 0) =~= Seq::<WindowRef>::empty());
        assert(before + Seq::<Step>::empty() =~= before);
    }
    while i < windows.len()
        invariant
            i <= windows.len(),
            steps@ == before + remap_hidden(windows@.subrange(0, i as int), shown@, also),
        decreases windows.len() - i,
    {
        let ghost done = remap_hidden(windows@.subrange(0, i as int), shown@, also);
        proof {
            let next = windows@.subrange(0, i + 1);
            assert(next.drop_last() =~= windows@.subrange(0, i as int));
            assert(next.last() == windows@[i as int]);
        }
        let id: u64 = windows[i].id;
        let is_also = match also {
            Some(other) => other == id,
            None => false,
        };
        if !crate::animation::contains_id(shown, id) && !is_also {
            let step = Step::Show { window: id, at: Point { x: 0, y: 0 }, activate: false };
            steps.push(step);
            proof {
                assert((before + done).push(step) =~= before + done.push(step));
            }
        }
        i = i + 1;
    }
    proof {
        assert(windows@.subrange(0, i as int) =~= windows@);
    }
}

pub fn push_unmap_others(steps: &mut Vec<Step>, windows: &Vec<WindowRef>, keep: u64)
    ensures
        final(steps)@ == old(steps)@ + unmap_others(windows@, keep),
{
    let ghost before = steps@;
    let mut i: usize = 0;
    proof {
        assert(windows@.subrange(0, 0) =~= Seq::<WindowRef>::empty());
        assert(before + Seq::<Step>::empty() =~= before);
    }
    while i < windows.len()
        invariant
            i <= windows.len(),
            steps@ == before + unmap_others(windows@.subrange(0, i as int), keep),
        decreases windows.len() - i,
    {
        let ghost done = unmap_others(windows@.subrange(0, i as int), keep);
        proof {
            let next = windows@.subrange(0, i + 1);
            assert(next.drop_last() =~= windows@.subrange(0, i as int));
            assert(next.last() == windows@[i as int]);
        }
        if windows[i].id != keep {
            let step = Step::Hide { window: windows[i].id };
            steps.push(step);
            proof {
                assert((before + done).push(step) =~= before + done.push(step));
            }
        }
        i = i + 1;
    }
    proof {
        assert(windows@.subrange(0, i as int) =~= windows@);
    }
}

/// Where a window floats, if it does.
pub open spec fn floating_data(
    window: WindowRef,
    floating: Map<u64, FloatingWindowData>,
) -> Option<FloatingWindowData> {
    if window.root is Some && floating.dom().contains(window.root->0) {
        Some(floating[window.root->0])
    } else {
        None
    }
}

/// The steps that end a window's filling of the screen: it goes back to where
/// it floated, or to its tile, and the windows that made room for it return.
pub open spec fn exit_fullscreen_steps(
    window: WindowRef,
    windows: Seq<WindowRef>,
    floating: Map<u64, FloatingWindowData>,
    shown: Seq<u64>,
    relayout: bool,
) -> Seq<Step> {
    let data = floating_data(window, floating);
    let configure = Step::Configure {
        window: window.id,
        size: if data is Some { Some(data->0.size) } else { None },
        fullscreen: Some(false),
    };
    let restore = if data is Some {
        seq![Step::Show { window: window.id, at: data->0.position, activate: true }]
    } else {
        Seq::empty()
    };
    let also = if data is Some { Some(window.id) } else { None };
    let end = if relayout { Step::Relayout } else { Step::Render };
    (seq![configure] + restore + remap_hidden(windows, shown, also)).push(end)
}

/// The steps that let a window fill the screen of an output; none where the
/// output is gone.
pub open spec fn show_fullscreen_steps(
    window: WindowRef,
    windows: Seq<WindowRef>,
    output_geo: Option<Rect>,
) -> Seq<Step> {
    match output_geo {
        None => Seq::empty(),
        Some(geo) => {
            let forget = if window.root is Some {
                seq![Step::ForgetAnimation { root: window.root->0 }]
            } else {
                Seq::empty()
            };
            unmap_others(windows, window.id).push(
                Step::Configure {
                    window: window.id,
                    size: Some(geo.size),
                    fullscreen: Some(true),
                },
            ) + forget + seq![
                Step::Show { window: window.id, at: geo.loc, activate: true },
                Step::Render,
            ]
        },
    }
}

pub fn push_show_fullscreen(
    steps: &mut Vec<Step>,
    window: WindowRef,
    windows: &Vec<WindowRef>,
    output_geo: Option<Rect>,
)
    ensures
        final(steps)@ == old(steps)@ + show_fullscreen_steps(window, windows@, output_geo),
{
    let ghost before = steps@;
    match output_geo {
        None => {
            proof {
                assert(before + Seq::<Step>::empty() =~= before);
            }
        },
        Some(geo) => {
            push_unmap_others(steps, windows, window.id);
            steps.push(
                Step::Configure {
                    window: window.id,
                    size: Some(geo.size),
                    fullscreen: Some(true),
                },
            );
            if let Some(root) = window.root {
                steps.push(Step::ForgetAnimation { root });
            }
            steps.push(Step::Show { window: window.id, at: geo.loc, activate: true });
            steps.push(Step::Render);
            proof {
                assert(steps@ =~= before + show_fullscreen_steps(window, windows@, output_geo));
            }
        },
    }
}

/// The steps that make a window float in the middle of its output.
pub open spec fn float_steps(window: WindowRef, workspace: usize, output_geo: Option<Rect>) -> Seq<
    Step,
> {
    if window.root is None || output_geo is None {
        Seq::empty()
    } else {
        let data = half_output(output_geo->0);
        let root = window.root->0;
        seq![
            Step::Configure { window: window.id, size: Some(data.size), fullscreen: Some(false) },
            Step::RemoveTile { workspace, root },
            Step::ForgetAnimation { root },
            Step::Show { window: window.id, at: data.position, activate: true },
            Step::Relayout,
            Step::Render,
        ]
    }
}

/// The floating windows after that.
pub open spec fn with_floated(
    floating: Map<u64, FloatingWindowData>,
    window: WindowRef,
    output_geo: Option<Rect>,
) -> Map<u64, FloatingWindowData> {
    if window.root is None || output_geo is None {
        floating
    } else {
        let data = half_output(output_geo->0);
        floating.insert(window.root->0, FloatingWindowData::placed(data.position, data.size))
    }
}

/// Whether `after` is `before` with two windows of a workspace swapped in its list,
/// where both are in it: `swapped` says so, and `steps` are to be taken.
pub open spec fn windows_swapped(
    before: Desktop,
    after: Desktop,
    workspace_idx: usize,
    first: u64,
    second: u64,
    swapped: bool,
    steps: Seq<Step>,
) -> bool {
    let windows = before.workspaces@[workspace_idx as int].windows@;
    let i = index_with_root(windows, first);
    let j = index_with_root(windows, second);
    &&& after.outputs == before.outputs
    &&& after.grabs == before.grabs
    &&& after.books == before.books
    &&& swapped == (i is Some && j is Some)
    &&& if !swapped {
        steps.len() == 0 && after.workspaces == before.workspaces
    } else {
        let end = if workspace_idx == before.active() { Step::Relayout } else { Step::Render };
        &&& steps == seq![end]
        &&& after.workspaces@.len() == before.workspaces@.len()
        &&& forall|k: int|
            0 <= k < before.workspaces@.len() && k != workspace_idx
                ==> #[trigger] after.workspaces@[k] == before.workspaces@[k]
        &&& after.workspaces@[workspace_idx as int].windows@ == windows.update(
            i->0,
            windows[j->0],
        ).update(j->0, windows[i->0])
        &&& after.workspaces@[workspace_idx as int].focused_idx
            == before.workspaces@[workspace_idx as int].focused_idx
        &&& after.workspaces@[workspace_idx as int].fullscreen
            == before.workspaces@[workspace_idx as int].fullscreen
    }
}

/// Whether `after` is `before` with the focused window let fill the screen, or that ended
/// where one does, and `steps` are to be taken.
pub open spec fn fullscreen_toggled(
    before: Desktop,
    after: Desktop,
    focused: Option<WindowRef>,
    output_geo: Option<Rect>,
    shown: Seq<u64>,
    steps: Seq<Step>,
) -> bool {
    &&& after.outputs == before.outputs
    &&& after.grabs == before.grabs
    &&& after.books == before.books
    &&& {
        let full = before.here().fullscreen;
        if full is Some {
            &&& with_fullscreen(
                after.workspaces@,
                before.workspaces@,
                before.active(),
                None,
            )
            &&& steps == exit_fullscreen_steps(
                full->0,
                before.here().windows@,
                before.floating(),
                shown,
                true,
            )
        } else if focused is Some {
            &&& with_fullscreen(
                after.workspaces@,
                before.workspaces@,
                before.active(),
                focused,
            )
            &&& steps == show_fullscreen_steps(
                focused->0,
                before.here().windows@,
                output_geo,
            )
        } else {
            &&& with_fullscreen(
                after.workspaces@,
                before.workspaces@,
                before.active(),
                None,
            )
            &&& steps.len() == 0
        }
    }
}

/// Whether `after` is `before` with the floating of the focused window toggled, and
/// `steps` are to be taken.
pub open spec fn float_toggled(
    before: Desktop,
    after: Desktop,
    focused: Option<WindowRef>,
    keyboard_root: Option<u64>,
    output_geo: Option<Rect>,
    shown: Seq<u64>,
    steps: Seq<Step>,
) -> bool {
    &&& after.outputs == before.outputs
    &&& after.books == before.books
    &&& same_grab(after.grabs, before.grabs)
    &&& focused is None || focused->0.root is None ==> {
        &&& after.workspaces == before.workspaces
        &&& after.floating() == before.floating()
        &&& steps.len() == 0
    }
    &&& focused is Some && focused->0.root is Some ==> {
        let window = focused->0;
        let root = window.root->0;
        let full = fills_a_screen(before.workspaces@, root);
        let floats = before.floating().dom().contains(root);
        let active = before.active();
        let exit = if full && before.here().fullscreen is Some {
            exit_fullscreen_steps(
                before.here().fullscreen->0,
                before.here().windows@,
                before.floating(),
                shown,
                false,
            )
        } else {
            Seq::empty()
        };
        &&& with_fullscreen(
            after.workspaces@,
            before.workspaces@,
            active,
            if full { None } else { before.here().fullscreen },
        )
        &&& if !floats {
            &&& after.floating() == with_floated(
                before.floating(),
                window,
                output_geo,
            )
            &&& steps == exit + float_steps(window, active as usize, output_geo)
        } else if full {
            &&& after.floating() == before.floating()
            &&& steps == exit + seq![
                Step::Relayout,
                Step::Raise { window: window.id, activate: true },
                Step::Render,
            ]
        } else {
            &&& after.floating() == before.floating().remove(root)
            &&& steps == exit + seq![
                Step::EndResize { window: window.id },
                Step::InsertTile {
                    workspace: active as usize,
                    root,
                    split: split_target(
                        after.workspaces@,
                        after.floating(),
                        active,
                        keyboard_root,
                    ),
                },
                Step::Relayout,
            ]
        }
    }
}

/// Whether `after` is `before` with the stickiness of the focused window toggled, and
/// `steps` are to be taken.
pub open spec fn sticky_toggled(
    before: Desktop,
    after: Desktop,
    focused: Option<WindowRef>,
    output_geo: Option<Rect>,
    steps: Seq<Step>,
) -> bool {
    &&& after.outputs == before.outputs
    &&& after.workspaces == before.workspaces
    &&& same_grab(after.grabs, before.grabs)
    &&& after.books.mapped_with_buffer == before.books.mapped_with_buffer
    &&& after.books.pending_float_centers == before.books.pending_float_centers
    &&& after.books.pending_should_float == before.books.pending_should_float
    &&& after.books.window_lookup == before.books.window_lookup
    &&& after.books.pending_windows == before.books.pending_windows
    &&& focused is None || focused->0.root is None ==> {
        &&& after.books.sticky@ == before.books.sticky@
        &&& after.floating() == before.floating()
        &&& steps.len() == 0
    }
    &&& focused is Some && focused->0.root is Some ==> {
        let window = focused->0;
        let root = window.root->0;
        if before.books.sticky@.dom().contains(root) {
            &&& after.books.sticky@ == before.books.sticky@.remove(root)
            &&& after.floating() == before.floating()
            &&& steps.len() == 0
        } else {
            let floats = before.floating().dom().contains(root);
            &&& after.books.sticky@ == before.books.sticky@.insert(root, ())
            &&& after.floating() == if floats {
                before.floating()
            } else {
                with_floated(before.floating(), window, output_geo)
            }
            &&& steps == (if floats {
                Seq::empty()
            } else {
                float_steps(window, before.active() as usize, output_geo)
            }) + seq![
                Step::Raise { window: window.id, activate: true },
                Step::Render,
            ]
        }
    }
}

impl Desktop {
    /// Everything is valid, and there is a workspace for each that the outputs
    /// know.
    pub open spec fn wf(&self) -> bool {
        &&& self.outputs.wf()
        &&& self.workspaces@.len() == self.outputs.homes@.len()
        &&& forall|i: int| 0 <= i < self.workspaces@.len() ==> (#[trigger] self.workspaces@[i]).wf()
        &&& self.grabs.wf()
        &&& self.books.wf()
    }

    /// Number of the active workspace.
    pub open spec fn active(&self) -> int {
        self.outputs.active() as int
    }

    /// The active workspace.
    pub open spec fn here(&self) -> Workspace<WindowRef> {
        self.workspaces@[self.active()]
    }

    pub open spec fn floating(&self) -> Map<u64, FloatingWindowData> {
        self.grabs.floating@
    }

    /// A desktop with `num_workspaces` workspaces and no output.
    pub fn new(num_workspaces: usize) -> (r: Self)
        requires
            num_workspaces >= 1,
        ensures
            r.wf(),
            r.workspaces@.len() == num_workspaces,
            forall|i: int|
                0 <= i < r.workspaces@.len() ==> (#[trigger] r.workspaces@[i]).windows@.len() == 0
                    && r.workspaces@[i].focused_idx is None && r.workspaces@[i].fullscreen is None,
            r.outputs.outputs@.len() == 0,
            r.outputs.focused_output == 0,
            r.outputs.homes@ == Seq::new(num_workspaces as nat, |i: int| 0usize),
            r.floating() == Map::<u64, FloatingWindowData>::empty(),
            r.grabs.active_grab is None,
            r.grabs.tiled_swap_target is None,
            !r.grabs.layout_saved,
            r.books.sticky@ == Map::<u64, ()>::empty(),
            r.books.mapped_with_buffer@ == Map::<u64, ()>::empty(),
            r.books.pending_float_centers@ == Map::<u64, ()>::empty(),
            r.books.pending_should_float@ == Map::<u64, ()>::empty(),
            r.books.window_lookup@ == Map::<u64, WindowRef>::empty(),
            r.books.pending_windows@.len() == 0,
    {
        let mut workspaces: Vec<Workspace<WindowRef>> = Vec::new();
        let mut i: usize = 0;
        while i < num_workspaces
            invariant
                i <= num_workspaces,
                workspaces.len() == i,
                forall|k: int|
                    0 <= k < i ==> (#[trigger] workspaces@[k]).wf() && workspaces@[k].windows@.len()
                        == 0 && workspaces@[k].focused_idx is None && workspaces@[k].fullscreen is None,
            decreases num_workspaces - i,
        {
            workspaces.push(Workspace::new());
            i = i + 1;
        }
        Desktop {
            workspaces,
            outputs: Outputs::new(num_workspaces),
            grabs: GrabState::new(),
            books: Books::new(),
        }
    }

    fn active_index(&self) -> (r: usize)
        requires
            self.wf(),
        ensures
            r == self.active(),
            r < self.workspaces@.len(),
    {
        self.outputs.active_workspace()
    }

    /// The window that fills the screen of the active workspace.
    pub fn active_fullscreen(&self) -> (r: Option<WindowRef>)
        requires
            self.wf(),
        ensures
            r == self.here().fullscreen,
    {
        let active: usize = self.active_index();
        self.workspaces[active].fullscreen
    }

    /// Stop filling the screen of the active workspace, where a window does.
    pub fn exit_fullscreen(
        &mut self,
        relayout: bool,
        shown: &Vec<u64>,
        steps: &mut Vec<Step>,
    ) -> (r: Option<WindowRef>)
        requires
            old(self).wf(),
        ensures
            final(self).wf(),
            final(self).outputs == old(self).outputs,
            final(self).grabs == old(self).grabs,
            final(self).books == old(self).books,
            r == old(self).here().fullscreen,
            with_fullscreen(
                final(self).workspaces@,
                old(self).workspaces@,
                old(self).active(),
                None,
            ),
            final(steps)@ == if r is Some {
                old(steps)@ + exit_fullscreen_steps(
                    r->0,
                    old(self).here().windows@,
                    old(self).floating(),
                    shown@,
                    relayout,
                )
            } else {
                old(steps)@
            },
    {
        let ghost before = steps@;
        let active: usize = self.active_index();
        match self.workspaces[active].fullscreen {
            None => None,
            Some(window) => {
                self.workspaces[active].fullscreen = None;
                let data = match window.root {
                    Some(root) => self.grabs.floating.get(root),
                    None => None,
                };
                match data {
                    Some(data) => {
                        steps.push(
                            Step::Configure {
                                window: window.id,
                                size: Some(data.size),
                                fullscreen: Some(false),
                            },
                        );
                        steps.push(
                            Step::Show { window: window.id, at: data.position, activate: true },
                        );
                        push_remap_hidden(
                            steps,
                            &self.workspaces[active].windows,
                            shown,
                            Some(window.id),
                        );
                    },
                    None => {
                        steps.push(
                            Step::Configure {
                                window: window.id,
                                size: None,
                                fullscreen: Some(false),
                            },
                        );
                        push_remap_hidden(steps, &self.workspaces[active].windows, shown, None);
                    },
                }
                if relayout {
                    steps.push(Step::Relayout);
                } else {
                    steps.push(Step::Render);
                }
                proof {
                    assert(steps@ =~= before + exit_fullscreen_steps(
                        window,
                        old(self).here().windows@,
                        old(self).floating(),
                        shown@,
                        relayout,
                    ));
                }
                Some(window)
            },
        }
    }

    /// Let the focused window fill the screen, or end that where one does.
    /// `output_geo` is the geometry of the window's output.
    pub fn toggle_fullscreen(
        &mut self,
        focused: Option<WindowRef>,
        output_geo: Option<Rect>,
        shown: &Vec<u64>,
    ) -> (r: Vec<Step>)
        requires
            old(self).wf(),
        ensures
            final(self).wf(),
            fullscreen_toggled(*old(self), *final(self), focused, output_geo, shown@, r@),
    {
        let mut steps: Vec<Step> = Vec::new();
        let ghost empty = steps@;
        let active: usize = self.active_index();
        if self.workspaces[active].fullscreen.is_some() {
            let _ = self.exit_fullscreen(true, shown, &mut steps);
            proof {
                assert(steps@ =~= exit_fullscreen_steps(
                    old(self).here().fullscreen->0,
                    old(self).here().windows@,
                    old(self).floating(),
                    shown@,
                    true,
                ));
            }
        } else if let Some(window) = focused {
            self.workspaces[active].fullscreen = Some(window);
            push_show_fullscreen(
                &mut steps,
                window,
                &self.workspaces[active].windows,
                output_geo,
            );
            proof {
                assert(steps@ =~= show_fullscreen_steps(
                    window,
                    old(self).here().windows@,
                    output_geo,
                ));
            }
        }
        steps
    }

    /// Make a window of the active workspace float.
    fn float_window(&mut self, window: WindowRef, output_geo: Option<Rect>, steps: &mut Vec<Step>)
        requires
            old(self).wf(),
            output_geo is Some ==> half_in_range(output_geo->0),
        ensures
            final(self).wf(),
            final(self).outputs == old(self).outputs,
            final(self).workspaces == old(self).workspaces,
            final(self).books == old(self).books,
            same_grab(final(self).grabs, old(self).grabs),
            final(self).floating() == with_floated(old(self).floating(), window, output_geo),
            final(steps)@ == old(steps)@ + float_steps(
                window,
                old(self).active() as usize,
                output_geo,
            ),
    {
        let ghost before = steps@;
        let active: usize = self.active_index();
        if let Some(root) = window.root {
            if let Some(geo) = output_geo {
                let data = half_output_placement(geo);
                steps.push(
                    Step::Configure {
                        window: window.id,
                        size: Some(data.size),
                        fullscreen: Some(false),
                    },
                );
                steps.push(Step::RemoveTile { workspace: active, root });
                steps.push(Step::ForgetAnimation { root });
                steps.push(Step::Show { window: window.id, at: data.position, activate: true });
                self.grabs.floating.insert(
                    root,
                    FloatingWindowData::new(data.position, data.size),
                );
                steps.push(Step::Relayout);
                steps.push(Step::Render);
            }
        }
        proof {
            assert(steps@ =~= before + float_steps(
                window,
                old(self).active() as usize,
                output_geo,
            ));
        }
    }

    /// Toggle whether the focused window floats. One that fills the screen
    /// stops to do so first, and floats afterwards.
    pub fn toggle_float(
        &mut self,
        focused: Option<WindowRef>,
        keyboard_root: Option<u64>,
        output_geo: Option<Rect>,
        shown: &Vec<u64>,
    ) -> (r: Vec<Step>)
        requires
            old(self).wf(),
            output_geo is Some ==> half_in_range(output_geo->0),
        ensures
            final(self).wf(),
            float_toggled(*old(self), *final(self), focused, keyboard_root, output_geo, shown@, r@),
    {
        let mut steps: Vec<Step> = Vec::new();
        let window = match focused {
            Some(window) => window,
            None => {
                return steps;
            },
        };
        let root: u64 = match window.root {
            Some(root) => root,
            None => {
                return steps;
            },
        };
        let active: usize = self.active_index();
        let is_fullscreen = is_root_fullscreen(&self.workspaces, root);
        let is_floating = self.grabs.floating.contains(root);
        if is_fullscreen {
            let _ = self.exit_fullscreen(false, shown, &mut steps);
        }
        let ghost exit = steps@;
        proof {
            if is_fullscreen && old(self).here().fullscreen is Some {
                assert(exit =~= exit_fullscreen_steps(
                    old(self).here().fullscreen->0,
                    old(self).here().windows@,
                    old(self).floating(),
                    shown@,
                    false,
                ));
            } else {
                assert(exit =~= Seq::<Step>::empty());
            }
        }
        match float_toggle_transition(is_fullscreen, is_floating) {
            FloatToggleTransition::SinkToTiling => {
                let _ = self.grabs.floating.remove(root);
                steps.push(Step::EndResize { window: window.id });
                let split = focused_tiled_window_root(
                    &self.workspaces,
                    &self.grabs.floating,
                    active,
                    keyboard_root,
                );
                steps.push(Step::InsertTile { workspace: active, root, split });
                steps.push(Step::Relayout);
                proof {
                    assert(steps@ =~= exit + seq![
                        Step::EndResize { window: window.id },
                        Step::InsertTile { workspace: active, root, split },
                        Step::Relayout,
                    ]);
                }
            },
            FloatToggleTransition::KeepFloating => {
                steps.push(Step::Relayout);
                steps.push(Step::Raise { window: window.id, activate: true });
                steps.push(Step::Render);
                proof {
                    assert(steps@ =~= exit + seq![
                        Step::Relayout,
                        Step::Raise { window: window.id, activate: true },
                        Step::Render,
                    ]);
                }
            },
            FloatToggleTransition::MakeFloating => {
                self.float_window(window, output_geo, &mut steps);
            },
        }
        steps
    }

    /// Toggle whether the focused window is shown on every workspace. A tiled
    /// one is made to float first: it cannot have a tile on each.
    pub fn toggle_sticky(&mut self, focused: Option<WindowRef>, output_geo: Option<Rect>) -> (r: Vec<
        Step,
    >)
        requires
            old(self).wf(),
            output_geo is Some ==> half_in_range(output_geo->0),
        ensures
            final(self).wf(),
            sticky_toggled(*old(self), *final(self), focused, output_geo, r@),
    {
        let mut steps: Vec<Step> = Vec::new();
        let window = match focused {
            Some(window) => window,
            None => {
                return steps;
            },
        };
        let root: u64 = match window.root {
            Some(root) => root,
            None => {
                return steps;
            },
        };
        if self.books.sticky.remove(root) {
            return steps;
        }
        proof {
            assert(self.books.sticky@ =~= old(self).books.sticky@);
        }
        if !self.grabs.floating.contains(root) {
            self.float_window(window, output_geo, &mut steps);
        }
        let ghost floated = steps@;
        self.books.sticky.insert(root, ());
        steps.push(Step::Raise { window: window.id, activate: true });
        steps.push(Step::Render);
        proof {
            assert(steps@ =~= floated + seq![
                Step::Raise { window: window.id, activate: true },
                Step::Render,
            ]);
        }
        steps
    }

    /// Whether two windows of a workspace may change places: they are two, and
    /// both are tiled.
    pub open spec fn swappable(&self, workspace_idx: usize, first: u64, second: u64) -> bool {
        &&& workspace_idx < self.workspaces@.len()
        &&& first != second
        &&& !self.floating().dom().contains(first)
        &&& !self.floating().dom().contains(second)
        &&& !fills_a_screen(self.workspaces@, first)
        &&& !fills_a_screen(self.workspaces@, second)
    }

    /// See [`swappable`](Self::swappable).
    pub fn may_swap_tiles(&self, workspace_idx: usize, first: u64, second: u64) -> (r: bool)
        requires
            self.wf(),
        ensures
            r == self.swappable(workspace_idx, first, second),
    {
        workspace_idx < self.workspaces.len() && first != second && !self.grabs.floating.contains(
            first,
        ) && !self.grabs.floating.contains(second) && !is_root_fullscreen(&self.workspaces, first)
            && !is_root_fullscreen(&self.workspaces, second)
    }

    /// Swap two windows in the list of their workspace, after the layout has
    /// swapped their tiles. False where one of them is not in it.
    pub fn swap_tiled_windows(&mut self, workspace_idx: usize, first: u64, second: u64) -> (r: (
        bool,
        Vec<Step>,
    ))
        requires
            old(self).wf(),
            workspace_idx < old(self).workspaces@.len(),
        ensures
            final(self).wf(),
            windows_swapped(
                *old(self),
                *final(self),
                workspace_idx,
                first,
                second,
                r.0,
                r.1@,
            ),
    {
        let mut steps: Vec<Step> = Vec::new();
        let first_idx: usize = match window_index_for_root(
            &self.workspaces[workspace_idx].windows,
            first,
        ) {
            Some(i) => i,
            None => {
                return (false, steps);
            },
        };
        let second_idx: usize = match window_index_for_root(
            &self.workspaces[workspace_idx].windows,
            second,
        ) {
            Some(i) => i,
            None => {
                return (false, steps);
            },
        };
        let a = self.workspaces[workspace_idx].windows[first_idx];
        let b = self.workspaces[workspace_idx].windows[second_idx];
        self.workspaces[workspace_idx].windows.set(first_idx, b);
        self.workspaces[workspace_idx].windows.set(second_idx, a);
        let active: usize = self.active_index();
        if workspace_idx == active {
            steps.push(Step::Relayout);
        } else {
            steps.push(Step::Render);
        }
        proof {
            assert(steps@ =~= seq![
                if workspace_idx == old(self).active() {
                    Step::Relayout
                } else {
                    Step::Render
                },
            ]);
        }
        (true, steps)
    }
}

/// A sticky window floats: whenever toggling makes a window sticky and there is
/// an output to float on, it is among the floating windows afterwards.
pub proof fn sticky_windows_float(
    floating: Map<u64, FloatingWindowData>,
    window: WindowRef,
    output_geo: Option<Rect>,
)
    requires
        window.root is Some,
        output_geo is Some,
    ensures
        with_floated(floating, window, output_geo).dom().contains(window.root->0),
{
}

/// Swapping two windows twice puts them back.
pub proof fn swapping_twice_is_nothing(windows: Seq<WindowRef>, i: int, j: int)
    requires
        0 <= i < windows.len(),
        0 <= j < windows.len(),
    ensures
        ({
            let once = windows.update(i, windows[j]).update(j, windows[i]);
            once.update(i, once[j]).update(j, once[i]) == windows
        }),
{
    let once = windows.update(i, windows[j]).update(j, windows[i]);
    assert(once.update(i, once[j]).update(j, once[i]) =~= windows);
}

/// Swapped windows change places, every other one stays, and so does the place that is
/// remembered.
pub proof fn swapped_windows_change_places(
    before: Desktop,
    after: Desktop,
    workspace: usize,
    first: u64,
    second: u64,
    swapped: bool,
    steps: Seq<Step>,
    i: int,
    j: int,
)
    requires
        windows_swapped(before, after, workspace, first, second, swapped, steps),
        workspace < before.workspaces@.len(),
        ({
            let windows = before.workspaces@[workspace as int].windows@;
            &&& 0 <= i < windows.len() && windows[i].root == Some(first)
            &&& 0 <= j < windows.len() && windows[j].root == Some(second)
            &&& forall|a: int, b: int|
                0 <= a < b < windows.len() && (#[trigger] windows[a]).root is Some
                    ==> windows[a].root != (#[trigger] windows[b]).root
        }),
    ensures
        ({
            let was = before.workspaces@[workspace as int];
            let is = after.workspaces@[workspace as int];
            &&& swapped
            &&& is.windows@.len() == was.windows@.len()
            &&& is.windows@[i] == was.windows@[j]
            &&& is.windows@[j] == was.windows@[i]
            &&& forall|k: int|
                0 <= k < was.windows@.len() && k != i && k != j ==> #[trigger] is.windows@[k]
                    == was.windows@[k]
            &&& is.focused_idx == was.focused_idx
            &&& steps.contains(Step::Relayout) <==> workspace == before.active()
        }),
{
    let windows = before.workspaces@[workspace as int].windows@;
    crate::state::tiling::lemma_index_with_root(windows, first);
    crate::state::tiling::lemma_index_with_root(windows, second);
    let a = index_with_root(windows, first)->0;
    let b = index_with_root(windows, second)->0;
    assert(a == i) by {
        if a < i {
            assert(windows[a].root != windows[i].root);
        }
    }
    assert(b == j) by {
        if b < j {
            assert(windows[b].root != windows[j].root);
        }
    }
    assert(steps[0] == if workspace == before.active() { Step::Relayout } else { Step::Render });
}

/// Only two different tiles can be swapped: neither a window that floats nor one that
/// fills a screen takes part, and neither can be swapped with itself.
pub proof fn only_tiles_are_swapped(desktop: Desktop, workspace: usize, first: u64, second: u64)
    requires
        workspace < desktop.workspaces@.len(),
    ensures
        desktop.swappable(workspace, first, second) == desktop.swappable(workspace, second, first),
        !desktop.swappable(workspace, first, first),
        desktop.floating().dom().contains(first) ==> !desktop.swappable(workspace, first, second),
        forall|w: int|
            0 <= w < desktop.workspaces@.len() && (#[trigger] desktop.workspaces@[w]).fullscreen
                is Some && desktop.workspaces@[w].fullscreen->0.root == Some(first)
                ==> !desktop.swappable(workspace, first, second),
        first != second && !desktop.floating().dom().contains(first)
            && !desktop.floating().dom().contains(second) && (forall|w: int|
            0 <= w < desktop.workspaces@.len() ==> (#[trigger] desktop.workspaces@[w]).fullscreen
                is None) ==> desktop.swappable(workspace, first, second),
{
}

} // verus!
