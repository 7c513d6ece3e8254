//! Workspaces and their windows: which are tiled, which float, which fill the
//! screen.
use crate::geometry::Rect;
use crate::surface_map::SurfaceMap;
use crate::types::{FloatingWindowData, WindowRef};
use vstd::prelude::*;

verus! {

/// A workspace: its windows, oldest first, and the one that fills the screen.
#[derive(Debug)]
pub struct Workspace<W> {
    pub windows: Vec<W>,
    /// The window that last had the keyboard.
    pub focused_idx: Option<usize>,
    pub fullscreen: Option<W>,
}

/// The remembered focus after window `idx` left `len` windows: it stays with
/// its window; where that is the one that left, it passes to the one that takes
/// its place, or to the last.
pub open spec fn focus_without(focused: Option<usize>, idx: int, len: int) -> Option<usize> {
    match focused {
        None => None,
        Some(f) => if len <= 1 {
            None
        } else if f > idx {
            Some((f - 1) as usize)
        } else if f == idx && f == len - 1 {
            Some((f - 1) as usize)
        } else {
            Some(f)
        },
    }
}

impl<W> Workspace<W> {
    /// The remembered focus is one of the windows.
    pub open spec fn wf(&self) -> bool {
        self.focused_idx is Some ==> self.focused_idx->0 < self.windows@.len()
    }

    pub fn new() -> (r: Self)
        ensures
            r.wf(),
            r.windows@ == Seq::<W>::empty(),
            r.focused_idx is None,
            r.fullscreen is None,
    {
        Workspace { windows: Vec::new(), focused_idx: None, fullscreen: None }
    }

    pub fn window_count(&self) -> (r: usize)
        ensures
            r == self.windows@.len(),
    {
        self.windows.len()
    }

    /// Add a window as the newest one.
    pub fn add_window(&mut self, window: W)
        requires
            old(self).wf(),
        ensures
            final(self).wf(),
            final(self).windows@ == old(self).windows@.push(window),
            final(self).focused_idx == old(self).focused_idx,
            final(self).fullscreen == old(self).fullscreen,
    {
        self.windows.push(window);
    }

    /// Take a window out; `None` where there is none of that number.
    pub fn remove_window(&mut self, idx: usize) -> (r: Option<W>)
        requires
            old(self).wf(),
        ensures
            final(self).wf(),
            final(self).fullscreen == old(self).fullscreen,
            idx >= old(self).windows@.len() ==> {
                &&& r is None
                &&& final(self).windows@ == old(self).windows@
                &&& final(self).focused_idx == old(self).focused_idx
            },
            idx < old(self).windows@.len() ==> {
                &&& r == Some(old(self).windows@[idx as int])
                &&& final(self).windows@ == old(self).windows@.remove(idx as int)
                &&& final(self).focused_idx == focus_without(
                    old(self).focused_idx,
                    idx as int,
                    old(self).windows@.len() as int,
                )
            },
    {
        let len: usize = self.windows.len();
        if idx >= len {
            return None;
        }
        let window = self.windows.remove(idx);
        self.focused_idx = match self.focused_idx {
            None => None,
            Some(f) => if len == 1 {
                None
            } else if f > idx || (f == idx && f == len - 1) {
                Some(f - 1)
            } else {
                Some(f)
            },
        };
        Some(window)
    }

    /// Move the remembered focus to the next window, round to the first.
    pub fn focus_next(&mut self)
        requires
            old(self).wf(),
        ensures
            final(self).wf(),
            final(self).windows@ == old(self).windows@,
            final(self).fullscreen == old(self).fullscreen,
            final(self).focused_idx == if old(self).windows@.len() == 0 {
                old(self).focused_idx
            } else {
                Some(
                    crate::state::focus::cycled(
                        old(self).focused_idx,
                        old(self).windows@.len() as int,
                        true,
                    ) as usize,
                )
            },
    {
        if self.windows.len() > 0 {
            self.focused_idx = Some(
                crate::state::focus::cycle_position(self.focused_idx, self.windows.len(), true),
            );
        }
    }

    /// Move the remembered focus to the previous window, round to the last.
    pub fn focus_prev(&mut self)
        requires
            old(self).wf(),
        ensures
            final(self).wf(),
            final(self).windows@ == old(self).windows@,
            final(self).fullscreen == old(self).fullscreen,
            final(self).focused_idx == if old(self).windows@.len() == 0 {
                old(self).focused_idx
            } else {
                Some(
                    crate::state::focus::cycled(
                        old(self).focused_idx,
                        old(self).windows@.len() as int,
                        false,
                    ) as usize,
                )
            },
    {
        if self.windows.len() > 0 {
            self.focused_idx = Some(
                crate::state::focus::cycle_position(self.focused_idx, self.windows.len(), false),
            );
        }
    }
}

/// Whether the window with this root fills the screen of one of the
/// workspaces, shown or hidden.
pub open spec fn fills_a_screen(workspaces: Seq<Workspace<WindowRef>>, root: u64) -> bool {
    exists|i: int|
        0 <= i < workspaces.len() && (#[trigger] workspaces[i]).fullscreen is Some
            && workspaces[i].fullscreen->0.root == Some(root)
}

pub fn is_root_fullscreen(workspaces: &Vec<Workspace<WindowRef>>, root: u64) -> (r: bool)
    ensures
        r == fills_a_screen(workspaces@, root),
{
    let mut i: usize = 0;
    while i < workspaces.len()
        invariant
            i <= workspaces.len(),
            forall|k: int|
                0 <= k < i ==> !((#[trigger] workspaces@[k]).fullscreen is Some
                    && workspaces@[k].fullscreen->0.root == Some(root)),
        decreases workspaces.len() - i,
    {
        if let Some(window) = workspaces[i].fullscreen {
            if let Some(fullscreen_root) = window.root {
                if fullscreen_root == root {
                    return true;
                }
            }
        }
        i = i + 1;
    }
    false
}

/// Whether a window takes part in the tiling: it neither floats nor fills a
/// screen. A window without a surface yet does.
pub open spec fn is_tiled(
    window: WindowRef,
    workspaces: Seq<Workspace<WindowRef>>,
    floating: Map<u64, FloatingWindowData>,
) -> bool {
    match window.root {
        Some(root) => !floating.dom().contains(root) && !fills_a_screen(workspaces, root),
        None => true,
    }
}

fn window_is_tiled(
    window: WindowRef,
    workspaces: &Vec<Workspace<WindowRef>>,
    floating: &SurfaceMap<FloatingWindowData>,
) -> (r: bool)
    requires
        floating.wf(),
    ensures
        r == is_tiled(window, workspaces@, floating@),
{
    match window.root {
        Some(root) => !floating.contains(root) && !is_root_fullscreen(workspaces, root),
        None => true,
    }
}

/// The tiled windows of a workspace, oldest first.
pub fn tiled_windows_in_workspace(
    workspaces: &Vec<Workspace<WindowRef>>,
    floating: &SurfaceMap<FloatingWindowData>,
    workspace_idx: usize,
) -> (r: Vec<WindowRef>)
    requires
        floating.wf(),
        workspace_idx < workspaces.len(),
    ensures
        r@ == workspaces@[workspace_idx as int].windows@.filter(
            |w: WindowRef| is_tiled(w, workspaces@, floating@),
        ),
{
    let windows = &workspaces[workspace_idx].windows;
    let ghost all = windows@;
    let ghost keep = |w: WindowRef| is_tiled(w, workspaces@, floating@);
    let mut r: Vec<WindowRef> = Vec::new();
    let mut i: usize = 0;
    proof {
        reveal(Seq::filter);
        assert(all.subrange(0, 0) =~= Seq::<WindowRef>::empty());
    }
    while i < windows.len()
        invariant
            i <= windows.len(),
            floating.wf(),
            all == windows@,
            keep == (|w: WindowRef| is_tiled(w, workspaces@, floating@)),
            r@ == all.subrange(0, i as int).filter(keep),
        decreases windows.len() - i,
    {
        proof {
            reveal(Seq::filter);
            let next = all.subrange(0, i + 1);
            assert(next.drop_last() =~= all.subrange(0, i as int));
            assert(next.last() == all[i as int]);
        }
        if window_is_tiled(windows[i], workspaces, floating) {
            r.push(windows[i]);
        }
        i = i + 1;
    }
    proof {
        assert(all.subrange(0, i as int) =~= all);
    }
    r
}

/// The roots of the windows that have one.
pub open spec fn roots_of(windows: Seq<WindowRef>) -> Seq<u64>
    decreases windows.len(),
{
    if windows.len() == 0 {
        Seq::empty()
    } else {
        let rest = roots_of(windows.drop_last());
        match windows.last().root {
            Some(root) => rest.push(root),
            None => rest,
        }
    }
}

/// The roots of a workspace's tiled windows, oldest first. A layout that is
/// built anew takes them in this order.
pub fn tiled_window_roots_in_workspace(
    workspaces: &Vec<Workspace<WindowRef>>,
    floating: &SurfaceMap<FloatingWindowData>,
    workspace_idx: usize,
) -> (r: Vec<u64>)
    requires
        floating.wf(),
        workspace_idx < workspaces.len(),
    ensures
        r@ == roots_of(
            workspaces@[workspace_idx as int].windows@.filter(
                |w: WindowRef| is_tiled(w, workspaces@, floating@),
            ),
        ),
{
    let tiled = tiled_windows_in_workspace(workspaces, floating, workspace_idx);
    let mut r: Vec<u64> = Vec::new();
    let mut i: usize = 0;
    proof {
        assert(tiled@.subrange(0, 0) =~= Seq::<WindowRef>::empty());
    }
    while i < tiled.len()
        invariant
            i <= tiled.len(),
            r@ == roots_of(tiled@.subrange(0, i as int)),
        decreases tiled.len() - i,
    {
        proof {
            let next = tiled@.subrange(0, i + 1);
            assert(next.drop_last() =~= tiled@.subrange(0, i as int));
            assert(next.last() == tiled@[i as int]);
        }
        if let Some(root) = tiled[i].root {
            r.push(root);
        }
        i = i + 1;
    }
    proof {
        assert(tiled@.subrange(0, i as int) =~= tiled@);
    }
    r
}

/// The first window with the given root.
pub open spec fn index_with_root(windows: Seq<WindowRef>, root: u64) -> Option<int>
    decreases windows.len(),
{
    if windows.len() == 0 {
        None
    } else {
        match index_with_root(windows.drop_last(), root) {
            Some(i) => Some(i),
            None => if windows.last().root == Some(root) {
                Some(windows.len() - 1)
            } else {
                None
            },
        }
    }
}

pub proof fn lemma_index_with_root(windows: Seq<WindowRef>, root: u64)
    ensures
        match index_with_root(windows, root) {
            Some(i) => 0 <= i < windows.len() && windows[i].root == Some(root) && forall|k: int|
                0 <= k < i ==> (#[trigger] windows[k]).root != Some(root),
            None => forall|k: int|
                0 <= k < windows.len() ==> (#[trigger] windows[k]).root != Some(root),
        },
    decreases windows.len(),
{
    if windows.len() > 0 {
        let rest = windows.drop_last();
        lemma_index_with_root(rest, root);
        assert forall|k: int| 0 <= k < rest.len() implies #[trigger] windows[k] == rest[k] by {}
    }
}

/// Index of the window with the given root.
pub fn window_index_for_root(windows: &Vec<WindowRef>, root: u64) -> (r: Option<usize>)
    ensures
        match r {
            Some(i) => index_with_root(windows@, root) == Some(i as int) && i < windows.len()
                && windows@[i as int].root == Some(root),
            None => index_with_root(windows@, root) is None,
        },
{
    let mut i: usize = 0;
    while i < windows.len()
        invariant
            i <= windows.len(),
            forall|k: int| 0 <= k < i ==> (#[trigger] windows@[k]).root != Some(root),
        decreases windows.len() - i,
    {
        if let Some(candidate) = windows[i].root {
            if candidate == root {
                proof {
                    lemma_index_with_root(windows@, root);
                    assert(windows@[i as int].root == Some(root));
                }
                return Some(i);
            }
        }
        i = i + 1;
    }
    proof {
        lemma_index_with_root(windows@, root);
    }
    None
}

/// The first workspace that has a window with the given root.
pub open spec fn workspace_with_root(workspaces: Seq<Workspace<WindowRef>>, root: u64) -> Option<int>
    decreases workspaces.len(),
{
    if workspaces.len() == 0 {
        None
    } else {
        match workspace_with_root(workspaces.drop_last(), root) {
            Some(i) => Some(i),
            None => if index_with_root(workspaces.last().windows@, root) is Some {
                Some(workspaces.len() - 1)
            } else {
                None
            },
        }
    }
}

pub proof fn lemma_workspace_with_root(workspaces: Seq<Workspace<WindowRef>>, root: u64)
    ensures
        match workspace_with_root(workspaces, root) {
            Some(i) => 0 <= i < workspaces.len() && index_with_root(
                workspaces[i].windows@,
                root,
            ) is Some && forall|k: int|
                0 <= k < i ==> index_with_root((#[trigger] workspaces[k]).windows@, root) is None,
            None => forall|k: int|
                0 <= k < workspaces.len() ==> index_with_root(
                    (#[trigger] workspaces[k]).windows@,
                    root,
                ) is None,
        },
    decreases workspaces.len(),
{
    if workspaces.len() > 0 {
        let rest = workspaces.drop_last();
        lemma_workspace_with_root(rest, root);
        assert forall|k: int| 0 <= k < rest.len() implies #[trigger] workspaces[k] == rest[k] by {}
    }
}

/// Index of the workspace that has the window with the given root.
pub fn workspace_idx_for_root(workspaces: &Vec<Workspace<WindowRef>>, root: u64) -> (r: Option<usize>)
    ensures
        match r {
            Some(i) => workspace_with_root(workspaces@, root) == Some(i as int) && i
                < workspaces.len() && index_with_root(
                workspaces@[i as int].windows@,
                root,
            ) is Some,
            None => workspace_with_root(workspaces@, root) is None,
        },
{
    let mut i: usize = 0;
    while i < workspaces.len()
        invariant
            i <= workspaces.len(),
            forall|k: int|
                0 <= k < i ==> index_with_root((#[trigger] workspaces@[k]).windows@, root) is None,
        decreases workspaces.len() - i,
    {
        if window_index_for_root(&workspaces[i].windows, root).is_some() {
            proof {
                lemma_workspace_with_root(workspaces@, root);
                assert(index_with_root(workspaces@[i as int].windows@, root) is Some);
            }
            return Some(i);
        }
        i = i + 1;
    }
    proof {
        lemma_workspace_with_root(workspaces@, root);
    }
    None
}

/// The window of a workspace that a new tile is split off: the one that holds
/// the keyboard where the workspace is the active one and has it, else the one
/// it remembers; none where that is not tiled.
pub open spec fn split_target(
    workspaces: Seq<Workspace<WindowRef>>,
    floating: Map<u64, FloatingWindowData>,
    workspace_idx: int,
    keyboard_root: Option<u64>,
) -> Option<u64> {
    let workspace = workspaces[workspace_idx];
    let by_keyboard = keyboard_root is Some && index_with_root(
        workspace.windows@,
        keyboard_root->0,
    ) is Some;
    let root = if by_keyboard {
        keyboard_root
    } else if workspace.focused_idx is Some && workspace.focused_idx->0 < workspace.windows@.len() {
        workspace.windows@[workspace.focused_idx->0 as int].root
    } else {
        None
    };
    if root is Some && !floating.dom().contains(root->0) && !fills_a_screen(workspaces, root->0) {
        root
    } else {
        None
    }
}

/// See [`split_target`]. `keyboard_root` is the root of the surface that holds
/// the keyboard, where `workspace_idx` is the active workspace.
pub fn focused_tiled_window_root(
    workspaces: &Vec<Workspace<WindowRef>>,
    floating: &SurfaceMap<FloatingWindowData>,
    workspace_idx: usize,
    keyboard_root: Option<u64>,
) -> (r: Option<u64>)
    requires
        floating.wf(),
        workspace_idx < workspaces.len(),
    ensures
        r == split_target(workspaces@, floating@, workspace_idx as int, keyboard_root),
{
    let workspace = &workspaces[workspace_idx];
    let by_keyboard = match keyboard_root {
        Some(root) => window_index_for_root(&workspace.windows, root).is_some(),
        None => false,
    };
    let root = if by_keyboard {
        keyboard_root
    } else {
        match workspace.focused_idx {
            Some(idx) => if idx < workspace.windows.len() {
                workspace.windows[idx].root
            } else {
                None
            },
            None => None,
        }
    };
    match root {
        Some(root) => if !floating.contains(root) && !is_root_fullscreen(workspaces, root) {
            Some(root)
        } else {
            None
        },
        None => None,
    }
}

/// Whether a rectangle covers all of an output.
pub open spec fn covers_output(geo: Rect, output: Rect) -> bool {
    &&& geo.loc.x <= output.loc.x
    &&& geo.loc.y <= output.loc.y
    &&& geo.right() >= output.right()
    &&& geo.bottom() >= output.bottom()
}

pub fn rectangle_covers_output(geo: Rect, output: Option<Rect>) -> (r: bool)
    ensures
        r == (output is Some && covers_output(geo, output->0)),
{
    match output {
        None => false,
        Some(output) => {
            let right: i64 = geo.loc.x as i64 + geo.size.w as i64;
            let bottom: i64 = geo.loc.y as i64 + geo.size.h as i64;
            let output_right: i64 = output.loc.x as i64 + output.size.w as i64;
            let output_bottom: i64 = output.loc.y as i64 + output.size.h as i64;
            geo.loc.x <= output.loc.x && geo.loc.y <= output.loc.y && right >= output_right
                && bottom >= output_bottom
        },
    }
}

/// A window of the scene, as far as owning the screen goes.
#[derive(Debug, Clone, Copy, PartialEq, Eq, Structural)]
pub struct SceneOwner {
    pub x11: bool,
    pub geometry: Option<Rect>,
}

/// Whether an X11 window of the scene covers the output.
pub open spec fn x11_covers(windows: Seq<SceneOwner>, output: Option<Rect>) -> bool {
    exists|i: int|
        0 <= i < windows.len() && (#[trigger] windows[i]).x11 && windows[i].geometry is Some
            && output is Some && covers_output(windows[i].geometry->0, output->0)
}

/// Whether an X11 window owns the screen: the window that fills it is one, or
/// one has made itself as large as the output.
pub fn screen_owned_by_x11_window(
    fullscreen_x11: Option<bool>,
    windows: &Vec<SceneOwner>,
    output: Option<Rect>,
) -> (r: bool)
    ensures
        r == (fullscreen_x11 == Some(true) || x11_covers(windows@, output)),
{
    if let Some(true) = fullscreen_x11 {
        return true;
    }
    let mut i: usize = 0;
    while i < windows.len()
        invariant
            i <= windows.len(),
            forall|k: int|
                0 <= k < i ==> !((#[trigger] windows@[k]).x11 && windows@[k].geometry is Some
                    && output is Some && covers_output(windows@[k].geometry->0, output->0)),
        decreases windows.len() - i,
    {
        if windows[i].x11 {
            if let Some(geometry) = windows[i].geometry {
                if rectangle_covers_output(geometry, output) {
                    return true;
                }
            }
        }
        i = i + 1;
    }
    false
}

/// Whether a window owns the screen, so that the layers above it are left out.
/// `fullscreen_x11` says of the window that fills the screen, if there is one,
/// whether it is an X11 window.
pub fn screen_owned_by_window(
    fullscreen_x11: Option<bool>,
    windows: &Vec<SceneOwner>,
    output: Option<Rect>,
) -> (r: bool)
    ensures
        r == (fullscreen_x11 is Some || x11_covers(windows@, output)),
{
    if fullscreen_x11.is_some() {
        return true;
    }
    screen_owned_by_x11_window(fullscreen_x11, windows, output)
}

/// Whether a window floats.
pub open spec fn is_floating(window: WindowRef, floating: Map<u64, FloatingWindowData>) -> bool {
    window.root is Some && floating.dom().contains(window.root->0)
}

/// The floating windows of a workspace in the order in which they are raised:
/// the newest last, so that it ends up on top.
pub fn floating_windows_to_raise(
    windows: &Vec<WindowRef>,
    floating: &SurfaceMap<FloatingWindowData>,
) -> (r: Vec<WindowRef>)
    requires
        floating.wf(),
    ensures
        r@ == windows@.filter(|w: WindowRef| is_floating(w, floating@)),
{
    let ghost all = windows@;
    let ghost keep = |w: WindowRef| is_floating(w, floating@);
    let mut r: Vec<WindowRef> = Vec::new();
    let mut i: usize = 0;
    proof {
        reveal(Seq::filter);
        assert(all.subrange(0, 0) =~= Seq::<WindowRef>::empty());
    }
    while i < windows.len()
        invariant
            i <= windows.len(),
            floating.wf(),
            all == windows@,
            keep == (|w: WindowRef| is_floating(w, floating@)),
            r@ == all.subrange(0, i as int).filter(keep),
        decreases windows.len() - i,
    {
        proof {
            reveal(Seq::filter);
            let next = all.subrange(0, i + 1);
            assert(next.drop_last() =~= all.subrange(0, i as int));
            assert(next.last() == all[i as int]);
        }
        if let Some(root) = windows[i].root {
            if floating.contains(root) {
                r.push(windows[i]);
            }
        }
        i = i + 1;
    }
    proof {
        assert(all.subrange(0, i as int) =~= all);
    }
    r
}

/// A window is never both tiled and floating, and a window of its workspace
/// that does not fill a screen is one of the two.
pub proof fn windows_are_tiled_or_floating(
    window: WindowRef,
    workspaces: Seq<Workspace<WindowRef>>,
    floating: Map<u64, FloatingWindowData>,
)
    ensures
        !(is_tiled(window, workspaces, floating) && is_floating(window, floating)),
        window.root is Some && !fills_a_screen(workspaces, window.root->0) ==> is_tiled(
            window,
            workspaces,
            floating,
        ) || is_floating(window, floating),
{
}

/// A workspace goes on remembering the window that last had the keyboard when another
/// leaves; when that one leaves, it remembers the one that comes after it, or, where it
/// was the last, the one before it.
pub proof fn the_remembered_window_stays<W>(windows: Seq<W>, focused: usize, idx: int)
    requires
        0 <= idx < windows.len(),
        focused < windows.len(),
        windows.len() > 1,
    ensures
        ({
            let left = windows.remove(idx);
            let now = focus_without(Some(focused), idx, windows.len() as int);
            &&& now is Some
            &&& now->0 < left.len()
            &&& focused != idx ==> left[now->0 as int] == windows[focused as int]
            &&& focused == idx && idx + 1 < windows.len() ==> left[now->0 as int] == windows[idx
                + 1]
            &&& focused == idx && idx + 1 == windows.len() ==> left[now->0 as int] == windows[idx
                - 1]
        }),
        focus_without(None, idx, windows.len() as int) is None,
        focus_without(Some(focused), 0, 1) is None,
{
}

/// A new tile shares that of the tiled window that has the keyboard, or else of the one
/// that the workspace remembers; a window that floats or fills a screen shares none.
pub proof fn a_new_tile_shares_that_of_the_focused_window(
    workspaces: Seq<Workspace<WindowRef>>,
    floating: Map<u64, FloatingWindowData>,
    w: int,
    keyboard_root: Option<u64>,
    i: int,
)
    requires
        0 <= w < workspaces.len(),
        0 <= i < workspaces[w].windows@.len(),
        forall|k: int|
            0 <= k < workspaces.len() ==> (#[trigger] workspaces[k]).fullscreen is None,
    ensures
        ({
            let root = workspaces[w].windows@[i].root;
            let split = split_target(workspaces, floating, w, keyboard_root);
            let elsewhere = forall|k: int|
                0 <= k < workspaces[w].windows@.len() ==> (
                #[trigger] workspaces[w].windows@[k]).root != keyboard_root;
            &&& keyboard_root is Some && root == keyboard_root && !floating.dom().contains(root->0)
                ==> split == root
            &&& keyboard_root is Some && root == keyboard_root && floating.dom().contains(root->0)
                ==> split is None
            &&& elsewhere && workspaces[w].focused_idx == Some(i as usize) && i <= usize::MAX
                && root is Some && !floating.dom().contains(root->0) ==> split == root
            &&& elsewhere && workspaces[w].focused_idx is None ==> split is None
            &&& split is Some ==> !floating.dom().contains(split->0)
        }),
{
    if keyboard_root is Some {
        lemma_index_with_root(workspaces[w].windows@, keyboard_root->0);
    }
    assert(forall|root: u64| !#[trigger] fills_a_screen(workspaces, root));
}

/// A rectangle covers an output exactly where it leaves no pixel of it free.
pub proof fn covering_an_output_leaves_nothing_free(geo: Rect, output: Rect)
    requires
        output.size.w > 0,
        output.size.h > 0,
    ensures
        covers_output(geo, output) ==> forall|x: int, y: int|
            output.loc.x <= x && x < output.loc.x + output.size.w && output.loc.y <= y && y
                < output.loc.y + output.size.h ==> #[trigger] holds_pixel(geo, x, y),
        holds_pixel(geo, output.loc.x as int, output.loc.y as int) && holds_pixel(
            geo,
            output.loc.x + output.size.w - 1,
            output.loc.y + output.size.h - 1,
        ) ==> covers_output(geo, output),
{
}

/// Whether a pixel lies in a rectangle.
pub open spec fn holds_pixel(geo: Rect, x: int, y: int) -> bool {
    geo.loc.x <= x && x < geo.loc.x + geo.size.w && geo.loc.y <= y && y < geo.loc.y + geo.size.h
}

/// The roots of windows are those of each that has one, and no others.
pub proof fn roots_are_those_of_the_windows(windows: Seq<WindowRef>)
    ensures
        forall|i: int|
            0 <= i < windows.len() && (#[trigger] windows[i]).root is Some ==> roots_of(
                windows,
            ).contains(windows[i].root->0),
        forall|k: int|
            0 <= k < roots_of(windows).len() ==> exists|i: int|
                0 <= i < windows.len() && (#[trigger] windows[i]).root == Some(
                    #[trigger] roots_of(windows)[k],
                ),
    decreases windows.len(),
{
    if windows.len() > 0 {
        let shorter = windows.drop_last();
        let rest = roots_of(shorter);
        let all = roots_of(windows);
        roots_are_those_of_the_windows(shorter);
        assert forall|i: int| 0 <= i < windows.len() && (#[trigger] windows[i]).root is Some implies all.contains(
        windows[i].root->0) by {
            let root = windows[i].root->0;
            if i < shorter.len() {
                assert(shorter[i] == windows[i]);
                assert(rest.contains(root));
                let k = rest.index_of(root);
                assert(all[k] == root);
            } else {
                assert(all[rest.len() as int] == root);
            }
        }
        assert forall|k: int| 0 <= k < all.len() implies exists|i: int|
            0 <= i < windows.len() && (#[trigger] windows[i]).root == Some(#[trigger] all[k]) by {
            if k < rest.len() {
                assert(all[k] == rest[k]);
                let i = choose|i: int|
                    0 <= i < shorter.len() && (#[trigger] shorter[i]).root == Some(rest[k]);
                assert(windows[i] == shorter[i]);
            } else {
                assert(windows[windows.len() - 1].root == Some(all[k]));
            }
        }
    }
}

/// A root is found where it is: in the first workspace that has a window with it.
pub proof fn a_window_is_found_where_it_is(workspaces: Seq<Workspace<WindowRef>>, root: u64)
    ensures
        match workspace_with_root(workspaces, root) {
            Some(w) => {
                &&& 0 <= w < workspaces.len()
                &&& exists|i: int|
                    0 <= i < workspaces[w].windows@.len() && (
                    #[trigger] workspaces[w].windows@[i]).root == Some(root)
                &&& forall|k: int, i: int|
                    0 <= k < w && 0 <= i < workspaces[k].windows@.len() ==> (
                    #[trigger] workspaces[k].windows@[i]).root != Some(root)
            },
            None => forall|k: int, i: int|
                0 <= k < workspaces.len() && 0 <= i < workspaces[k].windows@.len() ==> (
                #[trigger] workspaces[k].windows@[i]).root != Some(root),
        },
    decreases workspaces.len(),
{
    if workspaces.len() > 0 {
        let shorter = workspaces.drop_last();
        let n = workspaces.len() - 1;
        a_window_is_found_where_it_is(shorter, root);
        lemma_index_with_root(workspaces[n].windows@, root);
        assert forall|k: int, i: int|
            0 <= k < n && 0 <= i < workspaces[k].windows@.len() && workspace_with_root(
                shorter,
                root,
            ) is None implies (#[trigger] workspaces[k].windows@[i]).root != Some(root) by {
            assert(shorter[k].windows@[i] == workspaces[k].windows@[i]);
        }
        match workspace_with_root(shorter, root) {
            Some(w) => {
                assert(shorter[w] == workspaces[w]);
                assert forall|k: int, i: int|
                    0 <= k < w && 0 <= i < workspaces[k].windows@.len() implies (
                #[trigger] workspaces[k].windows@[i]).root != Some(root) by {
                    assert(shorter[k].windows@[i] == workspaces[k].windows@[i]);
                }
            },
            None => {},
        }
    }
}

/// A window is tiled unless it floats or fills a screen.
pub proof fn windows_are_tiled_unless_they_float(
    window: WindowRef,
    workspaces: Seq<Workspace<WindowRef>>,
    floating: Map<u64, FloatingWindowData>,
    root: u64,
    w: int,
)
    requires
        window.root == Some(root),
        0 <= w < workspaces.len(),
    ensures
        floating.dom().contains(root) ==> !is_tiled(window, workspaces, floating),
        workspaces[w].fullscreen is Some && workspaces[w].fullscreen->0.root == Some(root)
            ==> !is_tiled(window, workspaces, floating),
        !floating.dom().contains(root) && (forall|k: int|
            0 <= k < workspaces.len() ==> (#[trigger] workspaces[k]).fullscreen is None)
            ==> is_tiled(window, workspaces, floating),
{
}

} // verus!
