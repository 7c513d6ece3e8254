//! The life of a window: it waits to be mapped, is mapped, unmapped and
//! destroyed.
use crate::state::desktop::{push_remap_hidden, remap_hidden, same_grab, Desktop, Step};
use crate::state::popup::{
    float_class, keeps_focus, pins_focus, should_map_toplevel_floating, ToplevelFacts,
    ToplevelFloatClass,
};
use crate::state::tiling::{
    fills_a_screen, focus_without, focused_tiled_window_root, index_with_root, is_root_fullscreen,
    lemma_index_with_root, lemma_workspace_with_root, split_target, window_index_for_root,
    workspace_idx_for_root, workspace_with_root, Workspace,
};
use crate::text;
use crate::types::{FloatingWindowData, WindowRef};
use vstd::prelude::*;

verus! {

/// The root of the window that a workspace remembers as focused.
pub open spec fn remembered_root(workspace: Workspace<WindowRef>) -> Option<u64> {
    if workspace.focused_idx is Some && workspace.focused_idx->0 < workspace.windows@.len() {
        workspace.windows@[workspace.focused_idx->0 as int].root
    } else {
        None
    }
}

pub fn remembered_focus(workspace: &Workspace<WindowRef>) -> (r: Option<u64>)
    ensures
        r == remembered_root(*workspace),
{
    match workspace.focused_idx {
        Some(idx) => if idx < workspace.windows.len() {
            workspace.windows[idx].root
        } else {
            None
        },
        None => None,
    }
}

/// Whether a workspace lost its window number `pos`, and what filled its screen
/// where that was the one.
pub open spec fn without_window(
    after: Workspace<WindowRef>,
    before: Workspace<WindowRef>,
    pos: int,
    was_fullscreen: bool,
) -> bool {
    &&& after.windows@ == before.windows@.remove(pos)
    &&& after.focused_idx == focus_without(
        before.focused_idx,
        pos,
        before.windows@.len() as int,
    )
    &&& after.fullscreen == if was_fullscreen { None } else { before.fullscreen }
}

/// Whether the window with this root fills the screen of the workspace.
pub open spec fn fills_screen_of(workspace: Workspace<WindowRef>, root: u64) -> bool {
    workspace.fullscreen is Some && workspace.fullscreen->0.root == Some(root)
}

/// The steps that take a window out of the desktop. `after` is its workspace
/// without it.
pub open spec fn removal_steps(
    window: WindowRef,
    root: u64,
    workspace_idx: int,
    after: Workspace<WindowRef>,
    was_fullscreen: bool,
    active: int,
    restore_focus: bool,
    focus: Option<u64>,
    shown: Seq<u64>,
) -> Seq<Step> {
    let siblings = if was_fullscreen {
        remap_hidden(after.windows@, shown, None)
    } else {
        Seq::empty()
    };
    let refocus = if restore_focus { seq![Step::Focus { root: focus }] } else { Seq::empty() };
    let end = if workspace_idx == active {
        refocus + seq![Step::Relayout, Step::Render]
    } else {
        Seq::empty()
    };
    seq![Step::ForgetAnimation { root }] + siblings + seq![
        Step::RemoveTile { workspace: workspace_idx as usize, root },
        Step::Hide { window: window.id },
        Step::PublishWorkspaces,
    ] + end
}

fn list_removal_steps(
    window: WindowRef,
    root: u64,
    workspace_idx: usize,
    after: &Workspace<WindowRef>,
    was_fullscreen: bool,
    active: usize,
    restore_focus: bool,
    focus: Option<u64>,
    shown: &Vec<u64>,
) -> (steps: Vec<Step>)
    ensures
        steps@ == removal_steps(
            window,
            root,
            workspace_idx as int,
            *after,
            was_fullscreen,
            active as int,
            restore_focus,
            focus,
            shown@,
        ),
{
    let mut steps: Vec<Step> = Vec::new();
    steps.push(Step::ForgetAnimation { root });
    if was_fullscreen {
        push_remap_hidden(&mut steps, &after.windows, shown, None);
    }
    steps.push(Step::RemoveTile { workspace: workspace_idx, root });
    steps.push(Step::Hide { window: window.id });
    steps.push(Step::PublishWorkspaces);
    if workspace_idx == active {
        if restore_focus {
            steps.push(Step::Focus { root: focus });
        }
        steps.push(Step::Relayout);
        steps.push(Step::Render);
    }
    proof {
        assert(steps@ =~= removal_steps(
            window,
            root,
            workspace_idx as int,
            *after,
            was_fullscreen,
            active as int,
            restore_focus,
            focus,
            shown@,
        ));
    }
    steps
}

/// The window with this root, from the first workspace that has it.
pub open spec fn window_with_root(workspaces: Seq<Workspace<WindowRef>>, root: u64) -> Option<
    WindowRef,
> {
    match workspace_with_root(workspaces, root) {
        Some(w) => Some(workspaces[w].windows@[index_with_root(workspaces[w].windows@, root)->0]),
        None => None,
    }
}

/// Whether `after` is `before` with the window of this root taken out of
/// everything that tracks it but the windows that wait, and `steps` are the
/// ones that this takes.
pub open spec fn toplevel_removed(
    before: Desktop,
    after: Desktop,
    root: u64,
    keyboard_root: Option<u64>,
    parent_root: Option<u64>,
    shown: Seq<u64>,
    steps: Seq<Step>,
) -> bool {
    let found = workspace_with_root(before.workspaces@, root);
    &&& after.outputs == before.outputs
    &&& same_grab(after.grabs, before.grabs)
    &&& after.floating() == before.floating().remove(root)
    &&& after.books.sticky@ == before.books.sticky@.remove(root)
    &&& after.books.mapped_with_buffer@ == before.books.mapped_with_buffer@.remove(root)
    &&& after.books.window_lookup@ == before.books.window_lookup@.remove(root)
    &&& after.books.pending_float_centers == before.books.pending_float_centers
    &&& after.books.pending_should_float == before.books.pending_should_float
    &&& after.workspaces@.len() == before.workspaces@.len()
    &&& match found {
        None => steps.len() == 0 && after.workspaces == before.workspaces,
        Some(w) => {
            let was = before.workspaces@[w];
            let full = fills_screen_of(was, root);
            let parent_mapped = parent_root is Some && after.books.window_lookup@.dom().contains(
                parent_root->0,
            );
            &&& without_window(
                after.workspaces@[w],
                was,
                index_with_root(was.windows@, root)->0,
                full,
            )
            &&& forall|k: int|
                0 <= k < before.workspaces@.len() && k != w ==> #[trigger] after.workspaces@[k]
                    == before.workspaces@[k]
            &&& steps == removal_steps(
                window_with_root(before.workspaces@, root)->0,
                root,
                w,
                after.workspaces@[w],
                full,
                before.active(),
                keyboard_root is None || keyboard_root == Some(root),
                if parent_mapped { parent_root } else { remembered_root(after.here()) },
                shown,
            )
        },
    }
}

/// The windows that wait to be mapped, after one with this root was unmapped:
/// it waits too, where it is a toplevel.
pub open spec fn requeued(
    pending: Seq<WindowRef>,
    window: Option<WindowRef>,
    is_toplevel: bool,
) -> Seq<WindowRef> {
    if window is Some && is_toplevel && !pending.contains(window->0) {
        pending.push(window->0)
    } else {
        pending
    }
}

/// The windows without the first one of that root.
pub open spec fn without_first(windows: Seq<WindowRef>, root: u64) -> Seq<WindowRef> {
    match index_with_root(windows, root) {
        Some(i) => windows.remove(i),
        None => windows,
    }
}

/// What is known of a window when it is mapped.
#[derive(Debug, Clone, Copy, PartialEq, Eq, Structural)]
pub struct MapFacts {
    /// It floats for what it says of itself.
    pub should_float: bool,
    /// It is a picture-in-picture window, which follows the user around.
    pub picture_in_picture: bool,
    /// A dialog that must not lose the keyboard has it.
    pub dialog_focused: bool,
    /// Where it would float, where that can be told.
    pub floating_data: Option<FloatingWindowData>,
    /// The root of the surface that holds the keyboard.
    pub keyboard_root: Option<u64>,
}

/// What browsers call the small window that a video is watched in.
pub open spec fn is_picture_in_picture(title: Option<&str>) -> bool {
    title is Some && title->0@ == "Picture-in-Picture"@
}

/// What is known of a window when it is mapped. `facts` and `title` are what it
/// says of itself, `facts` where it is a Wayland toplevel; `focused_class` is the
/// class of the mapped window that holds the keyboard, and `focused_floats` says
/// whether that one floats; `floating_data` is where the window would float.
pub fn map_facts(
    facts: &Option<ToplevelFacts>,
    title: Option<&str>,
    focused_class: Option<ToplevelFloatClass>,
    focused_floats: bool,
    floating_data: Option<FloatingWindowData>,
    keyboard_root: Option<u64>,
) -> (r: MapFacts)
    ensures
        r.should_float == float_class(*facts).should_float,
        r.picture_in_picture == (facts is Some && is_picture_in_picture(title)),
        r.dialog_focused == (focused_class is Some && keeps_focus(
            focused_class->0,
            focused_floats,
        )),
        r.floating_data == floating_data,
        r.keyboard_root == keyboard_root,
{
    let titled = match title {
        Some(title) => text::str_eq(title, "Picture-in-Picture"),
        None => false,
    };
    let dialog_focused = match focused_class {
        Some(class) => pins_focus(class, focused_floats),
        None => false,
    };
    MapFacts {
        should_float: should_map_toplevel_floating(facts),
        picture_in_picture: facts.is_some() && titled,
        dialog_focused,
        floating_data,
        keyboard_root,
    }
}

/// The steps that map a window. `float` says whether it floats, `split` is the
/// window whose tile it shares, `blocked` that a window that fills the screen
/// keeps the keyboard.
pub open spec fn map_steps(
    window: WindowRef,
    root: u64,
    facts: MapFacts,
    workspace_idx: usize,
    float: bool,
    may_tile: bool,
    split: Option<u64>,
    blocked: bool,
) -> Seq<Step> {
    let id = window.id;
    let place = if float {
        match facts.floating_data {
            Some(data) => seq![
                Step::ForgetAnimation { root },
                Step::Show { window: id, at: data.position, activate: true },
                Step::Configure { window: id, size: None, fullscreen: None },
            ],
            None => Seq::empty(),
        }
    } else if may_tile {
        seq![Step::InsertTile { workspace: workspace_idx, root, split }]
    } else {
        Seq::empty()
    };
    let focus = if !float && facts.dialog_focused {
        Seq::empty()
    } else {
        seq![Step::FocusAfterDispatch { root }]
    };
    let raise = if blocked {
        Seq::empty()
    } else {
        focus + seq![Step::Raise { window: id, activate: true }, Step::RaiseFloating]
    };
    seq![Step::PublishWorkspaces] + place + seq![Step::Relayout] + raise + seq![Step::Render]
}

fn list_map_steps(
    window: WindowRef,
    root: u64,
    facts: MapFacts,
    workspace_idx: usize,
    float: bool,
    may_tile: bool,
    split: Option<u64>,
    blocked: bool,
) -> (steps: Vec<Step>)
    ensures
        steps@ == map_steps(window, root, facts, workspace_idx, float, may_tile, split, blocked),
{
    let id: u64 = window.id;
    let mut steps: Vec<Step> = Vec::new();
    steps.push(Step::PublishWorkspaces);
    if float {
        if let Some(data) = facts.floating_data {
            steps.push(Step::ForgetAnimation { root });
            steps.push(Step::Show { window: id, at: data.position, activate: true });
            steps.push(Step::Configure { window: id, size: None, fullscreen: None });
        }
    } else if may_tile {
        steps.push(Step::InsertTile { workspace: workspace_idx, root, split });
    }
    steps.push(Step::Relayout);
    if !blocked {
        if float || !facts.dialog_focused {
            steps.push(Step::FocusAfterDispatch { root });
        }
        steps.push(Step::Raise { window: id, activate: true });
        steps.push(Step::RaiseFloating);
    }
    steps.push(Step::Render);
    proof {
        assert(steps@ =~= map_steps(
            window,
            root,
            facts,
            workspace_idx,
            float,
            may_tile,
            split,
            blocked,
        ));
    }
    steps
}

/// Whether `after` is `before` with the window `window` mapped, which has that
/// root and waited, and `steps` are the ones that this takes.
pub open spec fn window_mapped(
    before: Desktop,
    after: Desktop,
    window: WindowRef,
    root: u64,
    facts: MapFacts,
    steps: Seq<Step>,
) -> bool {
    let active = before.active();
    let here = before.here();
    let float = facts.should_float || before.books.pending_should_float@.dom().contains(root);
    let placed = float && facts.floating_data is Some;
    let may_tile = !before.floating().dom().contains(root) && !fills_a_screen(
        before.workspaces@,
        root,
    );
    let split = split_target(before.workspaces@, before.floating(), active, facts.keyboard_root);
    let blocked = here.fullscreen is Some && here.fullscreen->0.id != window.id;
    &&& after.outputs == before.outputs
    &&& same_grab(after.grabs, before.grabs)
    &&& steps == map_steps(
        window,
        root,
        facts,
        active as usize,
        float,
        may_tile,
        split,
        blocked,
    )
    &&& after.workspaces@.len() == before.workspaces@.len()
    &&& forall|k: int|
        0 <= k < before.workspaces@.len() && k != active ==> #[trigger] after.workspaces@[k]
            == before.workspaces@[k]
    &&& after.here().windows@ == here.windows@.push(window)
    &&& after.here().focused_idx == here.focused_idx
    &&& after.here().fullscreen == here.fullscreen
    &&& after.floating() == if placed {
        before.floating().insert(root, facts.floating_data->0)
    } else {
        before.floating()
    }
    &&& after.books.window_lookup@ == before.books.window_lookup@.insert(root, window)
    &&& after.books.pending_windows@ == without_first(before.books.pending_windows@, root)
    &&& after.books.pending_should_float@ == before.books.pending_should_float@.remove(root)
    &&& after.books.sticky@ == if facts.picture_in_picture {
        before.books.sticky@.insert(root, ())
    } else {
        before.books.sticky@
    }
    &&& after.books.pending_float_centers@ == if placed {
        before.books.pending_float_centers@.insert(root, ())
    } else {
        before.books.pending_float_centers@
    }
    &&& after.books.mapped_with_buffer == before.books.mapped_with_buffer
}

/// Whether committing a mapped window without a buffer unmaps it: the surface of
/// its own Wayland toplevel was committed, and it has shown a buffer.
pub open spec fn unmaps(desktop: Desktop, root: u64, own_toplevel: bool, has_buffer: bool) -> bool {
    own_toplevel && !has_buffer && desktop.books.mapped_with_buffer@.dom().contains(root)
}

/// Whether `after` is `before` after a commit of a mapped window, and `steps`
/// are the ones that this takes.
pub open spec fn window_committed(
    before: Desktop,
    after: Desktop,
    window: WindowRef,
    root: u64,
    own_toplevel: bool,
    has_buffer: bool,
    recentered: Option<FloatingWindowData>,
    keyboard_root: Option<u64>,
    parent_root: Option<u64>,
    shown: Seq<u64>,
    steps: Seq<Step>,
) -> bool {
    let center = before.books.pending_float_centers@.dom().contains(root) && recentered is Some;
    if unmaps(before, root, own_toplevel, has_buffer) {
        &&& steps.len() > 0
        &&& steps.last() == Step::Render
        &&& toplevel_removed(
            before,
            after,
            root,
            keyboard_root,
            parent_root,
            shown,
            steps.drop_last(),
        )
        &&& after.books.pending_windows@ == requeued(
            before.books.pending_windows@,
            window_with_root(before.workspaces@, root),
            true,
        )
    } else {
        &&& after.outputs == before.outputs
        &&& same_grab(after.grabs, before.grabs)
        &&& after.workspaces == before.workspaces
        &&& after.floating() == if center {
            before.floating().insert(root, recentered->0)
        } else {
            before.floating()
        }
        &&& after.books.mapped_with_buffer@ == if own_toplevel && has_buffer {
            before.books.mapped_with_buffer@.insert(root, ())
        } else {
            before.books.mapped_with_buffer@
        }
        &&& after.books.pending_float_centers@ == before.books.pending_float_centers@.remove(root)
        &&& after.books.pending_should_float == before.books.pending_should_float
        &&& after.books.window_lookup == before.books.window_lookup
        &&& after.books.pending_windows == before.books.pending_windows
        &&& after.books.sticky == before.books.sticky
        &&& steps == if center {
            seq![
                Step::Relayout,
                Step::Raise { window: window.id, activate: true },
                Step::RaiseFloating,
                Step::Render,
            ]
        } else {
            seq![Step::Render]
        }
    }
}

/// What happens to a mapped window when its client learns late that it is a
/// dialog.
pub open spec fn adoption_steps(
    window: WindowRef,
    root: u64,
    workspace_idx: int,
    was_floating: bool,
    placed: bool,
    active: bool,
) -> Seq<Step> {
    let configure = seq![Step::Configure { window: window.id, size: None, fullscreen: None }];
    let untile = if was_floating {
        Seq::empty()
    } else {
        seq![Step::RemoveTile { workspace: workspace_idx as usize, root }]
    };
    let end = if !placed {
        Seq::empty()
    } else if active {
        seq![
            Step::ForgetAnimation { root },
            Step::Relayout,
            Step::Raise { window: window.id, activate: true },
            Step::RaiseFloating,
            Step::Focus { root: Some(root) },
        ]
    } else {
        seq![Step::ForgetAnimation { root }, Step::Render]
    };
    configure + untile + end
}

/// What becomes of the desktop when a window turns out to be a dialog, and the steps for it.
pub open spec fn dialog_adopted(
    before: Desktop,
    after: Desktop,
    window: WindowRef,
    root: u64,
    should_float: bool,
    placement: Option<FloatingWindowData>,
    r: Seq<Step>,
) -> bool {
    &&& after.outputs == before.outputs
    &&& after.workspaces == before.workspaces
    &&& same_grab(after.grabs, before.grabs)
    &&& after.books.sticky == before.books.sticky
    &&& after.books.mapped_with_buffer == before.books.mapped_with_buffer
    &&& after.books.window_lookup == before.books.window_lookup
    &&& after.books.pending_windows == before.books.pending_windows
    &&& {
        let waits = index_with_root(before.books.pending_windows@, root) is Some;
        let found = workspace_with_root(before.workspaces@, root);
        let adopts = !waits && before.books.window_lookup@.dom().contains(root)
            && should_float && found is Some;
        &&& after.books.pending_should_float@ == if waits {
            before.books.pending_should_float@.insert(root, ())
        } else {
            before.books.pending_should_float@
        }
        &&& after.books.pending_float_centers@ == if adopts {
            before.books.pending_float_centers@.insert(root, ())
        } else {
            before.books.pending_float_centers@
        }
        &&& after.floating() == if adopts && placement is Some {
            before.floating().insert(root, placement->0)
        } else {
            before.floating()
        }
        &&& r == if waits {
            seq![Step::Configure { window: window.id, size: None, fullscreen: None }]
        } else if adopts {
            adoption_steps(
                window,
                root,
                found->0,
                before.floating().dom().contains(root),
                placement is Some,
                found->0 == before.active(),
            )
        } else {
            Seq::empty()
        }
    }
}

impl Desktop {
    /// Take a window out of everything that tracks it: its workspace, the
    /// tiles, the floating and sticky windows and the scene. The keyboard goes
    /// to its parent, or to the window that its workspace remembers.
    ///
    /// `keyboard_root` is the root of the surface that holds the keyboard,
    /// `parent_root` that of the window's parent, `shown` the windows in the
    /// scene.
    pub fn remove_mapped_toplevel(
        &mut self,
        root: u64,
        keyboard_root: Option<u64>,
        parent_root: Option<u64>,
        shown: &Vec<u64>,
    ) -> (r: (Option<WindowRef>, Vec<Step>))
        requires
            old(self).wf(),
        ensures
            final(self).wf(),
            r.0 == window_with_root(old(self).workspaces@, root),
            toplevel_removed(
                *old(self),
                *final(self),
                root,
                keyboard_root,
                parent_root,
                shown@,
                r.1@,
            ),
            final(self).books.pending_windows == old(self).books.pending_windows,
    {
        let found = workspace_idx_for_root(&self.workspaces, root);
        let _ = self.books.mapped_with_buffer.remove(root);
        let _ = self.books.sticky.remove(root);
        let _ = self.books.window_lookup.remove(root);
        let _ = self.grabs.floating.remove(root);
        let ws_idx: usize = match found {
            Some(ws_idx) => ws_idx,
            None => {
                return (None, Vec::new());
            },
        };
        let active: usize = self.outputs.active_workspace();
        let pos: usize = match window_index_for_root(&self.workspaces[ws_idx].windows, root) {
            Some(pos) => pos,
            None => {
                return (None, Vec::new());
            },
        };
        let removed = self.workspaces[ws_idx].remove_window(pos);
        let window = match removed {
            Some(window) => window,
            None => {
                return (None, Vec::new());
            },
        };
        let was_fullscreen = match self.workspaces[ws_idx].fullscreen {
            Some(full) => match full.root {
                Some(full_root) => full_root == root,
                None => false,
            },
            None => false,
        };
        if was_fullscreen {
            self.workspaces[ws_idx].fullscreen = None;
        }
        let restore = match keyboard_root {
            Some(focused) => focused == root,
            None => true,
        };
        let parent_focus = match parent_root {
            Some(parent) => if self.books.window_lookup.contains(parent) {
                Some(parent)
            } else {
                None
            },
            None => None,
        };
        let focus = match parent_focus {
            Some(parent) => Some(parent),
            None => remembered_focus(&self.workspaces[active]),
        };
        let steps = list_removal_steps(
            window,
            root,
            ws_idx,
            &self.workspaces[ws_idx],
            was_fullscreen,
            active,
            restore,
            focus,
            shown,
        );
        (Some(window), steps)
    }

    /// A client unmapped a window that it may map again: it leaves the desktop
    /// and waits for that.
    pub fn handle_toplevel_unmap(
        &mut self,
        root: u64,
        is_toplevel: bool,
        keyboard_root: Option<u64>,
        parent_root: Option<u64>,
        shown: &Vec<u64>,
    ) -> (r: Vec<Step>)
        requires
            old(self).wf(),
        ensures
            final(self).wf(),
            toplevel_removed(
                *old(self),
                *final(self),
                root,
                keyboard_root,
                parent_root,
                shown@,
                r@,
            ),
            final(self).books.pending_windows@ == requeued(
                old(self).books.pending_windows@,
                window_with_root(old(self).workspaces@, root),
                is_toplevel,
            ),
    {
        let (window, steps) = self.remove_mapped_toplevel(root, keyboard_root, parent_root, shown);
        if let Some(window) = window {
            if is_toplevel {
                let mut known = false;
                let mut i: usize = 0;
                while i < self.books.pending_windows.len()
                    invariant
                        i <= self.books.pending_windows.len(),
                        known == (exists|k: int|
                            0 <= k < i && #[trigger] self.books.pending_windows@[k] == window),
                    decreases self.books.pending_windows.len() - i,
                {
                    if self.books.pending_windows[i] == window {
                        known = true;
                    }
                    i = i + 1;
                }
                if !known {
                    self.books.pending_windows.push(window);
                }
            }
        }
        steps
    }

    /// A toplevel is gone for good: it no longer waits to be mapped, or leaves
    /// the desktop.
    pub fn toplevel_destroyed(
        &mut self,
        root: u64,
        keyboard_root: Option<u64>,
        parent_root: Option<u64>,
        shown: &Vec<u64>,
    ) -> (r: Vec<Step>)
        requires
            old(self).wf(),
        ensures
            final(self).wf(),
            index_with_root(old(self).books.pending_windows@, root) is Some ==> {
                &&& r@.len() == 0
                &&& final(self).workspaces == old(self).workspaces
                &&& final(self).outputs == old(self).outputs
                &&& final(self).grabs == old(self).grabs
                &&& final(self).books.sticky == old(self).books.sticky
                &&& final(self).books.window_lookup == old(self).books.window_lookup
                &&& final(self).books.pending_float_centers == old(self).books.pending_float_centers
                &&& final(self).books.pending_windows@ == without_first(
                    old(self).books.pending_windows@,
                    root,
                )
                &&& final(self).books.pending_should_float@ == old(
                    self).books.pending_should_float@.remove(root)
                &&& final(self).books.mapped_with_buffer@ == old(
                    self).books.mapped_with_buffer@.remove(root)
            },
            index_with_root(old(self).books.pending_windows@, root) is None ==> toplevel_removed(
                *old(self),
                *final(self),
                root,
                keyboard_root,
                parent_root,
                shown@,
                r@,
            ) && final(self).books.pending_windows == old(self).books.pending_windows,
    {
        match window_index_for_root(&self.books.pending_windows, root) {
            Some(pos) => {
                let _ = self.books.pending_windows.remove(pos);
                let _ = self.books.pending_should_float.remove(root);
                let _ = self.books.mapped_with_buffer.remove(root);
                Vec::new()
            },
            None => {
                let (_, steps) = self.remove_mapped_toplevel(
                    root,
                    keyboard_root,
                    parent_root,
                    shown,
                );
                steps
            },
        }
    }

    /// A client made a toplevel: it waits to be mapped.
    pub fn new_toplevel(&mut self, window: WindowRef)
        ensures
            final(self).workspaces == old(self).workspaces,
            final(self).outputs == old(self).outputs,
            final(self).grabs == old(self).grabs,
            final(self).books.sticky == old(self).books.sticky,
            final(self).books.mapped_with_buffer == old(self).books.mapped_with_buffer,
            final(self).books.pending_float_centers == old(self).books.pending_float_centers,
            final(self).books.pending_should_float == old(self).books.pending_should_float,
            final(self).books.window_lookup == old(self).books.window_lookup,
            final(self).books.pending_windows@ == old(self).books.pending_windows@.push(window),
    {
        self.books.pending_windows.push(window);
    }

    /// Map a window whose first commit has come: on the active workspace, where
    /// it floats or gets a tile. It gets the keyboard, unless a window that
    /// fills the screen or a dialog keeps that. `None` where no window of that
    /// root waits.
    pub fn map_pending_window(&mut self, root: u64, facts: MapFacts) -> (r: Option<Vec<Step>>)
        requires
            old(self).wf(),
        ensures
            final(self).wf(),
            r is Some <==> index_with_root(old(self).books.pending_windows@, root) is Some,
            match r {
                Some(steps) => window_mapped(
                    *old(self),
                    *final(self),
                    old(self).books.pending_windows@[index_with_root(
                        old(self).books.pending_windows@,
                        root,
                    )->0],
                    root,
                    facts,
                    steps@,
                ),
                None => *final(self) == *old(self),
            },
    {
        let pos: usize = match window_index_for_root(&self.books.pending_windows, root) {
            Some(pos) => pos,
            None => {
                return None;
            },
        };
        let window = self.books.pending_windows.remove(pos);
        let active: usize = self.outputs.active_workspace();
        let split = focused_tiled_window_root(
            &self.workspaces,
            &self.grabs.floating,
            active,
            facts.keyboard_root,
        );
        let may_tile = !self.grabs.floating.contains(root) && !is_root_fullscreen(
            &self.workspaces,
            root,
        );
        let blocked = match self.workspaces[active].fullscreen {
            Some(full) => full.id != window.id,
            None => false,
        };
        self.workspaces[active].add_window(window);
        self.books.window_lookup.insert(root, window);
        let intent_recorded = self.books.pending_should_float.remove(root);
        let float = facts.should_float || intent_recorded;
        if facts.picture_in_picture {
            self.books.sticky.insert(root, ());
        }
        if float {
            if let Some(data) = facts.floating_data {
                self.grabs.floating.insert(root, data);
                self.books.pending_float_centers.insert(root, ());
            }
        }
        let steps = list_map_steps(window, root, facts, active, float, may_tile, split, blocked);
        Some(steps)
    }

    /// A mapped window was committed. `own_toplevel` says that it was the surface
    /// of the window's own Wayland toplevel, neither one below it nor one of an
    /// X11 window; `recentered` is where it would float at its present size.
    ///
    /// A client unmaps a window by committing it without a buffer: that counts
    /// once the window has shown one. A window that was asked for its natural
    /// size is centred when it has it.
    pub fn commit_mapped_window(
        &mut self,
        window: WindowRef,
        root: u64,
        own_toplevel: bool,
        has_buffer: bool,
        recentered: Option<FloatingWindowData>,
        keyboard_root: Option<u64>,
        parent_root: Option<u64>,
        shown: &Vec<u64>,
    ) -> (r: Vec<Step>)
        requires
            old(self).wf(),
        ensures
            final(self).wf(),
            window_committed(
                *old(self),
                *final(self),
                window,
                root,
                own_toplevel,
                has_buffer,
                recentered,
                keyboard_root,
                parent_root,
                shown@,
                r@,
            ),
    {
        if own_toplevel {
            if has_buffer {
                self.books.mapped_with_buffer.insert(root, ());
            } else if self.books.mapped_with_buffer.contains(root) {
                let mut steps = self.handle_toplevel_unmap(
                    root,
                    true,
                    keyboard_root,
                    parent_root,
                    shown,
                );
                let ghost before = steps@;
                steps.push(Step::Render);
                proof {
                    assert(steps@.drop_last() =~= before);
                }
                return steps;
            }
        }
        let mut steps: Vec<Step> = Vec::new();
        let awaited = self.books.pending_float_centers.remove(root);
        if awaited {
            if let Some(data) = recentered {
                self.grabs.floating.insert(root, data);
                steps.push(Step::Relayout);
                steps.push(Step::Raise { window: window.id, activate: true });
                steps.push(Step::RaiseFloating);
            }
        }
        steps.push(Step::Render);
        proof {
            if awaited && recentered is Some {
                assert(steps@ =~= seq![
                    Step::Relayout,
                    Step::Raise { window: window.id, activate: true },
                    Step::RaiseFloating,
                    Step::Render,
                ]);
            } else {
                assert(steps@ =~= seq![Step::Render]);
            }
        }
        steps
    }

    /// A client says of a window that it is a dialog: it got a parent, or
    /// became modal. One that waits is marked, so that it floats when it is
    /// mapped. A mapped one stops being tiled and is asked for its natural size;
    /// it is centred again when it has it. `should_float` says whether the
    /// mapped window floats for what it says of itself, `placement` where.
    pub fn adopt_floating_dialog_state(
        &mut self,
        window: WindowRef,
        root: u64,
        should_float: bool,
        placement: Option<FloatingWindowData>,
    ) -> (r: Vec<Step>)
        requires
            old(self).wf(),
        ensures
            final(self).wf(),
            dialog_adopted(*old(self), *final(self), window, root, should_float, placement, r@),
    {
        let mut steps: Vec<Step> = Vec::new();
        if window_index_for_root(&self.books.pending_windows, root).is_some() {
            self.books.pending_should_float.insert(root, ());
            steps.push(Step::Configure { window: window.id, size: None, fullscreen: None });
            return steps;
        }
        if !self.books.window_lookup.contains(root) || !should_float {
            return steps;
        }
        let ws_idx: usize = match workspace_idx_for_root(&self.workspaces, root) {
            Some(ws_idx) => ws_idx,
            None => {
                return steps;
            },
        };
        let active: usize = self.outputs.active_workspace();
        steps.push(Step::Configure { window: window.id, size: None, fullscreen: None });
        self.books.pending_float_centers.insert(root, ());
        let was_floating = self.grabs.floating.contains(root);
        if !was_floating {
            steps.push(Step::RemoveTile { workspace: ws_idx, root });
        }
        if let Some(data) = placement {
            steps.push(Step::ForgetAnimation { root });
            self.grabs.floating.insert(root, data);
            if ws_idx == active {
                steps.push(Step::Relayout);
                steps.push(Step::Raise { window: window.id, activate: true });
                steps.push(Step::RaiseFloating);
                steps.push(Step::Focus { root: Some(root) });
            } else {
                steps.push(Step::Render);
            }
        }
        proof {
            assert(steps@ =~= adoption_steps(
                window,
                root,
                ws_idx as int,
                was_floating,
                placement is Some,
                ws_idx == active,
            ));
        }
        steps
    }
}

/// Whether the windows with a root occur once, over all workspaces.
pub open spec fn windows_are_unique(workspaces: Seq<Workspace<WindowRef>>) -> bool {
    forall|a: int, i: int, b: int, j: int|
        0 <= a < workspaces.len() && 0 <= i < workspaces[a].windows@.len() && 0 <= b
            < workspaces.len() && 0 <= j < workspaces[b].windows@.len() && (a != b || i != j) && (
        #[trigger] workspaces[a].windows@[i]).root is Some ==> workspaces[a].windows@[i].root != (
        #[trigger] workspaces[b].windows@[j]).root
}

/// Once a window has been taken out of a desktop in which every window occurs
/// once, nothing tracks it any more: it is in no workspace, neither floats nor
/// sticks, does not fill the screen it was on, and is not found by its root.
pub proof fn a_removed_window_leaves_no_trace(
    before: Desktop,
    after: Desktop,
    root: u64,
    keyboard_root: Option<u64>,
    parent_root: Option<u64>,
    shown: Seq<u64>,
    steps: Seq<Step>,
)
    requires
        windows_are_unique(before.workspaces@),
        toplevel_removed(before, after, root, keyboard_root, parent_root, shown, steps),
    ensures
        workspace_with_root(after.workspaces@, root) is None,
        !after.floating().dom().contains(root),
        !after.books.sticky@.dom().contains(root),
        !after.books.window_lookup@.dom().contains(root),
        !after.books.mapped_with_buffer@.dom().contains(root),
        match workspace_with_root(before.workspaces@, root) {
            Some(w) => !fills_screen_of(after.workspaces@[w], root),
            None => true,
        },
{
    let was = before.workspaces@;
    let now = after.workspaces@;
    lemma_workspace_with_root(was, root);
    lemma_workspace_with_root(now, root);
    if workspace_with_root(was, root) is Some {
        let w = workspace_with_root(was, root)->0;
        let pos = index_with_root(was[w].windows@, root)->0;
        lemma_index_with_root(was[w].windows@, root);
        assert forall|k: int| 0 <= k < now.len() implies index_with_root(
            (#[trigger] now[k]).windows@,
            root,
        ) is None by {
            lemma_index_with_root(now[k].windows@, root);
            if index_with_root(now[k].windows@, root) is Some {
                let i = index_with_root(now[k].windows@, root)->0;
                assert(now[k].windows@[i].root == Some(root));
                let j = if k != w || i < pos { i } else { i + 1 };
                assert(was[k].windows@[j] == now[k].windows@[i]);
                assert(was[w].windows@[pos].root == Some(root));
                assert(k != w || j != pos);
                assert(was[k].windows@[j].root != was[w].windows@[pos].root);
            }
        }
    }
}

/// Taking a window out leaves the others once each.
pub proof fn removal_keeps_windows_unique(
    before: Desktop,
    after: Desktop,
    root: u64,
    keyboard_root: Option<u64>,
    parent_root: Option<u64>,
    shown: Seq<u64>,
    steps: Seq<Step>,
)
    requires
        windows_are_unique(before.workspaces@),
        toplevel_removed(before, after, root, keyboard_root, parent_root, shown, steps),
    ensures
        windows_are_unique(after.workspaces@),
{
    let was = before.workspaces@;
    let now = after.workspaces@;
    lemma_workspace_with_root(was, root);
    if workspace_with_root(was, root) is Some {
        let w = workspace_with_root(was, root)->0;
        let pos = index_with_root(was[w].windows@, root)->0;
        lemma_index_with_root(was[w].windows@, root);
        assert forall|a: int, i: int, b: int, j: int|
            0 <= a < now.len() && 0 <= i < now[a].windows@.len() && 0 <= b < now.len() && 0 <= j
                < now[b].windows@.len() && (a != b || i != j) && (
            #[trigger] now[a].windows@[i]).root is Some implies now[a].windows@[i].root != (
        #[trigger] now[b].windows@[j]).root by {
            let i0 = if a != w || i < pos { i } else { i + 1 };
            let j0 = if b != w || j < pos { j } else { j + 1 };
            assert(was[a].windows@[i0] == now[a].windows@[i]);
            assert(was[b].windows@[j0] == now[b].windows@[j]);
        }
    }
}

/// Mapping a window that is in no workspace yet leaves every window once.
pub proof fn mapping_keeps_windows_unique(
    before: Desktop,
    after: Desktop,
    window: WindowRef,
    root: u64,
    facts: MapFacts,
    steps: Seq<Step>,
)
    requires
        before.wf(),
        window.root == Some(root),
        windows_are_unique(before.workspaces@),
        workspace_with_root(before.workspaces@, root) is None,
        window_mapped(before, after, window, root, facts, steps),
    ensures
        windows_are_unique(after.workspaces@),
{
    let was = before.workspaces@;
    let now = after.workspaces@;
    let active = before.active();
    assert(active < before.workspaces.len());
    lemma_workspace_with_root(was, root);
    let last = was[active].windows@.len();
    assert forall|a: int, i: int, b: int, j: int|
        0 <= a < now.len() && 0 <= i < now[a].windows@.len() && 0 <= b < now.len() && 0 <= j
            < now[b].windows@.len() && (a != b || i != j) && (#[trigger] now[a].windows@[i]).root
            is Some implies now[a].windows@[i].root != (#[trigger] now[b].windows@[j]).root by {
        lemma_index_with_root(was[a].windows@, root);
        lemma_index_with_root(was[b].windows@, root);
        assert(index_with_root(was[a].windows@, root) is None);
        assert(index_with_root(was[b].windows@, root) is None);
        if a == active && i == last {
            assert(now[b].windows@[j] == was[b].windows@[j]);
        } else if b == active && j == last {
            assert(now[a].windows@[i] == was[a].windows@[i]);
        } else {
            assert(now[a].windows@[i] == was[a].windows@[i]);
            assert(now[b].windows@[j] == was[b].windows@[j]);
        }
    }
}

/// Whether the window that fills the screen of a workspace, where there is one,
/// lives on it.
pub open spec fn full_screens_at_home(workspaces: Seq<Workspace<WindowRef>>) -> bool {
    forall|k: int|
        0 <= k < workspaces.len() && (#[trigger] workspaces[k]).fullscreen is Some
            ==> workspaces[k].windows@.contains(workspaces[k].fullscreen->0)
}

/// A window that leaves no longer fills a screen: what fills one lives there.
pub proof fn removal_keeps_full_screens_at_home(
    before: Desktop,
    after: Desktop,
    root: u64,
    keyboard_root: Option<u64>,
    parent_root: Option<u64>,
    shown: Seq<u64>,
    steps: Seq<Step>,
)
    requires
        full_screens_at_home(before.workspaces@),
        toplevel_removed(before, after, root, keyboard_root, parent_root, shown, steps),
    ensures
        full_screens_at_home(after.workspaces@),
{
    let was = before.workspaces@;
    let now = after.workspaces@;
    lemma_workspace_with_root(was, root);
    assert forall|k: int| 0 <= k < now.len() && (#[trigger] now[k]).fullscreen is Some implies now[
    k].windows@.contains(now[k].fullscreen->0) by {
        if workspace_with_root(was, root) == Some(k) {
            let pos = index_with_root(was[k].windows@, root)->0;
            lemma_index_with_root(was[k].windows@, root);
            let full = now[k].fullscreen->0;
            assert(was[k].fullscreen == Some(full));
            let i = choose|i: int| 0 <= i < was[k].windows@.len() && was[k].windows@[i] == full;
            assert(i != pos);
            let j = if i < pos { i } else { i - 1 };
            assert(now[k].windows@[j] == full);
        } else {
            assert(now[k] == was[k]);
        }
    }
}

/// A window whose client takes its buffer away is unmapped, and waits to be mapped again;
/// one that never showed a buffer is not.
pub proof fn a_window_without_a_buffer_is_unmapped(
    before: Desktop,
    after: Desktop,
    window: WindowRef,
    root: u64,
    has_buffer: bool,
    recentered: Option<FloatingWindowData>,
    keyboard_root: Option<u64>,
    parent_root: Option<u64>,
    shown: Seq<u64>,
    steps: Seq<Step>,
    w: int,
    i: int,
)
    requires
        window_committed(
            before,
            after,
            window,
            root,
            true,
            has_buffer,
            recentered,
            keyboard_root,
            parent_root,
            shown,
            steps,
        ),
        windows_are_unique(before.workspaces@),
        0 <= w < before.workspaces@.len(),
        0 <= i < before.workspaces@[w].windows@.len(),
        before.workspaces@[w].windows@[i] == window,
        window.root == Some(root),
    ensures
        ({
            let showed = before.books.mapped_with_buffer@.dom().contains(root);
            &&& !has_buffer && showed ==> after.books.pending_windows@.contains(window)
                && !after.books.mapped_with_buffer@.dom().contains(root)
                && after.workspaces@[w].windows@.len() == before.workspaces@[w].windows@.len() - 1
                && !after.floating().dom().contains(root)
            &&& has_buffer || !showed ==> after.workspaces == before.workspaces
            &&& has_buffer ==> after.books.mapped_with_buffer@.dom().contains(root)
            &&& has_buffer && recentered is Some
                && before.books.pending_float_centers@.dom().contains(root)
                ==> after.floating().dom().contains(root) && after.floating()[root]
                == recentered->0 && steps.contains(Step::Relayout)
            &&& has_buffer && recentered is None ==> after.floating() == before.floating()
            &&& has_buffer ==> !after.books.pending_float_centers@.dom().contains(root)
            &&& steps.contains(Step::Render)
        }),
{
    let showed = before.books.mapped_with_buffer@.dom().contains(root);
    assert(steps.len() > 0 && steps[steps.len() - 1] == Step::Render);
    if !has_buffer && showed {
        crate::state::tiling::lemma_workspace_with_root(before.workspaces@, root);
        crate::state::tiling::lemma_index_with_root(before.workspaces@[w].windows@, root);
        let f = workspace_with_root(before.workspaces@, root)->0;
        crate::state::tiling::lemma_index_with_root(before.workspaces@[f].windows@, root);
        let k = index_with_root(before.workspaces@[f].windows@, root)->0;
        assert(before.workspaces@[f].windows@[k].root == Some(root));
        assert(before.workspaces@[w].windows@[i].root == Some(root));
        assert(f == w && k == i);
        let pending = before.books.pending_windows@;
        if !pending.contains(window) {
            assert(pending.push(window)[pending.len() as int] == window);
        }
    } else if before.books.pending_float_centers@.dom().contains(root) && recentered is Some {
        assert(steps[0] == Step::Relayout);
    }
}

} // verus!
