//! Moving about: between workspaces and outputs, and into and out of the full
//! screen.
use crate::config::FocusDirection;
use crate::geometry::Rect;
use crate::state::desktop::{
    exit_fullscreen_steps, push_show_fullscreen, push_unmap_others, show_fullscreen_steps,
    unmap_others, with_fullscreen, Desktop, Step,
};
use crate::state::focus::{is_nearest, lemma_candidates_among};
use crate::state::lifecycle::{
    fills_screen_of, full_screens_at_home, remembered_focus, remembered_root, windows_are_unique,
    without_window,
};
use crate::state::output::OutputCtx;
use crate::state::tiling::{
    fills_a_screen, focused_tiled_window_root, index_with_root, is_root_fullscreen,
    lemma_index_with_root, split_target, window_index_for_root, workspace_idx_for_root,
    workspace_with_root, Workspace,
};
use crate::state::workspace::{switch_plan, WorkspaceSwitch};
use crate::surface_map::SurfaceMap;
use crate::types::{FloatingWindowData, WindowRef};
use vstd::prelude::*;

verus! {

/// The windows of a workspace that is left are taken out of the scene, but for
/// the sticky ones.
pub open spec fn hide_unless_sticky(windows: Seq<WindowRef>, sticky: Map<u64, ()>) -> Seq<Step>
    decreases windows.len(),
{
    if windows.len() == 0 {
        Seq::empty()
    } else {
        let rest = hide_unless_sticky(windows.drop_last(), sticky);
        let w = windows.last();
        if w.root is Some && sticky.dom().contains(w.root->0) {
            rest
        } else {
            rest.push(Step::Hide { window: w.id })
        }
    }
}

fn push_hide_unless_sticky(
    steps: &mut Vec<Step>,
    windows: &Vec<WindowRef>,
    sticky: &SurfaceMap<()>,
)
    requires
        sticky.wf(),
    ensures
        final(steps)@ == old(steps)@ + hide_unless_sticky(windows@, sticky@),
{
    let ghost before = steps@;
    let mut i: usize = 0;
    proof {
        assert(windows@.subrange(0, 0) =~= Seq::<WindowRef>::empty());
        assert(before + Seq::<Step>::empty() =~= before);
    }
    while i < windows.len()
        invariant
            i <= windows.len(),
            sticky.wf(),
            steps@ == before + hide_unless_sticky(windows@.subrange(0, i as int), sticky@),
        decreases windows.len() - i,
    {
        let ghost done = hide_unless_sticky(windows@.subrange(0, i as int), sticky@);
        proof {
            let next = windows@.subrange(0, i + 1);
            assert(next.drop_last() =~= windows@.subrange(0, i as int));
            assert(next.last() == windows@[i as int]);
        }
        let is_sticky = match windows[i].root {
            Some(root) => sticky.contains(root),
            None => false,
        };
        if !is_sticky {
            let step = Step::Hide { window: windows[i].id };
            steps.push(step);
            proof {
                assert((before + done).push(step) =~= before + done.push(step));
            }
        }
        i = i + 1;
    }
    proof {
        assert(windows@.subrange(0, i as int) =~= windows@);
    }
}

/// The window that gets the keyboard when a workspace is entered: the one that
/// fills its screen, else the one it remembers.
pub open spec fn entry_focus(workspace: Workspace<WindowRef>) -> Option<u64> {
    match workspace.fullscreen {
        Some(window) => window.root,
        None => remembered_root(workspace),
    }
}

/// The steps of a workspace switch on the focused output, from `leaving` to
/// `entering`.
pub open spec fn enter_steps(
    leaving: Workspace<WindowRef>,
    entering: Workspace<WindowRef>,
    sticky: Map<u64, ()>,
    output_geo: Option<Rect>,
) -> Seq<Step> {
    let full = match entering.fullscreen {
        Some(window) => show_fullscreen_steps(window, entering.windows@, output_geo),
        None => Seq::empty(),
    };
    hide_unless_sticky(leaving.windows@, sticky) + seq![
        Step::PublishWorkspaces,
        Step::Render,
        Step::Relayout,
        Step::RaiseSticky,
    ] + full + seq![Step::Focus { root: entry_focus(entering) }]
}

/// The steps that move a window from workspace `from` to `to`.
pub open spec fn move_steps(
    window: WindowRef,
    from: usize,
    to: usize,
    may_tile: bool,
    split: Option<u64>,
    focus: Option<u64>,
) -> Seq<Step> {
    let untile = if window.root is Some {
        seq![Step::RemoveTile { workspace: from, root: window.root->0 }]
    } else {
        Seq::empty()
    };
    let tile = if may_tile && window.root is Some {
        seq![Step::InsertTile { workspace: to, root: window.root->0, split }]
    } else {
        Seq::empty()
    };
    seq![Step::Hide { window: window.id }] + untile + tile + seq![
        Step::PublishWorkspaces,
        Step::Relayout,
        Step::Focus { root: focus },
    ]
}

fn push_move_steps(
    steps: &mut Vec<Step>,
    window: WindowRef,
    from: usize,
    to: usize,
    may_tile: bool,
    split: Option<u64>,
    focus: Option<u64>,
)
    ensures
        final(steps)@ == old(steps)@ + move_steps(window, from, to, may_tile, split, focus),
{
    let ghost before = steps@;
    steps.push(Step::Hide { window: window.id });
    if let Some(root) = window.root {
        steps.push(Step::RemoveTile { workspace: from, root });
        if may_tile {
            steps.push(Step::InsertTile { workspace: to, root, split });
        }
    }
    steps.push(Step::PublishWorkspaces);
    steps.push(Step::Relayout);
    steps.push(Step::Focus { root: focus });
    proof {
        assert(steps@ =~= before + move_steps(window, from, to, may_tile, split, focus));
    }
}

/// Where focus is in the active workspace: on the window that holds the
/// keyboard, else on the one that the workspace remembers.
pub open spec fn focused_here(
    workspace: Workspace<WindowRef>,
    keyboard_root: Option<u64>,
) -> Option<int> {
    if keyboard_root is Some && index_with_root(workspace.windows@, keyboard_root->0) is Some {
        index_with_root(workspace.windows@, keyboard_root->0)
    } else {
        match workspace.focused_idx {
            Some(idx) => Some(idx as int),
            None => None,
        }
    }
}

/// Whether the workspaces `after` are those of `before` with the focused window
/// moved to workspace `target`, and `steps` are the ones that this takes. What
/// fills the screen of the active workspace stops to do so first; nothing
/// changes where there is no such workspace or it is the active one.
pub open spec fn moved_to_workspace(
    before: Desktop,
    after: Seq<Workspace<WindowRef>>,
    target: usize,
    keyboard_root: Option<u64>,
    shown: Seq<u64>,
    steps: Seq<Step>,
) -> bool {
    let workspaces = before.workspaces@;
    let active = before.active();
    let here = workspaces[active];
    let room = make_room_steps(here, true, before.floating(), shown);
    let focused = focused_here(here, keyboard_root);
    if target >= workspaces.len() || target == active {
        steps.len() == 0 && after == workspaces
    } else if focused is None || focused->0 >= here.windows@.len() {
        steps == room && with_fullscreen(after, workspaces, active, None)
    } else {
        let t = target as int;
        let window = here.windows@[focused->0];
        let floats = window.root is Some && before.floating().dom().contains(window.root->0);
        let full = window.root is Some && fills_a_screen(after, window.root->0);
        let split = split_target(after.update(t, workspaces[t]), before.floating(), t, None);
        &&& after.len() == workspaces.len()
        &&& without_window(after[active], here, focused->0, true)
        &&& after[t].windows@ == workspaces[t].windows@.push(window)
        &&& after[t].fullscreen == workspaces[t].fullscreen
        &&& after[t].focused_idx == workspaces[t].focused_idx
        &&& forall|k: int|
            0 <= k < workspaces.len() && k != active && k != t ==> #[trigger] after[k]
                == workspaces[k]
        &&& steps == room + move_steps(
            window,
            active as usize,
            target,
            !floats && !full,
            split,
            remembered_root(after[active]),
        )
    }
}

/// The steps that end the filling of the screen of a workspace, where a window
/// fills it and the workspace is the active one.
pub open spec fn make_room_steps(
    workspace: Workspace<WindowRef>,
    is_active: bool,
    floating: Map<u64, FloatingWindowData>,
    shown: Seq<u64>,
) -> Seq<Step> {
    match workspace.fullscreen {
        Some(window) => if is_active {
            exit_fullscreen_steps(window, workspace.windows@, floating, shown, true)
        } else {
            Seq::empty()
        },
        None => Seq::empty(),
    }
}

/// The steps that let a window fill an output because its client asked for it.
pub open spec fn grant_fullscreen_steps(
    window: WindowRef,
    root: u64,
    windows: Seq<WindowRef>,
    geo: Rect,
) -> Seq<Step> {
    unmap_others(windows, window.id) + seq![
        Step::Configure { window: window.id, size: Some(geo.size), fullscreen: Some(true) },
        Step::Show { window: window.id, at: geo.loc, activate: true },
        Step::Focus { root: Some(root) },
        Step::Render,
    ]
}

/// Number of the workspace with this root, else `active`.
pub open spec fn workspace_or(
    workspaces: Seq<Workspace<WindowRef>>,
    root: u64,
    active: int,
) -> int {
    match workspace_with_root(workspaces, root) {
        Some(w) => w,
        None => active,
    }
}

/// The steps that focus another output, whose workspace is `workspace`.
pub open spec fn focus_output_steps(workspace: Workspace<WindowRef>) -> Seq<Step> {
    seq![
        Step::PublishWorkspaces,
        Step::Focus { root: remembered_root(workspace) },
        Step::Render,
    ]
}

/// Whether focus went to output `target`, where there is one, and `steps` are
/// the ones that this takes.
pub open spec fn focuses_output(
    before: Desktop,
    target: Option<usize>,
    focused_output: usize,
    steps: Seq<Step>,
) -> bool {
    let outputs = before.outputs.outputs@;
    let moves = target is Some && target->0 < outputs.len() && target->0
        != before.outputs.focused_output;
    &&& focused_output == if moves { target->0 } else { before.outputs.focused_output }
    &&& steps == if moves {
        focus_output_steps(before.workspaces@[outputs[target->0 as int].active_workspace as int])
    } else {
        Seq::empty()
    }
}

/// Whether the focused window went to what output `target` shows, and focus
/// with it, by the steps `moved` and `followed`.
pub open spec fn moves_to_output(
    before: Desktop,
    after: Desktop,
    target: Option<usize>,
    keyboard_root: Option<u64>,
    shown: Seq<u64>,
    moved: Seq<Step>,
    followed: Seq<Step>,
) -> bool {
    match target {
        None => after.workspaces == before.workspaces && after.outputs.focused_output
            == before.outputs.focused_output && moved.len() == 0 && followed.len() == 0,
        Some(out) => {
            let workspace = before.outputs.outputs@[out as int].active_workspace;
            &&& out < before.outputs.outputs@.len()
            &&& out != before.outputs.focused_output
            &&& moved_to_workspace(
                before,
                after.workspaces@,
                workspace,
                keyboard_root,
                shown,
                moved,
            )
            &&& after.outputs.focused_output == out
            &&& followed == focus_output_steps(after.workspaces@[workspace as int])
        },
    }
}

/// Whether `after` is `before` with workspace `idx` switched to, and `steps` are to
/// be taken. `output_geo` is the geometry of the focused output.
pub open spec fn workspace_switched(
    before: Desktop,
    after: Desktop,
    idx: usize,
    output_geo: Option<Rect>,
    steps: Seq<Step>,
) -> bool {
    let focused = before.outputs.focused_output;
    &&& after.workspaces == before.workspaces
    &&& after.grabs == before.grabs
    &&& after.books == before.books
    &&& match switch_plan(
        idx,
        before.outputs.homes@.len() as usize,
        focused,
        before.outputs.shown(),
    ) {
        WorkspaceSwitch::NoOp => {
            &&& steps.len() == 0
            &&& after.outputs.outputs@ == before.outputs.outputs@
            &&& after.outputs.homes@ == before.outputs.homes@
            &&& after.outputs.focused_output == focused
        },
        WorkspaceSwitch::FocusOutput(out) => {
            &&& after.outputs.outputs@ == before.outputs.outputs@
            &&& after.outputs.homes@ == before.outputs.homes@
            &&& after.outputs.focused_output == out
            &&& steps == seq![
                Step::PublishWorkspaces,
                Step::Focus { root: remembered_root(after.here()) },
                Step::Render,
            ]
        },
        WorkspaceSwitch::ShowHere => {
            &&& after.outputs.focused_output == focused
            &&& after.outputs.homes@ == before.outputs.homes@.update(idx as int, focused)
            &&& after.outputs.outputs@ == if before.outputs.outputs@.len() > 0 {
                before.outputs.outputs@.update(
                    focused as int,
                    OutputCtx {
                        active_workspace: idx,
                        ..before.outputs.outputs@[focused as int]
                    },
                )
            } else {
                before.outputs.outputs@
            }
            &&& steps == enter_steps(
                before.here(),
                after.here(),
                before.books.sticky@,
                output_geo,
            )
        },
    }
}

/// A workspace that is switched to is the active one, where there is an output to
/// show it on.
pub proof fn switching_shows_the_workspace(
    before: Desktop,
    after: Desktop,
    idx: usize,
    output_geo: Option<Rect>,
    steps: Seq<Step>,
)
    requires
        before.wf(),
        idx < before.workspaces@.len(),
        before.outputs.outputs@.len() > 0,
        workspace_switched(before, after, idx, output_geo, steps),
    ensures
        after.active() == idx,
{
    let shown = before.outputs.shown();
    let outputs: usize = before.outputs.outputs.len();
    let homes: usize = before.outputs.homes.len();
    assert(homes == before.workspaces@.len());
    if shown.contains(idx) {
        shown.index_of_first_ensures(idx);
        let at = shown.index_of_first(idx)->0;
        assert(shown[at] == before.outputs.outputs@[at].active_workspace);
        assert(at < outputs);
    }
}

/// Whether `after` is `before` after a client asked that its window fill the screen, and
/// `steps` are to be taken.
pub open spec fn fullscreen_granted(
    before: Desktop,
    after: Desktop,
    root: u64,
    output_geo: Option<Rect>,
    shown: Seq<u64>,
    steps: Seq<Step>,
) -> bool {
    &&& after.outputs == before.outputs
    &&& after.grabs == before.grabs
    &&& after.books == before.books
    &&& {
        let known = before.books.window_lookup@.dom().contains(root);
        let window = before.books.window_lookup@[root];
        let w = workspace_or(before.workspaces@, root, before.active());
        let was = before.workspaces@[w];
        let room = make_room_steps(
            was,
            w == before.active(),
            before.floating(),
            shown,
        );
        if !known {
            &&& steps == seq![Step::Acknowledge]
            &&& after.workspaces == before.workspaces
        } else if was.fullscreen is Some && was.fullscreen->0.id == window.id {
            &&& steps.len() == 0
            &&& after.workspaces == before.workspaces
        } else {
            match output_geo {
                None => {
                    &&& steps == room.push(Step::Acknowledge)
                    &&& with_fullscreen(
                        after.workspaces@,
                        before.workspaces@,
                        w,
                        None,
                    )
                },
                Some(geo) => {
                    &&& steps == room + grant_fullscreen_steps(
                        window,
                        root,
                        was.windows@,
                        geo,
                    )
                    &&& with_fullscreen(
                        after.workspaces@,
                        before.workspaces@,
                        w,
                        Some(window),
                    )
                },
            }
        }
    }
}

/// Whether `after` is `before` after a client asked that its window no longer fill the
/// screen, and `steps` are to be taken.
pub open spec fn fullscreen_given_up(
    before: Desktop,
    after: Desktop,
    root: u64,
    shown: Seq<u64>,
    steps: Seq<Step>,
) -> bool {
    &&& after.outputs == before.outputs
    &&& after.grabs == before.grabs
    &&& after.books == before.books
    &&& fills_screen_of(before.here(), root) ==> {
        &&& steps == exit_fullscreen_steps(
            before.here().fullscreen->0,
            before.here().windows@,
            before.floating(),
            shown,
            true,
        )
        &&& with_fullscreen(
            after.workspaces@,
            before.workspaces@,
            before.active(),
            None,
        )
    }
    &&& !fills_screen_of(before.here(), root) ==> steps.len() == 0 && after.workspaces
    == before.workspaces
}

impl Desktop {
    /// A client asks that its window fill the screen. `output_geo` is the
    /// geometry of the output that it names, or else of the one that the window
    /// is on. A window that fills the screen already makes room.
    pub fn fullscreen_request(
        &mut self,
        root: u64,
        output_geo: Option<Rect>,
        shown: &Vec<u64>,
    ) -> (r: Vec<Step>)
        requires
            old(self).wf(),
        ensures
            final(self).wf(),
            fullscreen_granted(*old(self), *final(self), root, output_geo, shown@, r@),
    {
        let mut steps: Vec<Step> = Vec::new();
        let window = match self.books.window_lookup.get(root) {
            Some(window) => window,
            None => {
                steps.push(Step::Acknowledge);
                proof {
                    assert(steps@ =~= seq![Step::Acknowledge]);
                }
                return steps;
            },
        };
        let active: usize = self.outputs.active_workspace();
        let ws_idx: usize = match workspace_idx_for_root(&self.workspaces, root) {
            Some(ws_idx) => ws_idx,
            None => active,
        };
        let ghost before = self.workspaces@[ws_idx as int];
        if let Some(full) = self.workspaces[ws_idx].fullscreen {
            if full.id == window.id {
                return steps;
            }
            if ws_idx == active {
                let _ = self.exit_fullscreen(true, shown, &mut steps);
            } else {
                self.workspaces[ws_idx].fullscreen = None;
            }
        }
        let ghost room = steps@;
        proof {
            assert(room =~= make_room_steps(
                before,
                ws_idx == active,
                old(self).floating(),
                shown@,
            ));
            assert(self.workspaces@[ws_idx as int].windows@ == before.windows@);
        }
        match output_geo {
            None => {
                steps.push(Step::Acknowledge);
            },
            Some(geo) => {
                push_unmap_others(&mut steps, &self.workspaces[ws_idx].windows, window.id);
                steps.push(
                    Step::Configure {
                        window: window.id,
                        size: Some(geo.size),
                        fullscreen: Some(true),
                    },
                );
                steps.push(Step::Show { window: window.id, at: geo.loc, activate: true });
                self.workspaces[ws_idx].fullscreen = Some(window);
                steps.push(Step::Focus { root: Some(root) });
                steps.push(Step::Render);
                proof {
                    assert(steps@ =~= room + grant_fullscreen_steps(
                        window,
                        root,
                        before.windows@,
                        geo,
                    ));
                }
            },
        }
        steps
    }

    /// A client asks that its window no longer fill the screen.
    pub fn unfullscreen_request(&mut self, root: u64, shown: &Vec<u64>) -> (r: Vec<Step>)
        requires
            old(self).wf(),
        ensures
            final(self).wf(),
            fullscreen_given_up(*old(self), *final(self), root, shown@, r@),
    {
        let mut steps: Vec<Step> = Vec::new();
        let current = match self.active_fullscreen() {
            Some(window) => match window.root {
                Some(full_root) => full_root == root,
                None => false,
            },
            None => false,
        };
        if current {
            let _ = self.exit_fullscreen(true, shown, &mut steps);
            proof {
                assert(steps@ =~= exit_fullscreen_steps(
                    old(self).here().fullscreen->0,
                    old(self).here().windows@,
                    old(self).floating(),
                    shown@,
                    true,
                ));
            }
        }
        steps
    }

    /// Focus another output: its workspace gets the keyboard.
    pub fn focus_output_index(&mut self, out: usize) -> (r: Vec<Step>)
        requires
            old(self).wf(),
        ensures
            final(self).wf(),
            final(self).workspaces == old(self).workspaces,
            final(self).grabs == old(self).grabs,
            final(self).books == old(self).books,
            final(self).outputs.outputs@ == old(self).outputs.outputs@,
            final(self).outputs.homes@ == old(self).outputs.homes@,
            focuses_output(*old(self), Some(out), final(self).outputs.focused_output, r@),
    {
        let mut steps: Vec<Step> = Vec::new();
        if self.outputs.focus_output_index(out) {
            let active: usize = self.outputs.active_workspace();
            steps.push(Step::PublishWorkspaces);
            steps.push(Step::Focus { root: remembered_focus(&self.workspaces[active]) });
            steps.push(Step::Render);
            proof {
                assert(steps@ =~= focus_output_steps(self.workspaces@[active as int]));
            }
        }
        steps
    }

    /// Switch to workspace `idx`. `output_geo` is the geometry of the focused
    /// output.
    pub fn switch_workspace(&mut self, idx: usize, output_geo: Option<Rect>) -> (r: Vec<Step>)
        requires
            old(self).wf(),
        ensures
            final(self).wf(),
            workspace_switched(*old(self), *final(self), idx, output_geo, r@),
    {
        let mut steps: Vec<Step> = Vec::new();
        let leaving: usize = self.outputs.active_workspace();
        match self.outputs.switch_workspace(idx) {
            WorkspaceSwitch::NoOp => {},
            WorkspaceSwitch::FocusOutput(_) => {
                let active: usize = self.outputs.active_workspace();
                steps.push(Step::PublishWorkspaces);
                let root = remembered_focus(&self.workspaces[active]);
                steps.push(Step::Focus { root });
                steps.push(Step::Render);
                proof {
                    assert(steps@ =~= seq![
                        Step::PublishWorkspaces,
                        Step::Focus { root },
                        Step::Render,
                    ]);
                }
            },
            WorkspaceSwitch::ShowHere => {
                push_hide_unless_sticky(
                    &mut steps,
                    &self.workspaces[leaving].windows,
                    &self.books.sticky,
                );
                steps.push(Step::PublishWorkspaces);
                steps.push(Step::Render);
                steps.push(Step::Relayout);
                steps.push(Step::RaiseSticky);
                let active: usize = self.outputs.active_workspace();
                let root = match self.workspaces[active].fullscreen {
                    Some(window) => {
                        push_show_fullscreen(
                            &mut steps,
                            window,
                            &self.workspaces[active].windows,
                            output_geo,
                        );
                        window.root
                    },
                    None => remembered_focus(&self.workspaces[active]),
                };
                steps.push(Step::Focus { root });
                proof {
                    assert(steps@ =~= enter_steps(
                        old(self).here(),
                        self.here(),
                        old(self).books.sticky@,
                        output_geo,
                    ));
                }
            },
        }
        steps
    }

    /// Move the focused window to another workspace. What fills the screen of
    /// the active one stops to do so first.
    pub fn move_to_workspace(
        &mut self,
        target: usize,
        keyboard_root: Option<u64>,
        shown: &Vec<u64>,
    ) -> (r: Vec<Step>)
        requires
            old(self).wf(),
        ensures
            final(self).wf(),
            final(self).outputs == old(self).outputs,
            final(self).grabs == old(self).grabs,
            final(self).books == old(self).books,
            moved_to_workspace(
                *old(self),
                final(self).workspaces@,
                target,
                keyboard_root,
                shown@,
                r@,
            ),
    {
        let mut steps: Vec<Step> = Vec::new();
        let active: usize = self.outputs.active_workspace();
        if target >= self.workspaces.len() || target == active {
            return steps;
        }
        let ghost before = self.here();
        let _ = self.exit_fullscreen(true, shown, &mut steps);
        let ghost exit = steps@;
        proof {
            assert(exit =~= make_room_steps(before, true, old(self).floating(), shown@));
            assert(self.here().windows@ == before.windows@);
        }
        let by_keyboard = match keyboard_root {
            Some(root) => window_index_for_root(&self.workspaces[active].windows, root),
            None => None,
        };
        let focused = match by_keyboard {
            Some(idx) => Some(idx),
            None => self.workspaces[active].focused_idx,
        };
        let idx: usize = match focused {
            Some(idx) => idx,
            None => {
                return steps;
            },
        };
        if idx >= self.workspaces[active].windows.len() {
            return steps;
        }
        let removed = self.workspaces[active].remove_window(idx);
        let window = match removed {
            Some(window) => window,
            None => {
                return steps;
            },
        };
        let split = focused_tiled_window_root(
            &self.workspaces,
            &self.grabs.floating,
            target,
            None,
        );
        let ghost without = self.workspaces@;
        self.workspaces[target].add_window(window);
        let may_tile = match window.root {
            Some(root) => !self.grabs.floating.contains(root) && !is_root_fullscreen(
                &self.workspaces,
                root,
            ),
            None => true,
        };
        let focus = remembered_focus(&self.workspaces[active]);
        push_move_steps(&mut steps, window, active, target, may_tile, split, focus);
        proof {
            assert(self.workspaces@.update(target as int, without[target as int]) =~= without);
        }
        steps
    }

    /// Focus the nearest output in a direction. `geometries` are those of the
    /// outputs, where they are known.
    pub fn focus_output_in_direction(
        &mut self,
        geometries: &Vec<Option<Rect>>,
        direction: FocusDirection,
    ) -> (r: Vec<Step>)
        requires
            old(self).wf(),
            geometries.len() == old(self).outputs.outputs@.len(),
        ensures
            final(self).wf(),
            final(self).workspaces == old(self).workspaces,
            final(self).grabs == old(self).grabs,
            final(self).books == old(self).books,
            final(self).outputs.outputs@ == old(self).outputs.outputs@,
            final(self).outputs.homes@ == old(self).outputs.homes@,
            exists|target: Option<usize>| #[trigger]
                is_nearest(
                    Some(old(self).outputs.focused_output),
                    geometries@,
                    direction,
                    target,
                ) && focuses_output(*old(self), target, final(self).outputs.focused_output, r@),
    {
        match self.outputs.output_in_direction(geometries, direction) {
            None => {
                let steps: Vec<Step> = Vec::new();
                proof {
                    assert(focuses_output(
                        *old(self),
                        None,
                        self.outputs.focused_output,
                        steps@,
                    ));
                }
                steps
            },
            Some(target) => {
                let steps = self.focus_output_index(target);
                proof {
                    assert(focuses_output(
                        *old(self),
                        Some(target),
                        self.outputs.focused_output,
                        steps@,
                    ));
                }
                steps
            },
        }
    }

    /// Move the focused window to the workspace that the nearest output in a
    /// direction shows, and follow it there.
    pub fn move_window_to_output(
        &mut self,
        geometries: &Vec<Option<Rect>>,
        direction: FocusDirection,
        keyboard_root: Option<u64>,
        shown: &Vec<u64>,
    ) -> (r: (Vec<Step>, Vec<Step>))
        requires
            old(self).wf(),
            geometries.len() == old(self).outputs.outputs@.len(),
        ensures
            final(self).wf(),
            final(self).grabs == old(self).grabs,
            final(self).books == old(self).books,
            final(self).outputs.outputs@ == old(self).outputs.outputs@,
            final(self).outputs.homes@ == old(self).outputs.homes@,
            exists|target: Option<usize>| #[trigger]
                is_nearest(
                    Some(old(self).outputs.focused_output),
                    geometries@,
                    direction,
                    target,
                ) && moves_to_output(
                    *old(self),
                    *final(self),
                    target,
                    keyboard_root,
                    shown@,
                    r.0@,
                    r.1@,
                ),
    {
        match self.outputs.output_in_direction(geometries, direction) {
            None => {
                let steps: (Vec<Step>, Vec<Step>) = (Vec::new(), Vec::new());
                proof {
                    assert(moves_to_output(
                        *old(self),
                        *self,
                        None,
                        keyboard_root,
                        shown@,
                        (steps.0)@,
                        (steps.1)@,
                    ));
                }
                steps
            },
            Some(target) => {
                proof {
                    lemma_candidates_among(geometries@, self.outputs.focused_output);
                }
                let workspace: usize = self.outputs.outputs[target].active_workspace;
                let moved = self.move_to_workspace(workspace, keyboard_root, shown);
                let followed = self.focus_output_index(target);
                proof {
                    assert(moves_to_output(
                        *old(self),
                        *self,
                        Some(target),
                        keyboard_root,
                        shown@,
                        moved@,
                        followed@,
                    ));
                }
                (moved, followed)
            },
        }
    }
}

/// Moving a window leaves every window once: it is no longer where it was.
pub proof fn moving_keeps_windows_unique(
    before: Desktop,
    after: Seq<Workspace<WindowRef>>,
    target: usize,
    keyboard_root: Option<u64>,
    shown: Seq<u64>,
    steps: Seq<Step>,
)
    requires
        before.wf(),
        windows_are_unique(before.workspaces@),
        moved_to_workspace(before, after, target, keyboard_root, shown, steps),
    ensures
        windows_are_unique(after),
{
    let was = before.workspaces@;
    let active = before.active();
    let here = was[active];
    let focused = focused_here(here, keyboard_root);
    assert(active < before.workspaces.len());
    if keyboard_root is Some {
        lemma_index_with_root(here.windows@, keyboard_root->0);
    }
    let moves = target < was.len() && target != active && focused is Some && focused->0
        < here.windows@.len();
    let t = target as int;
    let pos = focused->0;
    let last = was[t].windows@.len();
    assert forall|a: int, i: int, b: int, j: int|
        0 <= a < after.len() && 0 <= i < after[a].windows@.len() && 0 <= b < after.len() && 0 <= j
            < after[b].windows@.len() && (a != b || i != j) && (
        #[trigger] after[a].windows@[i]).root is Some implies after[a].windows@[i].root != (
    #[trigger] after[b].windows@[j]).root by {
        if moves {
            let (a0, i0) = if a == t && i == last {
                (active, pos)
            } else if a == active && i >= pos {
                (a, i + 1)
            } else {
                (a, i)
            };
            let (b0, j0) = if b == t && j == last {
                (active, pos)
            } else if b == active && j >= pos {
                (b, j + 1)
            } else {
                (b, j)
            };
            assert(was[a0].windows@[i0] == after[a].windows@[i]);
            assert(was[b0].windows@[j0] == after[b].windows@[j]);
        } else {
            assert(was[a].windows@[i] == after[a].windows@[i]);
            assert(was[b].windows@[j] == after[b].windows@[j]);
        }
    }
}

/// No workspace keeps a window that was moved away in its full screen.
pub proof fn moving_keeps_full_screens_at_home(
    before: Desktop,
    after: Seq<Workspace<WindowRef>>,
    target: usize,
    keyboard_root: Option<u64>,
    shown: Seq<u64>,
    steps: Seq<Step>,
)
    requires
        before.wf(),
        full_screens_at_home(before.workspaces@),
        moved_to_workspace(before, after, target, keyboard_root, shown, steps),
    ensures
        full_screens_at_home(after),
{
    let was = before.workspaces@;
    let active = before.active();
    let t = target as int;
    assert(active < before.workspaces.len());
    assert forall|k: int| 0 <= k < after.len() && (
    #[trigger] after[k]).fullscreen is Some implies after[k].windows@.contains(
        after[k].fullscreen->0,
    ) by {
        let full = after[k].fullscreen->0;
        assert(was[k].fullscreen == Some(full));
        let i = choose|i: int| 0 <= i < was[k].windows@.len() && was[k].windows@[i] == full;
        assert(after[k].windows@[i] == full);
    }
}

} // verus!
