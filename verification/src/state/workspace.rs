//! Workspaces: what a switch does, and where a moved window goes.
use crate::state::output::{OutputCtx, Outputs};
use vstd::prelude::*;

verus! {

/// What a toggle of the floating state does.
#[derive(Debug, Clone, Copy, PartialEq, Eq, Structural)]
pub enum FloatToggleTransition {
    SinkToTiling,
    KeepFloating,
    MakeFloating,
}

pub fn float_toggle_transition(is_fullscreen: bool, is_floating: bool) -> (r: FloatToggleTransition)
    ensures
        r == if !is_floating {
            FloatToggleTransition::MakeFloating
        } else if is_fullscreen {
            FloatToggleTransition::KeepFloating
        } else {
            FloatToggleTransition::SinkToTiling
        },
{
    if is_fullscreen {
        if is_floating {
            FloatToggleTransition::KeepFloating
        } else {
            FloatToggleTransition::MakeFloating
        }
    } else if is_floating {
        FloatToggleTransition::SinkToTiling
    } else {
        FloatToggleTransition::MakeFloating
    }
}

/// What a request for a workspace does.
#[derive(Debug, Clone, Copy, PartialEq, Eq, Structural)]
pub enum WorkspaceSwitch {
    /// The focused output shows it already, or there is no such workspace.
    NoOp,
    /// It is visible on another output: focus that one.
    FocusOutput(usize),
    /// It is hidden: show it on the focused output.
    ShowHere,
}


pub open spec fn switch_plan(
    target: usize,
    num_workspaces: usize,
    focused_output: usize,
    active: Seq<usize>,
) -> WorkspaceSwitch {
    if target >= num_workspaces {
        WorkspaceSwitch::NoOp
    } else if !active.contains(target) {
        WorkspaceSwitch::ShowHere
    } else if active.index_of_first(target)->0 == focused_output {
        WorkspaceSwitch::NoOp
    } else {
        WorkspaceSwitch::FocusOutput(active.index_of_first(target)->0 as usize)
    }
}

/// Resolve a request for workspace `target` against the active workspace of
/// every output. One that is shown on another output is not moved: that output
/// is focused instead.
pub fn plan_workspace_switch(
    target: usize,
    num_workspaces: usize,
    focused_output: usize,
    output_active_workspaces: &[usize],
) -> (r: WorkspaceSwitch)
    ensures
        r == switch_plan(target, num_workspaces, focused_output, output_active_workspaces@),
{
    if target >= num_workspaces {
        return WorkspaceSwitch::NoOp;
    }
    let ghost active = output_active_workspaces@;
    let mut i: usize = 0;
    while i < output_active_workspaces.len()
        invariant
            i <= output_active_workspaces.len(),
            active == output_active_workspaces@,
            forall|k: int| 0 <= k < i ==> active[k] != target,
            target < num_workspaces,
        decreases output_active_workspaces.len() - i,
    {
        if output_active_workspaces[i] == target {
            proof {
                assert(active.contains(target));
                active.index_of_first_ensures(target);
                assert(active.index_of_first(target)->0 == i);
            }
            return if i == focused_output {
                WorkspaceSwitch::NoOp
            } else {
                WorkspaceSwitch::FocusOutput(i)
            };
        }
        i = i + 1;
    }
    proof {
        assert(!active.contains(target));
    }
    WorkspaceSwitch::ShowHere
}

impl Outputs {
    /// Switch to workspace `idx`: focus the output that shows it, or show it on
    /// the focused output.
    pub fn switch_workspace(&mut self, idx: usize) -> (r: WorkspaceSwitch)
        requires
            old(self).wf(),
        ensures
            final(self).wf(),
            r == switch_plan(
                idx,
                old(self).homes@.len() as usize,
                old(self).focused_output,
                old(self).shown(),
            ),
            match r {
                WorkspaceSwitch::NoOp => {
                    &&& final(self).outputs@ == old(self).outputs@
                    &&& final(self).homes@ == old(self).homes@
                    &&& final(self).focused_output == old(self).focused_output
                },
                WorkspaceSwitch::FocusOutput(out) => {
                    &&& out < old(self).outputs@.len()
                    &&& final(self).outputs@ == old(self).outputs@
                    &&& final(self).homes@ == old(self).homes@
                    &&& final(self).focused_output == out
                },
                WorkspaceSwitch::ShowHere => {
                    &&& final(self).outputs@ == if old(self).outputs@.len() > 0 {
                        let focused = old(self).focused_output as int;
                        old(self).outputs@.update(
                            focused,
                            OutputCtx { active_workspace: idx, ..old(self).outputs@[focused] },
                        )
                    } else {
                        old(self).outputs@
                    }
                    &&& final(self).homes@ == old(self).homes@.update(
                        idx as int,
                        old(self).focused_output,
                    )
                    &&& final(self).focused_output == old(self).focused_output
                },
            },
    {
        let shown = self.shown_workspaces();
        let plan = plan_workspace_switch(
            idx,
            self.homes.len(),
            self.focused_output,
            shown.as_slice(),
        );
        match plan {
            WorkspaceSwitch::NoOp => {},
            WorkspaceSwitch::FocusOutput(out) => {
                proof {
                    shown@.index_of_first_ensures(idx);
                }
                let _ = self.focus_output_index(out);
            },
            WorkspaceSwitch::ShowHere => {
                self.set_active_workspace(idx);
            },
        }
        plan
    }

    /// Focus another output. False where there is no such output or it is
    /// focused already.
    pub fn focus_output_index(&mut self, out: usize) -> (r: bool)
        requires
            old(self).wf(),
        ensures
            final(self).wf(),
            final(self).outputs@ == old(self).outputs@,
            final(self).homes@ == old(self).homes@,
            r == (out < old(self).outputs@.len() && out != old(self).focused_output),
            final(self).focused_output == if r {
                out
            } else {
                old(self).focused_output
            },
    {
        if out >= self.outputs.len() || out == self.focused_output {
            return false;
        }
        self.focused_output = out;
        true
    }
}

/// A switch to an existing workspace makes it the active one, on whichever
/// output it ends up; a switch to any other number changes nothing.
pub proof fn a_switch_shows_the_workspace(before: Outputs, after: Outputs, idx: usize)
    requires
        before.wf(),
        after.wf(),
        before.outputs@.len() > 0,
        idx < before.homes@.len(),
        after.homes@.len() == before.homes@.len(),
        ({
            let plan = switch_plan(
                idx,
                before.homes.len(),
                before.focused_output,
                before.shown(),
            );
            match plan {
                WorkspaceSwitch::NoOp => after.outputs@ == before.outputs@ && after.focused_output
                    == before.focused_output,
                WorkspaceSwitch::FocusOutput(out) => after.outputs@ == before.outputs@
                    && after.focused_output == out,
                WorkspaceSwitch::ShowHere => {
                    let focused = before.focused_output as int;
                    &&& after.focused_output == before.focused_output
                    &&& after.outputs@ == before.outputs@.update(
                        focused,
                        OutputCtx { active_workspace: idx, ..before.outputs@[focused] },
                    )
                },
            }
        }),
    ensures
        after.active() == idx,
{
    let shown = before.shown();
    if shown.contains(idx) {
        shown.index_of_first_ensures(idx);
        let i = shown.index_of_first(idx)->0;
        assert(shown[i] == before.outputs@[i].active_workspace);
        assert(i < before.outputs.len());
    }
}

/// A workspace that no output shows is shown here; one that another output shows is gone
/// to there; one that is shown here already, or does not exist, changes nothing.
pub proof fn workspaces_are_gone_to_where_they_are(
    target: usize,
    count: usize,
    focused: usize,
    active: Seq<usize>,
    out: int,
)
    requires
        active.no_duplicates(),
        active.len() <= usize::MAX,
        0 <= out < active.len(),
    ensures
        target >= count ==> switch_plan(target, count, focused, active) == WorkspaceSwitch::NoOp,
        target < count && active[out] == target && out != focused ==> switch_plan(
            target,
            count,
            focused,
            active,
        ) == WorkspaceSwitch::FocusOutput(out as usize),
        target < count && active[out] == target && out == focused ==> switch_plan(
            target,
            count,
            focused,
            active,
        ) == WorkspaceSwitch::NoOp,
        target < count && !active.contains(target) ==> switch_plan(target, count, focused, active)
            == WorkspaceSwitch::ShowHere,
{
    if active[out] == target {
        assert(active.contains(target));
        active.index_of_first_ensures(target);
        let i = active.index_of_first(target)->0;
        assert(active[i] == target);
        assert(i == out);
    }
}

} // verus!
