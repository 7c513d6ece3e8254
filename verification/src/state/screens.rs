//! Outputs that come, go and change, and what the windows on them do.
use crate::state::desktop::{exit_fullscreen_steps, with_fullscreen, Desktop, Step};
use crate::state::lifecycle::{remembered_focus, remembered_root};
use crate::state::output::{index_of_output, lemma_index_of_output, remapped};
use crate::types::WindowRef;
use vstd::prelude::*;

verus! {

/// All windows are taken out of the scene.
pub open spec fn hide_all(windows: Seq<WindowRef>) -> Seq<Step> {
    windows.map_values(|w: WindowRef| Step::Hide { window: w.id })
}

/// The steps that follow a change of the outputs.
pub open spec fn repack_steps() -> Seq<Step> {
    seq![Step::RepackOutputs, Step::ReclampFloating, Step::Relayout]
}

fn push_repack_steps(steps: &mut Vec<Step>)
    ensures
        final(steps)@ == old(steps)@ + repack_steps(),
{
    let ghost before = steps@;
    steps.push(Step::RepackOutputs);
    steps.push(Step::ReclampFloating);
    steps.push(Step::Relayout);
    proof {
        assert(steps@ =~= before + repack_steps());
    }
}

/// An output changed its mode or its scale: the outputs are put side by side
/// again, floating windows are pulled back and every workspace is laid out.
pub fn handle_output_geometry_changed() -> (r: Vec<Step>)
    ensures
        r@ == repack_steps().push(Step::Render),
{
    let mut steps: Vec<Step> = Vec::new();
    push_repack_steps(&mut steps);
    steps.push(Step::Render);
    proof {
        assert(steps@ =~= repack_steps().push(Step::Render));
    }
    steps
}

/// What becomes of the desktop when an output is gone, and the steps for it.
pub open spec fn output_removed(
    before: Desktop,
    after: Desktop,
    output: u64,
    r: Seq<Step>,
) -> bool {
    &&& after.workspaces == before.workspaces
    &&& after.grabs == before.grabs
    &&& after.books == before.books
    &&& match index_of_output(before.outputs.outputs@, output) {
        None => {
            &&& r.len() == 0
            &&& after.outputs.outputs@ == before.outputs.outputs@
            &&& after.outputs.homes@ == before.outputs.homes@
            &&& after.outputs.focused_output == before.outputs.focused_output
        },
        Some(i) => {
            let shown = before.outputs.outputs@[i].active_workspace;
            let hides = hide_all(before.workspaces@[shown as int].windows@);
            let focus = Step::Focus { root: remembered_root(after.here()) };
            &&& after.outputs.outputs@ == before.outputs.outputs@.remove(i)
            &&& after.outputs.homes@ == before.outputs.homes@.map_values(
                |home: usize| remapped(home, i as usize),
            )
            &&& after.outputs.focused_output == remapped(
                before.outputs.focused_output,
                i as usize,
            )
            &&& r == if before.outputs.outputs@.len() == 1 {
                hides.push(Step::CancelRender)
            } else {
                hides + repack_steps() + seq![focus, Step::Render]
            }
        },
    }
}

impl Desktop {
    /// An output is gone. The windows that it showed are taken out of the scene,
    /// its workspaces move to the first output that is left, and that gets the
    /// keyboard. With none left everything is kept for the next one, and no frame
    /// is due.
    pub fn remove_output(&mut self, output: u64) -> (r: Vec<Step>)
        requires
            old(self).wf(),
        ensures
            final(self).wf(),
            output_removed(*old(self), *final(self), output, r@),
    {
        let mut steps: Vec<Step> = Vec::new();
        let removed = match self.outputs.remove_output(output) {
            Some(removed) => removed,
            None => {
                return steps;
            },
        };
        let shown: usize = removed.visible_workspace;
        proof {
            lemma_index_of_output(old(self).outputs.outputs@, output);
        }
        let windows = &self.workspaces[shown].windows;
        let ghost hides = hide_all(windows@);
        let mut i: usize = 0;
        while i < windows.len()
            invariant
                i <= windows.len(),
                hides == hide_all(windows@),
                steps@ =~= hides.subrange(0, i as int),
            decreases windows.len() - i,
        {
            steps.push(Step::Hide { window: windows[i].id });
            i = i + 1;
        }
        proof {
            assert(hides.subrange(0, i as int) =~= hides);
        }
        if removed.headless {
            steps.push(Step::CancelRender);
            return steps;
        }
        push_repack_steps(&mut steps);
        let active: usize = self.outputs.active_workspace();
        let focus = Step::Focus { root: remembered_focus(&self.workspaces[active]) };
        steps.push(focus);
        steps.push(Step::Render);
        proof {
            assert(steps@ =~= hides + repack_steps() + seq![focus, Step::Render]);
        }
        steps
    }

    /// End the filling of the active workspace's screen, where a window fills it.
    pub fn restore_fullscreen(&mut self, shown: &Vec<u64>) -> (r: Vec<Step>)
        requires
            old(self).wf(),
        ensures
            final(self).wf(),
            final(self).outputs == old(self).outputs,
            final(self).grabs == old(self).grabs,
            final(self).books == old(self).books,
            with_fullscreen(
                final(self).workspaces@,
                old(self).workspaces@,
                old(self).active(),
                None,
            ),
            r@ == match old(self).here().fullscreen {
                Some(window) => exit_fullscreen_steps(
                    window,
                    old(self).here().windows@,
                    old(self).floating(),
                    shown@,
                    true,
                ),
                None => Seq::empty(),
            },
    {
        let mut steps: Vec<Step> = Vec::new();
        let _ = self.exit_fullscreen(true, shown, &mut steps);
        proof {
            let here = old(self).here();
            if here.fullscreen is Some {
                assert(steps@ =~= exit_fullscreen_steps(
                    here.fullscreen->0,
                    here.windows@,
                    old(self).floating(),
                    shown@,
                    true,
                ));
            }
        }
        steps
    }
}

} // verus!
