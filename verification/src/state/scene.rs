//! The scene and the keyboard, as the listed steps leave them: which windows are
//! shown, and who has the keyboard.
use crate::geometry::{Point, Rect, Size};
use crate::input::grab::{GrabMotion, LockCancel, ResizeCancel, ResizeFinish};
use crate::overview::OverviewItem;
use crate::state::desktop::{
    exit_fullscreen_steps, float_steps, float_toggled, fullscreen_toggled, remap_hidden,
    show_fullscreen_steps, sticky_toggled, unmap_others, Desktop, Step,
};
use crate::state::interaction::{cancel_steps_of, motion_steps_of, resize_end_steps, start_steps};
use crate::state::lifecycle::{
    dialog_adopted, remembered_root, toplevel_removed, window_mapped, window_with_root, MapFacts,
};
use crate::state::moves::{
    focus_output_steps, focuses_output, fullscreen_given_up, fullscreen_granted,
    hide_unless_sticky, make_room_steps, moved_to_workspace, moves_to_output, workspace_switched,
};
use crate::state::refocus::{
    cycle_target, focus_cycled, focus_steps, focus_steps_at, item_activated,
};
use crate::state::relayout::remap_floating;
use crate::state::screens::{hide_all, output_removed, repack_steps};
use crate::state::output::index_of_output;
use crate::state::tiling::{
    index_with_root, lemma_index_with_root, split_target, workspace_with_root, Workspace,
};
use crate::types::{ActiveGrab, FloatingWindowData, WindowRef};
use vstd::prelude::*;

verus! {

/// The windows that are shown after a step.
pub open spec fn shown_after_step(shown: Set<u64>, step: Step) -> Set<u64> {
    match step {
        Step::Show { window, at: _, activate: _ } => shown.insert(window),
        Step::Hide { window } => shown.remove(window),
        _ => shown,
    }
}

/// The windows that are shown after all the steps.
pub open spec fn shown_after(shown: Set<u64>, steps: Seq<Step>) -> Set<u64>
    decreases steps.len(),
{
    if steps.len() == 0 {
        shown
    } else {
        shown_after_step(shown_after(shown, steps.drop_last()), steps.last())
    }
}

/// Who has the keyboard after a step.
pub open spec fn focus_after_step(focus: Option<u64>, step: Step) -> Option<u64> {
    match step {
        Step::Focus { root } => root,
        Step::FocusAfterDispatch { root } => Some(root),
        _ => focus,
    }
}

/// Who has the keyboard after all the steps.
pub open spec fn focus_after(focus: Option<u64>, steps: Seq<Step>) -> Option<u64>
    decreases steps.len(),
{
    if steps.len() == 0 {
        focus
    } else {
        focus_after_step(focus_after(focus, steps.drop_last()), steps.last())
    }
}

/// Where a window is after all the steps.
pub open spec fn place_after(window: u64, place: Option<Point>, steps: Seq<Step>) -> Option<Point>
    decreases steps.len(),
{
    if steps.len() == 0 {
        place
    } else {
        match steps.last() {
            Step::Show { window: id, at, activate: _ } if id == window => Some(at),
            _ => place_after(window, place, steps.drop_last()),
        }
    }
}

/// Whether a frame comes of the steps.
pub open spec fn is_drawn(steps: Seq<Step>) -> bool {
    steps.contains(Step::Render) || steps.contains(Step::Relayout)
}

proof fn lemma_concat(shown: Set<u64>, focus: Option<u64>, a: Seq<Step>, b: Seq<Step>)
    ensures
        shown_after(shown, a + b) == shown_after(shown_after(shown, a), b),
        focus_after(focus, a + b) == focus_after(focus_after(focus, a), b),
    decreases b.len(),
{
    if b.len() == 0 {
        assert(a + b =~= a);
    } else {
        assert((a + b).drop_last() =~= a + b.drop_last());
        assert((a + b).last() == b.last());
        lemma_concat(shown, focus, a, b.drop_last());
    }
}

proof fn lemma_push(shown: Set<u64>, focus: Option<u64>, a: Seq<Step>, step: Step)
    ensures
        shown_after(shown, a.push(step)) == shown_after_step(shown_after(shown, a), step),
        focus_after(focus, a.push(step)) == focus_after_step(focus_after(focus, a), step),
{
    assert(a.push(step).drop_last() =~= a);
}

/// Whether a step moves neither windows in or out of the scene nor the keyboard.
pub open spec fn is_quiet(step: Step) -> bool {
    !(step is Show) && !(step is Hide) && !(step is Focus) && !(step is FocusAfterDispatch)
}

proof fn lemma_quiet(shown: Set<u64>, focus: Option<u64>, steps: Seq<Step>)
    requires
        forall|i: int| 0 <= i < steps.len() ==> is_quiet(#[trigger] steps[i]),
    ensures
        shown_after(shown, steps) == shown,
        focus_after(focus, steps) == focus,
    decreases steps.len(),
{
    if steps.len() > 0 {
        let rest = steps.drop_last();
        assert forall|i: int| 0 <= i < rest.len() implies is_quiet(#[trigger] rest[i]) by {
            assert(rest[i] == steps[i]);
        }
        lemma_quiet(shown, focus, rest);
        assert(is_quiet(steps[steps.len() - 1]));
    }
}

/// Whether a window sticks to every workspace.
pub open spec fn sticks(window: WindowRef, sticky: Map<u64, ()>) -> bool {
    window.root is Some && sticky.dom().contains(window.root->0)
}

proof fn lemma_hide_unless_sticky(
    shown: Set<u64>,
    focus: Option<u64>,
    windows: Seq<WindowRef>,
    sticky: Map<u64, ()>,
)
    ensures
        focus_after(focus, hide_unless_sticky(windows, sticky)) == focus,
        forall|id: u64| #[trigger]
            shown_after(shown, hide_unless_sticky(windows, sticky)).contains(id) ==> shown.contains(
                id,
            ),
        forall|i: int|
            0 <= i < windows.len() && !sticks(#[trigger] windows[i], sticky) ==> !shown_after(
                shown,
                hide_unless_sticky(windows, sticky),
            ).contains(windows[i].id),
        forall|id: u64|
            shown.contains(id) && (forall|i: int|
                0 <= i < windows.len() && (#[trigger] windows[i]).id == id ==> sticks(
                    windows[i],
                    sticky,
                )) ==> #[trigger] shown_after(shown, hide_unless_sticky(windows, sticky)).contains(
                id,
            ),
    decreases windows.len(),
{
    if windows.len() > 0 {
        let rest = windows.drop_last();
        let w = windows.last();
        lemma_hide_unless_sticky(shown, focus, rest, sticky);
        let before = hide_unless_sticky(rest, sticky);
        lemma_push(shown, focus, before, Step::Hide { window: w.id });
        assert forall|i: int|
            0 <= i < windows.len() && !sticks(#[trigger] windows[i], sticky) implies !shown_after(
            shown,
            hide_unless_sticky(windows, sticky),
        ).contains(windows[i].id) by {
            if i < rest.len() {
                assert(rest[i] == windows[i]);
            }
        }
        assert forall|id: u64|
            shown.contains(id) && (forall|i: int|
                0 <= i < windows.len() && (#[trigger] windows[i]).id == id ==> sticks(
                    windows[i],
                    sticky,
                )) implies #[trigger] shown_after(shown, hide_unless_sticky(windows, sticky)).contains(
        id) by {
            assert forall|i: int| 0 <= i < rest.len() && (#[trigger] rest[i]).id == id implies sticks(
                rest[i],
                sticky,
            ) by {
                assert(rest[i] == windows[i]);
            }
            assert(shown_after(shown, before).contains(id));
            assert(windows[windows.len() - 1] == w);
        }
    }
}

proof fn lemma_unmap_others(
    shown: Set<u64>,
    focus: Option<u64>,
    windows: Seq<WindowRef>,
    keep: u64,
)
    ensures
        focus_after(focus, unmap_others(windows, keep)) == focus,
        forall|i: int|
            0 <= i < windows.len() && (#[trigger] windows[i]).id != keep ==> !shown_after(
                shown,
                unmap_others(windows, keep),
            ).contains(windows[i].id),
        forall|id: u64| #[trigger]
            shown_after(shown, unmap_others(windows, keep)).contains(id) ==> shown.contains(id),
        shown.contains(keep) ==> shown_after(shown, unmap_others(windows, keep)).contains(keep),
    decreases windows.len(),
{
    if windows.len() > 0 {
        let rest = windows.drop_last();
        lemma_unmap_others(shown, focus, rest, keep);
        lemma_push(
            shown,
            focus,
            unmap_others(rest, keep),
            Step::Hide { window: windows.last().id },
        );
        assert forall|i: int| 0 <= i < windows.len() && (#[trigger] windows[i]).id != keep implies !shown_after(
        shown, unmap_others(windows, keep)).contains(windows[i].id) by {
            if i < rest.len() {
                assert(rest[i] == windows[i]);
            }
        }
    }
}

proof fn lemma_remap_hidden(
    scene: Set<u64>,
    focus: Option<u64>,
    windows: Seq<WindowRef>,
    shown: Seq<u64>,
    also: Option<u64>,
)
    requires
        forall|id: u64| #[trigger] shown.contains(id) ==> scene.contains(id),
        also is Some ==> scene.contains(also->0),
    ensures
        focus_after(focus, remap_hidden(windows, shown, also)) == focus,
        forall|id: u64| #[trigger]
            scene.contains(id) ==> shown_after(scene, remap_hidden(windows, shown, also)).contains(
                id,
            ),
        forall|i: int|
            0 <= i < windows.len() ==> shown_after(
                scene,
                remap_hidden(windows, shown, also),
            ).contains((#[trigger] windows[i]).id),
    decreases windows.len(),
{
    if windows.len() > 0 {
        let rest = windows.drop_last();
        let id = windows.last().id;
        lemma_remap_hidden(scene, focus, rest, shown, also);
        lemma_push(
            scene,
            focus,
            remap_hidden(rest, shown, also),
            Step::Show { window: id, at: Point { x: 0, y: 0 }, activate: false },
        );
        let all = remap_hidden(windows, shown, also);
        assert forall|i: int| 0 <= i < windows.len() implies shown_after(scene, all).contains(
            (#[trigger] windows[i]).id,
        ) by {
            if i < rest.len() {
                assert(rest[i] == windows[i]);
            } else if shown.contains(id) || also == Some(id) {
                assert(scene.contains(id));
            }
        }
    }
}

proof fn lemma_show_fullscreen(
    shown: Set<u64>,
    focus: Option<u64>,
    window: WindowRef,
    windows: Seq<WindowRef>,
    geo: Rect,
)
    ensures
        ({
            let steps = show_fullscreen_steps(window, windows, Some(geo));
            let after = shown_after(shown, steps);
            &&& focus_after(focus, steps) == focus
            &&& after.contains(window.id)
            &&& forall|i: int|
                0 <= i < windows.len() && (#[trigger] windows[i]).id != window.id
                    ==> !after.contains(windows[i].id)
            &&& place_after(window.id, None, steps) == Some(geo.loc)
            &&& steps.contains(
                Step::Configure {
                    window: window.id,
                    size: Some(geo.size),
                    fullscreen: Some(true),
                },
            )
            &&& is_drawn(steps)
        }),
{
    let steps = show_fullscreen_steps(window, windows, Some(geo));
    let hides = unmap_others(windows, window.id);
    let configure = Step::Configure {
        window: window.id,
        size: Some(geo.size),
        fullscreen: Some(true),
    };
    let show = Step::Show { window: window.id, at: geo.loc, activate: true };
    lemma_unmap_others(shown, focus, windows, window.id);
    lemma_push(shown, focus, hides, configure);
    let forget = if window.root is Some {
        seq![Step::ForgetAnimation { root: window.root->0 }]
    } else {
        Seq::empty()
    };
    let early = hides.push(configure) + forget;
    lemma_quiet(shown_after(shown, hides), focus, forget);
    lemma_concat(shown, focus, hides.push(configure), forget);
    lemma_push(shown, focus, early, show);
    lemma_push(shown, focus, early.push(show), Step::Render);
    assert(steps =~= early.push(show).push(Step::Render));
    assert(steps.drop_last() =~= early.push(show));
    assert(place_after(window.id, None, steps.drop_last()) == Some(geo.loc));
    assert(steps[hides.len() as int] == configure);
    assert(steps.last() == Step::Render);
    assert(steps[steps.len() - 1] == Step::Render);
}

proof fn lemma_exit_fullscreen(
    scene: Set<u64>,
    focus: Option<u64>,
    window: WindowRef,
    windows: Seq<WindowRef>,
    floating: Map<u64, FloatingWindowData>,
    shown: Seq<u64>,
    relayout: bool,
)
    requires
        forall|id: u64| #[trigger] shown.contains(id) ==> scene.contains(id),
    ensures
        ({
            let steps = exit_fullscreen_steps(window, windows, floating, shown, relayout);
            let after = shown_after(scene, steps);
            &&& focus_after(focus, steps) == focus
            &&& forall|i: int|
                0 <= i < windows.len() ==> after.contains((#[trigger] windows[i]).id)
            &&& forall|id: u64| #[trigger] scene.contains(id) ==> after.contains(id)
            &&& steps[0] == (Step::Configure {
                window: window.id,
                size: if window.root is Some && floating.dom().contains(window.root->0) {
                    Some(floating[window.root->0].size)
                } else {
                    None
                },
                fullscreen: Some(false),
            })
            &&& window.root is Some && floating.dom().contains(window.root->0) ==> steps[1]
                == (Step::Show {
                window: window.id,
                at: floating[window.root->0].position,
                activate: true,
            })
            &&& steps.last() == if relayout { Step::Relayout } else { Step::Render }
        }),
{
    let steps = exit_fullscreen_steps(window, windows, floating, shown, relayout);
    let floats = window.root is Some && floating.dom().contains(window.root->0);
    let configure = Step::Configure {
        window: window.id,
        size: if floats { Some(floating[window.root->0].size) } else { None },
        fullscreen: Some(false),
    };
    let show = Step::Show {
        window: window.id,
        at: floating[window.root->0].position,
        activate: true,
    };
    let restore = if floats { seq![show] } else { Seq::empty() };
    let also = if floats { Some(window.id) } else { None };
    let first = seq![configure] + restore;
    assert(shown_after(scene, first) == if floats { scene.insert(window.id) } else { scene }) by {
        assert(seq![configure] =~= Seq::<Step>::empty().push(configure));
        lemma_push(scene, focus, Seq::empty(), configure);
        if floats {
            assert(first =~= seq![configure].push(show));
            lemma_push(scene, focus, seq![configure], show);
        } else {
            assert(first =~= seq![configure]);
        }
    }
    assert(focus_after(focus, first) == focus) by {
        assert(seq![configure] =~= Seq::<Step>::empty().push(configure));
        lemma_push(scene, focus, Seq::empty(), configure);
        if floats {
            assert(first =~= seq![configure].push(show));
            lemma_push(scene, focus, seq![configure], show);
        } else {
            assert(first =~= seq![configure]);
        }
    }
    let remap = remap_hidden(windows, shown, also);
    lemma_remap_hidden(shown_after(scene, first), focus, windows, shown, also);
    lemma_concat(scene, focus, first, remap);
    let end = if relayout { Step::Relayout } else { Step::Render };
    lemma_push(scene, focus, first + remap, end);
    assert(steps =~= (first + remap).push(end));
    let after = shown_after(scene, steps);
    assert forall|id: u64| #[trigger] scene.contains(id) implies after.contains(id) by {
        assert(shown_after(scene, first).contains(id));
    }
    assert forall|i: int| 0 <= i < windows.len() implies after.contains(
        (#[trigger] windows[i]).id,
    ) by {}
    assert(steps[0] == configure);
    if floats {
        assert(steps[1] == show);
    }
}

/// Letting the focused window fill the screen shows it at the output's corner, in the
/// output's size, and nothing else of its workspace; ending that shows every window of
/// the workspace again. The keyboard stays where it is.
pub proof fn a_full_screen_hides_the_others_and_gives_them_back(
    before: Desktop,
    after: Desktop,
    focused: Option<WindowRef>,
    geo: Rect,
    shown: Seq<u64>,
    steps: Seq<Step>,
    scene: Set<u64>,
    focus: Option<u64>,
)
    requires
        fullscreen_toggled(before, after, focused, Some(geo), shown, steps),
        forall|id: u64| #[trigger] shown.contains(id) ==> scene.contains(id),
    ensures
        focus_after(focus, steps) == focus,
        before.here().fullscreen is Some ==> {
            let windows = before.workspaces@[before.active()].windows@;
            &&& after.workspaces@[before.active()].fullscreen is None
            &&& forall|i: int|
                0 <= i < windows.len() ==> shown_after(scene, steps).contains(
                    (#[trigger] windows[i]).id,
                )
            &&& steps.last() == Step::Relayout
        },
        before.here().fullscreen is None && focused is Some ==> {
            let windows = before.workspaces@[before.active()].windows@;
            &&& after.workspaces@[before.active()].fullscreen == focused
            &&& shown_after(scene, steps).contains(focused->0.id)
            &&& forall|i: int|
                0 <= i < windows.len() && (#[trigger] windows[i]).id != focused->0.id
                    ==> !shown_after(scene, steps).contains(windows[i].id)
            &&& place_after(focused->0.id, None, steps) == Some(geo.loc)
            &&& steps.contains(
                Step::Configure {
                    window: focused->0.id,
                    size: Some(geo.size),
                    fullscreen: Some(true),
                },
            )
        },
        before.here().fullscreen is None && focused is None ==> steps.len() == 0,
{
    let windows = before.here().windows@;
    if before.here().fullscreen is Some {
        lemma_exit_fullscreen(
            scene,
            focus,
            before.here().fullscreen->0,
            windows,
            before.floating(),
            shown,
            true,
        );
    } else if focused is Some {
        lemma_show_fullscreen(scene, focus, focused->0, windows, geo);
    }
}

/// A workspace that was left and is entered again gives the keyboard to the window that
/// it remembers: the last that had it, or the one that fills its screen.
pub proof fn entering_a_workspace_gives_the_keyboard_back(
    before: Desktop,
    after: Desktop,
    idx: usize,
    output_geo: Option<Rect>,
    steps: Seq<Step>,
    focus: Option<u64>,
)
    requires
        before.wf(),
        workspace_switched(before, after, idx, output_geo, steps),
        idx < before.workspaces@.len(),
        before.outputs.outputs@.len() > 0,
        before.active() != idx,
    ensures
        ({
            let entered = before.workspaces@[idx as int];
            &&& entered.fullscreen is None && entered.focused_idx is Some
                && entered.focused_idx->0 < entered.windows@.len() ==> focus_after(focus, steps)
                == entered.windows@[entered.focused_idx->0 as int].root
            &&& entered.fullscreen is None && entered.focused_idx is None ==> focus_after(
                focus,
                steps,
            ) is None
            &&& entered.fullscreen is Some && !before.outputs.shown().contains(idx) ==> focus_after(
                focus,
                steps,
            ) == entered.fullscreen->0.root
            &&& is_drawn(steps)
            &&& steps.contains(Step::PublishWorkspaces)
            &&& after.workspaces == before.workspaces
        }),
{
    crate::state::moves::switching_shows_the_workspace(before, after, idx, output_geo, steps);
    let homes: usize = before.outputs.homes.len();
    let outputs: usize = before.outputs.outputs.len();
    assert(homes == before.workspaces@.len());
    let shown = before.outputs.shown();
    assert(after.here() == before.workspaces@[idx as int]);
    if shown.contains(idx) {
        shown.index_of_first_ensures(idx);
        let at = shown.index_of_first(idx)->0;
        assert(shown[at] == before.outputs.outputs@[at].active_workspace);
        assert(at < outputs);
        assert(at != before.outputs.focused_output);
        let keyboard = Step::Focus { root: remembered_root(after.here()) };
        assert(steps =~= Seq::<Step>::empty().push(Step::PublishWorkspaces).push(keyboard).push(
            Step::Render,
        ));
        lemma_push(
            Set::empty(),
            focus,
            Seq::<Step>::empty().push(Step::PublishWorkspaces).push(keyboard),
            Step::Render,
        );
        lemma_push(
            Set::empty(),
            focus,
            Seq::<Step>::empty().push(Step::PublishWorkspaces),
            keyboard,
        );
        assert(steps[0] == Step::PublishWorkspaces);
        assert(steps[2] == Step::Render);
    } else {
        let last = steps.last();
        let rest = steps.drop_last();
        assert(steps =~= rest.push(last));
        lemma_push(Set::empty(), focus, rest, last);
        let hides = hide_unless_sticky(before.here().windows@, before.books.sticky@);
        assert(steps[hides.len() as int] == Step::PublishWorkspaces);
        assert(steps[hides.len() as int + 1] == Step::Render);
    }
}

/// Leaving a workspace takes its windows out of the scene, but for the sticky ones,
/// which stay; where the entered one has a window that fills the screen, that is shown.
pub proof fn leaving_a_workspace_hides_its_windows(
    before: Desktop,
    after: Desktop,
    idx: usize,
    output_geo: Option<Rect>,
    steps: Seq<Step>,
    scene: Set<u64>,
    focus: Option<u64>,
)
    requires
        before.wf(),
        workspace_switched(before, after, idx, output_geo, steps),
        idx < before.workspaces@.len(),
        !before.outputs.shown().contains(idx),
        before.outputs.outputs@.len() > 0,
        before.workspaces@[idx as int].fullscreen is None,
    ensures
        ({
            let left = before.workspaces@[before.active()].windows@;
            &&& forall|i: int|
                0 <= i < left.len() && !sticks(#[trigger] left[i], before.books.sticky@)
                    ==> !shown_after(scene, steps).contains(left[i].id)
            &&& forall|id: u64|
                scene.contains(id) && (forall|i: int|
                    0 <= i < left.len() && (#[trigger] left[i]).id == id ==> sticks(
                        left[i],
                        before.books.sticky@,
                    )) ==> #[trigger] shown_after(scene, steps).contains(id)
            &&& steps.contains(Step::Relayout)
            &&& steps.contains(Step::RaiseSticky)
        }),
{
    crate::state::moves::switching_shows_the_workspace(before, after, idx, output_geo, steps);
    let homes: usize = before.outputs.homes.len();
    assert(homes == before.workspaces@.len());
    let left = before.here().windows@;
    let sticky = before.books.sticky@;
    let hides = hide_unless_sticky(left, sticky);
    lemma_hide_unless_sticky(scene, focus, left, sticky);
    let quiet = seq![
        Step::PublishWorkspaces,
        Step::Render,
        Step::Relayout,
        Step::RaiseSticky,
    ];
    let keyboard = steps.last();
    assert(after.here() == before.workspaces@[idx as int]);
    assert(steps =~= (hides + quiet).push(keyboard));
    lemma_concat(scene, focus, hides, quiet);
    lemma_quiet(shown_after(scene, hides), focus, quiet);
    lemma_push(scene, focus, hides + quiet, keyboard);
    assert(steps[hides.len() as int + 2] == Step::Relayout);
    assert(steps[hides.len() as int + 3] == Step::RaiseSticky);
}

/// Moving the window that has the keyboard to another workspace takes it out of its own
/// and out of the scene, puts it last on the other, leaves every other window where it
/// was, and gives the keyboard to what its old workspace remembers.
#[verifier::spinoff_prover]
#[verifier::rlimit(40)]
pub proof fn a_moved_window_changes_workspaces(
    before: Desktop,
    after: Seq<Workspace<WindowRef>>,
    target: usize,
    keyboard_root: u64,
    shown: Seq<u64>,
    steps: Seq<Step>,
    i: int,
    scene: Set<u64>,
    focus: Option<u64>,
)
    requires
        before.wf(),
        moved_to_workspace(before, after, target, Some(keyboard_root), shown, steps),
        target < before.workspaces@.len(),
        target != before.active(),
        0 <= i < before.workspaces@[before.active()].windows@.len(),
        before.workspaces@[before.active()].windows@[i].root == Some(keyboard_root),
        forall|k: int|
            0 <= k < before.workspaces@[before.active()].windows@.len() && k != i ==> (
            #[trigger] before.workspaces@[before.active()].windows@[k]).root != Some(keyboard_root),
        forall|id: u64| #[trigger] shown.contains(id) ==> scene.contains(id),
    ensures
        ({
            let a = before.active();
            let t = target as int;
            let window = before.workspaces@[a].windows@[i];
            &&& after.len() == before.workspaces@.len()
            &&& after[a].windows@ == before.workspaces@[a].windows@.remove(i)
            &&& after[t].windows@ == before.workspaces@[t].windows@.push(window)
            &&& forall|k: int|
                0 <= k < after.len() && k != a && k != t ==> #[trigger] after[k]
                    == before.workspaces@[k]
            &&& !shown_after(scene, steps).contains(window.id)
            &&& after[a].focused_idx is Some && after[a].focused_idx->0 < after[a].windows@.len()
                ==> focus_after(focus, steps) == after[a].windows@[after[a].focused_idx->0 as int].root
            &&& after[a].focused_idx is None ==> focus_after(focus, steps) is None
            &&& steps.contains(Step::Relayout)
            &&& steps.contains(Step::PublishWorkspaces)
        }),
{
    let a = before.active();
    let active: usize = before.outputs.homes.len();
    let here = before.workspaces@[a];
    lemma_index_with_root(here.windows@, keyboard_root);
    assert(index_with_root(here.windows@, keyboard_root) is Some) by {
        if index_with_root(here.windows@, keyboard_root) is None {
            assert(here.windows@[i].root != Some(keyboard_root));
        }
    }
    let at = index_with_root(here.windows@, keyboard_root)->0;
    assert(here.windows@[at].root == Some(keyboard_root));
    assert(at == i);
    let window = here.windows@[i];
    let room = make_room_steps(here, true, before.floating(), shown);
    let n = steps.len();
    let rest = steps.subrange(room.len() as int, n as int);
    assert(steps =~= room + rest);
    let hide = Step::Hide { window: window.id };
    assert(rest[0] == hide);
    let tail = rest.subrange(1, rest.len() as int);
    assert(rest =~= seq![hide] + tail);
    let quiet = tail.drop_last();
    let keyboard = tail.last();
    assert(tail =~= quiet.push(keyboard));
    assert(keyboard == Step::Focus { root: remembered_root(after[a]) });
    assert forall|k: int| 0 <= k < quiet.len() implies is_quiet(#[trigger] quiet[k]) by {
        assert(quiet[k] == rest[k + 1]);
    }
    let s0 = shown_after(scene, room);
    let f0 = focus_after(focus, room);
    lemma_concat(scene, focus, room, rest);
    lemma_concat(s0, f0, seq![hide], tail);
    assert(seq![hide] =~= Seq::<Step>::empty().push(hide));
    lemma_push(s0, f0, Seq::empty(), hide);
    let s1 = s0.remove(window.id);
    lemma_push(s1, f0, quiet, keyboard);
    lemma_quiet(s1, f0, quiet);
    assert(steps[n - 2] == Step::Relayout);
    assert(steps[n - 3] == Step::PublishWorkspaces);
}

/// A client's window that is let fill the screen is shown at the output's corner in the
/// output's size, has the keyboard, and hides the others of its workspace.
pub proof fn a_granted_full_screen_is_shown(
    before: Desktop,
    after: Desktop,
    root: u64,
    geo: Rect,
    shown: Seq<u64>,
    steps: Seq<Step>,
    scene: Set<u64>,
    focus: Option<u64>,
    w: int,
)
    requires
        before.wf(),
        fullscreen_granted(before, after, root, Some(geo), shown, steps),
        before.books.window_lookup@.dom().contains(root),
        workspace_with_root(before.workspaces@, root) == Some(w),
        before.workspaces@[w].fullscreen is None,
    ensures
        ({
            let window = before.books.window_lookup@[root];
            let windows = before.workspaces@[w].windows@;
            &&& after.workspaces@[w].fullscreen == Some(window)
            &&& focus_after(focus, steps) == Some(root)
            &&& shown_after(scene, steps).contains(window.id)
            &&& forall|i: int|
                0 <= i < windows.len() && (#[trigger] windows[i]).id != window.id ==> !shown_after(
                    scene,
                    steps,
                ).contains(windows[i].id)
            &&& steps.contains(
                Step::Configure {
                    window: window.id,
                    size: Some(geo.size),
                    fullscreen: Some(true),
                },
            )
            &&& steps.contains(Step::Show { window: window.id, at: geo.loc, activate: true })
            &&& is_drawn(steps)
        }),
{
    let window = before.books.window_lookup@[root];
    let windows = before.workspaces@[w].windows@;
    let hides = unmap_others(windows, window.id);
    lemma_unmap_others(scene, focus, windows, window.id);
    let configure = Step::Configure {
        window: window.id,
        size: Some(geo.size),
        fullscreen: Some(true),
    };
    let show = Step::Show { window: window.id, at: geo.loc, activate: true };
    let keyboard = Step::Focus { root: Some(root) };
    assert(steps =~= hides.push(configure).push(show).push(keyboard).push(Step::Render));
    lemma_push(scene, focus, hides, configure);
    lemma_push(scene, focus, hides.push(configure), show);
    lemma_push(scene, focus, hides.push(configure).push(show), keyboard);
    lemma_push(
        scene,
        focus,
        hides.push(configure).push(show).push(keyboard),
        Step::Render,
    );
    let n = hides.len() as int;
    assert(steps[n] == configure);
    assert(steps[n + 1] == show);
    assert(steps[n + 3] == Step::Render);
}

/// A window whose client no longer wants the full screen gives it up, and its workspace
/// is shown again; another window's request changes nothing.
pub proof fn only_the_full_screen_window_gives_it_up(
    before: Desktop,
    after: Desktop,
    root: u64,
    shown: Seq<u64>,
    steps: Seq<Step>,
    scene: Set<u64>,
    focus: Option<u64>,
)
    requires
        fullscreen_given_up(before, after, root, shown, steps),
        forall|id: u64| #[trigger] shown.contains(id) ==> scene.contains(id),
    ensures
        ({
            let here = before.workspaces@[before.active()];
            let own = here.fullscreen is Some && here.fullscreen->0.root == Some(root);
            &&& own ==> after.workspaces@[before.active()].fullscreen is None
            &&& own ==> forall|i: int|
                0 <= i < here.windows@.len() ==> shown_after(scene, steps).contains(
                    (#[trigger] here.windows@[i]).id,
                )
            &&& !own ==> after.workspaces == before.workspaces && steps.len() == 0
        }),
{
    let here = before.here();
    if here.fullscreen is Some && here.fullscreen->0.root == Some(root) {
        lemma_exit_fullscreen(
            scene,
            focus,
            here.fullscreen->0,
            here.windows@,
            before.floating(),
            shown,
            true,
        );
    }
}

/// A tiled window that is made to float gives up its tile, takes half its output in the
/// middle, and is shown there; one that floats gets a tile again. Doing both leaves it
/// tiled.
pub proof fn floating_and_tiling_take_turns(
    before: Desktop,
    after: Desktop,
    window: WindowRef,
    keyboard_root: Option<u64>,
    geo: Rect,
    shown: Seq<u64>,
    steps: Seq<Step>,
    root: u64,
)
    requires
        before.wf(),
        float_toggled(before, after, Some(window), keyboard_root, Some(geo), shown, steps),
        window.root == Some(root),
        forall|w: int|
            0 <= w < before.workspaces@.len() ==> (#[trigger] before.workspaces@[w]).fullscreen is None,
        geo.size.w >= 2,
        geo.size.h >= 2,
        geo.loc.x + geo.size.w <= i32::MAX,
        geo.loc.y + geo.size.h <= i32::MAX,
    ensures
        after.floating().dom().contains(root) <==> !before.floating().dom().contains(root),
        forall|other: u64|
            other != root ==> (#[trigger] after.floating().dom().contains(other)
                <==> before.floating().dom().contains(other)),
        !before.floating().dom().contains(root) ==> {
            let data = after.floating()[root];
            &&& steps.contains(Step::RemoveTile { workspace: before.active() as usize, root })
            &&& steps.contains(
                Step::Show { window: window.id, at: data.position, activate: true },
            )
            &&& 2 * data.size.w <= geo.size.w <= 2 * data.size.w + 1
            &&& 2 * data.size.h <= geo.size.h <= 2 * data.size.h + 1
            &&& geo.loc.x <= data.position.x
            &&& geo.loc.y <= data.position.y
            &&& data.position.x + data.size.w <= geo.loc.x + geo.size.w
            &&& data.position.y + data.size.h <= geo.loc.y + geo.size.h
        },
        before.floating().dom().contains(root) ==> exists|split: Option<u64>| #[trigger]
            steps.contains(
                Step::InsertTile { workspace: before.active() as usize, root, split },
            ),
        steps.contains(Step::Relayout),
{
    assert(!crate::state::tiling::fills_a_screen(before.workspaces@, root));
    let homes: usize = before.outputs.homes.len();
    assert(before.here() == before.workspaces@[before.active()]);
    crate::state::placement::a_floated_window_is_in_the_middle(geo);
    if !before.floating().dom().contains(root) {
        let data = after.floating()[root];
        assert(steps =~= float_steps(window, before.active() as usize, Some(geo)));
        assert(steps[1] == Step::RemoveTile { workspace: before.active() as usize, root });
        assert(steps[3] == Step::Show { window: window.id, at: data.position, activate: true });
        assert(steps[4] == Step::Relayout);
    } else {
        assert(steps[1] is InsertTile);
        let split = steps[1]->InsertTile_split;
        assert(steps[1] == Step::InsertTile {
            workspace: before.active() as usize,
            root,
            split,
        });
        assert(steps.contains(
            Step::InsertTile { workspace: before.active() as usize, root, split },
        ));
        assert(steps[2] == Step::Relayout);
    }
}

/// A window that is made to stick sticks and floats; one that sticks no longer does, and
/// goes on floating. Nothing else changes in that.
pub proof fn sticking_is_toggled(
    before: Desktop,
    after: Desktop,
    window: WindowRef,
    geo: Rect,
    steps: Seq<Step>,
    root: u64,
)
    requires
        sticky_toggled(before, after, Some(window), Some(geo), steps),
        window.root == Some(root),
    ensures
        after.books.sticky@.dom().contains(root) <==> !before.books.sticky@.dom().contains(root),
        forall|other: u64|
            other != root ==> (#[trigger] after.books.sticky@.dom().contains(other)
                <==> before.books.sticky@.dom().contains(other)),
        after.books.sticky@.dom().contains(root) ==> after.floating().dom().contains(root),
        before.floating().dom().contains(root) ==> after.floating() == before.floating(),
        !before.books.sticky@.dom().contains(root) && !before.floating().dom().contains(root)
            ==> steps.contains(Step::RemoveTile { workspace: before.active() as usize, root }),
        !before.books.sticky@.dom().contains(root) ==> steps.contains(
            Step::Raise { window: window.id, activate: true },
        ),
{
    if !before.books.sticky@.dom().contains(root) {
        assert(steps[steps.len() - 2] == Step::Raise { window: window.id, activate: true });
        if !before.floating().dom().contains(root) {
            assert(steps[1] == Step::RemoveTile { workspace: before.active() as usize, root });
        }
    }
}

/// A window that is gone is no longer shown and has no tile. Where it had the keyboard on
/// the active workspace, its parent gets it, or else the window that the workspace
/// remembers; where another has it, that one keeps it.
#[verifier::spinoff_prover]
#[verifier::rlimit(40)]
pub proof fn a_removed_window_passes_the_keyboard_on(
    before: Desktop,
    after: Desktop,
    root: u64,
    keyboard_root: Option<u64>,
    parent_root: Option<u64>,
    shown: Seq<u64>,
    steps: Seq<Step>,
    scene: Set<u64>,
)
    requires
        before.wf(),
        toplevel_removed(before, after, root, keyboard_root, parent_root, shown, steps),
        workspace_with_root(before.workspaces@, root) is Some,
    ensures
        ({
            let w = workspace_with_root(before.workspaces@, root)->0;
            let window = window_with_root(before.workspaces@, root)->0;
            let here = after.workspaces@[before.active()];
            &&& !shown_after(scene, steps).contains(window.id)
            &&& steps.contains(Step::RemoveTile { workspace: w as usize, root })
            &&& steps.contains(Step::PublishWorkspaces)
            &&& w == before.active() ==> steps.contains(Step::Relayout)
            &&& w == before.active() && keyboard_root == Some(root) && parent_root is Some
                && parent_root != Some(root) && before.books.window_lookup@.dom().contains(
                parent_root->0,
            ) ==> focus_after(keyboard_root, steps) == parent_root
            &&& w == before.active() && keyboard_root == Some(root) && parent_root is None
                && here.focused_idx is Some && here.focused_idx->0 < here.windows@.len()
                ==> focus_after(keyboard_root, steps)
                == here.windows@[here.focused_idx->0 as int].root
            &&& keyboard_root is Some && keyboard_root != Some(root) ==> focus_after(
                keyboard_root,
                steps,
            ) == keyboard_root
            &&& w != before.active() ==> focus_after(keyboard_root, steps) == keyboard_root
        }),
{
    let w = workspace_with_root(before.workspaces@, root)->0;
    let window = window_with_root(before.workspaces@, root)->0;
    let was = before.workspaces@[w];
    let full = crate::state::lifecycle::fills_screen_of(was, root);
    let siblings = if full {
        remap_hidden(after.workspaces@[w].windows@, shown, None)
    } else {
        Seq::empty()
    };
    let forget = seq![Step::ForgetAnimation { root }];
    let remove = Step::RemoveTile { workspace: w as usize, root };
    let hide = Step::Hide { window: window.id };
    let n = 1 + siblings.len() as int;
    let head = forget + siblings;
    let tail = steps.subrange(n + 3, steps.len() as int);
    assert(steps =~= head + seq![remove, hide, Step::PublishWorkspaces] + tail);
    assert(steps[n] == remove);
    assert(steps[n + 1] == hide);
    assert(steps[n + 2] == Step::PublishWorkspaces);
    let early = head.push(remove).push(hide);
    let late = seq![Step::PublishWorkspaces] + tail;
    assert(steps =~= early + late);
    lemma_push(scene, keyboard_root, head, remove);
    lemma_push(scene, keyboard_root, head.push(remove), hide);
    lemma_concat(scene, keyboard_root, early, late);
    lemma_siblings_keep_focus(keyboard_root, after.workspaces@[w].windows@, shown);
    lemma_quiet(scene, keyboard_root, forget);
    lemma_concat(scene, keyboard_root, forget, siblings);
    assert(focus_after(keyboard_root, head) == keyboard_root) by {
        if !full {
            assert(head =~= forget);
        }
    }
    let s1 = shown_after(scene, early);
    assert(!s1.contains(window.id));
    let refocuses = w == before.active() && (keyboard_root is None || keyboard_root == Some(root));
    if refocuses {
        let keyboard = late[1];
        assert(late =~= Seq::<Step>::empty().push(Step::PublishWorkspaces).push(keyboard).push(
            Step::Relayout,
        ).push(Step::Render));
        let a = Seq::<Step>::empty().push(Step::PublishWorkspaces);
        lemma_push(s1, keyboard_root, Seq::empty(), Step::PublishWorkspaces);
        lemma_push(s1, keyboard_root, a, keyboard);
        lemma_push(s1, keyboard_root, a.push(keyboard), Step::Relayout);
        lemma_push(s1, keyboard_root, a.push(keyboard).push(Step::Relayout), Step::Render);
        assert(steps[steps.len() - 2] == Step::Relayout);
    } else {
        assert forall|i: int| 0 <= i < late.len() implies is_quiet(#[trigger] late[i]) by {}
        lemma_quiet(s1, keyboard_root, late);
        if w == before.active() {
            assert(steps[steps.len() - 2] == Step::Relayout);
        }
    }
}

proof fn lemma_siblings_keep_focus(focus: Option<u64>, windows: Seq<WindowRef>, shown: Seq<u64>)
    ensures
        focus_after(focus, remap_hidden(windows, shown, None)) == focus,
{
    let scene = Set::new(|id: u64| shown.contains(id));
    lemma_remap_hidden(scene, focus, windows, shown, None);
}

/// A window that is mapped gets the keyboard and comes to the front, unless another fills
/// the screen, or it is tiled while a dialog has the keyboard. A tiled one gets a tile on
/// the active workspace; a floating one is shown where it floats and gets none.
pub proof fn a_mapped_window_gets_the_keyboard(
    before: Desktop,
    after: Desktop,
    window: WindowRef,
    root: u64,
    facts: MapFacts,
    steps: Seq<Step>,
    focus: Option<u64>,
)
    requires
        before.wf(),
        window_mapped(before, after, window, root, facts, steps),
    ensures
        ({
            let here = before.workspaces@[before.active()];
            let blocked = here.fullscreen is Some && here.fullscreen->0.id != window.id;
            let floats = facts.should_float || before.books.pending_should_float@.dom().contains(
                root,
            );
            &&& after.workspaces@[before.active()].windows@.last() == window
            &&& !blocked && (floats || !facts.dialog_focused) ==> focus_after(focus, steps) == Some(
                root,
            )
            &&& blocked || (!floats && facts.dialog_focused) ==> focus_after(focus, steps) == focus
            &&& !blocked ==> steps.contains(Step::Raise { window: window.id, activate: true })
            &&& floats && facts.floating_data is Some ==> after.floating().dom().contains(root)
                && after.floating()[root] == facts.floating_data->0 && steps.contains(
                Step::Show {
                    window: window.id,
                    at: facts.floating_data->0.position,
                    activate: true,
                },
            )
            &&& floats ==> forall|i: int| 0 <= i < steps.len() ==> !(#[trigger] steps[i] is InsertTile)
            &&& !floats && !before.floating().dom().contains(root)
                && !crate::state::tiling::fills_a_screen(before.workspaces@, root)
                ==> exists|split: Option<u64>| #[trigger]
                steps.contains(
                    Step::InsertTile { workspace: before.active() as usize, root, split },
                )
            &&& steps.contains(Step::Relayout)
        }),
{
    let here = before.here();
    let blocked = here.fullscreen is Some && here.fullscreen->0.id != window.id;
    let floats = facts.should_float || before.books.pending_should_float@.dom().contains(root);
    let homes: usize = before.outputs.homes.len();
    let n = steps.len() as int;
    assert(steps.last() == Step::Render);
    if blocked || (!floats && facts.dialog_focused) {
        lemma_no_focus(focus, steps);
    } else {
        let keyboard = Step::FocusAfterDispatch { root };
        let head = steps.subrange(0, n - 4);
        assert(steps[n - 4] == keyboard);
        assert(steps[n - 3] == Step::Raise { window: window.id, activate: true });
        let tail = seq![
            Step::Raise { window: window.id, activate: true },
            Step::RaiseFloating,
            Step::Render,
        ];
        assert(steps =~= head.push(keyboard) + tail);
        lemma_concat(Set::empty(), focus, head.push(keyboard), tail);
        lemma_push(Set::empty(), focus, head, keyboard);
        lemma_no_focus(Some(root), tail);
    }
    if !blocked {
        assert(steps[n - 3] == Step::Raise { window: window.id, activate: true });
    }
    if floats && facts.floating_data is Some {
        assert(steps[2] == Step::Show {
            window: window.id,
            at: facts.floating_data->0.position,
            activate: true,
        });
        assert(steps[4] == Step::Relayout);
    } else if floats {
        assert(steps[1] == Step::Relayout);
    } else if !before.floating().dom().contains(root) && !crate::state::tiling::fills_a_screen(
        before.workspaces@,
        root,
    ) {
        let split = steps[1]->InsertTile_split;
        assert(steps[1] == Step::InsertTile {
            workspace: before.active() as usize,
            root,
            split,
        });
        assert(steps.contains(
            Step::InsertTile { workspace: before.active() as usize, root, split },
        ));
        assert(steps[2] == Step::Relayout);
    } else {
        assert(steps[1] == Step::Relayout);
    }
}

proof fn lemma_no_focus(focus: Option<u64>, steps: Seq<Step>)
    requires
        forall|i: int|
            0 <= i < steps.len() ==> !(#[trigger] steps[i] is Focus) && !(
            steps[i] is FocusAfterDispatch),
    ensures
        focus_after(focus, steps) == focus,
    decreases steps.len(),
{
    if steps.len() > 0 {
        let rest = steps.drop_last();
        assert forall|i: int| 0 <= i < rest.len() implies !(#[trigger] rest[i] is Focus) && !(
        rest[i] is FocusAfterDispatch) by {
            assert(rest[i] == steps[i]);
        }
        lemma_no_focus(focus, rest);
        assert(steps[steps.len() - 1] == steps.last());
    }
}

/// A window that is focused gets the keyboard and comes in front, and a frame is due.
pub proof fn a_focused_window_gets_the_keyboard(
    window: WindowRef,
    floating: Map<u64, FloatingWindowData>,
    focus: Option<u64>,
)
    ensures
        ({
            let steps = focus_steps(window, floating);
            &&& window.root is Some ==> focus_after(focus, steps) == window.root
            &&& window.root is None ==> focus_after(focus, steps) == focus
            &&& steps.contains(Step::Raise { window: window.id, activate: true })
            &&& steps.contains(Step::RaiseInX11 { window: window.id })
            &&& is_drawn(steps)
        }),
{
    let steps = focus_steps(window, floating);
    let head = if window.root is Some {
        seq![Step::Focus { root: window.root }]
    } else {
        Seq::empty()
    };
    let tail = steps.subrange(head.len() as int, steps.len() as int);
    assert(steps =~= head + tail);
    lemma_concat(Set::empty(), focus, head, tail);
    lemma_quiet(Set::empty(), focus_after(focus, head), tail);
    if window.root is Some {
        assert(head =~= Seq::<Step>::empty().push(head[0]));
        lemma_push(Set::empty(), focus, Seq::<Step>::empty(), head[0]);
    }
    assert(steps[head.len() as int] == (Step::Raise { window: window.id, activate: true }));
    assert(steps[steps.len() - 2] == (Step::RaiseInX11 { window: window.id }));
    assert(steps[steps.len() - 1] == Step::Render);
}

/// A window that is picked in the overview gets the keyboard, on its own workspace; one
/// that is gone by then changes nothing.
pub proof fn a_picked_window_gets_the_keyboard(
    before: Desktop,
    after: Desktop,
    item: OverviewItem,
    alive: bool,
    output_geo: Option<Rect>,
    steps: Seq<Step>,
    focus: Option<u64>,
    i: int,
)
    requires
        before.wf(),
        item_activated(before, after, item, alive, output_geo, steps),
        item.workspace < before.workspaces@.len(),
        before.outputs.outputs@.len() > 0,
        0 <= i < before.workspaces@[item.workspace as int].windows@.len(),
        before.workspaces@[item.workspace as int].windows@[i].root == Some(item.root),
    ensures
        alive ==> focus_after(focus, steps) == Some(item.root) && after.active()
            == item.workspace,
        !alive ==> steps.len() == 0 && after == before,
{
    if alive {
        let n = steps.len() - focus_steps_at(
            after.here().windows@,
            index_with_root(after.here().windows@, item.root),
            after.floating(),
        ).len();
        let head = steps.subrange(0, n);
        let tail = steps.subrange(n, steps.len() as int);
        assert(steps =~= head + tail);
        if item.workspace != before.active() {
            crate::state::moves::switching_shows_the_workspace(
                before,
                after,
                item.workspace,
                output_geo,
                head,
            );
        }
        let windows = after.here().windows@;
        assert(after.here() == before.workspaces@[item.workspace as int]);
        lemma_index_with_root(windows, item.root);
        assert(windows[i].root == Some(item.root));
        let k = index_with_root(windows, item.root)->0;
        lemma_concat(Set::empty(), focus, head, tail);
        a_focused_window_gets_the_keyboard(
            windows[k],
            after.floating(),
            focus_after(focus, head),
        );
    }
}

/// The keyboard goes to the next tile in the order of the layout, or to the previous one,
/// around at its ends.
pub proof fn the_keyboard_goes_round_the_tiles(
    before: Desktop,
    after: Desktop,
    forward: bool,
    ordered: Seq<u64>,
    keyboard_root: Option<u64>,
    steps: Seq<Step>,
    focus: Option<u64>,
    i: int,
    j: int,
    w: int,
)
    requires
        focus_cycled(before, after, forward, ordered, keyboard_root, steps),
        ordered.no_duplicates(),
        ordered.len() <= usize::MAX,
        0 <= i < ordered.len(),
        0 <= j < ordered.len(),
        if forward {
            j == i + 1 || i == ordered.len() - 1 && j == 0
        } else {
            j == i - 1 || i == 0 && j == ordered.len() - 1
        },
        split_target(before.workspaces@, before.floating(), before.active(), keyboard_root)
            == Some(ordered[i]),
        0 <= w < before.here().windows@.len(),
        before.here().windows@[w].root == Some(ordered[j]),
    ensures
        focus_after(focus, steps) == Some(ordered[j]),
{
    assert(ordered.contains(ordered[i]));
    ordered.index_of_first_ensures(ordered[i]);
    let at = ordered.index_of_first(ordered[i])->0;
    assert(ordered[at] == ordered[i]);
    assert(at == i);
    let windows = before.here().windows@;
    lemma_index_with_root(windows, ordered[j]);
    let k = index_with_root(windows, ordered[j])->0;
    crate::state::focus::the_cycle_goes_in_order(i as usize, ordered.len() as int);
    assert(cycle_target(before, ordered, keyboard_root, forward) == Some(k));
    a_focused_window_gets_the_keyboard(windows[k], before.floating(), focus);
}

/// When an output goes, the windows that it showed go out of the scene; where another is
/// left, the keyboard goes to what that one's workspace remembers, and a frame is due;
/// where none is, no frame is.
pub proof fn a_removed_output_takes_its_windows_out(
    before: Desktop,
    after: Desktop,
    output: u64,
    steps: Seq<Step>,
    scene: Set<u64>,
    focus: Option<u64>,
    i: int,
)
    requires
        output_removed(before, after, output, steps),
        index_of_output(before.outputs.outputs@, output) == Some(i),
        0 <= i < before.outputs.outputs@.len(),
    ensures
        ({
            let gone = before.workspaces@[before.outputs.outputs@[i].active_workspace as int];
            let here = after.here();
            let many = before.outputs.outputs@.len() > 1;
            &&& forall|k: int|
                0 <= k < gone.windows@.len() ==> !shown_after(scene, steps).contains(
                    (#[trigger] gone.windows@[k]).id,
                )
            &&& forall|id: u64|
                scene.contains(id) && (forall|k: int|
                    0 <= k < gone.windows@.len() ==> (#[trigger] gone.windows@[k]).id != id)
                    ==> #[trigger] shown_after(scene, steps).contains(id)
            &&& after.outputs.outputs@ == before.outputs.outputs@.remove(i)
            &&& many && here.focused_idx is Some && here.focused_idx->0 < here.windows@.len()
                ==> focus_after(focus, steps) == here.windows@[here.focused_idx->0 as int].root
            &&& many && here.focused_idx is None ==> focus_after(focus, steps) is None
            &&& many <==> steps.contains(Step::Render)
            &&& many <==> steps.contains(Step::RepackOutputs)
            &&& !many <==> steps.contains(Step::CancelRender)
            &&& after.workspaces == before.workspaces
        }),
{
    let windows =
        before.workspaces@[before.outputs.outputs@[i].active_workspace as int].windows@;
    let hides = hide_all(windows);
    lemma_hide_all(scene, focus, windows);
    if before.outputs.outputs@.len() == 1 {
        lemma_push(scene, focus, hides, Step::CancelRender);
        assert(steps[hides.len() as int] == Step::CancelRender);
    } else {
        let keyboard = Step::Focus { root: remembered_root(after.here()) };
        let pack = repack_steps();
        let front = hides + pack;
        assert(steps =~= front.push(keyboard).push(Step::Render));
        lemma_concat(scene, focus, hides, pack);
        lemma_quiet(shown_after(scene, hides), focus, pack);
        lemma_push(scene, focus, front.push(keyboard), Step::Render);
        lemma_push(scene, focus, front, keyboard);
        assert(steps[steps.len() - 1] == Step::Render);
        assert(steps[hides.len() as int] == Step::RepackOutputs);
    }
}

proof fn lemma_hide_all(scene: Set<u64>, focus: Option<u64>, windows: Seq<WindowRef>)
    ensures
        focus_after(focus, hide_all(windows)) == focus,
        forall|k: int|
            0 <= k < windows.len() ==> !shown_after(scene, hide_all(windows)).contains(
                (#[trigger] windows[k]).id,
            ),
        forall|id: u64|
            scene.contains(id) && (forall|k: int|
                0 <= k < windows.len() ==> (#[trigger] windows[k]).id != id)
                ==> #[trigger] shown_after(scene, hide_all(windows)).contains(id),
        forall|k: int| 0 <= k < hide_all(windows).len() ==> (#[trigger] hide_all(windows)[k]) is Hide,
    decreases windows.len(),
{
    if windows.len() > 0 {
        let rest = windows.drop_last();
        lemma_hide_all(scene, focus, rest);
        let last = windows.last();
        let step = Step::Hide { window: last.id };
        assert(hide_all(windows) =~= hide_all(rest).push(step));
        lemma_push(scene, focus, hide_all(rest), step);
        assert forall|k: int| 0 <= k < windows.len() implies !shown_after(
            scene,
            hide_all(windows),
        ).contains((#[trigger] windows[k]).id) by {
            if k < rest.len() {
                assert(rest[k] == windows[k]);
            }
        }
        assert forall|id: u64|
            scene.contains(id) && (forall|k: int|
                0 <= k < windows.len() ==> (#[trigger] windows[k]).id != id) implies #[trigger] shown_after(
            scene,
            hide_all(windows),
        ).contains(id) by {
            assert forall|k: int| 0 <= k < rest.len() implies (#[trigger] rest[k]).id != id by {
                assert(rest[k] == windows[k]);
            }
            assert(windows[windows.len() - 1].id != id);
            assert(shown_after(scene, hide_all(rest)).contains(id));
        }
    }
}

/// A window that turns out to be a dialog floats where it was given a place, gives up its
/// tile, and gets the keyboard where it is in view; one that is not mapped yet only waits
/// to; and none does where it should not float.
pub proof fn an_adopted_dialog_floats(
    before: Desktop,
    after: Desktop,
    window: WindowRef,
    root: u64,
    should_float: bool,
    placement: FloatingWindowData,
    steps: Seq<Step>,
    focus: Option<u64>,
)
    requires
        dialog_adopted(before, after, window, root, should_float, Some(placement), steps),
        before.books.window_lookup@.dom().contains(root),
        index_with_root(before.books.pending_windows@, root) is None,
        workspace_with_root(before.workspaces@, root) is Some,
    ensures
        ({
            let w = workspace_with_root(before.workspaces@, root)->0;
            &&& should_float ==> after.floating().dom().contains(root) && after.floating()[root]
                == placement
            &&& should_float && w == before.active() ==> focus_after(focus, steps) == Some(root)
                && steps.contains(Step::Raise { window: window.id, activate: true }) && is_drawn(
                steps,
            )
            &&& should_float && w != before.active() ==> focus_after(focus, steps) == focus
            &&& should_float && !before.floating().dom().contains(root) ==> steps.contains(
                Step::RemoveTile { workspace: w as usize, root },
            )
            &&& should_float ==> steps.contains(
                Step::Configure { window: window.id, size: None, fullscreen: None },
            )
            &&& !should_float ==> steps.len() == 0 && after.floating() == before.floating()
        }),
{
    let w = workspace_with_root(before.workspaces@, root)->0;
    if should_float {
        assert(steps[0] == (Step::Configure { window: window.id, size: None, fullscreen: None }));
        if !before.floating().dom().contains(root) {
            assert(steps[1] == (Step::RemoveTile { workspace: w as usize, root }));
        }
        if w == before.active() {
            let last = steps.last();
            assert(steps =~= steps.drop_last().push(last));
            lemma_push(Set::empty(), focus, steps.drop_last(), last);
            assert(steps[steps.len() - 3] == (Step::Raise { window: window.id, activate: true }));
            assert(steps[steps.len() - 4] == Step::Relayout);
        } else {
            lemma_quiet(Set::empty(), focus, steps);
        }
    }
}

/// A floating window that is moved or resized, and a tile that is dragged, is shown where
/// it was moved to; one that is resized is asked for its new size meanwhile.
pub proof fn motions_show_the_window_where_it_is(
    window: WindowRef,
    to: Point,
    size: Size,
    changed: bool,
    place: Option<Point>,
)
    ensures
        place_after(window.id, place, motion_steps_of(GrabMotion::Move { window, to })) == Some(to),
        place_after(
            window.id,
            place,
            motion_steps_of(GrabMotion::SwapMove { window, to, borders_changed: changed }),
        ) == Some(to),
        place_after(window.id, place, motion_steps_of(GrabMotion::Resize { window, to, size }))
            == Some(to),
        motion_steps_of(GrabMotion::Resize { window, to, size }).contains(
            Step::Resize { window: window.id, size: Some(size), resizing: true },
        ),
        motion_steps_of(GrabMotion::SwapMove { window, to, borders_changed: changed }).contains(
            Step::InvalidateBorders,
        ) <==> changed,
        motion_steps_of(GrabMotion::Stay).len() == 0,
{
    let show = Step::Show { window: window.id, at: to, activate: true };
    let moved = motion_steps_of(GrabMotion::Move { window, to });
    assert(moved.last() == show);
    let dragged = motion_steps_of(GrabMotion::SwapMove { window, to, borders_changed: changed });
    assert(dragged[0] == show);
    if changed {
        assert(dragged[1] == Step::InvalidateBorders);
        assert(dragged.drop_last().last() == show);
        assert(place_after(window.id, place, dragged.drop_last()) == Some(to));
    }
    let resized = motion_steps_of(GrabMotion::Resize { window, to, size });
    assert(resized[1] == (Step::Resize { window: window.id, size: Some(size), resizing: true }));
    assert(resized.drop_last().last() == show);
    assert(place_after(window.id, place, resized.drop_last()) == Some(to));
}

/// A window that is taken hold of gets the keyboard and comes in front. A tile that is
/// dragged gives up its place, and the layout as it was is kept; a window that is resized
/// is told so.
pub proof fn what_is_taken_hold_of_gets_the_keyboard(
    grab: ActiveGrab,
    window: WindowRef,
    root: u64,
    shown_size: Size,
    tile: Option<Size>,
    focus: Option<u64>,
)
    requires
        window.root == Some(root),
        match grab {
            ActiveGrab::Move(g) => g.window == window,
            ActiveGrab::TiledSwap(g) => g.window == window,
            ActiveGrab::Resize(g) => g.window == window,
            ActiveGrab::TiledResize(g) => g.window == window,
        },
    ensures
        ({
            let steps = start_steps(grab, shown_size, tile);
            &&& focus_after(focus, steps) == Some(root)
            &&& steps.contains(Step::Raise { window: window.id, activate: true })
            &&& is_drawn(steps)
            &&& grab is TiledSwap ==> steps[0] == Step::SaveLayout && steps.contains(
                Step::RemoveTile { workspace: grab->TiledSwap_0.workspace_idx, root },
            ) && steps.contains(Step::Relayout)
            &&& grab is Resize ==> steps.contains(
                Step::Resize {
                    window: window.id,
                    size: Some(grab->Resize_0.start_window_size),
                    resizing: true,
                },
            )
            &&& grab is TiledResize && tile is Some ==> steps.contains(
                Step::Resize { window: window.id, size: tile, resizing: true },
            )
            &&& grab is Move ==> forall|i: int|
                0 <= i < steps.len() ==> !((#[trigger] steps[i]) is RemoveTile)
        }),
{
    let steps = start_steps(grab, shown_size, tile);
    let keyboard = Step::Focus { root: window.root };
    let raise = Step::Raise { window: window.id, activate: true };
    match grab {
        ActiveGrab::Move(_) => {
            let tail = seq![raise, Step::Render, Step::RefreshCursor];
            assert(steps =~= seq![keyboard, raise, Step::Render, Step::RefreshCursor]);
            assert(steps =~= Seq::<Step>::empty().push(keyboard) + tail);
            lemma_keyboard_then(focus, steps, Seq::empty(), root, tail);
            assert(steps[1] == raise && steps[2] == Step::Render);
        },
        ActiveGrab::TiledSwap(g) => {
            let remove = Step::RemoveTile { workspace: g.workspace_idx, root };
            let tail = seq![
                raise,
                Step::Render,
                remove,
                Step::InvalidateBorders,
                Step::Relayout,
                raise,
                Step::RefreshCursor,
            ];
            assert(steps =~= seq![Step::SaveLayout, keyboard] + tail);
            assert(steps =~= seq![Step::SaveLayout].push(keyboard) + tail);
            lemma_keyboard_then(focus, steps, seq![Step::SaveLayout], root, tail);
            assert(steps[2] == raise && steps[3] == Step::Render && steps[4] == remove);
            assert(steps[6] == Step::Relayout);
        },
        ActiveGrab::Resize(g) => {
            let resize = Step::Resize {
                window: window.id,
                size: Some(g.start_window_size),
                resizing: true,
            };
            let tail = seq![raise, Step::Render, resize, Step::RefreshCursor];
            assert(steps =~= seq![keyboard] + tail);
            assert(steps =~= Seq::<Step>::empty().push(keyboard) + tail);
            lemma_keyboard_then(focus, steps, Seq::empty(), root, tail);
            assert(steps[1] == raise && steps[2] == Step::Render && steps[3] == resize);
        },
        ActiveGrab::TiledResize(_) => {
            let resize = Step::Resize {
                window: window.id,
                size: if tile is Some { tile } else { Some(shown_size) },
                resizing: true,
            };
            let tail = seq![raise, Step::Render, resize, Step::RefreshCursor];
            assert(steps =~= seq![keyboard] + tail);
            assert(steps =~= Seq::<Step>::empty().push(keyboard) + tail);
            lemma_keyboard_then(focus, steps, Seq::empty(), root, tail);
            assert(steps[1] == raise && steps[2] == Step::Render && steps[3] == resize);
        },
    }
}

proof fn lemma_keyboard_then(
    focus: Option<u64>,
    steps: Seq<Step>,
    head: Seq<Step>,
    root: u64,
    tail: Seq<Step>,
)
    requires
        steps == head.push(Step::Focus { root: Some(root) }) + tail,
        forall|i: int| 0 <= i < tail.len() ==> is_quiet(#[trigger] tail[i]),
    ensures
        focus_after(focus, steps) == Some(root),
{
    let keyboard = Step::Focus { root: Some(root) };
    lemma_concat(Set::empty(), focus, head.push(keyboard), tail);
    lemma_push(Set::empty(), focus, head, keyboard);
    lemma_quiet(Set::empty(), Some(root), tail);
}

/// When a resize ends the window is told so, with its size, and a floating one stays where
/// it was resized to; a lock that comes in between ends it as well.
pub proof fn ended_resizes_are_announced(
    window: WindowRef,
    position: Point,
    size: Size,
    workspace_idx: usize,
    tile: Option<Size>,
    place: Option<Point>,
)
    ensures
        ({
            let steps = resize_end_steps(ResizeFinish::Floating { window, position, size }, tile);
            &&& place_after(window.id, place, steps) == Some(position)
            &&& steps.contains(
                Step::Resize { window: window.id, size: Some(size), resizing: false },
            )
        }),
        window.root is Some ==> resize_end_steps(
            ResizeFinish::Tiled { window, workspace_idx },
            tile,
        ).contains(Step::Resize { window: window.id, size: tile, resizing: false }),
        forall|cancel: LockCancel| #[trigger]
            cancel_steps_of(cancel).contains(Step::RestoreLayout) <==> cancel.restore_layout,
        forall|cancel: LockCancel| #[trigger]
            cancel_steps_of(cancel).contains(Step::Relayout) <==> cancel.relayout,
        forall|cancel: LockCancel|
            cancel.resize == (ResizeCancel::Floating { window, size })
                ==> #[trigger] cancel_steps_of(cancel).contains(
                Step::Resize { window: window.id, size: Some(size), resizing: false },
            ),
{
    let steps = resize_end_steps(ResizeFinish::Floating { window, position, size }, tile);
    assert(steps[0] == (Step::Resize { window: window.id, size: Some(size), resizing: false }));
    assert(steps.drop_last().last() == (Step::Show {
        window: window.id,
        at: position,
        activate: true,
    }));
    assert(place_after(window.id, place, steps.drop_last()) == Some(position));
    let tiled = resize_end_steps(ResizeFinish::Tiled { window, workspace_idx }, tile);
    assert(tiled[0] is Resize);
    assert forall|cancel: LockCancel| #[trigger]
        cancel_steps_of(cancel).contains(Step::RestoreLayout) <==> cancel.restore_layout by {
        let all = cancel_steps_of(cancel);
        if cancel.restore_layout {
            assert(all[0] == Step::RestoreLayout);
        }
    }
    assert forall|cancel: LockCancel| #[trigger]
        cancel_steps_of(cancel).contains(Step::Relayout) <==> cancel.relayout by {
        let all = cancel_steps_of(cancel);
        if cancel.relayout {
            assert(all[if cancel.restore_layout { 1int } else { 0 }] == Step::Relayout);
        }
    }
    assert forall|cancel: LockCancel|
        cancel.resize == (ResizeCancel::Floating {
            window,
            size,
        }) implies #[trigger] cancel_steps_of(cancel).contains(
        Step::Resize { window: window.id, size: Some(size), resizing: false },
    ) by {
        let all = cancel_steps_of(cancel);
        assert(all[all.len() - 2] == (Step::Resize {
            window: window.id,
            size: Some(size),
            resizing: false,
        }));
    }
}

/// A floating window is shown where it was put last, and no tiled one is moved with it.
pub proof fn floating_windows_are_shown_at_their_places(
    windows: Seq<WindowRef>,
    floating: Map<u64, FloatingWindowData>,
    place: Option<Point>,
    i: int,
)
    requires
        0 <= i < windows.len(),
        forall|a: int, b: int|
            0 <= a < b < windows.len() ==> (#[trigger] windows[a]).id != (#[trigger] windows[b]).id,
    ensures
        windows[i].root is Some && floating.dom().contains(windows[i].root->0) ==> place_after(
            windows[i].id,
            place,
            remap_floating(windows, floating),
        ) == Some(floating[windows[i].root->0].position),
        windows[i].root is None || !floating.dom().contains(windows[i].root->0) ==> place_after(
            windows[i].id,
            place,
            remap_floating(windows, floating),
        ) == place,
    decreases windows.len(),
{
    let rest = windows.drop_last();
    let last = windows.last();
    let all = remap_floating(windows, floating);
    let before = remap_floating(rest, floating);
    if last.root is Some && floating.dom().contains(last.root->0) {
        assert(all.drop_last() =~= before);
    }
    if i < rest.len() {
        assert(rest[i] == windows[i]);
        assert(windows[i].id != windows[windows.len() - 1].id);
        floating_windows_are_shown_at_their_places(rest, floating, place, i);
    } else if last.root is None || !floating.dom().contains(last.root->0) {
        lemma_not_remapped(rest, floating, last.id, place);
    }
}

proof fn lemma_not_remapped(
    windows: Seq<WindowRef>,
    floating: Map<u64, FloatingWindowData>,
    id: u64,
    place: Option<Point>,
)
    requires
        forall|i: int| 0 <= i < windows.len() ==> (#[trigger] windows[i]).id != id,
    ensures
        place_after(id, place, remap_floating(windows, floating)) == place,
    decreases windows.len(),
{
    if windows.len() > 0 {
        let rest = windows.drop_last();
        assert forall|i: int| 0 <= i < rest.len() implies (#[trigger] rest[i]).id != id by {
            assert(rest[i] == windows[i]);
        }
        lemma_not_remapped(rest, floating, id, place);
        let last = windows.last();
        assert(windows[windows.len() - 1].id != id);
        if last.root is Some && floating.dom().contains(last.root->0) {
            assert(remap_floating(windows, floating).drop_last() =~= remap_floating(rest, floating));
        }
    }
}

/// Going to another output gives the keyboard to what its workspace remembers.
pub proof fn another_output_gets_the_keyboard(workspace: Workspace<WindowRef>, focus: Option<u64>)
    ensures
        workspace.focused_idx is Some && workspace.focused_idx->0 < workspace.windows@.len()
            ==> focus_after(focus, focus_output_steps(workspace))
            == workspace.windows@[workspace.focused_idx->0 as int].root,
        workspace.focused_idx is None ==> focus_after(focus, focus_output_steps(workspace)) is None,
        is_drawn(focus_output_steps(workspace)),
{
    let steps = focus_output_steps(workspace);
    let keyboard = Step::Focus { root: remembered_root(workspace) };
    let head = Seq::<Step>::empty().push(Step::PublishWorkspaces);
    assert(steps =~= head.push(keyboard).push(Step::Render));
    lemma_push(Set::empty(), focus, head.push(keyboard), Step::Render);
    lemma_push(Set::empty(), focus, head, keyboard);
    assert(steps[2] == Step::Render);
}

/// Going to an output that is not the one in use gives the keyboard to what that shows;
/// going to the one in use, or to none, changes nothing.
pub proof fn focus_goes_to_the_output(
    before: Desktop,
    out: usize,
    focused_output: usize,
    steps: Seq<Step>,
    focus: Option<u64>,
)
    requires
        focuses_output(before, Some(out), focused_output, steps),
        out < before.outputs.outputs@.len(),
    ensures
        focused_output == out,
        out == before.outputs.focused_output ==> steps.len() == 0,
        out != before.outputs.focused_output ==> ({
            let there = before.workspaces@[before.outputs.outputs@[out as int].active_workspace as int];
            &&& there.focused_idx is Some && there.focused_idx->0 < there.windows@.len()
                ==> focus_after(focus, steps) == there.windows@[there.focused_idx->0 as int].root
            &&& there.focused_idx is None ==> focus_after(focus, steps) is None
            &&& is_drawn(steps)
        }),
        forall|to: usize, none: Seq<Step>| #[trigger]
            focuses_output(before, None, to, none) ==> to == before.outputs.focused_output
                && none.len() == 0,
{
    let there = before.workspaces@[before.outputs.outputs@[out as int].active_workspace as int];
    another_output_gets_the_keyboard(there, focus);
}

/// A window that is moved to another output goes to the workspace that is shown there, and
/// the keyboard goes with the output.
pub proof fn a_window_follows_to_the_output(
    before: Desktop,
    after: Desktop,
    out: usize,
    keyboard_root: u64,
    shown: Seq<u64>,
    moved: Seq<Step>,
    followed: Seq<Step>,
    i: int,
)
    requires
        before.wf(),
        moves_to_output(before, after, Some(out), Some(keyboard_root), shown, moved, followed),
        before.outputs.outputs@[out as int].active_workspace != before.active(),
        0 <= i < before.here().windows@.len(),
        before.here().windows@[i].root == Some(keyboard_root),
        forall|a: int|
            0 <= a < before.here().windows@.len() && a != i ==> (
            #[trigger] before.here().windows@[a]).root != Some(keyboard_root),
    ensures
        ({
            let to = before.outputs.outputs@[out as int].active_workspace as int;
            &&& after.outputs.focused_output == out
            &&& after.workspaces@[to].windows@ == before.workspaces@[to].windows@.push(
                before.here().windows@[i],
            )
            &&& after.workspaces@[before.active()].windows@ == before.here().windows@.remove(i)
            &&& followed == focus_output_steps(after.workspaces@[to])
        }),
{
    let homes: usize = before.outputs.homes.len();
    let windows = before.here().windows@;
    lemma_index_with_root(windows, keyboard_root);
    let k = index_with_root(windows, keyboard_root)->0;
    assert(windows[k].root == Some(keyboard_root));
    assert(k == i);
    assert(before.outputs.outputs@[out as int].active_workspace < homes);
}

/// A new window shares the tile of the window that has the keyboard, where that is tiled on
/// its workspace.
pub proof fn a_new_window_shares_the_focused_tile(
    before: Desktop,
    after: Desktop,
    window: WindowRef,
    root: u64,
    facts: MapFacts,
    steps: Seq<Step>,
    focused: u64,
    i: int,
)
    requires
        before.wf(),
        window_mapped(before, after, window, root, facts, steps),
        !facts.should_float,
        !before.books.pending_should_float@.dom().contains(root),
        !before.floating().dom().contains(root),
        forall|w: int|
            0 <= w < before.workspaces@.len() ==> (#[trigger] before.workspaces@[w]).fullscreen
                is None,
        facts.keyboard_root == Some(focused),
        0 <= i < before.here().windows@.len(),
        before.here().windows@[i].root == Some(focused),
        !before.floating().dom().contains(focused),
    ensures
        steps.contains(
            Step::InsertTile {
                workspace: before.active() as usize,
                root,
                split: Some(focused),
            },
        ),
{
    lemma_index_with_root(before.here().windows@, focused);
    assert(before.here().windows@[i].root == Some(focused));
    assert(steps[1] == (Step::InsertTile {
        workspace: before.active() as usize,
        root,
        split: Some(focused),
    }));
}

} // verus!
