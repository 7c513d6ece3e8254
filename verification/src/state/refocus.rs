//! Which window of the active workspace has the keyboard, and moving it to
//! another one.
use crate::animation::contains_id;
use crate::config::FocusDirection;
use crate::geometry::Rect;
use crate::overview::{OverviewItem, OverviewWindow};
use crate::state::desktop::{Desktop, Step};
use crate::state::focus::{
    cycle_position, cycled, focus_in_direction, is_nearest, note_keyboard_focus_change, FocusChange,
};
use crate::state::moves::{focused_here, switching_shows_the_workspace, workspace_switched};
use crate::state::tiling::{
    focused_tiled_window_root, index_with_root, is_floating, lemma_index_with_root, split_target,
    window_index_for_root, Workspace,
};
use crate::surface_map::SurfaceMap;
use crate::types::{FloatingWindowData, WindowRef};
use vstd::prelude::*;

verus! {

/// The steps that give the keyboard to a window and put it in front. Floating
/// windows stay in front of a tiled one.
pub open spec fn focus_steps(
    window: WindowRef,
    floating: Map<u64, FloatingWindowData>,
) -> Seq<Step> {
    let focus = if window.root is Some {
        seq![Step::Focus { root: window.root }]
    } else {
        Seq::empty()
    };
    let floats = if is_floating(window, floating) {
        Seq::empty()
    } else {
        seq![Step::RaiseFloating]
    };
    focus + seq![Step::Raise { window: window.id, activate: true }] + floats + seq![
        Step::RaiseInX11 { window: window.id },
        Step::Render,
    ]
}

/// The same for a window by its number; nothing where there is none.
pub open spec fn focus_steps_at(
    windows: Seq<WindowRef>,
    idx: Option<int>,
    floating: Map<u64, FloatingWindowData>,
) -> Seq<Step> {
    if idx is Some && 0 <= idx->0 < windows.len() {
        focus_steps(windows[idx->0], floating)
    } else {
        Seq::empty()
    }
}

fn list_focus_steps(window: WindowRef, floating: &SurfaceMap<FloatingWindowData>) -> (r: Vec<Step>)
    requires
        floating.wf(),
    ensures
        r@ == focus_steps(window, floating@),
{
    let mut steps: Vec<Step> = Vec::new();
    if window.root.is_some() {
        steps.push(Step::Focus { root: window.root });
    }
    steps.push(Step::Raise { window: window.id, activate: true });
    let floats = match window.root {
        Some(root) => floating.contains(root),
        None => false,
    };
    if !floats {
        steps.push(Step::RaiseFloating);
    }
    steps.push(Step::RaiseInX11 { window: window.id });
    steps.push(Step::Render);
    proof {
        assert(steps@ =~= focus_steps(window, floating@));
    }
    steps
}

/// Place of the first occurrence of `root` in a list.
pub open spec fn place_of(ordered: Seq<u64>, root: Option<u64>) -> Option<usize> {
    if root is Some && ordered.contains(root->0) {
        Some(ordered.index_of_first(root->0)->0 as usize)
    } else {
        None
    }
}

fn find_place(ordered: &Vec<u64>, root: Option<u64>) -> (r: Option<usize>)
    ensures
        r == place_of(ordered@, root),
        r is Some ==> r->0 < ordered.len(),
{
    let wanted: u64 = match root {
        Some(root) => root,
        None => {
            return None;
        },
    };
    let mut i: usize = 0;
    while i < ordered.len()
        invariant
            i <= ordered.len(),
            root == Some(wanted),
            forall|k: int| 0 <= k < i ==> ordered@[k] != wanted,
        decreases ordered.len() - i,
    {
        if ordered[i] == wanted {
            proof {
                assert(ordered@.contains(wanted));
                ordered@.index_of_first_ensures(wanted);
                assert(ordered@.index_of_first(wanted)->0 == i);
            }
            return Some(i);
        }
        i = i + 1;
    }
    None
}

/// The window that gets the keyboard next in the cycle through the tiles, in
/// the order in which they lie on screen.
pub open spec fn cycle_target(
    desktop: Desktop,
    ordered: Seq<u64>,
    keyboard_root: Option<u64>,
    forward: bool,
) -> Option<int> {
    let focused = split_target(
        desktop.workspaces@,
        desktop.floating(),
        desktop.active(),
        keyboard_root,
    );
    let next = cycled(place_of(ordered, focused), ordered.len() as int, forward);
    index_with_root(desktop.here().windows@, ordered[next])
}

/// The windows of a workspace for the overview.
pub open spec fn listed_windows(windows: Seq<WindowRef>, dead: Seq<u64>) -> Seq<OverviewWindow> {
    windows.map_values(
        |window: WindowRef| OverviewWindow { window, alive: !dead.contains(window.id) },
    )
}

/// Whether `after` is `before` after a window was picked in the overview, and
/// `steps` are to be taken: those that switch to its workspace, where it is
/// another one, and after them those that give it the keyboard.
pub open spec fn item_activated(
    before: Desktop,
    after: Desktop,
    item: OverviewItem,
    alive: bool,
    output_geo: Option<Rect>,
    steps: Seq<Step>,
) -> bool {
    let windows = after.here().windows@;
    let focus = focus_steps_at(windows, index_with_root(windows, item.root), after.floating());
    let n = steps.len() - focus.len();
    if !alive {
        after == before && steps.len() == 0
    } else {
        &&& n >= 0
        &&& steps.subrange(n, steps.len() as int) == focus
        &&& if item.workspace == before.active() {
            after == before && n == 0
        } else {
            workspace_switched(before, after, item.workspace, output_geo, steps.subrange(0, n))
        }
    }
}

/// What becomes of the desktop when the focus goes to the next or the previous window, and
/// the steps for it.
pub open spec fn focus_cycled(
    before: Desktop,
    after: Desktop,
    forward: bool,
    ordered: Seq<u64>,
    keyboard_root: Option<u64>,
    r: Seq<Step>,
) -> bool {
    &&& after.outputs == before.outputs
    &&& after.grabs == before.grabs
    &&& after.books == before.books
    &&& ordered.len() > 0 ==> {
        &&& after.workspaces == before.workspaces
        &&& r == focus_steps_at(
            before.here().windows@,
            cycle_target(before, ordered, keyboard_root, forward),
            before.floating(),
        )
    }
    &&& ordered.len() == 0 ==> {
        let was = before.here();
        let idx = if was.windows@.len() == 0 {
            was.focused_idx
        } else {
            Some(
                cycled(
                    was.focused_idx,
                    was.windows@.len() as int,
                    forward,
                ) as usize,
            )
        };
        &&& after.workspaces@.len() == before.workspaces@.len()
        &&& forall|k: int|
            0 <= k < before.workspaces@.len() && k != before.active()
                ==> #[trigger] after.workspaces@[k] == before.workspaces@[k]
        &&& after.here().windows@ == was.windows@
        &&& after.here().fullscreen == was.fullscreen
        &&& after.here().focused_idx == idx
        &&& r == match idx {
            Some(idx) => focus_steps_at(
                was.windows@,
                Some(idx as int),
                before.floating(),
            ),
            None => Seq::empty(),
        }
    }
}

impl Desktop {
    /// Number of the window of the active workspace that has the keyboard, else
    /// of the one that it remembers.
    pub fn active_workspace_focused_index(&self, keyboard_root: Option<u64>) -> (r: Option<usize>)
        requires
            self.wf(),
        ensures
            match r {
                Some(idx) => focused_here(self.here(), keyboard_root) == Some(idx as int),
                None => focused_here(self.here(), keyboard_root) is None,
            },
    {
        let active: usize = self.outputs.active_workspace();
        let by_keyboard = match keyboard_root {
            Some(root) => window_index_for_root(&self.workspaces[active].windows, root),
            None => None,
        };
        match by_keyboard {
            Some(idx) => Some(idx),
            None => self.workspaces[active].focused_idx,
        }
    }

    /// That window.
    pub fn active_workspace_focused_window(&self, keyboard_root: Option<u64>) -> (r: Option<
        WindowRef,
    >)
        requires
            self.wf(),
        ensures
            ({
                let idx = focused_here(self.here(), keyboard_root);
                r == if idx is Some && idx->0 < self.here().windows@.len() {
                    Some(self.here().windows@[idx->0])
                } else {
                    None
                }
            }),
    {
        let active: usize = self.outputs.active_workspace();
        match self.active_workspace_focused_index(keyboard_root) {
            Some(idx) => if idx < self.workspaces[active].windows.len() {
                Some(self.workspaces[active].windows[idx])
            } else {
                None
            },
            None => None,
        }
    }

    /// Give the keyboard to window `idx` of the active workspace.
    pub fn focus_active_workspace_window(&self, idx: usize) -> (r: Vec<Step>)
        requires
            self.wf(),
        ensures
            r@ == focus_steps_at(self.here().windows@, Some(idx as int), self.floating()),
    {
        let active: usize = self.outputs.active_workspace();
        if idx < self.workspaces[active].windows.len() {
            list_focus_steps(self.workspaces[active].windows[idx], &self.grabs.floating)
        } else {
            Vec::new()
        }
    }

    /// The windows of every workspace for the overview; `dead` are those that are
    /// gone.
    pub fn overview_windows(&self, dead: &Vec<u64>) -> (r: Vec<Vec<OverviewWindow>>)
        ensures
            r.len() == self.workspaces@.len(),
            forall|i: int|
                0 <= i < r.len() ==> (#[trigger] r@[i])@ == listed_windows(
                    self.workspaces@[i].windows@,
                    dead@,
                ),
    {
        let mut r: Vec<Vec<OverviewWindow>> = Vec::new();
        let mut i: usize = 0;
        while i < self.workspaces.len()
            invariant
                i <= self.workspaces.len(),
                r.len() == i,
                forall|k: int|
                    0 <= k < i ==> (#[trigger] r@[k])@ == listed_windows(
                        self.workspaces@[k].windows@,
                        dead@,
                    ),
            decreases self.workspaces.len() - i,
        {
            let windows = &self.workspaces[i].windows;
            let ghost all = listed_windows(windows@, dead@);
            let mut listed: Vec<OverviewWindow> = Vec::new();
            let mut n: usize = 0;
            while n < windows.len()
                invariant
                    n <= windows.len(),
                    all == listed_windows(windows@, dead@),
                    listed@ =~= all.subrange(0, n as int),
                decreases windows.len() - n,
            {
                let window = windows[n];
                listed.push(OverviewWindow { window, alive: !contains_id(dead, window.id) });
                n = n + 1;
            }
            proof {
                assert(listed@ =~= all);
            }
            r.push(listed);
            i = i + 1;
        }
        r
    }

    /// Go to a window that was picked in the overview: its workspace is switched
    /// to, and it gets the keyboard, where it is on it. `alive` says whether the
    /// window is still there; `output_geo` is the geometry of the focused output.
    pub fn activate_overview_item(
        &mut self,
        item: OverviewItem,
        alive: bool,
        output_geo: Option<Rect>,
    ) -> (r: Vec<Step>)
        requires
            old(self).wf(),
        ensures
            final(self).wf(),
            item_activated(*old(self), *final(self), item, alive, output_geo, r@),
            alive && item.workspace < old(self).workspaces@.len()
                && old(self).outputs.outputs@.len() > 0 ==> final(self).active() == item.workspace,
    {
        if !alive {
            return Vec::new();
        }
        let mut steps: Vec<Step> = Vec::new();
        if item.workspace != self.outputs.active_workspace() {
            steps = self.switch_workspace(item.workspace, output_geo);
            proof {
                if item.workspace < old(self).workspaces@.len() && old(
                    self,
                ).outputs.outputs@.len() > 0 {
                    switching_shows_the_workspace(
                        *old(self),
                        *self,
                        item.workspace,
                        output_geo,
                        steps@,
                    );
                }
            }
        }
        let ghost switched = steps@;
        let active: usize = self.outputs.active_workspace();
        let mut focus: Vec<Step> = match window_index_for_root(
            &self.workspaces[active].windows,
            item.root,
        ) {
            Some(idx) => self.focus_active_workspace_window(idx),
            None => Vec::new(),
        };
        proof {
            assert(focus@ =~= focus_steps_at(
                self.here().windows@,
                index_with_root(self.here().windows@, item.root),
                self.floating(),
            ));
        }
        steps.append(&mut focus);
        proof {
            let n = switched.len() as int;
            assert(steps@.subrange(0, n) =~= switched);
            assert(steps@.subrange(n, steps@.len() as int) =~= focus_steps_at(
                self.here().windows@,
                index_with_root(self.here().windows@, item.root),
                self.floating(),
            ));
        }
        steps
    }

    /// Give the keyboard to the window that the active workspace remembers.
    pub fn focus_current_window(&self) -> (r: Vec<Step>)
        requires
            self.wf(),
        ensures
            r@ == match self.here().focused_idx {
                Some(idx) => focus_steps_at(
                    self.here().windows@,
                    Some(idx as int),
                    self.floating(),
                ),
                None => Seq::empty(),
            },
    {
        let active: usize = self.outputs.active_workspace();
        match self.workspaces[active].focused_idx {
            Some(idx) => self.focus_active_workspace_window(idx),
            None => Vec::new(),
        }
    }

    /// Give the keyboard to the next tile, or to the previous one. `ordered` are
    /// the tiles as they lie on screen; where there are none, the windows take
    /// turns by age.
    pub fn focus_in_cycle(
        &mut self,
        forward: bool,
        ordered: &Vec<u64>,
        keyboard_root: Option<u64>,
    ) -> (r: Vec<Step>)
        requires
            old(self).wf(),
        ensures
            final(self).wf(),
            focus_cycled(*old(self), *final(self), forward, ordered@, keyboard_root, r@),
    {
        let active: usize = self.outputs.active_workspace();
        if ordered.len() == 0 {
            if forward {
                self.workspaces[active].focus_next();
            } else {
                self.workspaces[active].focus_prev();
            }
            return self.focus_current_window();
        }
        let focused = focused_tiled_window_root(
            &self.workspaces,
            &self.grabs.floating,
            active,
            keyboard_root,
        );
        let current = find_place(ordered, focused);
        let next: usize = cycle_position(current, ordered.len(), forward);
        match window_index_for_root(&self.workspaces[active].windows, ordered[next]) {
            Some(idx) => self.focus_active_workspace_window(idx),
            None => Vec::new(),
        }
    }

    /// Give the keyboard to the nearest window in a direction. `geometries` are
    /// those of the windows of the active workspace, where they are shown.
    pub fn focus_window_in_direction(
        &self,
        geometries: &Vec<Option<Rect>>,
        direction: FocusDirection,
        keyboard_root: Option<u64>,
    ) -> (r: Vec<Step>)
        requires
            self.wf(),
            geometries.len() == self.here().windows@.len(),
        ensures
            exists|current: Option<usize>, target: Option<usize>|
                match current {
                    Some(idx) => focused_here(self.here(), keyboard_root) == Some(idx as int),
                    None => focused_here(self.here(), keyboard_root) is None,
                } && #[trigger] is_nearest(current, geometries@, direction, target) && r@
                    == match target {
                    Some(idx) => focus_steps_at(
                        self.here().windows@,
                        Some(idx as int),
                        self.floating(),
                    ),
                    None => Seq::empty(),
                },
    {
        let current = self.active_workspace_focused_index(keyboard_root);
        let target = focus_in_direction(current, geometries, direction);
        match target {
            Some(idx) => {
                let steps = self.focus_active_workspace_window(idx);
                proof {
                    assert(is_nearest(current, geometries@, direction, Some(idx)));
                }
                steps
            },
            None => {
                let steps: Vec<Step> = Vec::new();
                proof {
                    assert(is_nearest(current, geometries@, direction, None));
                    assert(steps@ =~= Seq::<Step>::empty());
                }
                steps
            },
        }
    }

    /// The keyboard went to another surface, or nowhere: the active workspace
    /// remembers the window, where it is one of its own, and the old and the new
    /// one are told.
    pub fn keyboard_focus_changed(&mut self, focused_root: Option<u64>) -> (r: FocusChange)
        requires
            old(self).wf(),
        ensures
            final(self).wf(),
            final(self).outputs == old(self).outputs,
            final(self).grabs == old(self).grabs,
            final(self).books == old(self).books,
            ({
                let before = old(self).here();
                let found = index_with_root(before.windows@, focused_root->0);
                let new_idx = if focused_root is Some && found is Some {
                    Some(found->0 as usize)
                } else {
                    None
                };
                &&& r.deactivate == if new_idx != before.focused_idx {
                    before.focused_idx
                } else {
                    None
                }
                &&& r.activate == if new_idx != before.focused_idx {
                    new_idx
                } else {
                    None
                }
                &&& final(self).workspaces@.len() == old(self).workspaces@.len()
                &&& forall|k: int|
                    0 <= k < old(self).workspaces@.len() && k != old(self).active()
                        ==> #[trigger] final(self).workspaces@[k] == old(self).workspaces@[k]
                &&& final(self).here().windows@ == before.windows@
                &&& final(self).here().fullscreen == before.fullscreen
                &&& final(self).here().focused_idx == if new_idx is Some {
                    new_idx
                } else {
                    before.focused_idx
                }
            }),
    {
        let active: usize = self.outputs.active_workspace();
        let new_idx = match focused_root {
            Some(root) => window_index_for_root(&self.workspaces[active].windows, root),
            None => None,
        };
        let change = note_keyboard_focus_change(self.workspaces[active].focused_idx, new_idx);
        self.workspaces[active].focused_idx = change.focused_idx;
        change
    }
}

/// What a workspace remembers agrees with the keyboard: once the keyboard has
/// gone to one of its windows, that window is the one it remembers.
pub proof fn the_memory_agrees_with_the_keyboard(
    before: Workspace<WindowRef>,
    after: Workspace<WindowRef>,
    root: u64,
)
    requires
        index_with_root(before.windows@, root) is Some,
        before.windows@.len() <= usize::MAX,
        after.windows@ == before.windows@,
        after.focused_idx == Some(index_with_root(before.windows@, root)->0 as usize),
    ensures
        focused_here(after, Some(root)) == Some(after.focused_idx->0 as int),
        focused_here(after, None) == focused_here(after, Some(root)),
        after.windows@[focused_here(after, None)->0].root == Some(root),
{
    lemma_index_with_root(before.windows@, root);
}

/// The keyboard comes back to where it was after a step forth and a step back
/// through the tiles.
pub proof fn tiles_are_cycled_both_ways(ordered: Seq<u64>, root: u64)
    requires
        ordered.len() <= usize::MAX,
        ordered.no_duplicates(),
        ordered.contains(root),
    ensures
        ({
            let len = ordered.len() as int;
            let next = ordered[cycled(place_of(ordered, Some(root)), len, true)];
            ordered[cycled(place_of(ordered, Some(next)), len, false)] == root
        }),
{
    let len = ordered.len() as int;
    ordered.index_of_first_ensures(root);
    let pos = ordered.index_of_first(root)->0;
    crate::state::focus::cycling_forth_and_back_is_nothing(pos as usize, len as usize);
    let next = cycled(Some(pos as usize), len, true);
    assert(ordered.contains(ordered[next]));
    ordered.index_of_first_ensures(ordered[next]);
    assert(ordered.index_of_first(ordered[next])->0 == next);
}

/// The overview is told of each window in its place, and of which of them live.
pub proof fn dead_windows_are_told_from_the_living(
    windows: Seq<WindowRef>,
    dead: Seq<u64>,
    i: int,
)
    requires
        0 <= i < windows.len(),
    ensures
        listed_windows(windows, dead).len() == windows.len(),
        listed_windows(windows, dead)[i].window == windows[i],
        dead.contains(windows[i].id) ==> !listed_windows(windows, dead)[i].alive,
        !dead.contains(windows[i].id) ==> listed_windows(windows, dead)[i].alive,
{
}

} // verus!
