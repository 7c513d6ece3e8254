//! The tiles that the layout holds, as the listed steps leave them: only windows
//! of a workspace have a tile on it.
use crate::geometry::Rect;
use crate::state::desktop::{exit_fullscreen_steps, float_steps, remap_hidden, Desktop, Step};
use crate::state::lifecycle::{
    fills_screen_of, remembered_root, removal_steps, toplevel_removed, window_mapped,
    window_with_root, MapFacts,
};
use crate::state::moves::{focused_here, make_room_steps, move_steps, moved_to_workspace};
use crate::state::tiling::{
    fills_a_screen, index_with_root, lemma_index_with_root, lemma_workspace_with_root, roots_of,
    split_target, tiled_window_roots_in_workspace, workspace_with_root, Workspace,
};
use crate::types::{FloatingWindowData, WindowRef};
use vstd::prelude::*;

verus! {

/// The tiles after a step; a tile is a workspace and the root of its window.
pub open spec fn tiles_after_step(tiles: Set<(usize, u64)>, step: Step) -> Set<(usize, u64)> {
    match step {
        Step::InsertTile { workspace, root, split: _ } => tiles.insert((workspace, root)),
        Step::RemoveTile { workspace, root } => tiles.remove((workspace, root)),
        _ => tiles,
    }
}

/// The tiles after all the steps.
pub open spec fn tiles_after(tiles: Set<(usize, u64)>, steps: Seq<Step>) -> Set<(usize, u64)>
    decreases steps.len(),
{
    if steps.len() == 0 {
        tiles
    } else {
        tiles_after_step(tiles_after(tiles, steps.drop_last()), steps.last())
    }
}

/// Whether every tile belongs to a window of its workspace.
pub open spec fn tiles_are_windows(
    tiles: Set<(usize, u64)>,
    workspaces: Seq<Workspace<WindowRef>>,
) -> bool {
    forall|workspace: usize, root: u64| #[trigger]
        tiles.contains((workspace, root)) ==> workspace < workspaces.len() && index_with_root(
            workspaces[workspace as int].windows@,
            root,
        ) is Some
}

/// Whether a step leaves the tiles alone.
pub open spec fn keeps_tiles(step: Step) -> bool {
    !(step is InsertTile) && !(step is RemoveTile)
}

proof fn lemma_tiles_after_concat(tiles: Set<(usize, u64)>, a: Seq<Step>, b: Seq<Step>)
    ensures
        tiles_after(tiles, a + b) == tiles_after(tiles_after(tiles, a), b),
    decreases b.len(),
{
    if b.len() == 0 {
        assert(a + b =~= a);
    } else {
        assert((a + b).drop_last() =~= a + b.drop_last());
        assert((a + b).last() == b.last());
        lemma_tiles_after_concat(tiles, a, b.drop_last());
    }
}

proof fn lemma_tiles_kept(tiles: Set<(usize, u64)>, steps: Seq<Step>)
    requires
        forall|i: int| 0 <= i < steps.len() ==> keeps_tiles(#[trigger] steps[i]),
    ensures
        tiles_after(tiles, steps) == tiles,
    decreases steps.len(),
{
    if steps.len() > 0 {
        let rest = steps.drop_last();
        assert forall|i: int| 0 <= i < rest.len() implies keeps_tiles(#[trigger] rest[i]) by {
            assert(rest[i] == steps[i]);
        }
        lemma_tiles_kept(tiles, rest);
        assert(keeps_tiles(steps[steps.len() - 1]));
    }
}

proof fn lemma_remap_keeps_tiles(windows: Seq<WindowRef>, shown: Seq<u64>, also: Option<u64>)
    ensures
        forall|i: int|
            0 <= i < remap_hidden(windows, shown, also).len() ==> keeps_tiles(
                #[trigger] remap_hidden(windows, shown, also)[i],
            ),
    decreases windows.len(),
{
    if windows.len() > 0 {
        lemma_remap_keeps_tiles(windows.drop_last(), shown, also);
        let rest = remap_hidden(windows.drop_last(), shown, also);
        let all = remap_hidden(windows, shown, also);
        assert forall|i: int| 0 <= i < all.len() implies keeps_tiles(#[trigger] all[i]) by {
            if i < rest.len() {
                assert(all[i] == rest[i]);
            }
        }
    }
}

proof fn lemma_exit_keeps_tiles(
    window: WindowRef,
    windows: Seq<WindowRef>,
    floating: Map<u64, FloatingWindowData>,
    shown: Seq<u64>,
    relayout: bool,
)
    ensures
        forall|i: int|
            0 <= i < exit_fullscreen_steps(window, windows, floating, shown, relayout).len()
                ==> keeps_tiles(
                #[trigger] exit_fullscreen_steps(window, windows, floating, shown, relayout)[i],
            ),
{
    lemma_remap_keeps_tiles(windows, shown, Some(window.id));
    lemma_remap_keeps_tiles(windows, shown, None);
}

/// Taking a window out leaves no tile of it in its workspace, and every other
/// tile in place.
proof fn lemma_tiles_after_removal(
    tiles: Set<(usize, u64)>,
    window: WindowRef,
    root: u64,
    workspace_idx: int,
    after: Workspace<WindowRef>,
    was_fullscreen: bool,
    active: int,
    restore_focus: bool,
    focus: Option<u64>,
    shown: Seq<u64>,
)
    ensures
        tiles_after(
            tiles,
            removal_steps(
                window,
                root,
                workspace_idx,
                after,
                was_fullscreen,
                active,
                restore_focus,
                focus,
                shown,
            ),
        ) == tiles.remove((workspace_idx as usize, root)),
{
    let siblings = if was_fullscreen {
        remap_hidden(after.windows@, shown, None)
    } else {
        Seq::empty()
    };
    lemma_remap_keeps_tiles(after.windows@, shown, None);
    let first = seq![Step::ForgetAnimation { root }] + siblings;
    lemma_tiles_kept(tiles, first);
    let refocus = if restore_focus { seq![Step::Focus { root: focus }] } else { Seq::empty() };
    let end = if workspace_idx == active {
        refocus + seq![Step::Relayout, Step::Render]
    } else {
        Seq::empty()
    };
    let remove = Step::RemoveTile { workspace: workspace_idx as usize, root };
    let last = seq![Step::Hide { window: window.id }, Step::PublishWorkspaces] + end;
    let less = tiles.remove((workspace_idx as usize, root));
    lemma_tiles_kept(less, last);
    assert(first.push(remove).drop_last() =~= first);
    assert(tiles_after(tiles, first.push(remove)) == less);
    lemma_tiles_after_concat(tiles, first.push(remove), last);
    assert(removal_steps(
        window,
        root,
        workspace_idx,
        after,
        was_fullscreen,
        active,
        restore_focus,
        focus,
        shown,
    ) =~= first.push(remove) + last);
}

/// However a window leaves the desktop, the layout keeps no tile for it on its
/// workspace: tiles belong to windows that are there.
#[verifier::spinoff_prover]
#[verifier::rlimit(40)]
pub proof fn removal_keeps_tiles_to_windows(
    tiles: Set<(usize, u64)>,
    before: Desktop,
    after: Desktop,
    root: u64,
    keyboard_root: Option<u64>,
    parent_root: Option<u64>,
    shown: Seq<u64>,
    steps: Seq<Step>,
)
    requires
        before.wf(),
        tiles_are_windows(tiles, before.workspaces@),
        toplevel_removed(before, after, root, keyboard_root, parent_root, shown, steps),
    ensures
        tiles_are_windows(tiles_after(tiles, steps), after.workspaces@),
        match workspace_with_root(before.workspaces@, root) {
            Some(w) => !tiles_after(tiles, steps).contains((w as usize, root)),
            None => tiles_after(tiles, steps) == tiles,
        },
{
    let was = before.workspaces@;
    let now = after.workspaces@;
    lemma_workspace_with_root(was, root);
    if workspace_with_root(was, root) is Some {
        let w = workspace_with_root(was, root)->0;
        assert(w < before.workspaces.len());
        let pos = index_with_root(was[w].windows@, root)->0;
        lemma_index_with_root(was[w].windows@, root);
        let parent_mapped = parent_root is Some && after.books.window_lookup@.dom().contains(
            parent_root->0,
        );
        lemma_tiles_after_removal(
            tiles,
            window_with_root(was, root)->0,
            root,
            w,
            now[w],
            fills_screen_of(was[w], root),
            before.active(),
            keyboard_root is None || keyboard_root == Some(root),
            if parent_mapped { parent_root } else { remembered_root(after.here()) },
            shown,
        );
        assert forall|workspace: usize, r: u64| #[trigger]
            tiles_after(tiles, steps).contains((workspace, r)) implies workspace < now.len()
            && index_with_root(now[workspace as int].windows@, r) is Some by {
            assert(tiles.contains((workspace, r)));
            lemma_index_with_root(was[workspace as int].windows@, r);
            lemma_index_with_root(now[workspace as int].windows@, r);
            if workspace == w {
                let i = index_with_root(was[w].windows@, r)->0;
                assert(r != root);
                let j = if i < pos { i } else { i - 1 };
                assert(now[w].windows@[j] == was[w].windows@[i]);
            }
        }
    }
}

/// Mapping a window gives a tile to no other one.
pub proof fn mapping_keeps_tiles_to_windows(
    tiles: Set<(usize, u64)>,
    before: Desktop,
    after: Desktop,
    window: WindowRef,
    root: u64,
    facts: MapFacts,
    steps: Seq<Step>,
)
    requires
        before.wf(),
        window.root == Some(root),
        tiles_are_windows(tiles, before.workspaces@),
        window_mapped(before, after, window, root, facts, steps),
    ensures
        tiles_are_windows(tiles_after(tiles, steps), after.workspaces@),
{
    let was = before.workspaces@;
    let now = after.workspaces@;
    let active = before.active();
    assert(active < before.workspaces.len());
    let now_tiles = tiles_after(tiles, steps);
    lemma_tiles_inserted(tiles, steps, active as usize, root);
    assert forall|workspace: usize, r: u64| #[trigger]
        now_tiles.contains((workspace, r)) implies workspace < now.len() && index_with_root(
        now[workspace as int].windows@,
        r,
    ) is Some by {
        lemma_index_with_root(now[workspace as int].windows@, r);
        lemma_index_with_root(was[workspace as int].windows@, r);
        if tiles.contains((workspace, r)) {
            let i = index_with_root(was[workspace as int].windows@, r)->0;
            assert(now[workspace as int].windows@[i] == was[workspace as int].windows@[i]);
        } else {
            assert(now[active].windows@.last() == window);
        }
    }
}

/// Steps that insert no tile but one give no other one.
proof fn lemma_tiles_inserted(
    tiles: Set<(usize, u64)>,
    steps: Seq<Step>,
    workspace: usize,
    root: u64,
)
    requires
        forall|i: int|
            0 <= i < steps.len() ==> match #[trigger] steps[i] {
                Step::InsertTile { workspace: w, root: r, split: _ } => w == workspace && r == root,
                _ => true,
            },
    ensures
        forall|t: (usize, u64)| #[trigger]
            tiles_after(tiles, steps).contains(t) ==> tiles.contains(t) || t == (workspace, root),
    decreases steps.len(),
{
    if steps.len() > 0 {
        let rest = steps.drop_last();
        assert forall|i: int| 0 <= i < rest.len() implies match #[trigger] rest[i] {
            Step::InsertTile { workspace: w, root: r, split: _ } => w == workspace && r == root,
            _ => true,
        } by {
            assert(rest[i] == steps[i]);
        }
        lemma_tiles_inserted(tiles, rest, workspace, root);
        let last = steps[steps.len() - 1];
        assert forall|t: (usize, u64)| #[trigger]
            tiles_after(tiles, steps).contains(t) implies tiles.contains(t) || t == (
            workspace,
            root,
        ) by {
            assert(match last {
                Step::InsertTile { workspace: w, root: r, split: _ } => w == workspace && r == root,
                _ => true,
            });
            assert(tiles_after(tiles, rest).contains(t) || t == (workspace, root));
        }
    }
}

/// The steps that move a window take its tile from where it was; they give at
/// most one, to it, where it goes.
proof fn lemma_tiles_after_move(
    tiles: Set<(usize, u64)>,
    window: WindowRef,
    from: usize,
    to: usize,
    may_tile: bool,
    split: Option<u64>,
    focus: Option<u64>,
)
    ensures
        ({
            let after = tiles_after(tiles, move_steps(window, from, to, may_tile, split, focus));
            match window.root {
                None => after == tiles,
                Some(root) => forall|t: (usize, u64)| #[trigger]
                    after.contains(t) ==> (tiles.contains(t) && t != (from, root)) || t == (
                        to,
                        root,
                    ),
            }
        }),
{
    let moved = move_steps(window, from, to, may_tile, split, focus);
    match window.root {
        Some(root) => {
            let first = moved.take(2);
            let last = moved.skip(2);
            assert(moved =~= first + last);
            assert(first[0] == Step::Hide { window: window.id });
            assert(first[1] == Step::RemoveTile { workspace: from, root });
            let less = tiles.remove((from, root));
            assert(first.drop_last() =~= seq![first[0]]);
            lemma_tiles_kept(tiles, first.drop_last());
            assert(tiles_after(tiles, first) == less);
            lemma_tiles_after_concat(tiles, first, last);
            lemma_tiles_inserted(less, last, to, root);
        },
        None => {
            lemma_tiles_kept(tiles, moved);
        },
    }
}

/// Moving a window takes its tile along: none stays where it was.
pub proof fn moving_keeps_tiles_to_windows(
    tiles: Set<(usize, u64)>,
    before: Desktop,
    after: Seq<Workspace<WindowRef>>,
    target: usize,
    keyboard_root: Option<u64>,
    shown: Seq<u64>,
    steps: Seq<Step>,
)
    requires
        before.wf(),
        tiles_are_windows(tiles, before.workspaces@),
        moved_to_workspace(before, after, target, keyboard_root, shown, steps),
    ensures
        tiles_are_windows(tiles_after(tiles, steps), after),
{
    let was = before.workspaces@;
    let active = before.active();
    let here = was[active];
    assert(active < before.workspaces.len());
    let room = make_room_steps(here, true, before.floating(), shown);
    if here.fullscreen is Some {
        lemma_exit_keeps_tiles(
            here.fullscreen->0,
            here.windows@,
            before.floating(),
            shown,
            true,
        );
    }
    lemma_tiles_kept(tiles, room);
    let focused = focused_here(here, keyboard_root);
    if target >= was.len() || target == active {
    } else if focused is None || focused->0 >= here.windows@.len() {
        assert forall|workspace: usize, r: u64| #[trigger]
            tiles.contains((workspace, r)) implies workspace < after.len() && index_with_root(
            after[workspace as int].windows@,
            r,
        ) is Some by {}
    } else {
        let pos = focused->0;
        if keyboard_root is Some {
            lemma_index_with_root(here.windows@, keyboard_root->0);
        }
        let window = here.windows@[pos];
        let t = target as int;
        let floats = window.root is Some && before.floating().dom().contains(window.root->0);
        let full = window.root is Some && fills_a_screen(after, window.root->0);
        let split = split_target(after.update(t, was[t]), before.floating(), t, None);
        let focus = remembered_root(after[active]);
        let moved = move_steps(window, active as usize, target, !floats && !full, split, focus);
        assert(steps == room + moved);
        lemma_tiles_after_concat(tiles, room, moved);
        lemma_tiles_after_move(
            tiles,
            window,
            active as usize,
            target,
            !floats && !full,
            split,
            focus,
        );
        let now_tiles = tiles_after(tiles, steps);
        assert(now_tiles == tiles_after(tiles, moved));
        assert forall|workspace: usize, r: u64| #[trigger]
            now_tiles.contains((workspace, r)) implies workspace < after.len() && index_with_root(
            after[workspace as int].windows@,
            r,
        ) is Some by {
            lemma_moved_window_found(was, after, active, t, pos, workspace, r);
            if window.root is Some && (workspace, r) == (target, window.root->0) {
                assert(after[t].windows@.last() == window);
                lemma_index_with_root(after[t].windows@, r);
            } else {
                assert(tiles.contains((workspace, r)));
            }
        }
    }
}

/// A window other than the one that was moved is found where it was.
proof fn lemma_moved_window_found(
    was: Seq<Workspace<WindowRef>>,
    now: Seq<Workspace<WindowRef>>,
    active: int,
    target: int,
    pos: int,
    workspace: usize,
    root: u64,
)
    requires
        0 <= active < was.len(),
        0 <= target < was.len(),
        target != active,
        0 <= pos < was[active].windows@.len(),
        now.len() == was.len(),
        now[active].windows@ == was[active].windows@.remove(pos),
        now[target].windows@ == was[target].windows@.push(was[active].windows@[pos]),
        forall|k: int|
            0 <= k < was.len() && k != active && k != target ==> #[trigger] now[k] == was[k],
    ensures
        workspace < was.len() && index_with_root(was[workspace as int].windows@, root) is Some && (
        workspace != active || was[active].windows@[pos].root != Some(root)) ==> index_with_root(
            now[workspace as int].windows@,
            root,
        ) is Some,
{
    if workspace < was.len() && index_with_root(was[workspace as int].windows@, root) is Some && (
    workspace != active || was[active].windows@[pos].root != Some(root)) {
        let w = workspace as int;
        lemma_index_with_root(was[w].windows@, root);
        lemma_index_with_root(now[w].windows@, root);
        let i = index_with_root(was[w].windows@, root)->0;
        if w == active {
            let j = if i < pos { i } else { i - 1 };
            assert(now[w].windows@[j] == was[w].windows@[i]);
        } else if w == target {
            assert(now[w].windows@[i] == was[w].windows@[i]);
        }
    }
}

/// A window that starts to float loses its tile on the active workspace.
pub proof fn floating_gives_up_the_tile(
    tiles: Set<(usize, u64)>,
    window: WindowRef,
    workspace: usize,
    output_geo: Option<Rect>,
)
    requires
        window.root is Some,
        output_geo is Some,
    ensures
        tiles_after(tiles, float_steps(window, workspace, output_geo)) == tiles.remove(
            (workspace, window.root->0),
        ),
{
    let steps = float_steps(window, workspace, output_geo);
    let first = steps.take(1);
    let second = steps.take(2);
    let rest = steps.skip(2);
    assert(steps =~= second + rest);
    assert(second.drop_last() =~= first);
    lemma_tiles_kept(tiles, first);
    assert(second.last() == Step::RemoveTile { workspace, root: window.root->0 });
    lemma_tiles_after_concat(tiles, second, rest);
    lemma_tiles_kept(tiles.remove((workspace, window.root->0)), rest);
}

/// A tile for each of the windows with these roots.
pub open spec fn insert_all(roots: Seq<u64>, workspace: usize) -> Seq<Step> {
    roots.map_values(|root: u64| Step::InsertTile { workspace, root, split: None })
}

/// The steps that fill a new layout with the tiled windows of the first `n`
/// workspaces, in order.
pub open spec fn rebuild_steps(desktop: Desktop, n: int) -> Seq<Step>
    decreases n,
{
    if n <= 0 {
        Seq::empty()
    } else {
        rebuild_steps(desktop, n - 1) + insert_all(
            roots_of(desktop.tiled(n - 1)),
            (n - 1) as usize,
        )
    }
}

impl Desktop {
    /// The layout was replaced by an empty one: give every tiled window its tile
    /// again.
    pub fn rebuild_layout(&self) -> (r: Vec<Step>)
        requires
            self.wf(),
        ensures
            r@ == rebuild_steps(*self, self.workspaces@.len() as int),
    {
        let mut steps: Vec<Step> = Vec::new();
        let mut w: usize = 0;
        while w < self.workspaces.len()
            invariant
                w <= self.workspaces.len(),
                self.wf(),
                steps@ == rebuild_steps(*self, w as int),
            decreases self.workspaces.len() - w,
        {
            let ghost before = steps@;
            let roots = tiled_window_roots_in_workspace(
                &self.workspaces,
                &self.grabs.floating,
                w,
            );
            proof {
                assert(roots@ == roots_of(self.tiled(w as int)));
            }
            let ghost inserts = insert_all(roots@, w);
            let mut i: usize = 0;
            while i < roots.len()
                invariant
                    i <= roots.len(),
                    inserts == insert_all(roots@, w),
                    steps@ =~= before + inserts.subrange(0, i as int),
                decreases roots.len() - i,
            {
                steps.push(Step::InsertTile { workspace: w, root: roots[i], split: None });
                i = i + 1;
            }
            proof {
                assert(inserts.subrange(0, i as int) =~= inserts);
            }
            w = w + 1;
        }
        steps
    }
}

proof fn lemma_tiles_after_insert_all(tiles: Set<(usize, u64)>, roots: Seq<u64>, workspace: usize)
    ensures
        forall|t: (usize, u64)| #[trigger]
            tiles_after(tiles, insert_all(roots, workspace)).contains(t) <==> tiles.contains(t) || (
            t.0 == workspace && roots.contains(t.1)),
    decreases roots.len(),
{
    let steps = insert_all(roots, workspace);
    if roots.len() > 0 {
        let rest = roots.drop_last();
        lemma_tiles_after_insert_all(tiles, rest, workspace);
        assert(steps.drop_last() =~= insert_all(rest, workspace));
        assert(steps.last() == Step::InsertTile { workspace, root: roots.last(), split: None });
        assert forall|r: u64| roots.contains(r) <==> rest.contains(r) || r == roots.last() by {
            if roots.contains(r) {
                let k = choose|k: int| 0 <= k < roots.len() && roots[k] == r;
                if k < rest.len() {
                    assert(rest[k] == r);
                }
            }
            if rest.contains(r) {
                let k = choose|k: int| 0 <= k < rest.len() && rest[k] == r;
                assert(roots[k] == r);
            }
            assert(roots[roots.len() - 1] == roots.last());
        }
        let before = tiles_after(tiles, insert_all(rest, workspace));
        assert(tiles_after(tiles, steps) == before.insert((workspace, roots.last())));
        assert forall|t: (usize, u64)| #[trigger]
            tiles_after(tiles, steps).contains(t) <==> tiles.contains(t) || (t.0 == workspace
                && roots.contains(t.1)) by {
            assert(before.contains(t) <==> tiles.contains(t) || (t.0 == workspace && rest.contains(
                t.1,
            )));
            assert(roots.contains(t.1) <==> rest.contains(t.1) || t.1 == roots.last());
        }
    }
}

/// When the layout is replaced no tiled window is lost, and nothing else gets a
/// tile.
pub proof fn a_new_layout_holds_every_tiled_window(desktop: Desktop, n: int)
    requires
        0 <= n <= desktop.workspaces@.len(),
        desktop.workspaces@.len() <= usize::MAX,
    ensures
        forall|t: (usize, u64)| #[trigger]
            tiles_after(Set::empty(), rebuild_steps(desktop, n)).contains(t) <==> t.0 < n
                && roots_of(desktop.tiled(t.0 as int)).contains(t.1),
    decreases n,
{
    if n > 0 {
        a_new_layout_holds_every_tiled_window(desktop, n - 1);
        let before = tiles_after(Set::empty(), rebuild_steps(desktop, n - 1));
        let roots = roots_of(desktop.tiled(n - 1));
        lemma_tiles_after_concat(
            Set::empty(),
            rebuild_steps(desktop, n - 1),
            insert_all(roots, (n - 1) as usize),
        );
        lemma_tiles_after_insert_all(before, roots, (n - 1) as usize);
    }
}

} // verus!
