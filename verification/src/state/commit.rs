//! What a commit of a surface leads to, and smaller answers to clients.
use crate::diagnostics::BufferKind;
use crate::geometry::Size;
use crate::state::desktop::{Desktop, Step};
use crate::state::lifecycle::{
    remembered_focus, remembered_root, unmaps, window_committed, window_mapped, MapFacts,
};
use crate::state::session::Constraint;
use crate::state::tiling::index_with_root;
use crate::types::FloatingWindowData;
use vstd::prelude::*;

verus! {

/// The committed surface belongs to a layer of the focused output.
#[derive(Debug, Clone, Copy, PartialEq, Eq, Structural)]
pub struct LayerCommit {
    /// It wants the keyboard.
    pub interactive: bool,
    /// It has it.
    pub focused: bool,
}

/// What is known of a commit.
#[derive(Debug, Clone, Copy, PartialEq, Eq, Structural)]
pub struct CommitFacts {
    /// The root of the committed surface.
    pub root: u64,
    /// The committed surface is that of a window's own Wayland toplevel: neither
    /// one below it nor one of an X11 window.
    pub own_toplevel: bool,
    /// The root is a surface of the lock screen.
    pub lock_surface: bool,
    pub has_buffer: bool,
    /// What is known of the window, where the commit maps it.
    pub map: MapFacts,
    /// Where the window would float at its present size.
    pub recentered: Option<FloatingWindowData>,
    /// The root of the window's parent.
    pub parent_root: Option<u64>,
    pub layer: Option<LayerCommit>,
    pub has_keyboard: bool,
}

/// What a commit leads to.
#[derive(Debug)]
pub struct CommitReply {
    pub steps: Vec<Step>,
    /// The layers of the output are to be arranged anew.
    pub arrange_layers: bool,
    /// The layer surface gets the keyboard.
    pub focus_layer: bool,
}

/// Whether a window waits for this commit to be mapped.
pub open spec fn maps_window(desktop: Desktop, facts: CommitFacts) -> bool {
    facts.own_toplevel && index_with_root(desktop.books.pending_windows@, facts.root) is Some
}

/// Whether the commit ends with the window: it was mapped or unmapped by it, or
/// only the lock screen is of interest.
pub open spec fn ends_with_window(desktop: Desktop, facts: CommitFacts, locked: bool) -> bool {
    ||| locked && facts.lock_surface
    ||| maps_window(desktop, facts)
    ||| desktop.books.window_lookup@.dom().contains(facts.root) && unmaps(
        desktop,
        facts.root,
        facts.own_toplevel,
        facts.has_buffer,
    )
}

/// What a commit of a surface does to the desktop, and what it leads to.
pub open spec fn surface_committed(
    before: Desktop,
    after: Desktop,
    facts: CommitFacts,
    locked: bool,
    shown: Seq<u64>,
    r: CommitReply,
) -> bool {
    &&& {
        let root = facts.root;
        let known = before.books.window_lookup@.dom().contains(root);
        let ends = ends_with_window(before, facts, locked);
        let on_layer = !ends && facts.layer is Some;
        let steps = if on_layer { r.steps@.drop_last() } else { r.steps@ };
        &&& r.arrange_layers == on_layer
        &&& r.focus_layer == (on_layer && facts.layer->0.interactive && facts.has_keyboard
            && !facts.layer->0.focused)
        &&& on_layer ==> r.steps@.len() > 0 && r.steps@.last() == Step::Render
        &&& if locked && facts.lock_surface {
            steps == seq![Step::Render] && after == before
        } else if maps_window(before, facts) {
            window_mapped(
                before,
                after,
                before.books.pending_windows@[index_with_root(
                    before.books.pending_windows@,
                    root,
                )->0],
                root,
                facts.map,
                steps,
            )
        } else if known {
            window_committed(
                before,
                after,
                before.books.window_lookup@[root],
                root,
                facts.own_toplevel,
                facts.has_buffer,
                facts.recentered,
                facts.map.keyboard_root,
                facts.parent_root,
                shown,
                steps,
            )
        } else {
            steps.len() == 0 && after == before
        }
    }
}

impl Desktop {
    /// A client committed a surface. A lock surface only has to be drawn; a
    /// window that waits is mapped; a mapped one is brought up to date; after
    /// that, a layer surface is arranged, and gets the keyboard where it wants
    /// it.
    pub fn commit(&mut self, facts: CommitFacts, locked: bool, shown: &Vec<u64>) -> (r: CommitReply)
        requires
            old(self).wf(),
        ensures
            final(self).wf(),
            surface_committed(*old(self), *final(self), facts, locked, shown@, r),
    {
        let mut steps: Vec<Step> = Vec::new();
        if locked && facts.lock_surface {
            steps.push(Step::Render);
            proof {
                assert(steps@ =~= seq![Step::Render]);
            }
            return CommitReply { steps, arrange_layers: false, focus_layer: false };
        }
        if facts.own_toplevel {
            if let Some(steps) = self.map_pending_window(facts.root, facts.map) {
                return CommitReply { steps, arrange_layers: false, focus_layer: false };
            }
        }
        if let Some(window) = self.books.window_lookup.get(facts.root) {
            let leaves = facts.own_toplevel && !facts.has_buffer
                && self.books.mapped_with_buffer.contains(facts.root);
            steps = self.commit_mapped_window(
                window,
                facts.root,
                facts.own_toplevel,
                facts.has_buffer,
                facts.recentered,
                facts.map.keyboard_root,
                facts.parent_root,
                shown,
            );
            if leaves {
                return CommitReply { steps, arrange_layers: false, focus_layer: false };
            }
        }
        match facts.layer {
            Some(layer) => {
                let ghost before = steps@;
                steps.push(Step::Render);
                proof {
                    assert(steps@.drop_last() =~= before);
                }
                CommitReply {
                    steps,
                    arrange_layers: true,
                    focus_layer: layer.interactive && facts.has_keyboard && !layer.focused,
                }
            },
            None => CommitReply { steps, arrange_layers: false, focus_layer: false },
        }
    }

    /// A client renamed a window: that is published only where the window has
    /// the focus, so that others do not flicker through.
    pub fn title_changed(&self, root: u64, keyboard_root: Option<u64>) -> (publish: bool)
        requires
            self.wf(),
        ensures
            ({
                let idx = crate::state::moves::focused_here(self.here(), keyboard_root);
                publish == (idx is Some && idx->0 < self.here().windows@.len()
                    && self.here().windows@[idx->0].root == Some(root))
            }),
    {
        match self.active_workspace_focused_window(keyboard_root) {
            Some(window) => match window.root {
                Some(focused) => focused == root,
                None => false,
            },
            None => false,
        }
    }

    /// A layer surface is gone: the keyboard goes back to the window that the
    /// active workspace remembers.
    pub fn layer_destroyed(&self) -> (r: Vec<Step>)
        requires
            self.wf(),
        ensures
            r@ == seq![Step::Render, Step::Focus { root: remembered_root(self.here()) }],
    {
        let active: usize = self.outputs.active_workspace();
        let mut steps: Vec<Step> = Vec::new();
        steps.push(Step::Render);
        steps.push(Step::Focus { root: remembered_focus(&self.workspaces[active]) });
        proof {
            assert(steps@ =~= seq![
                Step::Render,
                Step::Focus { root: remembered_root(self.here()) },
            ]);
        }
        steps
    }
}

/// What a client attached to a surface.
#[derive(Debug, Clone, Copy, PartialEq, Eq, Structural)]
pub enum Attachment {
    /// Nothing new.
    Unchanged,
    SharedMemory,
    DeviceMemory,
    /// Another kind of buffer, or one that cannot be told.
    Unknown,
}

/// How the buffer that a client committed is backed.
pub fn committed_buffer_kind(attachment: Attachment) -> (r: BufferKind)
    ensures
        r == match attachment {
            Attachment::Unchanged => BufferKind::NoBuffer,
            Attachment::SharedMemory => BufferKind::Shm,
            Attachment::DeviceMemory => BufferKind::Dmabuf,
            Attachment::Unknown => BufferKind::Other,
        },
{
    match attachment {
        Attachment::Unchanged => BufferKind::NoBuffer,
        Attachment::SharedMemory => BufferKind::Shm,
        Attachment::DeviceMemory => BufferKind::Dmabuf,
        Attachment::Unknown => BufferKind::Other,
    }
}

/// What becomes of the cursor.
#[derive(Debug, Clone, Copy, PartialEq, Eq, Structural)]
pub enum CursorChange {
    Keep,
    ShowDefault,
    Hide,
}

/// The cursor when the keyboard goes from one surface to another, where the one
/// let go of the pointer and the other took hold of it.
pub fn cursor_on_focus_change(released_pointer: bool, holds_pointer: bool) -> (r: CursorChange)
    ensures
        r == if holds_pointer {
            CursorChange::Hide
        } else if released_pointer {
            CursorChange::ShowDefault
        } else {
            CursorChange::Keep
        },
{
    if holds_pointer {
        CursorChange::Hide
    } else if released_pointer {
        CursorChange::ShowDefault
    } else {
        CursorChange::Keep
    }
}

/// A client made a pointer constraint: whether it has to be activated, and what
/// becomes of the cursor.
pub fn new_constraint(constraint: Option<Constraint>) -> (r: (bool, CursorChange))
    ensures
        r.0 == (constraint is Some && !constraint->0.active),
        r.1 == if constraint is Some && constraint->0.locks {
            CursorChange::Hide
        } else {
            CursorChange::Keep
        },
{
    match constraint {
        Some(c) => (
            !c.active,
            if c.locks {
                CursorChange::Hide
            } else {
                CursorChange::Keep
            },
        ),
        None => (false, CursorChange::Keep),
    }
}

/// `extent` divided by `scale`, towards zero, and nothing where that is
/// negative.
pub open spec fn scaled_down(extent: int, scale: int) -> int {
    if extent > 0 && scale > 0 {
        extent / scale
    } else if extent < 0 && scale < 0 {
        (-extent) / (-scale)
    } else {
        0
    }
}

/// The size, in logical pixels, that a lock surface is asked for: that of its
/// output. `physical` is the size of the output's mode, nothing where it has
/// none.
pub fn lock_surface_size(physical: Option<Size>, scale: i32) -> (r: (u32, u32))
    requires
        scale != 0,
        physical is Some && scale == -1 ==> physical->0.w > i32::MIN && physical->0.h > i32::MIN,
    ensures
        match physical {
            Some(size) => {
                &&& r.0 == scaled_down(size.w as int, scale as int)
                &&& r.1 == scaled_down(size.h as int, scale as int)
            },
            None => r == (0u32, 0u32),
        },
{
    match physical {
        Some(size) => (scale_down(size.w, scale), scale_down(size.h, scale)),
        None => (0, 0),
    }
}

fn scale_down(extent: i32, scale: i32) -> (r: u32)
    requires
        scale != 0,
    ensures
        r == scaled_down(extent as int, scale as int),
{
    if extent > 0 && scale > 0 {
        extent as u32 / scale as u32
    } else if extent < 0 && scale < 0 {
        let n: u32 = (0 - extent as i64) as u32;
        let d: u32 = (0 - scale as i64) as u32;
        n / d
    } else {
        0
    }
}

/// An extent in a buffer's pixels is brought down to the surface's by its scale.
pub proof fn extents_are_brought_down_by_the_scale(extent: int, scale: int)
    requires
        extent >= 0,
        scale > 0,
    ensures
        scale * scaled_down(extent, scale) <= extent < scale * (scaled_down(extent, scale) + 1),
{
    assert(scale * (extent / scale) <= extent < scale * (extent / scale) + scale)
        by (nonlinear_arith)
        requires
            extent >= 0,
            scale > 0,
    ;
    assert(scale * (extent / scale + 1) == scale * (extent / scale) + scale) by (nonlinear_arith);
    if extent == 0 {
        assert(scale * 0 == 0 && scale * 1 == scale);
    }
}

/// A window that waits is mapped by a commit of its own, where the session's lock does not
/// take it; a commit of a surface below it neither maps nor unmaps a window. A layer
/// surface that wants the keyboard gets it where it has it not.
pub proof fn a_waiting_window_is_mapped_by_its_own_commit(
    before: Desktop,
    after: Desktop,
    facts: CommitFacts,
    locked: bool,
    shown: Seq<u64>,
    r: CommitReply,
    i: int,
)
    requires
        before.wf(),
        surface_committed(before, after, facts, locked, shown, r),
        0 <= i < before.books.pending_windows@.len(),
        before.books.pending_windows@[i].root == Some(facts.root),
    ensures
        facts.own_toplevel && !facts.lock_surface ==> after.here().windows@.len()
            == before.here().windows@.len() + 1 && after.here().windows@.last().root == Some(
            facts.root,
        ) && after.books.window_lookup@.dom().contains(facts.root) && !r.focus_layer,
        !facts.own_toplevel ==> after.workspaces == before.workspaces
            && after.books.pending_windows@ == before.books.pending_windows@,
        locked && facts.lock_surface ==> after == before && r.steps@ == seq![Step::Render],
        !facts.own_toplevel && !facts.lock_surface && facts.layer is Some ==> r.arrange_layers && (
        r.focus_layer <==> facts.layer->0.interactive && facts.has_keyboard
            && !facts.layer->0.focused),
        facts.layer is None ==> !r.arrange_layers && !r.focus_layer,
{
    crate::state::tiling::lemma_index_with_root(before.books.pending_windows@, facts.root);
    let homes: usize = before.outputs.homes.len();
    assert(after.outputs.active() == before.outputs.active());
}

} // verus!
