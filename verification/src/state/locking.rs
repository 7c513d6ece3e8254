//! Locking the session, whatever it is doing.
use crate::input::grab::{interactions_cancelled, GrabState, LockCancel};
use crate::state::cursor::CursorState;
use crate::state::session::{lock_engaged, DeferredWork, IdleState, LockState};
use vstd::prelude::*;

verus! {

/// What is to be done when the session is locked. Besides, the keyboard is taken
/// away from every window, the compositor's own cursor is looked up afresh once
/// the tiles are laid out again, and a frame is due.
#[derive(Debug)]
pub struct LockPlan {
    /// What the cancelled grab leaves to do.
    pub cancel: LockCancel,
    /// The surfaces whose hold on the pointer is released: the one that had the
    /// keyboard before, and the one that has it.
    pub release_constraints_of: Vec<u64>,
    /// The command that starts the lock client, where it has to be started.
    pub start_client: Option<String>,
}

/// The surfaces that are given, in order.
pub open spec fn given(first: Option<u64>, second: Option<u64>) -> Seq<u64> {
    (if first is Some { seq![first->0] } else { Seq::empty() }) + (if second is Some {
        seq![second->0]
    } else {
        Seq::empty()
    })
}

/// What a lock leaves of the work that was put off, of the cursor and of the holds on the
/// pointer.
pub open spec fn left_behind(
    deferred: DeferredWork,
    after_deferred: DeferredWork,
    cursor: CursorState,
    after_cursor: CursorState,
    previous_focus: Option<u64>,
    current_focus: Option<u64>,
    released: Seq<u64>,
) -> bool {
    &&& after_deferred == (DeferredWork { pending_map_focus: None, ..deferred })
    &&& after_cursor == (CursorState { compositor_cursor_icon: None, ..cursor })
    &&& released == given(previous_focus, current_focus)
}

/// Lock the session at once. Whatever the pointer was doing ends, and nothing
/// that is put off gets the keyboard later. The lock does not wait for the lock
/// client: until that draws, the screen is black.
pub fn secure_lock(
    lock: &mut LockState,
    grabs: &mut GrabState,
    deferred: &mut DeferredWork,
    cursor: &mut CursorState,
    command: &str,
    now: u64,
    previous_focus: Option<u64>,
    current_focus: Option<u64>,
) -> (r: LockPlan)
    requires
        old(grabs).wf(),
    ensures
        final(grabs).wf(),
        lock_engaged(*old(lock), *final(lock), command@, now, r.start_client),
        interactions_cancelled(*old(grabs), *final(grabs), r.cancel),
        left_behind(
            *old(deferred),
            *final(deferred),
            *old(cursor),
            *final(cursor),
            previous_focus,
            current_focus,
            r.release_constraints_of@,
        ),
{
    let cancel = grabs.cancel_interactions_for_lock();
    let mut release_constraints_of: Vec<u64> = Vec::new();
    if let Some(surface) = previous_focus {
        release_constraints_of.push(surface);
    }
    if let Some(surface) = current_focus {
        release_constraints_of.push(surface);
    }
    proof {
        assert(release_constraints_of@ =~= given(previous_focus, current_focus));
    }
    deferred.pending_map_focus = None;
    cursor.compositor_cursor_icon = None;
    let start_client = lock.secure_lock(command, now);
    LockPlan { cancel, release_constraints_of, start_client }
}

/// The session is back: it is locked again where it must be or still is, and the
/// screen wakes. `None` where it is not locked.
pub fn secure_resume_lock(
    lock: &mut LockState,
    grabs: &mut GrabState,
    deferred: &mut DeferredWork,
    cursor: &mut CursorState,
    idle: &mut IdleState,
    force_lock: bool,
    command: &str,
    now: u64,
    previous_focus: Option<u64>,
    current_focus: Option<u64>,
) -> (r: Option<LockPlan>)
    requires
        old(grabs).wf(),
    ensures
        final(grabs).wf(),
        final(idle).last_activity == now,
        !final(idle).blanked,
        final(idle).backend_requests@ == if old(idle).blanked {
            old(idle).backend_requests@.push(
                crate::state::session::BackendRequest::SetDpms { on: true },
            )
        } else {
            old(idle).backend_requests@
        },
        r is Some <==> force_lock || old(lock).locked,
        match r {
            Some(plan) => {
                &&& lock_engaged(*old(lock), *final(lock), command@, now, plan.start_client)
                &&& interactions_cancelled(*old(grabs), *final(grabs), plan.cancel)
                &&& left_behind(
                    *old(deferred),
                    *final(deferred),
                    *old(cursor),
                    *final(cursor),
                    previous_focus,
                    current_focus,
                    plan.release_constraints_of@,
                )
            },
            None => *final(lock) == *old(lock) && *final(grabs) == *old(grabs) && *final(deferred)
                == *old(deferred) && *final(cursor) == *old(cursor),
        },
{
    let _ = idle.notify_activity(now);
    if force_lock || lock.locked {
        Some(
            secure_lock(lock, grabs, deferred, cursor, command, now, previous_focus, current_focus),
        )
    } else {
        None
    }
}

/// A lock holds: neither locking again nor a resume ends it, and no grab or
/// postponed focus survives it.
pub proof fn a_lock_survives_sleep(
    lock: LockState,
    grabs: GrabState,
    after_lock: LockState,
    after_grabs: GrabState,
    command: Seq<char>,
    now: u64,
    plan: LockPlan,
)
    requires
        lock.locked,
        lock_engaged(lock, after_lock, command, now, plan.start_client),
        interactions_cancelled(grabs, after_grabs, plan.cancel),
    ensures
        after_lock.locked,
        after_lock.lock_surfaces@ == lock.lock_surfaces@,
        after_grabs.active_grab is None,
        after_grabs.tiled_swap_target is None,
{
}

/// Nothing gets the keyboard behind a lock, no resize or drag goes on, and neither the
/// window that has the keyboard nor the one that had it keeps the pointer.
pub proof fn a_lock_takes_everything_away(
    deferred: DeferredWork,
    after_deferred: DeferredWork,
    cursor: CursorState,
    after_cursor: CursorState,
    grabs: GrabState,
    after_grabs: GrabState,
    cancel: LockCancel,
    previous: Option<u64>,
    current: Option<u64>,
    released: Seq<u64>,
    surface: u64,
)
    requires
        left_behind(
            deferred,
            after_deferred,
            cursor,
            after_cursor,
            previous,
            current,
            released,
        ),
        interactions_cancelled(grabs, after_grabs, cancel),
    ensures
        after_deferred.pending_map_focus is None,
        after_deferred.focus_publish_pending == deferred.focus_publish_pending,
        after_cursor.compositor_cursor_icon is None,
        after_cursor.cursor_status == cursor.cursor_status,
        after_grabs.active_grab is None,
        after_grabs.tiled_swap_target is None,
        released.contains(surface) <==> previous == Some(surface) || current == Some(surface),
{
    if previous == Some(surface) {
        assert(released[0] == surface);
    }
    if current == Some(surface) {
        assert(released[released.len() - 1] == surface);
    }
}

} // verus!
