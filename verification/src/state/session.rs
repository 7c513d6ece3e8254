//! The session: idle blanking, the lock, what is published to other programs,
//! the settings from the tray and the reload of the configuration.
use crate::config::{LayoutKind, OutputModeSpec};
use crate::state::tiling::Workspace;
use crate::text;
use crate::tray::MenuAction;
use std::collections::VecDeque;
use vstd::prelude::*;
use vstd::string::*;

verus! {

/// Work that the compositor wants the backend to do on its next turn.
#[derive(Debug, Clone, Copy, PartialEq, Eq, Structural)]
pub enum BackendRequest {
    /// Power the outputs off or back on.
    SetDpms { on: bool },
    /// Switch an output to a mode.
    SetOutputMode { output: u64, mode: OutputModeSpec },
}

/// Whether the screen should blank now: a timeout is set and has passed,
/// nothing is blanked already, and nobody inhibits it.
pub open spec fn blanks(timeout_secs: u32, blanked: bool, inhibited: bool, idle_secs: u64) -> bool {
    timeout_secs > 0 && !blanked && !inhibited && idle_secs >= timeout_secs
}

pub fn should_blank(timeout_secs: u32, blanked: bool, inhibited: bool, idle_secs: u64) -> (r: bool)
    ensures
        r == blanks(timeout_secs, blanked, inhibited, idle_secs),
{
    timeout_secs > 0 && !blanked && !inhibited && idle_secs >= timeout_secs as u64
}

/// The idle countdown and the work that it queues. Times are nanoseconds.
#[derive(Debug)]
pub struct IdleState {
    pub last_activity: u64,
    /// The outputs are blanked.
    pub blanked: bool,
    pub backend_requests: VecDeque<BackendRequest>,
}

/// Whole seconds from `since` to `now`.
pub open spec fn secs_since(now: u64, since: u64) -> u64 {
    if now >= since { ((now - since) / 1_000_000_000) as u64 } else { 0 }
}

/// Whether `after` is `before` after the user did something.
pub open spec fn activity_noted(
    before: IdleState,
    after: IdleState,
    now: u64,
    render: bool,
) -> bool {
    &&& after.last_activity == now
    &&& !after.blanked
    &&& render == before.blanked
    &&& after.backend_requests@ == if before.blanked {
        before.backend_requests@.push(BackendRequest::SetDpms { on: true })
    } else {
        before.backend_requests@
    }
}

/// Whether `after` is `before` after a look at the countdown.
pub open spec fn idle_checked(
    before: IdleState,
    after: IdleState,
    now: u64,
    screen_timeout: u32,
    inhibited: bool,
    blank: bool,
) -> bool {
    &&& blank == blanks(
        screen_timeout,
        before.blanked,
        inhibited,
        secs_since(now, before.last_activity),
    )
    &&& after.last_activity == before.last_activity
    &&& after.blanked == (before.blanked || blank)
    &&& after.backend_requests@ == if blank {
        before.backend_requests@.push(BackendRequest::SetDpms { on: false })
    } else {
        before.backend_requests@
    }
}

impl IdleState {
    pub fn new(now: u64) -> (r: Self)
        ensures
            r.last_activity == now,
            !r.blanked,
            r.backend_requests@ == Seq::<BackendRequest>::empty(),
    {
        IdleState { last_activity: now, blanked: false, backend_requests: VecDeque::new() }
    }

    /// The user did something: restart the countdown and wake a blanked screen.
    /// True where a new frame is due.
    pub fn notify_activity(&mut self, now: u64) -> (render: bool)
        ensures
            activity_noted(*old(self), *final(self), now, render),
    {
        self.last_activity = now;
        if self.blanked {
            self.blanked = false;
            self.backend_requests.push_back(BackendRequest::SetDpms { on: true });
            true
        } else {
            false
        }
    }

    /// Blank the screen where the countdown has run out.
    pub fn update_idle(&mut self, now: u64, screen_timeout: u32, inhibited: bool) -> (blank: bool)
        ensures
            idle_checked(*old(self), *final(self), now, screen_timeout, inhibited, blank),
    {
        let idle: u64 = now.saturating_sub(self.last_activity) / 1_000_000_000;
        if should_blank(screen_timeout, self.blanked, inhibited, idle) {
            self.blanked = true;
            self.backend_requests.push_back(BackendRequest::SetDpms { on: false });
            true
        } else {
            false
        }
    }

    /// The next piece of work for the backend.
    pub fn next_request(&mut self) -> (r: Option<BackendRequest>)
        ensures
            final(self).last_activity == old(self).last_activity,
            final(self).blanked == old(self).blanked,
            match r {
                Some(request) => {
                    &&& old(self).backend_requests@.len() > 0
                    &&& request == old(self).backend_requests@[0]
                    &&& final(self).backend_requests@ == old(self).backend_requests@.drop_first()
                },
                None => {
                    &&& old(self).backend_requests@.len() == 0
                    &&& final(self).backend_requests@ == old(self).backend_requests@
                },
            },
    {
        let r = self.backend_requests.pop_front();
        proof {
            if r is Some {
                assert(self.backend_requests@ =~= old(self).backend_requests@.drop_first());
            }
        }
        r
    }
}

/// Time between two tries to start the lock client, in nanoseconds.
pub const LOCK_RESPAWN_DELAY: u64 = 2_000_000_000;

/// The compositor-enforced lock. It does not depend on the lock client: one
/// that dies leaves the session locked, with nothing to see.
#[derive(Debug)]
pub struct LockState {
    pub locked: bool,
    /// The outputs that have a lock surface.
    pub lock_surfaces: Vec<u64>,
    pub lock_client_last_spawn: Option<u64>,
}

/// Whether the lock client is due to be started.
pub open spec fn spawn_due(last_spawn: Option<u64>, now: u64) -> bool {
    match last_spawn {
        Some(last) => now >= last + LOCK_RESPAWN_DELAY,
        None => true,
    }
}

/// Whether the lock client has to be started: the session is locked, nobody
/// has drawn a lock surface, a command is configured and it was not tried just
/// now.
pub open spec fn wants_lock_client(lock: LockState, command: Seq<char>, now: u64) -> bool {
    &&& lock.locked
    &&& lock.lock_surfaces@.len() == 0
    &&& text::trimmed(command).len() > 0
    &&& spawn_due(lock.lock_client_last_spawn, now)
}

/// Whether `after` is `before` locked at `now`, and `started` the command that
/// starts the lock client, where it has to be started.
pub open spec fn lock_engaged(
    before: LockState,
    after: LockState,
    command: Seq<char>,
    now: u64,
    started: Option<String>,
) -> bool {
    &&& after.locked
    &&& after.lock_surfaces@ == before.lock_surfaces@
    &&& if wants_lock_client(LockState { locked: true, ..before }, command, now) {
        &&& started is Some
        &&& started->0@ == text::trimmed(command)
        &&& after.lock_client_last_spawn == Some(now)
    } else {
        &&& started is None
        &&& after.lock_client_last_spawn == before.lock_client_last_spawn
    }
}

/// Whether `after` is `before` once the user was let in.
pub open spec fn lock_ended(
    before: LockState,
    after: LockState,
) -> bool {
    &&& !after.locked
    &&& after.lock_surfaces@ == Seq::<u64>::empty()
    &&& after.lock_client_last_spawn is None
}

/// Whether `after` is `before` with a lock surface on an output.
pub open spec fn lock_surface_added(
    before: LockState,
    after: LockState,
    output: u64,
) -> bool {
    &&& after.locked == before.locked
    &&& after.lock_client_last_spawn is None
    &&& after.lock_surfaces@ == if before.lock_surfaces@.contains(output) {
        before.lock_surfaces@
    } else {
        before.lock_surfaces@.push(output)
    }
}

/// What differs from `one`.
pub open spec fn differs_from(one: u64) -> spec_fn(u64) -> bool {
    |other: u64| other != one
}

/// Whether `after` is `before` without the lock surface of an output.
pub open spec fn lock_surface_removed(
    before: LockState,
    after: LockState,
    output: u64,
) -> bool {
    &&& after.locked == before.locked
    &&& after.lock_client_last_spawn == before.lock_client_last_spawn
    &&& after.lock_surfaces@ == before.lock_surfaces@.filter(differs_from(output))
}

impl LockState {
    pub fn new() -> (r: Self)
        ensures
            !r.locked,
            r.lock_surfaces@ == Seq::<u64>::empty(),
            r.lock_client_last_spawn is None,
    {
        LockState { locked: false, lock_surfaces: Vec::new(), lock_client_last_spawn: None }
    }

    /// The command that starts the lock client, where that has to be done.
    fn ensure_lock_client_running(&mut self, command: &str, now: u64) -> (r: Option<String>)
        ensures
            final(self).locked == old(self).locked,
            final(self).lock_surfaces@ == old(self).lock_surfaces@,
            wants_lock_client(*old(self), command@, now) ==> {
                &&& r is Some
                &&& r->0@ == text::trimmed(command@)
                &&& final(self).lock_client_last_spawn == Some(now)
            },
            !wants_lock_client(*old(self), command@, now) ==> {
                &&& r is None
                &&& final(self).lock_client_last_spawn == old(self).lock_client_last_spawn
            },
    {
        if !self.locked || self.lock_surfaces.len() > 0 {
            return None;
        }
        let trimmed = text::trim(command);
        if trimmed.len() == 0 {
            return None;
        }
        if let Some(last) = self.lock_client_last_spawn {
            if now.saturating_sub(last) < LOCK_RESPAWN_DELAY {
                return None;
            }
        }
        self.lock_client_last_spawn = Some(now);
        proof {
            assert(trimmed@.subrange(0, trimmed.len() as int) =~= trimmed@);
        }
        Some(text::string_of(&trimmed, 0, trimmed.len()))
    }

    /// Lock the session, whatever state it is in. The result is the command
    /// that starts the lock client, where it has to be started.
    pub fn secure_lock(&mut self, command: &str, now: u64) -> (r: Option<String>)
        ensures
            lock_engaged(*old(self), *final(self), command@, now, r),
    {
        self.locked = true;
        self.ensure_lock_client_running(command, now)
    }

    /// The lock client confirmed the lock.
    pub fn lock(&mut self)
        ensures
            final(self).locked,
            final(self).lock_surfaces@ == old(self).lock_surfaces@,
            final(self).lock_client_last_spawn == old(self).lock_client_last_spawn,
    {
        self.locked = true;
    }

    /// The lock client authenticated the user. Only this ends a lock.
    pub fn unlock(&mut self)
        ensures
            lock_ended(*old(self), *final(self)),
    {
        self.locked = false;
        self.lock_surfaces = Vec::new();
        self.lock_client_last_spawn = None;
    }

    /// The lock client has a surface for an output: it runs, so that it may be
    /// started again at once should it die.
    pub fn add_lock_surface(&mut self, output: u64)
        ensures
            lock_surface_added(*old(self), *final(self), output),
    {
        if !crate::animation::contains_id(&self.lock_surfaces, output) {
            self.lock_surfaces.push(output);
        }
        self.lock_client_last_spawn = None;
    }

    /// An output is gone, and with it its lock surface.
    pub fn remove_lock_surface(&mut self, output: u64)
        ensures
            lock_surface_removed(*old(self), *final(self), output),
    {
        let ghost before = self.lock_surfaces@;
        let ghost keep = differs_from(output);
        let mut kept: Vec<u64> = Vec::new();
        let mut i: usize = 0;
        proof {
            reveal(Seq::filter);
            assert(before.subrange(0, 0) =~= Seq::<u64>::empty());
        }
        while i < self.lock_surfaces.len()
            invariant
                i <= self.lock_surfaces.len(),
                self.lock_surfaces@ == before,
                self.locked == old(self).locked,
                self.lock_client_last_spawn == old(self).lock_client_last_spawn,
                keep == differs_from(output),
                kept@ == before.subrange(0, i as int).filter(keep),
            decreases self.lock_surfaces.len() - i,
        {
            proof {
                reveal(Seq::filter);
                let next = before.subrange(0, i + 1);
                assert(next.drop_last() =~= before.subrange(0, i as int));
                assert(next.last() == before[i as int]);
            }
            if self.lock_surfaces[i] != output {
                kept.push(self.lock_surfaces[i]);
            }
            i = i + 1;
        }
        proof {
            assert(before.subrange(0, i as int) =~= before);
        }
        self.lock_surfaces = kept;
    }
}

/// The number of the active workspace, as users count.
pub fn active_workspace_state_contents(active_workspace: usize) -> (r: String)
    requires
        active_workspace < usize::MAX,
    ensures
        r@ == text::decimal_of((active_workspace + 1) as nat),
{
    text::decimal((active_workspace + 1) as u64)
}

/// The numbers of the workspaces among the first `n` that hold windows, with
/// commas between them.
pub open spec fn occupied_list(counts: Seq<nat>, n: int) -> Seq<char>
    decreases n,
{
    if n <= 0 {
        Seq::empty()
    } else {
        let before = occupied_list(counts, n - 1);
        if counts[n - 1] == 0 {
            before
        } else if before.len() == 0 {
            text::decimal_of(n as nat)
        } else {
            before + ","@ + text::decimal_of(n as nat)
        }
    }
}

pub open spec fn window_counts<W>(workspaces: Seq<Workspace<W>>) -> Seq<nat> {
    workspaces.map_values(|w: Workspace<W>| w.windows@.len())
}

/// What other programs read about the workspaces: the active one and those
/// that hold windows, as users count.
pub fn workspace_state_contents<W>(active_workspace: usize, workspaces: &Vec<Workspace<W>>) -> (r:
    String)
    requires
        active_workspace < usize::MAX,
    ensures
        r@ == "active="@ + text::decimal_of((active_workspace + 1) as nat) + "\noccupied="@
            + occupied_list(window_counts(workspaces@), workspaces@.len() as int) + "\n"@,
{
    let ghost counts = window_counts(workspaces@);
    let mut occupied = String::new();
    let mut i: usize = 0;
    while i < workspaces.len()
        invariant
            i <= workspaces.len(),
            counts == window_counts(workspaces@),
            occupied@ == occupied_list(counts, i as int),
        decreases workspaces.len() - i,
    {
        proof {
            assert(counts[i as int] == workspaces@[i as int].windows@.len());
        }
        if workspaces[i].window_count() > 0 {
            let number = text::decimal((i + 1) as u64);
            if occupied.as_str().unicode_len() > 0 {
                occupied.append(",");
                occupied.append(number.as_str());
            } else {
                occupied = number;
            }
        }
        i = i + 1;
    }
    let mut s = "active=".to_owned();
    s.append(active_workspace_state_contents(active_workspace).as_str());
    s.append("\noccupied=");
    s.append(occupied.as_str());
    s.append("\n");
    s
}

/// The event that announces the active workspace.
pub fn workspace_event(active_workspace: usize) -> (r: String)
    requires
        active_workspace < usize::MAX,
    ensures
        r@ == "workspace>>"@ + text::decimal_of((active_workspace + 1) as nat),
{
    let mut s = "workspace>>".to_owned();
    s.append(active_workspace_state_contents(active_workspace).as_str());
    s
}

/// The event that announces the title of the focused window.
pub fn window_event(title: &str) -> (r: String)
    ensures
        r@ == "window>>"@ + title@,
{
    let mut s = "window>>".to_owned();
    s.append(title);
    s
}

/// What a new subscriber of the event socket is told first: the window, the
/// workspace and, where there is one, the keyboard.
pub fn initial_snapshot(
    title: &str,
    active_workspace: usize,
    keyboard: Option<crate::input::leds::KeyboardStatus>,
) -> (r: String)
    requires
        active_workspace < usize::MAX,
    ensures
        r@ == "window>>"@ + title@ + "\nworkspace>>"@ + text::decimal_of(
            (active_workspace + 1) as nat,
        ) + "\n"@ + match keyboard {
            Some(status) => status.payload() + "\n"@,
            None => Seq::empty(),
        },
{
    let mut s = "window>>".to_owned();
    s.append(title);
    s.append("\nworkspace>>");
    s.append(active_workspace_state_contents(active_workspace).as_str());
    s.append("\n");
    if let Some(status) = keyboard {
        let ghost before = s@;
        s.append(status.event_payload().as_str());
        s.append("\n");
        proof {
            assert(s@ =~= before + (status.payload() + "\n"@));
        }
    } else {
        proof {
            assert(s@ + Seq::<char>::empty() =~= s@);
        }
    }
    s
}

/// The name of the file that a state file is written to before it takes the
/// place of the old one.
pub fn temporary_name(file_name: &str, pid: u32, counter: u64) -> (r: String)
    ensures
        r@ == "."@ + file_name@ + ".tmp."@ + text::decimal_of(pid as nat) + "."@ + text::decimal_of(
            counter as nat,
        ),
{
    let mut s = ".".to_owned();
    s.append(file_name);
    s.append(".tmp.");
    s.append(text::decimal(pid as u64).as_str());
    s.append(".");
    s.append(text::decimal(counter).as_str());
    s
}

/// The red, green and blue parts of a colour written as one number.
pub fn hex_channels(hex: u32) -> (r: (u8, u8, u8))
    ensures
        r.0 == (hex as int / 0x1_0000) % 0x100,
        r.1 == (hex as int / 0x100) % 0x100,
        r.2 == hex as int % 0x100,
{
    (((hex / 0x1_0000) % 0x100) as u8, ((hex / 0x100) % 0x100) as u8, (hex % 0x100) as u8)
}

/// How many callbacks are running that hold the state of a surface. While one
/// is, the focused window must not be published: that would wait for itself.
#[derive(Debug, Clone, Copy, PartialEq, Eq, Structural)]
pub struct DispatchDepth {
    pub depth: u32,
}

impl DispatchDepth {
    pub fn new() -> (r: Self)
        ensures
            r.depth == 0,
    {
        DispatchDepth { depth: 0 }
    }

    /// A callback starts.
    pub fn enter(&mut self)
        requires
            old(self).depth < u32::MAX,
        ensures
            final(self).depth == old(self).depth + 1,
    {
        self.depth = self.depth + 1;
    }

    /// It ends.
    pub fn leave(&mut self)
        ensures
            final(self).depth == if old(self).depth > 0 {
                (old(self).depth - 1) as u32
            } else {
                0
            },
    {
        self.depth = self.depth.saturating_sub(1);
    }

    /// Whether the focused window may be published.
    pub fn may_publish(&self) -> (r: bool)
        ensures
            r == (self.depth == 0),
    {
        self.depth == 0
    }
}

/// Work that callbacks put off until they are done: the focused window is
/// published, and a window that was just mapped gets the keyboard.
#[derive(Debug, Clone, Copy, PartialEq, Eq, Structural)]
pub struct DeferredWork {
    pub focus_publish_pending: bool,
    pub pending_map_focus: Option<u64>,
}

/// Whether `after` is `before` with a publication due.
pub open spec fn publish_requested(
    before: DeferredWork,
    after: DeferredWork,
) -> bool {
    &&& after == (DeferredWork { focus_publish_pending: true, ..before })
}

/// Whether `after` is `before` with nothing due, and `publish` whether something was.
pub open spec fn publish_flushed(
    before: DeferredWork,
    after: DeferredWork,
    publish: bool,
) -> bool {
    &&& publish == before.focus_publish_pending
    &&& after == (DeferredWork { focus_publish_pending: false, ..before })
}

/// Whether `after` is `before` with no window waiting for the keyboard, and `r` the one
/// that did.
pub open spec fn map_focus_applied(
    before: DeferredWork,
    after: DeferredWork,
    r: Option<u64>,
) -> bool {
    &&& r == before.pending_map_focus
    &&& after == (DeferredWork { pending_map_focus: None, ..before })
}

impl DeferredWork {
    pub fn new() -> (r: Self)
        ensures
            r == (DeferredWork { focus_publish_pending: false, pending_map_focus: None }),
    {
        DeferredWork { focus_publish_pending: false, pending_map_focus: None }
    }

    pub fn request_focus_publish(&mut self)
        ensures
            publish_requested(*old(self), *final(self)),
    {
        self.focus_publish_pending = true;
    }

    /// Whether the focused window is to be published now.
    pub fn flush_pending_focus_publish(&mut self) -> (publish: bool)
        ensures
            publish_flushed(*old(self), *final(self), publish),
    {
        let publish = self.focus_publish_pending;
        self.focus_publish_pending = false;
        publish
    }

    /// The window that gets the keyboard now.
    pub fn apply_pending_map_focus(&mut self) -> (r: Option<u64>)
        ensures
            map_focus_applied(*old(self), *final(self), r),
    {
        let r = self.pending_map_focus;
        self.pending_map_focus = None;
        r
    }
}

/// The settings that the tray can change.
#[derive(Debug, Clone, Copy, PartialEq, Eq, Structural)]
pub struct TraySettings {
    pub running: bool,
    pub gap: u32,
    pub screen_timeout: u32,
}

/// What follows from an action of the tray.
#[derive(Debug, Clone, Copy, PartialEq, Eq, Structural)]
pub struct MenuEffects {
    /// Lay the tiles out again.
    pub relayout: bool,
    /// Count it as activity: restart the countdown and wake the screen.
    pub notify_activity: bool,
    /// Save the settings and rebuild the menu.
    pub persist: bool,
    /// Work for the backend.
    pub request: Option<BackendRequest>,
}

pub open spec fn menu_effects(
    action: MenuAction,
    focused_output: Option<u64>,
    current_mode: Option<OutputModeSpec>,
) -> MenuEffects {
    MenuEffects {
        relayout: action is SetGap,
        notify_activity: action is SetScreenTimeout,
        persist: action is SetGap || action is SetScreenTimeout,
        request: match action {
            MenuAction::SetResolution { width, height } => match focused_output {
                Some(output) => Some(
                    BackendRequest::SetOutputMode {
                        output,
                        mode: OutputModeSpec { width, height, refresh: None },
                    },
                ),
                None => None,
            },
            MenuAction::SetRefresh { hz } => match (focused_output, current_mode) {
                (Some(output), Some(mode)) => Some(
                    BackendRequest::SetOutputMode {
                        output,
                        mode: OutputModeSpec {
                            width: mode.width,
                            height: mode.height,
                            refresh: Some(hz),
                        },
                    },
                ),
                _ => None,
            },
            _ => None,
        },
    }
}

impl TraySettings {
    /// Apply an action of the tray. A resolution is asked for at the best rate,
    /// a rate at the current resolution; without a focused output neither is.
    pub fn apply_menu_action(
        &mut self,
        action: MenuAction,
        focused_output: Option<u64>,
        current_mode: Option<OutputModeSpec>,
    ) -> (r: MenuEffects)
        ensures
            r == menu_effects(action, focused_output, current_mode),
            *final(self) == (TraySettings {
                running: old(self).running && action != MenuAction::SignOut,
                gap: match action {
                    MenuAction::SetGap(gap) => gap,
                    _ => old(self).gap,
                },
                screen_timeout: match action {
                    MenuAction::SetScreenTimeout(secs) => secs,
                    _ => old(self).screen_timeout,
                },
            }),
    {
        let mut r = MenuEffects {
            relayout: false,
            notify_activity: false,
            persist: false,
            request: None,
        };
        match action {
            MenuAction::SetGap(gap) => {
                self.gap = gap;
                r.relayout = true;
                r.persist = true;
            },
            MenuAction::SignOut => {
                self.running = false;
            },
            MenuAction::SetScreenTimeout(secs) => {
                self.screen_timeout = secs;
                r.notify_activity = true;
                r.persist = true;
            },
            MenuAction::SetResolution { width, height } => {
                if let Some(output) = focused_output {
                    r.request = Some(
                        BackendRequest::SetOutputMode {
                            output,
                            mode: OutputModeSpec { width, height, refresh: None },
                        },
                    );
                }
            },
            MenuAction::SetRefresh { hz } => {
                if let Some(output) = focused_output {
                    if let Some(mode) = current_mode {
                        r.request = Some(
                            BackendRequest::SetOutputMode {
                                output,
                                mode: OutputModeSpec {
                                    width: mode.width,
                                    height: mode.height,
                                    refresh: Some(hz),
                                },
                            },
                        );
                    }
                }
            },
        }
        r
    }
}

/// What is to be done about the tray's thread.
#[derive(Debug, Clone, Copy, PartialEq, Eq, Structural)]
pub enum TrayPlan {
    /// It runs, or is off, as it should be.
    Nothing,
    /// Rebuild the menu and start it.
    Start,
    /// Shut it down.
    Stop,
    /// It should run, but nobody would listen to it yet.
    NoChannel,
}

/// Bring the tray's thread in line with the settings. `running` is whether it
/// is there and still runs; one that has ended counts as none.
pub fn sync_tray(enabled: bool, running: bool, has_channel: bool) -> (r: TrayPlan)
    ensures
        r == if enabled {
            if running {
                TrayPlan::Nothing
            } else if has_channel {
                TrayPlan::Start
            } else {
                TrayPlan::NoChannel
            }
        } else if running {
            TrayPlan::Stop
        } else {
            TrayPlan::Nothing
        },
{
    if enabled {
        if running {
            return TrayPlan::Nothing;
        }
        if has_channel {
            TrayPlan::Start
        } else {
            TrayPlan::NoChannel
        }
    } else if running {
        TrayPlan::Stop
    } else {
        TrayPlan::Nothing
    }
}

/// The tray is published where the configuration or the environment asks for
/// it.
pub fn resolve_tray_enabled(configured: bool, flagged: bool) -> (r: bool)
    ensures
        r == (configured || flagged),
{
    configured || flagged
}

/// The parts of the configuration that a reload compares.
#[derive(Debug)]
pub struct ReloadConfig {
    pub border_color_focused: u32,
    pub border_color_unfocused: u32,
    pub border_width: u32,
    pub layout: LayoutKind,
    pub num_workspaces: usize,
    pub keyboard_layout: String,
}

/// What a reload has to do beyond taking over the values.
#[derive(Debug, Clone, Copy, PartialEq, Eq, Structural)]
pub struct ReloadPlan {
    /// Convert the border colours and draw the borders afresh.
    pub refresh_borders: bool,
    pub resolve_keybinds: bool,
    pub set_split_ratio: bool,
    /// Build the layout anew and put every tiled window back into it.
    pub rebuild_layout: bool,
    /// Say that the number of workspaces changes with the next start only.
    pub warn_workspaces: bool,
    pub apply_keyboard_layout: bool,
}

/// Compare the configuration before and after a reload.
pub fn plan_config_reload(
    before: &ReloadConfig,
    after: &ReloadConfig,
    keybinds_changed: bool,
    split_ratio_changed: bool,
) -> (r: ReloadPlan)
    ensures
        r.refresh_borders == (before.border_color_focused != after.border_color_focused
            || before.border_color_unfocused != after.border_color_unfocused || before.border_width
            != after.border_width),
        r.resolve_keybinds == keybinds_changed,
        r.set_split_ratio == split_ratio_changed,
        r.rebuild_layout == (before.layout != after.layout),
        r.warn_workspaces == (before.num_workspaces != after.num_workspaces),
        r.apply_keyboard_layout == (before.keyboard_layout@ != after.keyboard_layout@),
{
    ReloadPlan {
        refresh_borders: before.border_color_focused != after.border_color_focused
            || before.border_color_unfocused != after.border_color_unfocused || before.border_width
            != after.border_width,
        resolve_keybinds: keybinds_changed,
        set_split_ratio: split_ratio_changed,
        rebuild_layout: before.layout != after.layout,
        warn_workspaces: before.num_workspaces != after.num_workspaces,
        apply_keyboard_layout: !text::str_eq(
            before.keyboard_layout.as_str(),
            after.keyboard_layout.as_str(),
        ),
    }
}

/// The surfaces whose clients ask that the screen stay on.
#[derive(Debug)]
pub struct IdleInhibitors {
    pub surfaces: Vec<u64>,
}

/// Whether `after` is `before` with a surface that keeps the screen on.
pub open spec fn inhibitor_added(
    before: IdleInhibitors,
    after: IdleInhibitors,
    surface: u64,
) -> bool {
    &&& after.surfaces@ == if before.surfaces@.contains(surface) {
        before.surfaces@
    } else {
        before.surfaces@.push(surface)
    }
}

/// Whether `after` is `before` without a surface that kept the screen on.
pub open spec fn inhibitor_removed(
    before: IdleInhibitors,
    after: IdleInhibitors,
    surface: u64,
) -> bool {
    &&& after.surfaces@ == before.surfaces@.filter(differs_from(surface))
}

/// Whether `after` is `before` without the dead surfaces, and `r` whether any is left.
pub open spec fn inhibitors_asked(
    before: IdleInhibitors,
    after: IdleInhibitors,
    dead: Seq<u64>,
    r: bool,
) -> bool {
    &&& after.surfaces@ == before.surfaces@.filter(|s: u64| !dead.contains(s))
    &&& r == (after.surfaces@.len() > 0)
}

impl IdleInhibitors {
    pub fn new() -> (r: Self)
        ensures
            r.surfaces@.len() == 0,
    {
        IdleInhibitors { surfaces: Vec::new() }
    }

    /// A client asks that the screen stay on while this surface is up.
    pub fn inhibit(&mut self, surface: u64)
        ensures
            inhibitor_added(*old(self), *final(self), surface),
    {
        if !crate::animation::contains_id(&self.surfaces, surface) {
            self.surfaces.push(surface);
        }
    }

    /// It no longer does.
    pub fn uninhibit(&mut self, surface: u64)
        ensures
            inhibitor_removed(*old(self), *final(self), surface),
    {
        let gone = vec![surface];
        self.forget_all(&gone);
        proof {
            assert forall|s: u64| gone@.contains(s) <==> s == surface by {
                assert(gone@[0] == surface);
            }
            assert((|s: u64| !gone@.contains(s)) =~= differs_from(surface));
        }
    }

    /// Whether anyone asks for it still; the surfaces in `dead` are forgotten.
    pub fn idle_inhibited(&mut self, dead: &Vec<u64>) -> (r: bool)
        ensures
            inhibitors_asked(*old(self), *final(self), dead@, r),
    {
        self.forget_all(dead);
        self.surfaces.len() > 0
    }

    fn forget_all(&mut self, gone: &Vec<u64>)
        ensures
            final(self).surfaces@ == old(self).surfaces@.filter(|s: u64| !gone@.contains(s)),
    {
        let ghost before = self.surfaces@;
        let ghost keep = |s: u64| !gone@.contains(s);
        let mut kept: Vec<u64> = Vec::new();
        let mut i: usize = 0;
        proof {
            reveal(Seq::filter);
            assert(before.subrange(0, 0) =~= Seq::<u64>::empty());
        }
        while i < self.surfaces.len()
            invariant
                i <= self.surfaces.len(),
                self.surfaces@ == before,
                keep == (|s: u64| !gone@.contains(s)),
                kept@ == before.subrange(0, i as int).filter(keep),
            decreases self.surfaces.len() - i,
        {
            proof {
                reveal(Seq::filter);
                let next = before.subrange(0, i + 1);
                assert(next.drop_last() =~= before.subrange(0, i as int));
                assert(next.last() == before[i as int]);
            }
            if !crate::animation::contains_id(gone, self.surfaces[i]) {
                kept.push(self.surfaces[i]);
            }
            i = i + 1;
        }
        proof {
            assert(before.subrange(0, i as int) =~= before);
        }
        self.surfaces = kept;
    }
}

/// A pointer constraint of a surface.
#[derive(Debug, Clone, Copy, PartialEq, Eq, Structural)]
pub struct Constraint {
    /// It holds the pointer in place, rather than within an area.
    pub locks: bool,
    pub active: bool,
}

/// Focus leaves a surface: whether its constraint has to be released, and
/// whether that frees a pointer that was held.
pub fn deactivate_pointer_constraint(constraint: Option<Constraint>) -> (r: (bool, bool))
    ensures
        r.0 == (constraint is Some && constraint->0.active),
        r.1 == (constraint is Some && constraint->0.active && constraint->0.locks),
{
    match constraint {
        Some(c) => (c.active, c.active && c.locks),
        None => (false, false),
    }
}

/// Focus arrives at a surface: whether its constraint has to be activated, and
/// whether it holds the pointer.
pub fn activate_pointer_constraint(constraint: Option<Constraint>) -> (r: (bool, bool))
    ensures
        r.0 == (constraint is Some && !constraint->0.active),
        r.1 == (constraint is Some && constraint->0.locks),
{
    match constraint {
        Some(c) => (!c.active, c.locks),
        None => (false, false),
    }
}

/// Blanking and waking alternate: a blanked screen is not blanked again, and
/// activity always leaves it awake.
pub proof fn a_blanked_screen_is_not_blanked_again(timeout_secs: u32, inhibited: bool, idle: u64)
    ensures
        !blanks(timeout_secs, true, inhibited, idle),
        !blanks(0, false, inhibited, idle),
        !blanks(timeout_secs, false, true, idle),
{
}

/// The lock client is started at most once in the respawn delay.
pub proof fn lock_clients_do_not_respawn_in_a_loop(
    lock: LockState,
    command: Seq<char>,
    now: u64,
    later: u64,
)
    requires
        wants_lock_client(lock, command, now),
        now <= later < now + LOCK_RESPAWN_DELAY,
    ensures
        !wants_lock_client(
            LockState { lock_client_last_spawn: Some(now), ..lock },
            command,
            later,
        ),
{
}

/// The screen goes blank once nothing was done for the timeout, in seconds, and not
/// before; never without a timeout, while something keeps it on, or where it is blank.
pub proof fn the_screen_goes_blank_after_the_timeout(timeout: u32, now: u64, last: u64)
    requires
        now >= last,
    ensures
        blanks(timeout, false, false, secs_since(now, last)) <==> timeout > 0 && now >= last
            + timeout * 1_000_000_000,
        !blanks(timeout, false, true, secs_since(now, last)),
        !blanks(timeout, true, false, secs_since(now, last)),
        !blanks(0, false, false, secs_since(now, last)),
{
    let d = (now - last) as int;
    let t = timeout as int;
    let q = d / 1_000_000_000;
    assert(q >= t <==> d >= t * 1_000_000_000) by (nonlinear_arith)
        requires
            q == d / 1_000_000_000,
    ;
}

/// A session that is locked is locked at once, whether or not its client starts; the
/// client is started where none shows a surface, there is a command, and the last start
/// was two seconds ago or more.
pub proof fn a_lock_is_immediate(
    before: LockState,
    after: LockState,
    command: Seq<char>,
    now: u64,
    started: Option<String>,
)
    requires
        lock_engaged(before, after, command, now, started),
    ensures
        after.locked,
        after.lock_surfaces@ == before.lock_surfaces@,
        before.lock_surfaces@.len() > 0 ==> started is None,
        text::trimmed(command).len() == 0 ==> started is None,
        before.lock_client_last_spawn is Some && now < before.lock_client_last_spawn->0
            + 2_000_000_000 ==> started is None,
        before.lock_surfaces@.len() == 0 && text::trimmed(command).len() > 0 && (
        before.lock_client_last_spawn is None || now >= before.lock_client_last_spawn->0
            + 2_000_000_000) ==> started is Some && started->0@ == text::trimmed(command)
            && after.lock_client_last_spawn == Some(now),
{
}

/// The tray's rows do what they say: a resolution or a refresh rate is set on the focused
/// output, a gap lays the tiles out again, a timeout counts as activity.
pub proof fn tray_rows_do_what_they_say(
    width: i32,
    height: i32,
    hz: u32,
    gap: u32,
    secs: u32,
    output: u64,
    mode: OutputModeSpec,
)
    ensures
        menu_effects(MenuAction::SetResolution { width, height }, Some(output), Some(mode)).request
            == Some(
            BackendRequest::SetOutputMode {
                output,
                mode: OutputModeSpec { width, height, refresh: None },
            },
        ),
        menu_effects(MenuAction::SetRefresh { hz }, Some(output), Some(mode)).request == Some(
            BackendRequest::SetOutputMode {
                output,
                mode: OutputModeSpec { width: mode.width, height: mode.height, refresh: Some(hz) },
            },
        ),
        menu_effects(MenuAction::SetResolution { width, height }, None, Some(mode)).request is None,
        menu_effects(MenuAction::SetRefresh { hz }, Some(output), None).request is None,
{
}

/// The list of occupied workspaces is empty exactly where none holds a window; the
/// highest occupied one is named last, after a comma where others come before it, and
/// empty ones are left out.
pub proof fn occupied_workspaces_are_named(counts: Seq<nat>, n: int)
    requires
        0 <= n <= counts.len(),
    ensures
        (forall|i: int| 0 <= i < n ==> #[trigger] counts[i] == 0) <==> occupied_list(
            counts,
            n,
        ).len() == 0,
        n > 0 && counts[n - 1] > 0 ==> {
            let own = text::decimal_of(n as nat);
            let list = occupied_list(counts, n);
            &&& list.len() >= own.len()
            &&& list.subrange(list.len() - own.len(), list.len() as int) == own
            &&& occupied_list(counts, n - 1).len() > 0 ==> list[list.len() - own.len() - 1] == ','
        },
        n > 0 && counts[n - 1] == 0 ==> occupied_list(counts, n) == occupied_list(counts, n - 1),
    decreases n,
{
    if n > 0 {
        occupied_workspaces_are_named(counts, n - 1);
        reveal_strlit(",");
        let own = text::decimal_of(n as nat);
        let list = occupied_list(counts, n);
        text::lemma_decimal_is_not_empty(n as nat);
        if counts[n - 1] > 0 {
            assert(list.subrange(list.len() - own.len(), list.len() as int) =~= own);
            assert(counts[n - 1] != 0);
        } else {
            if forall|i: int| 0 <= i < n - 1 ==> #[trigger] counts[i] == 0 {
                assert forall|i: int| 0 <= i < n implies #[trigger] counts[i] == 0 by {}
            }
        }
    }
}

/// A screen that goes blank is switched off, and on again by the next thing the user does,
/// which restarts the countdown; while it is on, nothing is switched.
pub proof fn activity_wakes_the_screen(
    idle: IdleState,
    dark: IdleState,
    awake: IdleState,
    checked: IdleState,
    now: u64,
    timeout: u32,
    render: bool,
    then: u64,
    blank: bool,
)
    requires
        !idle.blanked,
        idle.last_activity <= now <= then,
        timeout > 0,
        idle_checked(idle, dark, now, timeout, false, true),
        activity_noted(dark, awake, then, render),
        idle_checked(awake, checked, then, timeout, false, blank),
    ensures
        now - idle.last_activity >= timeout * 1_000_000_000,
        dark.blanked,
        render,
        !awake.blanked,
        awake.last_activity == then,
        awake.backend_requests@ == idle.backend_requests@.push(
            BackendRequest::SetDpms { on: false },
        ).push(BackendRequest::SetDpms { on: true }),
        !blank,
        checked.backend_requests@ == awake.backend_requests@,
{
    let n = now - idle.last_activity;
    assert(1_000_000_000 * (n / 1_000_000_000) <= n);
}

/// The screen is kept on from the time a living surface asks for it until that surface
/// stops asking or dies, and while any other one asks.
pub proof fn the_screen_stays_on_while_inhibited(
    before: IdleInhibitors,
    asking: IdleInhibitors,
    asked: IdleInhibitors,
    done: IdleInhibitors,
    last: IdleInhibitors,
    surface: u64,
    dead: Seq<u64>,
    r: bool,
    s: bool,
)
    requires
        inhibitor_added(before, asking, surface),
        inhibitors_asked(asking, asked, dead, r),
        inhibitor_removed(asking, done, surface),
        inhibitors_asked(done, last, dead, s),
    ensures
        asking.surfaces@.contains(surface),
        !dead.contains(surface) ==> r,
        !done.surfaces@.contains(surface),
        forall|other: u64|
            #[trigger] before.surfaces@.contains(other) && other != surface && !dead.contains(other)
                ==> s && last.surfaces@.contains(other),
        (forall|other: u64|
            #[trigger] before.surfaces@.contains(other) ==> other == surface || dead.contains(other))
            ==> !s,
{
    let all = asking.surfaces@;
    if !before.surfaces@.contains(surface) {
        assert(all[before.surfaces@.len() as int] == surface);
    }
    let at = all.index_of(surface);
    let living = |x: u64| !dead.contains(x);
    if !dead.contains(surface) {
        all.lemma_filter_contains(living, at);
        assert(asked.surfaces@.contains(surface));
    }
    let others = differs_from(surface);
    if done.surfaces@.contains(surface) {
        all.lemma_filter_pred(others, done.surfaces@.index_of(surface));
    }
    assert forall|other: u64|
        #[trigger] before.surfaces@.contains(other) && other != surface && !dead.contains(
            other,
        ) implies s && last.surfaces@.contains(other) by {
        let k = before.surfaces@.index_of(other);
        assert(all[k] == other);
        all.lemma_filter_contains(others, k);
        let d = done.surfaces@;
        assert(d.contains(other));
        d.lemma_filter_contains(living, d.index_of(other));
    }
    if s {
        let d = done.surfaces@;
        let x = last.surfaces@[0];
        d.lemma_filter_pred(living, 0);
        assert(d.filter(living).contains(x));
        d.lemma_filter_contains_rev(living, x);
        all.lemma_filter_pred(others, d.index_of(x));
        assert(all.filter(others).contains(x));
        all.lemma_filter_contains_rev(others, x);
        let k = all.index_of(x);
        assert(x != surface);
        if !before.surfaces@.contains(surface) {
            assert(k < before.surfaces@.len());
        }
        assert(before.surfaces@[k] == x);
        assert(before.surfaces@.contains(x));
    }
}

/// A lock surface stands for its output until that is gone; nothing but letting the user
/// in ends the lock, and that takes every lock surface with it.
pub proof fn lock_surfaces_come_and_go(
    before: LockState,
    shown: LockState,
    gone: LockState,
    free: LockState,
    output: u64,
)
    requires
        lock_surface_added(before, shown, output),
        lock_surface_removed(shown, gone, output),
        lock_ended(shown, free),
    ensures
        shown.lock_surfaces@.contains(output),
        shown.locked == before.locked,
        shown.lock_client_last_spawn is None,
        !gone.lock_surfaces@.contains(output),
        gone.locked == before.locked,
        forall|other: u64|
            #[trigger] before.lock_surfaces@.contains(other) && other != output
                ==> gone.lock_surfaces@.contains(other),
        !free.locked,
        free.lock_surfaces@.len() == 0,
{
    let all = shown.lock_surfaces@;
    let others = differs_from(output);
    if !before.lock_surfaces@.contains(output) {
        assert(all[before.lock_surfaces@.len() as int] == output);
    }
    if gone.lock_surfaces@.contains(output) {
        all.lemma_filter_pred(others, gone.lock_surfaces@.index_of(output));
    }
    assert forall|other: u64|
        #[trigger] before.lock_surfaces@.contains(other) && other != output implies gone.lock_surfaces@.contains(
    other) by {
        let k = before.lock_surfaces@.index_of(other);
        assert(all[k] == other);
        all.lemma_filter_contains(others, k);
    }
}

/// What was put off is done once: a publication that was asked for, and the keyboard for a
/// window that was just mapped.
pub proof fn what_is_put_off_is_done_once(
    before: DeferredWork,
    due: DeferredWork,
    done: DeferredWork,
    again: DeferredWork,
    focused: DeferredWork,
    later: DeferredWork,
    first: bool,
    second: bool,
    r: Option<u64>,
    s: Option<u64>,
)
    requires
        publish_requested(before, due),
        publish_flushed(due, done, first),
        publish_flushed(done, again, second),
        map_focus_applied(again, focused, r),
        map_focus_applied(focused, later, s),
    ensures
        first,
        !second,
        r == before.pending_map_focus,
        s is None,
{
}

} // verus!
