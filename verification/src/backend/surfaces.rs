//! The outputs that a graphics device drives, and when each of them may render.
use crate::backend::frames::{
    retry_delay, retry_delay_for_frame_failure, FrameStats, FRAME_FAILURE_RETRY_MAX,
};
use crate::backend::modes::{
    find_mode_for_spec, first_mode, meets_spec, output_mode, wrapped_i32, DisplayMode, OutputMode,
};
use crate::config::OutputModeSpec;
use crate::diagnostics::{since, PresentReport, PresentStats, PRESENT_WINDOW};
use crate::feedback::output_frame_interval;
use crate::geometry::{Point, Size};
use vstd::prelude::*;

verus! {

/// One output and what paces its frames.
#[derive(Debug, Clone, Copy, PartialEq, Eq, Structural)]
pub struct SurfaceData {
    /// The connector that it drives.
    pub connector: u64,
    /// The CRTC that it scans out on.
    pub crtc: u64,
    pub output: u64,
    pub position: Point,
    pub mode: OutputMode,
    /// There is something to render with: not so between suspend and resume.
    pub has_compositor: bool,
    /// Its last frame is on screen, so that it may render again.
    pub can_render: bool,
    /// When it may try again after a failed frame.
    pub retry_after: Option<u64>,
    pub consecutive_frame_failures: u32,
    /// Clients wait to be told when the frame under way was presented.
    pub feedback_pending: bool,
    pub frame_stats: FrameStats,
    pub present_stats: PresentStats,
}

/// What an output does when a frame is due.
#[derive(Debug, Clone, Copy, PartialEq, Eq, Structural)]
pub enum Turn {
    /// It waits, for its vblank or after a failure.
    Wait,
    Render,
    /// It has nothing to render with.
    Idle,
}

/// How a frame came out.
#[derive(Debug, Clone, Copy, PartialEq, Eq, Structural)]
pub enum FrameOutcome {
    /// Nothing had changed, so that nothing was queued.
    Empty,
    Queued,
    /// It could not be rendered, or not be queued.
    Failed,
}

/// When clients are asked for their next frame.
#[derive(Debug, Clone, Copy, PartialEq, Eq, Structural)]
pub enum Callbacks {
    /// Later, when the frame is on screen.
    AtVblank,
    /// Now, those that were not asked within a frame's time.
    Throttled,
    /// Now, all of them.
    Unthrottled,
}

/// What is to be done after a frame.
#[derive(Debug, Clone, Copy, PartialEq, Eq, Structural)]
pub struct FrameReply {
    pub callbacks: Callbacks,
    /// Another frame is due.
    pub needs_render: bool,
    /// Who waits to hear of the presentation is to be collected.
    pub collect_feedback: bool,
}

/// Whether the rebuilding of an output after resume succeeded.
#[derive(Debug, Clone, Copy, PartialEq, Eq, Structural)]
pub enum Rebuild {
    Done,
    /// It failed before the old one was given up.
    Kept,
    /// It failed after that.
    Lost,
}

/// What comes next while a device is activated.
#[derive(Debug, Clone, Copy, PartialEq, Eq, Structural)]
pub enum ActivationStep {
    /// Its state is to be reset.
    Reset,
    /// Its outputs are to be rebuilt.
    Rebuild,
    /// It cannot be used yet.
    GiveUp,
}

/// Whether `after` is `before` after a frame, and `r` what its clients are to hear.
pub open spec fn frame_finished(
    before: SurfaceData,
    after: SurfaceData,
    outcome: FrameOutcome,
    now: u64,
    callbacks_at_vblank: bool,
    r: FrameReply,
) -> bool {
    &&& after == before.after_frame(outcome, now)
    &&& r.callbacks == match outcome {
        FrameOutcome::Empty => Callbacks::Throttled,
        FrameOutcome::Queued => if callbacks_at_vblank {
            Callbacks::AtVblank
        } else {
            Callbacks::Throttled
        },
        FrameOutcome::Failed => Callbacks::Unthrottled,
    }
    &&& r.needs_render == (outcome is Failed)
    &&& r.collect_feedback == (outcome is Queued)
}

impl SurfaceData {
    pub open spec fn fresh(
        connector: u64,
        crtc: u64,
        output: u64,
        position: Point,
        mode: OutputMode,
        now: u64,
    ) -> SurfaceData {
        SurfaceData {
            connector,
            crtc,
            output,
            position,
            mode,
            has_compositor: true,
            can_render: true,
            retry_after: None,
            consecutive_frame_failures: 0,
            feedback_pending: false,
            frame_stats: FrameStats::empty_at(now),
            present_stats: PresentStats::empty_at(now),
        }
    }

    /// An output that may render at once.
    pub fn new(
        connector: u64,
        crtc: u64,
        output: u64,
        position: Point,
        mode: OutputMode,
        now: u64,
    ) -> (r: Self)
        ensures
            r == SurfaceData::fresh(connector, crtc, output, position, mode, now),
    {
        SurfaceData {
            connector,
            crtc,
            output,
            position,
            mode,
            has_compositor: true,
            can_render: true,
            retry_after: None,
            consecutive_frame_failures: 0,
            feedback_pending: false,
            frame_stats: FrameStats::new(now),
            present_stats: PresentStats::new(now),
        }
    }

    /// What the output does when a frame is due at `now`.
    pub open spec fn turn_at(self, now: u64) -> Turn {
        let backs_off = self.retry_after is Some && self.retry_after->0 > now;
        if backs_off || (self.retry_after is None && !self.can_render) {
            Turn::Wait
        } else if self.has_compositor {
            Turn::Render
        } else {
            Turn::Idle
        }
    }

    /// The output after that: one that renders waits for its vblank.
    pub open spec fn after_turn(self, now: u64) -> SurfaceData {
        if self.turn_at(now) is Wait {
            self
        } else {
            SurfaceData { can_render: false, retry_after: None, ..self }
        }
    }

    pub fn take_turn(&mut self, now: u64) -> (r: Turn)
        ensures
            r == old(self).turn_at(now),
            *final(self) == old(self).after_turn(now),
    {
        if let Some(retry_after) = self.retry_after {
            if retry_after > now {
                return Turn::Wait;
            }
            self.retry_after = None;
            self.can_render = true;
        }
        if !self.can_render {
            return Turn::Wait;
        }
        self.can_render = false;
        if self.has_compositor {
            Turn::Render
        } else {
            Turn::Idle
        }
    }

    /// The output after a frame that failed at `now`.
    pub open spec fn failed_at(self, now: u64) -> SurfaceData {
        let failures = crate::diagnostics::saturating_next(self.consecutive_frame_failures);
        SurfaceData {
            consecutive_frame_failures: failures,
            can_render: false,
            retry_after: Some((now + retry_delay(failures)) as u64),
            feedback_pending: false,
            ..self
        }
    }

    /// The output after a frame that did not fail.
    pub open spec fn succeeded(self) -> SurfaceData {
        SurfaceData { retry_after: None, consecutive_frame_failures: 0, ..self }
    }

    pub fn record_frame_success(&mut self)
        ensures
            *final(self) == old(self).succeeded(),
    {
        self.retry_after = None;
        self.consecutive_frame_failures = 0;
    }

    /// Wait before the next try, longer with each failure in a row.
    pub fn record_frame_failure(&mut self, now: u64)
        requires
            now + FRAME_FAILURE_RETRY_MAX <= u64::MAX,
        ensures
            *final(self) == old(self).failed_at(now),
    {
        self.consecutive_frame_failures = self.consecutive_frame_failures.saturating_add(1);
        let delay: u64 = retry_delay_for_frame_failure(self.consecutive_frame_failures);
        self.can_render = false;
        self.retry_after = Some(now + delay);
        self.feedback_pending = false;
    }

    /// The output after a frame with this outcome.
    pub open spec fn after_frame(self, outcome: FrameOutcome, now: u64) -> SurfaceData {
        match outcome {
            FrameOutcome::Empty => SurfaceData {
                can_render: true,
                feedback_pending: false,
                ..self.succeeded()
            },
            FrameOutcome::Queued => SurfaceData { feedback_pending: true, ..self.succeeded() },
            FrameOutcome::Failed => self.failed_at(now),
        }
    }

    /// Take note of how a frame came out. After an empty one no vblank will
    /// come, so the output may render at once.
    pub fn finish_frame(
        &mut self,
        outcome: FrameOutcome,
        now: u64,
        callbacks_at_vblank: bool,
    ) -> (r: FrameReply)
        requires
            now + FRAME_FAILURE_RETRY_MAX <= u64::MAX,
        ensures
            frame_finished(*old(self), *final(self), outcome, now, callbacks_at_vblank, r),
    {
        match outcome {
            FrameOutcome::Empty => {
                self.record_frame_success();
                self.can_render = true;
                self.feedback_pending = false;
                FrameReply {
                    callbacks: Callbacks::Throttled,
                    needs_render: false,
                    collect_feedback: false,
                }
            },
            FrameOutcome::Queued => {
                self.record_frame_success();
                self.feedback_pending = true;
                let callbacks = if callbacks_at_vblank {
                    Callbacks::AtVblank
                } else {
                    Callbacks::Throttled
                };
                FrameReply { callbacks, needs_render: false, collect_feedback: true }
            },
            FrameOutcome::Failed => {
                self.record_frame_failure(now);
                FrameReply {
                    callbacks: Callbacks::Unthrottled,
                    needs_render: true,
                    collect_feedback: false,
                }
            },
        }
    }

    /// The output while the device is paused.
    pub open spec fn paused(self) -> SurfaceData {
        SurfaceData { can_render: false, retry_after: None, feedback_pending: false, ..self }
    }

    /// The output while the device cannot be used: it is tried again later.
    pub open spec fn unusable_at(self, now: u64) -> SurfaceData {
        SurfaceData {
            can_render: false,
            retry_after: Some((now + FRAME_FAILURE_RETRY_MAX) as u64),
            ..self
        }
    }

    /// The output after the attempt to rebuild it.
    pub open spec fn rebuilt(self, rebuild: Rebuild, now: u64) -> SurfaceData {
        let base = SurfaceData {
            feedback_pending: false,
            frame_stats: FrameStats::empty_at(now),
            present_stats: PresentStats::empty_at(now),
            ..self
        };
        match rebuild {
            Rebuild::Done => SurfaceData {
                has_compositor: true,
                can_render: true,
                retry_after: None,
                consecutive_frame_failures: 0,
                ..base
            },
            Rebuild::Kept => base.unusable_at(now),
            Rebuild::Lost => SurfaceData { has_compositor: false, ..base.unusable_at(now) },
        }
    }

    /// The output with the display power turned on.
    pub open spec fn rearmed(self) -> SurfaceData {
        SurfaceData { can_render: true, retry_after: None, ..self }
    }

    pub open spec fn right(self) -> int {
        self.position.x + self.mode.size.w
    }
}

/// The outputs that a graphics device drives.
#[derive(Debug)]
pub struct GpuData {
    pub surfaces: Vec<SurfaceData>,
}

/// Whether every output has a CRTC of its own.
pub open spec fn crtcs_are_distinct(surfaces: Seq<SurfaceData>) -> bool {
    forall|i: int, j: int|
        0 <= i < j < surfaces.len() ==> (#[trigger] surfaces[i]).crtc != (
        #[trigger] surfaces[j]).crtc
}

/// The numbers of the outputs that render a frame due at `now`.
pub open spec fn rendering(surfaces: Seq<SurfaceData>, now: u64) -> Seq<usize>
    decreases surfaces.len(),
{
    if surfaces.len() == 0 {
        Seq::empty()
    } else {
        let rest = rendering(surfaces.drop_last(), now);
        if surfaces.last().turn_at(now) is Render {
            rest.push((surfaces.len() - 1) as usize)
        } else {
            rest
        }
    }
}

/// Number of the first output on a CRTC.
pub open spec fn index_on_crtc(surfaces: Seq<SurfaceData>, crtc: u64) -> Option<int>
    decreases surfaces.len(),
{
    if surfaces.len() == 0 {
        None
    } else {
        match index_on_crtc(surfaces.drop_last(), crtc) {
            Some(i) => Some(i),
            None => if surfaces.last().crtc == crtc {
                Some(surfaces.len() - 1)
            } else {
                None
            },
        }
    }
}

proof fn lemma_index_on_crtc(surfaces: Seq<SurfaceData>, crtc: u64)
    ensures
        match index_on_crtc(surfaces, crtc) {
            Some(i) => 0 <= i < surfaces.len() && surfaces[i].crtc == crtc && forall|k: int|
                0 <= k < i ==> (#[trigger] surfaces[k]).crtc != crtc,
            None => forall|k: int| 0 <= k < surfaces.len() ==> (#[trigger] surfaces[k]).crtc != crtc,
        },
    decreases surfaces.len(),
{
    if surfaces.len() > 0 {
        let rest = surfaces.drop_last();
        lemma_index_on_crtc(rest, crtc);
        assert(forall|k: int| 0 <= k < rest.len() ==> rest[k] == surfaces[k]);
    }
}

/// Number of the first surface of an output.
pub open spec fn index_of_output(surfaces: Seq<SurfaceData>, output: u64) -> Option<int>
    decreases surfaces.len(),
{
    if surfaces.len() == 0 {
        None
    } else {
        match index_of_output(surfaces.drop_last(), output) {
            Some(i) => Some(i),
            None => if surfaces.last().output == output {
                Some(surfaces.len() - 1)
            } else {
                None
            },
        }
    }
}

proof fn lemma_index_of_output(surfaces: Seq<SurfaceData>, output: u64)
    ensures
        match index_of_output(surfaces, output) {
            Some(i) => 0 <= i < surfaces.len() && surfaces[i].output == output && forall|k: int|
                0 <= k < i ==> (#[trigger] surfaces[k]).output != output,
            None => forall|k: int|
                0 <= k < surfaces.len() ==> (#[trigger] surfaces[k]).output != output,
        },
    decreases surfaces.len(),
{
    if surfaces.len() > 0 {
        let rest = surfaces.drop_last();
        lemma_index_of_output(rest, output);
        assert(forall|k: int| 0 <= k < rest.len() ==> rest[k] == surfaces[k]);
    }
}

/// What a vblank leads to.
#[derive(Debug, Clone, Copy, PartialEq, Eq, Structural)]
pub struct VblankReply {
    pub output: u64,
    /// The clients that wait for it are to be told of the presentation.
    pub present_feedback: bool,
    /// The time one frame lasts, in microseconds.
    pub interval_us: u64,
    /// Clients are to be asked for their next frame.
    pub send_callbacks: bool,
    pub report: Option<PresentReport>,
}

/// The time one frame of an output lasts, in microseconds.
pub open spec fn interval_of(refresh: i32) -> u64 {
    if refresh > 0 {
        (1_000_000_000int / (refresh as int)) as u64
    } else {
        0
    }
}

/// Why an output keeps its mode.
#[derive(Debug, Clone, Copy, PartialEq, Eq, Structural)]
pub enum ModesetRefusal {
    /// Changing modes at run time is not enabled.
    GatedOff,
    /// The device does not drive the output.
    NoSurface,
    /// The connector could not be asked for its modes.
    NoConnector,
    /// The connector does not offer the mode.
    NotOffered,
}

/// An output that is to be built.
#[derive(Debug, Clone, Copy, PartialEq, Eq, Structural)]
pub struct SurfacePlan {
    pub connector: u64,
    pub crtc: u64,
    pub position: Point,
    pub mode: DisplayMode,
}

/// Whether `after` is `before` after the frame on a CRTC was shown, and `r` what to tell.
pub open spec fn blank_shown(
    before: GpuData,
    after: GpuData,
    crtc: u64,
    now: u64,
    callbacks_at_vblank: bool,
    r: Option<VblankReply>,
) -> bool {
    &&& match index_on_crtc(before.surfaces@, crtc) {
        None => r is None && after.surfaces@ == before.surfaces@,
        Some(i) => {
            let was = before.surfaces@[i];
            let window = was.present_stats.with_vblank(now, was.feedback_pending);
            let interval_us = interval_of(was.mode.refresh);
            let full = since(now, window.window_start) >= PRESENT_WINDOW;
            &&& r == Some(
                VblankReply {
                    output: was.output,
                    present_feedback: was.feedback_pending,
                    interval_us,
                    send_callbacks: callbacks_at_vblank,
                    report: if full {
                        Some(window.report_at(now, interval_us))
                    } else {
                        None
                    },
                },
            )
            &&& after.surfaces@ == before.surfaces@.update(
                i,
                SurfaceData {
                    can_render: true,
                    feedback_pending: false,
                    present_stats: if full {
                        PresentStats::empty_at(now)
                    } else {
                        window
                    },
                    ..was
                },
            )
        },
    }
}

/// Whether `after` is `before` without the output that is to change its mode, and `r` how
/// it is built anew.
pub open spec fn modeset_begun(
    before: GpuData,
    after: GpuData,
    enabled: bool,
    output: u64,
    modes: Option<&Vec<DisplayMode>>,
    spec: OutputModeSpec,
    r: Result<SurfacePlan, ModesetRefusal>,
) -> bool {
    &&& {
        let found = index_of_output(before.surfaces@, output);
        let mode = first_mode(modes->0@, |m: DisplayMode| meets_spec(m, spec));
        match r {
            Err(refusal) => {
                &&& after.surfaces@ == before.surfaces@
                &&& refusal is GatedOff <==> !enabled
                &&& refusal is NoSurface <==> enabled && found is None
                &&& refusal is NoConnector <==> enabled && found is Some && modes is None
                &&& refusal is NotOffered <==> enabled && found is Some && modes is Some
                    && mode is None
            },
            Ok(plan) => {
                let old_surface = before.surfaces@[found->0];
                &&& enabled
                &&& found is Some
                &&& modes is Some
                &&& mode is Some
                &&& plan == SurfacePlan {
                    connector: old_surface.connector,
                    crtc: old_surface.crtc,
                    position: old_surface.position,
                    mode: mode->0,
                }
                &&& after.surfaces@ == before.surfaces@.remove(found->0)
            },
        }
    }
}

impl GpuData {
    pub open spec fn wf(&self) -> bool {
        crtcs_are_distinct(self.surfaces@)
    }

    /// Let no output render while the device is paused.
    pub fn pause_drm(&mut self)
        ensures
            final(self).surfaces@ == old(self).surfaces@.map_values(|s: SurfaceData| s.paused()),
    {
        let mut i: usize = 0;
        while i < self.surfaces.len()
            invariant
                i <= self.surfaces@.len() == old(self).surfaces@.len(),
                forall|k: int| 0 <= k < i ==> self.surfaces@[k] == old(self).surfaces@[k].paused(),
                forall|k: int|
                    i <= k < self.surfaces@.len() ==> self.surfaces@[k] == old(self).surfaces@[k],
            decreases self.surfaces.len() - i,
        {
            let mut surface = self.surfaces[i];
            surface.can_render = false;
            surface.retry_after = None;
            surface.feedback_pending = false;
            self.surfaces.set(i, surface);
            i = i + 1;
        }
        proof {
            assert(self.surfaces@ =~= old(self).surfaces@.map_values(
                |s: SurfaceData| s.paused(),
            ));
        }
    }

    /// The device was activated, or could not be. One that stayed active over
    /// sleep is reset first (`force_reset` says that there was a sleep).
    pub fn device_activated(
        &mut self,
        activated: bool,
        force_reset: bool,
        was_active: bool,
        now: u64,
    ) -> (r: ActivationStep)
        requires
            now + FRAME_FAILURE_RETRY_MAX <= u64::MAX,
        ensures
            r == if !activated {
                ActivationStep::GiveUp
            } else if force_reset && was_active {
                ActivationStep::Reset
            } else {
                ActivationStep::Rebuild
            },
            final(self).surfaces@ == if activated {
                old(self).surfaces@
            } else {
                old(self).surfaces@.map_values(|s: SurfaceData| s.unusable_at(now))
            },
    {
        if !activated {
            self.activation_failed(now);
            ActivationStep::GiveUp
        } else if force_reset && was_active {
            ActivationStep::Reset
        } else {
            ActivationStep::Rebuild
        }
    }

    /// The device was reset, or could not be.
    pub fn device_reset(&mut self, reset: bool, now: u64) -> (r: ActivationStep)
        requires
            now + FRAME_FAILURE_RETRY_MAX <= u64::MAX,
        ensures
            r == if reset {
                ActivationStep::Rebuild
            } else {
                ActivationStep::GiveUp
            },
            final(self).surfaces@ == if reset {
                old(self).surfaces@
            } else {
                old(self).surfaces@.map_values(|s: SurfaceData| s.unusable_at(now))
            },
    {
        if reset {
            ActivationStep::Rebuild
        } else {
            self.activation_failed(now);
            ActivationStep::GiveUp
        }
    }

    /// The device could not be activated or reset: every output waits.
    fn activation_failed(&mut self, now: u64)
        requires
            now + FRAME_FAILURE_RETRY_MAX <= u64::MAX,
        ensures
            final(self).surfaces@ == old(self).surfaces@.map_values(
                |s: SurfaceData| s.unusable_at(now),
            ),
    {
        let mut i: usize = 0;
        while i < self.surfaces.len()
            invariant
                i <= self.surfaces@.len() == old(self).surfaces@.len(),
                now + FRAME_FAILURE_RETRY_MAX <= u64::MAX,
                forall|k: int|
                    0 <= k < i ==> self.surfaces@[k] == old(self).surfaces@[k].unusable_at(now),
                forall|k: int|
                    i <= k < self.surfaces@.len() ==> self.surfaces@[k] == old(self).surfaces@[k],
            decreases self.surfaces.len() - i,
        {
            let mut surface = self.surfaces[i];
            surface.can_render = false;
            surface.retry_after = Some(now + FRAME_FAILURE_RETRY_MAX);
            self.surfaces.set(i, surface);
            i = i + 1;
        }
        proof {
            assert(self.surfaces@ =~= old(self).surfaces@.map_values(
                |s: SurfaceData| s.unusable_at(now),
            ));
        }
    }

    /// Every output was rebuilt after resume, or could not be. True where all
    /// were: only then is the device usable again.
    pub fn finish_activation(&mut self, rebuilds: &Vec<Rebuild>, now: u64) -> (r: bool)
        requires
            rebuilds.len() == old(self).surfaces@.len(),
            now + FRAME_FAILURE_RETRY_MAX <= u64::MAX,
        ensures
            final(self).surfaces@.len() == old(self).surfaces@.len(),
            forall|i: int|
                0 <= i < old(self).surfaces@.len() ==> #[trigger] final(self).surfaces@[i] == old(
                    self).surfaces@[i].rebuilt(rebuilds@[i], now),
            r == (forall|i: int| 0 <= i < rebuilds.len() ==> (#[trigger] rebuilds@[i]) is Done),
    {
        let mut all_ok = true;
        let mut i: usize = 0;
        while i < self.surfaces.len()
            invariant
                i <= self.surfaces@.len() == old(self).surfaces@.len(),
                rebuilds.len() == self.surfaces@.len(),
                now + FRAME_FAILURE_RETRY_MAX <= u64::MAX,
                forall|k: int|
                    0 <= k < i ==> #[trigger] self.surfaces@[k] == old(self).surfaces@[k].rebuilt(
                        rebuilds@[k],
                        now,
                    ),
                forall|k: int|
                    i <= k < self.surfaces@.len() ==> #[trigger] self.surfaces@[k] == old(
                        self).surfaces@[k],
                all_ok == (forall|k: int| 0 <= k < i ==> (#[trigger] rebuilds@[k]) is Done),
            decreases self.surfaces.len() - i,
        {
            let mut surface = self.surfaces[i];
            match rebuilds[i] {
                Rebuild::Done => {
                    surface.has_compositor = true;
                    surface.can_render = true;
                    surface.retry_after = None;
                    surface.consecutive_frame_failures = 0;
                },
                Rebuild::Kept => {
                    surface.can_render = false;
                    surface.retry_after = Some(now + FRAME_FAILURE_RETRY_MAX);
                    all_ok = false;
                },
                Rebuild::Lost => {
                    surface.has_compositor = false;
                    surface.can_render = false;
                    surface.retry_after = Some(now + FRAME_FAILURE_RETRY_MAX);
                    all_ok = false;
                },
            }
            surface.feedback_pending = false;
            surface.frame_stats = FrameStats::new(now);
            surface.present_stats = PresentStats::new(now);
            self.surfaces.set(i, surface);
            i = i + 1;
        }
        all_ok
    }

    /// The display power is turned on or off. Turned on, every output renders
    /// again, which lights its display; turned off, nothing changes here.
    pub fn set_dpms(&mut self, on: bool) -> (needs_render: bool)
        ensures
            needs_render == on,
            final(self).surfaces@ == if on {
                old(self).surfaces@.map_values(|s: SurfaceData| s.rearmed())
            } else {
                old(self).surfaces@
            },
    {
        if on {
            let mut i: usize = 0;
            while i < self.surfaces.len()
                invariant
                    i <= self.surfaces@.len() == old(self).surfaces@.len(),
                    forall|k: int|
                        0 <= k < i ==> self.surfaces@[k] == old(self).surfaces@[k].rearmed(),
                    forall|k: int|
                        i <= k < self.surfaces@.len() ==> self.surfaces@[k] == old(
                            self).surfaces@[k],
                decreases self.surfaces.len() - i,
            {
                let mut surface = self.surfaces[i];
                surface.can_render = true;
                surface.retry_after = None;
                self.surfaces.set(i, surface);
                i = i + 1;
            }
            proof {
                assert(self.surfaces@ =~= old(self).surfaces@.map_values(
                    |s: SurfaceData| s.rearmed(),
                ));
            }
        }
        on
    }

    /// A frame is due: which outputs render it, and whether another one is due
    /// because an output has to wait.
    pub fn render_frame(&mut self, now: u64) -> (r: (Vec<usize>, bool))
        ensures
            r.0@ == rendering(old(self).surfaces@, now),
            r.1 == (exists|i: int|
                0 <= i < old(self).surfaces@.len() && (#[trigger] old(self).surfaces@[i]).turn_at(
                    now,
                ) is Wait),
            final(self).surfaces@ == old(self).surfaces@.map_values(
                |s: SurfaceData| s.after_turn(now),
            ),
    {
        let ghost before = self.surfaces@;
        let mut render: Vec<usize> = Vec::new();
        let mut any_skipped = false;
        let mut i: usize = 0;
        proof {
            assert(before.subrange(0, 0) =~= Seq::<SurfaceData>::empty());
        }
        while i < self.surfaces.len()
            invariant
                i <= self.surfaces@.len() == before.len(),
                before == old(self).surfaces@,
                render@ == rendering(before.subrange(0, i as int), now),
                any_skipped == (exists|k: int|
                    0 <= k < i && (#[trigger] before[k]).turn_at(now) is Wait),
                forall|k: int| 0 <= k < i ==> self.surfaces@[k] == before[k].after_turn(now),
                forall|k: int| i <= k < self.surfaces@.len() ==> self.surfaces@[k] == before[k],
            decreases self.surfaces.len() - i,
        {
            proof {
                let next = before.subrange(0, i + 1);
                assert(next.drop_last() =~= before.subrange(0, i as int));
                assert(next.last() == before[i as int]);
            }
            let mut surface = self.surfaces[i];
            match surface.take_turn(now) {
                Turn::Wait => {
                    any_skipped = true;
                    assert(before[i as int].turn_at(now) is Wait);
                },
                Turn::Render => {
                    render.push(i);
                },
                Turn::Idle => {},
            }
            self.surfaces.set(i, surface);
            i = i + 1;
        }
        proof {
            assert(before.subrange(0, i as int) =~= before);
            assert(self.surfaces@ =~= before.map_values(|s: SurfaceData| s.after_turn(now)));
        }
        (render, any_skipped)
    }

    /// The frame on a CRTC is on screen: its output may render again.
    pub fn vblank(&mut self, crtc: u64, now: u64, callbacks_at_vblank: bool) -> (r: Option<
        VblankReply,
    >)
        requires
            match index_on_crtc(old(self).surfaces@, crtc) {
                Some(i) => old(self).surfaces@[i].present_stats.has_room(
                    now,
                    old(self).surfaces@[i].feedback_pending,
                ) && old(
                    self).surfaces@[i].mode.refresh != 0,
                None => true,
            },
        ensures
            blank_shown(*old(self), *final(self), crtc, now, callbacks_at_vblank, r),
    {
        proof {
            lemma_index_on_crtc(self.surfaces@, crtc);
        }
        let mut i: usize = 0;
        while i < self.surfaces.len() && self.surfaces[i].crtc != crtc
            invariant
                i <= self.surfaces@.len(),
                *self == *old(self),
                forall|k: int| 0 <= k < i ==> (#[trigger] self.surfaces@[k]).crtc != crtc,
            decreases self.surfaces.len() - i,
        {
            i = i + 1;
        }
        if i == self.surfaces.len() {
            return None;
        }
        let mut surface = self.surfaces[i];
        let interval_us: u64 = output_frame_interval(Some(surface.mode.refresh));
        let present_feedback = surface.feedback_pending;
        surface.can_render = true;
        surface.feedback_pending = false;
        let mut stats = surface.present_stats;
        let report = stats.record_vblank(now, interval_us, present_feedback);
        surface.present_stats = stats;
        self.surfaces.set(i, surface);
        Some(
            VblankReply {
                output: surface.output,
                present_feedback,
                interval_us,
                send_callbacks: callbacks_at_vblank,
                report,
            },
        )
    }

    /// Begin to change the mode of an output: its old surface is given up, so
    /// that the CRTC is free. `modes` are those of its connector, where it could
    /// be asked.
    pub fn begin_modeset(
        &mut self,
        enabled: bool,
        output: u64,
        modes: Option<&Vec<DisplayMode>>,
        spec: OutputModeSpec,
    ) -> (r: Result<SurfacePlan, ModesetRefusal>)
        ensures
            modeset_begun(*old(self), *final(self), enabled, output, modes, spec, r),
    {
        if !enabled {
            return Err(ModesetRefusal::GatedOff);
        }
        proof {
            lemma_index_of_output(self.surfaces@, output);
        }
        let mut i: usize = 0;
        while i < self.surfaces.len() && self.surfaces[i].output != output
            invariant
                i <= self.surfaces@.len(),
                *self == *old(self),
                forall|k: int| 0 <= k < i ==> (#[trigger] self.surfaces@[k]).output != output,
            decreases self.surfaces.len() - i,
        {
            i = i + 1;
        }
        if i == self.surfaces.len() {
            return Err(ModesetRefusal::NoSurface);
        }
        let offered = match modes {
            Some(offered) => offered,
            None => {
                return Err(ModesetRefusal::NoConnector);
            },
        };
        let mode = match find_mode_for_spec(offered, spec) {
            Some(mode) => mode,
            None => {
                return Err(ModesetRefusal::NotOffered);
            },
        };
        let removed = self.surfaces.remove(i);
        Ok(
            SurfacePlan {
                connector: removed.connector,
                crtc: removed.crtc,
                position: removed.position,
                mode,
            },
        )
    }

    /// An output was built: it is driven from now on.
    pub fn add_surface(&mut self, plan: SurfacePlan, output: u64, now: u64)
        requires
            plan.mode.vrefresh * 1000 <= u32::MAX,
        ensures
            final(self).surfaces@ == old(self).surfaces@.push(built_surface(plan, output, now)),
    {
        let mode = output_mode(plan.mode);
        let surface = SurfaceData::new(
            plan.connector,
            plan.crtc,
            output,
            plan.position,
            mode,
            now,
        );
        proof {
            assert(mode == carried_mode(plan.mode));
        }
        self.surfaces.push(surface);
    }

    /// Give up the outputs whose connector is no longer connected; these outputs
    /// are returned.
    pub fn drop_disconnected(&mut self, connected: &Vec<u64>) -> (gone: Vec<u64>)
        ensures
            final(self).surfaces@ == still_connected(old(self).surfaces@, connected@),
            gone@ == outputs_of(
                old(self).surfaces@.filter(|s: SurfaceData| !connected@.contains(s.connector)),
            ),
    {
        let ghost before = self.surfaces@;
        let ghost stays = |s: SurfaceData| connected@.contains(s.connector);
        let ghost leaves = |s: SurfaceData| !connected@.contains(s.connector);
        let mut kept: Vec<SurfaceData> = Vec::new();
        let mut gone: Vec<u64> = Vec::new();
        let mut i: usize = 0;
        proof {
            reveal(Seq::filter);
            assert(before.subrange(0, 0) =~= Seq::<SurfaceData>::empty());
            assert(gone@ =~= outputs_of(before.subrange(0, 0).filter(leaves)));
        }
        while i < self.surfaces.len()
            invariant
                i <= self.surfaces@.len(),
                self.surfaces@ == before,
                stays == (|s: SurfaceData| connected@.contains(s.connector)),
                leaves == (|s: SurfaceData| !connected@.contains(s.connector)),
                kept@ == before.subrange(0, i as int).filter(stays),
                gone@ == outputs_of(before.subrange(0, i as int).filter(leaves)),
            decreases self.surfaces.len() - i,
        {
            proof {
                reveal(Seq::filter);
                let next = before.subrange(0, i + 1);
                assert(next.drop_last() =~= before.subrange(0, i as int));
                assert(next.last() == before[i as int]);
            }
            let surface = self.surfaces[i];
            if crate::animation::contains_id(connected, surface.connector) {
                kept.push(surface);
            } else {
                gone.push(surface.output);
                proof {
                    assert(gone@ =~= outputs_of(
                        before.subrange(0, i as int).filter(leaves).push(surface),
                    ));
                }
            }
            i = i + 1;
        }
        proof {
            assert(before.subrange(0, i as int) =~= before);
        }
        self.surfaces = kept;
        gone
    }

    /// Whether an output drives the connector.
    pub fn drives(&self, connector: u64) -> (r: bool)
        ensures
            r == exists|i: int|
                0 <= i < self.surfaces@.len() && (#[trigger] self.surfaces@[i]).connector
                    == connector,
    {
        let mut i: usize = 0;
        while i < self.surfaces.len()
            invariant
                i <= self.surfaces@.len(),
                forall|k: int| 0 <= k < i ==> (#[trigger] self.surfaces@[k]).connector != connector,
            decreases self.surfaces.len() - i,
        {
            if self.surfaces[i].connector == connector {
                return true;
            }
            i = i + 1;
        }
        false
    }

    /// The CRTCs in use.
    pub fn used_crtcs(&self) -> (r: Vec<u64>)
        ensures
            r@ == crtcs_of(self.surfaces@),
    {
        let mut r: Vec<u64> = Vec::new();
        let mut i: usize = 0;
        while i < self.surfaces.len()
            invariant
                i <= self.surfaces@.len(),
                r@ =~= crtcs_of(self.surfaces@.subrange(0, i as int)),
            decreases self.surfaces.len() - i,
        {
            r.push(self.surfaces[i].crtc);
            i = i + 1;
        }
        proof {
            assert(self.surfaces@.subrange(0, i as int) =~= self.surfaces@);
        }
        r
    }
}

/// The surfaces whose connector is connected.
pub open spec fn still_connected(surfaces: Seq<SurfaceData>, connected: Seq<u64>) -> Seq<
    SurfaceData,
> {
    surfaces.filter(|s: SurfaceData| connected.contains(s.connector))
}

pub open spec fn outputs_of(surfaces: Seq<SurfaceData>) -> Seq<u64> {
    surfaces.map_values(|s: SurfaceData| s.output)
}

pub open spec fn crtcs_of(surfaces: Seq<SurfaceData>) -> Seq<u64> {
    surfaces.map_values(|s: SurfaceData| s.crtc)
}

pub open spec fn carried_mode(mode: DisplayMode) -> OutputMode {
    OutputMode {
        size: Size { w: mode.width as i32, h: mode.height as i32 },
        refresh: wrapped_i32(mode.vrefresh * 1000) as i32,
    }
}

/// The output that a plan leads to.
pub open spec fn built_surface(plan: SurfacePlan, output: u64, now: u64) -> SurfaceData {
    SurfaceData::fresh(
        plan.connector,
        plan.crtc,
        output,
        plan.position,
        carried_mode(plan.mode),
        now,
    )
}

/// An output renders when it may and has what it takes to render, but not before the wait
/// after a failure is over; taking its turn uses up the permission.
pub proof fn outputs_take_turns(surface: SurfaceData, now: u64)
    ensures
        surface.retry_after is Some && now < surface.retry_after->0 ==> surface.turn_at(now)
            == Turn::Wait && surface.after_turn(now) == surface,
        surface.retry_after is None && !surface.can_render ==> surface.turn_at(now) == Turn::Wait,
        surface.retry_after is None && surface.can_render && surface.has_compositor
            ==> surface.turn_at(now) == Turn::Render,
        surface.retry_after is Some && now >= surface.retry_after->0 && surface.has_compositor
            ==> surface.turn_at(now) == Turn::Render,
        !surface.has_compositor ==> surface.turn_at(now) != Turn::Render,
        surface.turn_at(now) == Turn::Render ==> !surface.after_turn(now).can_render
            && surface.after_turn(now).retry_after is None && surface.after_turn(now).turn_at(now)
            == Turn::Wait,
{
}

/// After an empty frame the output may render again at once; after one that was queued
/// only once it was shown, and clients hear of that; after a failed one only when the wait
/// is over. A frame that went well ends the count of failures.
pub proof fn frames_decide_the_next_turn(surface: SurfaceData, now: u64)
    requires
        now + 2_000_000_000 <= u64::MAX,
        surface.has_compositor,
        surface.turn_at(now) == Turn::Render,
    ensures
        ({
            let turn = surface.after_turn(now);
            let empty = turn.after_frame(FrameOutcome::Empty, now);
            let queued = turn.after_frame(FrameOutcome::Queued, now);
            let failed = turn.after_frame(FrameOutcome::Failed, now);
            &&& empty.turn_at(now) == Turn::Render && !empty.feedback_pending
            &&& empty.consecutive_frame_failures == 0
            &&& queued.turn_at(now) == Turn::Wait && queued.feedback_pending
            &&& queued.consecutive_frame_failures == 0
            &&& queued.rearmed().turn_at(now) == Turn::Render
            &&& failed.turn_at(now) == Turn::Wait && !failed.feedback_pending
            &&& failed.retry_after is Some && failed.retry_after->0 >= now + 100_000_000
            &&& failed.retry_after->0 <= now + 2_000_000_000
            &&& surface.consecutive_frame_failures < u32::MAX ==> failed.consecutive_frame_failures
                == surface.consecutive_frame_failures + 1
        }),
{
}

/// A paused output renders nothing; one that was rebuilt renders at once, one that could
/// not be tries again after two seconds.
pub proof fn rebuilt_outputs_render(surface: SurfaceData, now: u64)
    requires
        now + 2_000_000_000 <= u64::MAX,
    ensures
        surface.paused().turn_at(now) == Turn::Wait,
        !surface.paused().feedback_pending,
        surface.rebuilt(Rebuild::Done, now).turn_at(now) == Turn::Render,
        surface.rebuilt(Rebuild::Kept, now).turn_at(now) == Turn::Wait,
        surface.rebuilt(Rebuild::Kept, now).retry_after == Some((now + 2_000_000_000) as u64),
        !surface.rebuilt(Rebuild::Lost, now).has_compositor,
        forall|r: Rebuild|
            (#[trigger] surface.rebuilt(r, now)).crtc == surface.crtc && surface.rebuilt(
                r,
                now,
            ).output == surface.output && surface.rebuilt(r, now).position == surface.position,
{
}

/// A mode is carried with its size, and its rate in thousandths.
pub proof fn modes_are_carried_over(mode: DisplayMode)
    requires
        mode.vrefresh * 1000 <= i32::MAX,
    ensures
        carried_mode(mode).size.w == mode.width,
        carried_mode(mode).size.h == mode.height,
        carried_mode(mode).refresh == mode.vrefresh * 1000,
{
}

/// What is unplugged goes and what is not stays.
pub proof fn only_connected_outputs_stay(surfaces: Seq<SurfaceData>, connected: Seq<u64>, i: int)
    requires
        0 <= i < surfaces.len(),
    ensures
        still_connected(surfaces, connected).contains(surfaces[i]) <==> connected.contains(
            surfaces[i].connector,
        ),
{
    let keep = |s: SurfaceData| connected.contains(s.connector);
    if connected.contains(surfaces[i].connector) {
        surfaces.lemma_filter_contains(keep, i);
    } else if surfaces.filter(keep).contains(surfaces[i]) {
        surfaces.lemma_filter_pred(keep, surfaces.filter(keep).index_of(surfaces[i]));
    }
}

/// A frame that was shown lets its output render again and is reported to its clients
/// once, with the time from frame to frame; the other outputs are as they were.
pub proof fn a_shown_frame_is_reported_once(
    before: GpuData,
    after: GpuData,
    later: GpuData,
    crtc: u64,
    now: u64,
    at_vblank: bool,
    r: Option<VblankReply>,
    then: u64,
    s: Option<VblankReply>,
    i: int,
)
    requires
        before.wf(),
        0 <= i < before.surfaces@.len(),
        before.surfaces@[i].crtc == crtc,
        before.surfaces@[i].mode.refresh > 0,
        before.surfaces@[i].retry_after is None,
        before.surfaces@[i].has_compositor,
        blank_shown(before, after, crtc, now, at_vblank, r),
        blank_shown(after, later, crtc, then, at_vblank, s),
    ensures
        r is Some,
        r->0.output == before.surfaces@[i].output,
        r->0.present_feedback == before.surfaces@[i].feedback_pending,
        r->0.send_callbacks == at_vblank,
        r->0.interval_us * before.surfaces@[i].mode.refresh <= 1_000_000_000,
        1_000_000_000 < (r->0.interval_us + 1) * before.surfaces@[i].mode.refresh,
        after.surfaces@[i].turn_at(now) == Turn::Render,
        !after.surfaces@[i].feedback_pending,
        after.surfaces@.len() == before.surfaces@.len(),
        forall|k: int|
            0 <= k < before.surfaces@.len() && k != i ==> #[trigger] after.surfaces@[k]
                == before.surfaces@[k],
        s is Some,
        !s->0.present_feedback,
{
    lemma_index_on_crtc(before.surfaces@, crtc);
    lemma_index_on_crtc(after.surfaces@, crtc);
    let k = index_on_crtc(before.surfaces@, crtc)->0;
    assert(k == i) by {
        if k != i {
            let (a, b) = if k < i { (k, i) } else { (i, k) };
            assert(before.surfaces@[a].crtc != before.surfaces@[b].crtc);
        }
    }
    let mhz = before.surfaces@[i].mode.refresh as int;
    assert(mhz * (1_000_000_000int / mhz) <= 1_000_000_000 < mhz * (1_000_000_000int / mhz) + mhz
        && 0 <= 1_000_000_000int / mhz <= 1_000_000_000) by (nonlinear_arith)
        requires
            mhz > 0,
    ;
    assert((1_000_000_000int / mhz + 1) * mhz == mhz * (1_000_000_000int / mhz) + mhz
        && (1_000_000_000int / mhz) * mhz == mhz * (1_000_000_000int / mhz)) by (nonlinear_arith);
    let after_k = index_on_crtc(after.surfaces@, crtc)->0;
    assert(after.surfaces@[i].crtc == crtc);
    assert(after_k == i) by {
        if after_k != i {
            assert(after.surfaces@[after_k] == before.surfaces@[after_k]);
            let (a, b) = if after_k < i { (after_k, i) } else { (i, after_k) };
            assert(before.surfaces@[a].crtc != before.surfaces@[b].crtc);
        }
    }
}

/// The outputs whose turn it is render, and no others, in their order.
pub proof fn those_whose_turn_it_is_render(surfaces: Seq<SurfaceData>, now: u64, i: int)
    requires
        0 <= i < surfaces.len() <= usize::MAX,
    ensures
        rendering(surfaces, now).contains(i as usize) <==> surfaces[i].turn_at(now) == Turn::Render,
        forall|k: int|
            0 <= k < rendering(surfaces, now).len() ==> (#[trigger] rendering(surfaces, now)[k])
                < surfaces.len(),
    decreases surfaces.len(),
{
    let shorter = surfaces.drop_last();
    let rest = rendering(shorter, now);
    let all = rendering(surfaces, now);
    let last = surfaces.len() - 1;
    if shorter.len() > 0 {
        those_whose_turn_it_is_render(shorter, now, if i < last { i } else { 0 });
    }
    assert(surfaces[last] == surfaces.last());
    if surfaces.last().turn_at(now) is Render {
        assert(all[rest.len() as int] == last as usize);
    }
    if i < last {
        assert(shorter[i] == surfaces[i]);
        if rest.contains(i as usize) {
            let k = rest.index_of(i as usize);
            assert(all[k] == i as usize);
        }
        if all.contains(i as usize) {
            let k = all.index_of(i as usize);
            assert(all[k] == i as usize);
            if k < rest.len() {
                assert(rest[k] == i as usize);
            }
        }
    } else if all.contains(last as usize) && !(surfaces.last().turn_at(now) is Render) {
        let k = rest.index_of(last as usize);
        assert(rest[k] < shorter.len());
    }
}

/// Outputs are named by their numbers, in order.
pub proof fn outputs_are_named_in_order(surfaces: Seq<SurfaceData>, i: int)
    requires
        0 <= i < surfaces.len(),
    ensures
        outputs_of(surfaces).len() == surfaces.len(),
        outputs_of(surfaces)[i] == surfaces[i].output,
        crtcs_of(surfaces)[i] == surfaces[i].crtc,
{
}

/// After a frame that failed the clients go on at once and another frame is due; after one
/// that was queued they hear when it is shown where that is asked for; feedback is gathered
/// for a frame that will be shown, and for no other.
pub proof fn clients_are_not_left_waiting(
    before: SurfaceData,
    after: SurfaceData,
    outcome: FrameOutcome,
    now: u64,
    at_vblank: bool,
    r: FrameReply,
)
    requires
        frame_finished(before, after, outcome, now, at_vblank, r),
    ensures
        r.needs_render <==> outcome == FrameOutcome::Failed,
        r.callbacks == Callbacks::Unthrottled <==> outcome == FrameOutcome::Failed,
        r.callbacks == Callbacks::AtVblank <==> outcome == FrameOutcome::Queued && at_vblank,
        r.collect_feedback <==> outcome == FrameOutcome::Queued,
        r.collect_feedback ==> after.feedback_pending,
        after.feedback_pending ==> outcome == FrameOutcome::Queued,
{
}

/// A mode that the display offers is taken where changing modes is allowed: on the same
/// connector, by the same CRTC and at the same place, with the size and the rate that were
/// asked for. A refusal changes nothing.
pub proof fn an_offered_mode_is_taken(
    before: GpuData,
    after: GpuData,
    output: u64,
    modes: Vec<DisplayMode>,
    spec: OutputModeSpec,
    r: Result<SurfacePlan, ModesetRefusal>,
    i: int,
    k: int,
)
    requires
        modeset_begun(before, after, true, output, Some(&modes), spec, r),
        0 <= i < before.surfaces@.len(),
        before.surfaces@[i].output == output,
        forall|j: int|
            0 <= j < before.surfaces@.len() && j != i ==> (#[trigger] before.surfaces@[j]).output
                != output,
        0 <= k < modes@.len(),
        modes@[k].width == spec.width,
        modes@[k].height == spec.height,
        spec.refresh is None || spec.refresh == Some(modes@[k].vrefresh),
    ensures
        r is Ok,
        r->Ok_0.connector == before.surfaces@[i].connector,
        r->Ok_0.crtc == before.surfaces@[i].crtc,
        r->Ok_0.position == before.surfaces@[i].position,
        r->Ok_0.mode.width == spec.width,
        r->Ok_0.mode.height == spec.height,
        spec.refresh is Some ==> r->Ok_0.mode.vrefresh == spec.refresh->0,
        after.surfaces@ == before.surfaces@.remove(i),
        forall|same: GpuData, s: Result<SurfacePlan, ModesetRefusal>| #[trigger]
            modeset_begun(before, same, false, output, Some(&modes), spec, s) ==> s is Err
                && same.surfaces@ == before.surfaces@,
{
    lemma_index_of_output(before.surfaces@, output);
    let at = index_of_output(before.surfaces@, output)->0;
    assert(at == i) by {
        if at != i {
            assert(before.surfaces@[at].output != output);
        }
    }
    crate::backend::modes::lemma_first_mode(modes@, |m: DisplayMode| meets_spec(m, spec));
    assert(meets_spec(modes@[k], spec));
}

} // verus!
