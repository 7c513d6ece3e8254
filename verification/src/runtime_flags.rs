//! Runtime kill-switches for diagnosing freezes.
//!
//! Each suspect feature can be switched off at startup through an environment
//! variable; any non-empty value does it. A few further variables opt in to
//! experimental behaviour.
use crate::commands::EnvVar;
use crate::text;
use vstd::prelude::*;
use vstd::string::*;

verus! {

#[derive(Debug, Clone, Copy, PartialEq, Eq, Structural)]
pub struct RuntimeFlags {
    pub focus_ipc_disabled: bool,
    pub workspace_publish_disabled: bool,
    pub event_broadcaster_disabled: bool,
    pub explicit_sync_disabled: bool,
    pub dmabuf_disabled: bool,
    pub animations_disabled: bool,
    pub session_env_export_disabled: bool,
    pub keyboard_leds_disabled: bool,
    /// Send frame callbacks at the vblank instead of when a frame is queued.
    pub frame_callback_at_vblank: bool,
    /// Drive every connected connector, not only the first.
    pub multi_output_enabled: bool,
    /// Publish the settings tray whatever the configuration says.
    pub tray_enabled: bool,
    /// Let the tray change modes on a running output.
    pub live_modeset_enabled: bool,
    /// Leave breadcrumbs round each display operation.
    pub wedge_trace: bool,
}

/// Whether the environment `vars` gives `key` a value that is not empty.
pub open spec fn is_on(vars: Seq<EnvVar>, key: Seq<char>) -> bool {
    exists|i: int|
        0 <= i < vars.len() && (#[trigger] vars[i]).key@ == key && vars[i].value@.len() > 0
}

fn on(vars: &Vec<EnvVar>, key: &str) -> (r: bool)
    ensures
        r == is_on(vars@, key@),
{
    let mut i: usize = 0;
    while i < vars.len()
        invariant
            i <= vars.len(),
            forall|k: int|
                0 <= k < i ==> !((#[trigger] vars@[k]).key@ == key@ && vars@[k].value@.len() > 0),
        decreases vars.len() - i,
    {
        if text::str_eq(vars[i].key.as_str(), key) && vars[i].value.as_str().unicode_len() > 0 {
            return true;
        }
        i = i + 1;
    }
    false
}

/// What the environment switches on and off.
pub open spec fn flags_of(vars: Seq<EnvVar>) -> RuntimeFlags {
    RuntimeFlags {
        focus_ipc_disabled: is_on(vars, "BEEWM_NO_FOCUS_IPC"@),
        workspace_publish_disabled: is_on(vars, "BEEWM_NO_WORKSPACE_PUBLISH"@),
        event_broadcaster_disabled: is_on(vars, "BEEWM_NO_EVENT_BROADCASTER"@),
        explicit_sync_disabled: is_on(vars, "BEEWM_NO_EXPLICIT_SYNC"@),
        dmabuf_disabled: is_on(vars, "BEEWM_NO_DMABUF"@),
        animations_disabled: is_on(vars, "BEEWM_DISABLE_ANIMATIONS"@),
        session_env_export_disabled: is_on(vars, "BEEWM_NO_SESSION_ENV_EXPORT"@),
        keyboard_leds_disabled: is_on(vars, "BEEWM_NO_KEYBOARD_LEDS"@),
        frame_callback_at_vblank: is_on(vars, "BEEWM_FRAME_CALLBACK_AT_VBLANK"@),
        multi_output_enabled: is_on(vars, "BEEWM_MULTI_OUTPUT"@),
        tray_enabled: is_on(vars, "BEEWM_TRAY"@),
        live_modeset_enabled: is_on(vars, "BEEWM_LIVE_MODESET"@),
        wedge_trace: is_on(vars, "BEEWM_WEDGE_TRACE"@),
    }
}

impl RuntimeFlags {
    /// The flags that the environment `vars` sets.
    pub fn from_env(vars: &Vec<EnvVar>) -> (r: Self)
        ensures
            r == flags_of(vars@),
    {
        RuntimeFlags {
            focus_ipc_disabled: on(vars, "BEEWM_NO_FOCUS_IPC"),
            workspace_publish_disabled: on(vars, "BEEWM_NO_WORKSPACE_PUBLISH"),
            event_broadcaster_disabled: on(vars, "BEEWM_NO_EVENT_BROADCASTER"),
            explicit_sync_disabled: on(vars, "BEEWM_NO_EXPLICIT_SYNC"),
            dmabuf_disabled: on(vars, "BEEWM_NO_DMABUF"),
            animations_disabled: on(vars, "BEEWM_DISABLE_ANIMATIONS"),
            session_env_export_disabled: on(vars, "BEEWM_NO_SESSION_ENV_EXPORT"),
            keyboard_leds_disabled: on(vars, "BEEWM_NO_KEYBOARD_LEDS"),
            frame_callback_at_vblank: on(vars, "BEEWM_FRAME_CALLBACK_AT_VBLANK"),
            multi_output_enabled: on(vars, "BEEWM_MULTI_OUTPUT"),
            tray_enabled: on(vars, "BEEWM_TRAY"),
            live_modeset_enabled: on(vars, "BEEWM_LIVE_MODESET"),
            wedge_trace: on(vars, "BEEWM_WEDGE_TRACE"),
        }
    }

    /// Whether a kill-switch is on, which deserves a warning at startup.
    pub fn kill_switch_active(&self) -> (r: bool)
        ensures
            r == (self.focus_ipc_disabled || self.workspace_publish_disabled
                || self.event_broadcaster_disabled || self.explicit_sync_disabled
                || self.dmabuf_disabled || self.animations_disabled || self.session_env_export_disabled
                || self.keyboard_leds_disabled),
    {
        self.focus_ipc_disabled || self.workspace_publish_disabled || self.event_broadcaster_disabled
            || self.explicit_sync_disabled || self.dmabuf_disabled || self.animations_disabled
            || self.session_env_export_disabled || self.keyboard_leds_disabled
    }
}

/// The flags of the process, given its environment.
pub fn flags(vars: &Vec<EnvVar>) -> (r: RuntimeFlags)
    ensures
        r.focus_ipc_disabled == is_on(vars@, "BEEWM_NO_FOCUS_IPC"@),
        r.workspace_publish_disabled == is_on(vars@, "BEEWM_NO_WORKSPACE_PUBLISH"@),
        r.event_broadcaster_disabled == is_on(vars@, "BEEWM_NO_EVENT_BROADCASTER"@),
        r.explicit_sync_disabled == is_on(vars@, "BEEWM_NO_EXPLICIT_SYNC"@),
        r.dmabuf_disabled == is_on(vars@, "BEEWM_NO_DMABUF"@),
        r.animations_disabled == is_on(vars@, "BEEWM_DISABLE_ANIMATIONS"@),
        r.session_env_export_disabled == is_on(vars@, "BEEWM_NO_SESSION_ENV_EXPORT"@),
        r.keyboard_leds_disabled == is_on(vars@, "BEEWM_NO_KEYBOARD_LEDS"@),
        r.frame_callback_at_vblank == is_on(vars@, "BEEWM_FRAME_CALLBACK_AT_VBLANK"@),
        r.multi_output_enabled == is_on(vars@, "BEEWM_MULTI_OUTPUT"@),
        r.tray_enabled == is_on(vars@, "BEEWM_TRAY"@),
        r.live_modeset_enabled == is_on(vars@, "BEEWM_LIVE_MODESET"@),
        r.wedge_trace == is_on(vars@, "BEEWM_WEDGE_TRACE"@),
{
    RuntimeFlags::from_env(vars)
}

/// A variable that is set to something switches what it names, one that is set to nothing
/// or is not set does not.
pub proof fn variables_switch_what_they_name(vars: Seq<EnvVar>, i: int)
    requires
        0 <= i < vars.len(),
        vars[i].value@.len() > 0,
    ensures
        vars[i].key@ == "BEEWM_NO_FOCUS_IPC"@ ==> flags_of(vars).focus_ipc_disabled,
        vars[i].key@ == "BEEWM_NO_WORKSPACE_PUBLISH"@ ==> flags_of(vars).workspace_publish_disabled,
        vars[i].key@ == "BEEWM_NO_EVENT_BROADCASTER"@ ==> flags_of(vars).event_broadcaster_disabled,
        vars[i].key@ == "BEEWM_NO_EXPLICIT_SYNC"@ ==> flags_of(vars).explicit_sync_disabled,
        vars[i].key@ == "BEEWM_NO_DMABUF"@ ==> flags_of(vars).dmabuf_disabled,
        vars[i].key@ == "BEEWM_DISABLE_ANIMATIONS"@ ==> flags_of(vars).animations_disabled,
        vars[i].key@ == "BEEWM_NO_SESSION_ENV_EXPORT"@ ==> flags_of(
            vars,
        ).session_env_export_disabled,
        vars[i].key@ == "BEEWM_NO_KEYBOARD_LEDS"@ ==> flags_of(vars).keyboard_leds_disabled,
        vars[i].key@ == "BEEWM_FRAME_CALLBACK_AT_VBLANK"@ ==> flags_of(
            vars,
        ).frame_callback_at_vblank,
        vars[i].key@ == "BEEWM_MULTI_OUTPUT"@ ==> flags_of(vars).multi_output_enabled,
        vars[i].key@ == "BEEWM_TRAY"@ ==> flags_of(vars).tray_enabled,
        vars[i].key@ == "BEEWM_LIVE_MODESET"@ ==> flags_of(vars).live_modeset_enabled,
        vars[i].key@ == "BEEWM_WEDGE_TRACE"@ ==> flags_of(vars).wedge_trace,
{
}

/// Where nothing is set to anything, nothing is switched.
pub proof fn nothing_is_switched_without_variables(vars: Seq<EnvVar>)
    requires
        forall|i: int| 0 <= i < vars.len() ==> (#[trigger] vars[i]).value@.len() == 0,
    ensures
        !flags_of(vars).focus_ipc_disabled,
        !flags_of(vars).workspace_publish_disabled,
        !flags_of(vars).event_broadcaster_disabled,
        !flags_of(vars).explicit_sync_disabled,
        !flags_of(vars).dmabuf_disabled,
        !flags_of(vars).animations_disabled,
        !flags_of(vars).session_env_export_disabled,
        !flags_of(vars).keyboard_leds_disabled,
        !flags_of(vars).frame_callback_at_vblank,
        !flags_of(vars).multi_output_enabled,
        !flags_of(vars).tray_enabled,
        !flags_of(vars).live_modeset_enabled,
        !flags_of(vars).wedge_trace,
{
}

} // verus!
