//! Smaller decisions of the backend that runs on the bare terminal.
use crate::text::{
    chars_at, chars_eq, chars_hold, chars_of, decimal, decimal_of, holds, lowered,
    parse_i32, signed_number_of, stands_at, string_of, to_ascii_lower, trim, trimmed,
};
use vstd::prelude::*;

verus! {

/// The number of the terminal that a text such as `tty1` names.
pub open spec fn terminal_number(active: Seq<char>) -> Option<int> {
    let name = trimmed(active);
    if stands_at(name, "tty"@, 0) {
        match signed_number_of(name.subrange(3, name.len() as int)) {
            Some(n) => if i32::MIN <= n <= i32::MAX {
                Some(n)
            } else {
                None
            },
            None => None,
        }
    } else {
        None
    }
}

/// See [`terminal_number`]. `active` is what the kernel says of the active
/// terminal, where it could be read.
pub fn current_vt(active: Option<&str>) -> (r: Option<i32>)
    ensures
        r == match active {
            Some(text) => match terminal_number(text@) {
                Some(n) => Some(n as i32),
                None => None,
            },
            None => None,
        },
{
    let text = match active {
        Some(text) => text,
        None => {
            return None;
        },
    };
    let name = trim(text);
    let prefix = chars_of("tty");
    proof {
        reveal_strlit("tty");
    }
    if chars_at(&name, &prefix, 0) {
        parse_i32(&name, 3)
    } else {
        None
    }
}

/// Whether a line of the text starts with `prefix`.
pub open spec fn has_line_with(text: Seq<char>, prefix: Seq<char>) -> bool {
    exists|i: int|
        (i == 0 || (0 < i <= text.len() && text[i - 1] == '\n')) && #[trigger] stands_at(
            text,
            prefix,
            i,
        )
}

fn line_starts_with(text: &Vec<char>, prefix: &Vec<char>) -> (r: bool)
    ensures
        r == has_line_with(text@, prefix@),
{
    let mut i: usize = 0;
    while i < text.len()
        invariant
            i <= text.len(),
            forall|k: int|
                0 <= k < i && (k == 0 || text@[k - 1] == '\n') ==> !#[trigger] stands_at(
                    text@,
                    prefix@,
                    k,
                ),
        decreases text.len() - i,
    {
        if (i == 0 || text[i - 1] == '\n') && chars_at(text, prefix, i) {
            return true;
        }
        i = i + 1;
    }
    (i == 0 || text[i - 1] == '\n') && chars_at(text, prefix, i)
}

/// What came of reading the mode-setting parameter of the NVIDIA driver.
#[derive(Debug)]
pub enum ParameterRead {
    Value(String),
    /// It may not be read.
    Denied,
    /// There is none, or it could not be read for another reason.
    Missing,
}

/// What to tell the user of the NVIDIA driver.
#[derive(Debug)]
pub enum ModesetAdvice {
    Fine,
    /// Mode setting is off; this is the parameter.
    Disabled(String),
    /// Whether mode setting is on cannot be told.
    Unreadable,
}

/// Whether the driver is loaded, by the list of loaded modules where that could
/// be read.
pub open spec fn nvidia_loaded(modules: Option<Seq<char>>) -> bool {
    modules is Some && has_line_with(modules->0, "nvidia_drm "@)
}

/// Whether the user has to be told that the NVIDIA driver does not set modes.
/// `modules` is the list of loaded modules, where it could be read.
pub fn warn_if_nvidia_modeset_disabled(modules: Option<&str>, parameter: &ParameterRead) -> (r:
    ModesetAdvice)
    ensures
        ({
            let loaded = nvidia_loaded(
                match modules {
                    Some(list) => Some(list@),
                    None => None,
                },
            );
            match parameter {
                ParameterRead::Value(value) => if loaded && trimmed(value@) != "Y"@ {
                    r matches ModesetAdvice::Disabled(shown) && shown@ == trimmed(value@)
                } else {
                    r is Fine
                },
                ParameterRead::Denied => if loaded {
                    r is Unreadable
                } else {
                    r is Fine
                },
                ParameterRead::Missing => r is Fine,
            }
        }),
{
    let list = match modules {
        Some(list) => list,
        None => {
            return ModesetAdvice::Fine;
        },
    };
    let text = chars_of(list);
    let prefix = chars_of("nvidia_drm ");
    if !line_starts_with(&text, &prefix) {
        return ModesetAdvice::Fine;
    }
    match parameter {
        ParameterRead::Value(value) => {
            let value = trim(value.as_str());
            if chars_eq(&value, "Y") {
                ModesetAdvice::Fine
            } else {
                let shown = string_of(&value, 0, value.len());
                proof {
                    assert(value@.subrange(0, value.len() as int) =~= value@);
                }
                ModesetAdvice::Disabled(shown)
            }
        },
        ParameterRead::Denied => ModesetAdvice::Unreadable,
        ParameterRead::Missing => ModesetAdvice::Fine,
    }
}

fn lower(s: &str) -> (r: Vec<char>)
    ensures
        r@ == lowered(s@),
{
    let v = chars_of(s);
    let mut r: Vec<char> = Vec::new();
    let mut i: usize = 0;
    while i < v.len()
        invariant
            i <= v.len(),
            r@ =~= lowered(v@.subrange(0, i as int)),
        decreases v.len() - i,
    {
        r.push(to_ascii_lower(v[i]));
        i = i + 1;
    }
    proof {
        assert(v@.subrange(0, i as int) =~= v@);
    }
    r
}

/// Whether the driver of a graphics device is NVIDIA's: its name or its
/// description says so, in any case. `None` where the driver could not be asked.
pub fn is_nvidia_drm_device(driver: Option<(&str, &str)>) -> (r: bool)
    ensures
        r == (driver is Some && (holds(lowered((driver->0).0@), "nvidia"@) || holds(
            lowered((driver->0).1@),
            "nvidia"@,
        ))),
{
    match driver {
        Some((name, description)) => {
            let part = chars_of("nvidia");
            let name = lower(name);
            let description = lower(description);
            chars_hold(&name, &part) || chars_hold(&description, &part)
        },
        None => false,
    }
}

/// Whether clients may hand over fences with their buffers: not where that is
/// switched off, on NVIDIA's driver, or where the kernel cannot wait for them.
pub fn use_explicit_sync(disabled: bool, nvidia: bool, supports_eventfd: bool) -> (r: bool)
    ensures
        r == (!disabled && !nvidia && supports_eventfd),
{
    if disabled {
        false
    } else if nvidia {
        false
    } else {
        supports_eventfd
    }
}

/// How clients learn which buffers they may share.
#[derive(Debug, Clone, Copy, PartialEq, Eq, Structural)]
pub enum DmabufSetup {
    /// They are told the device and the formats.
    Feedback { main_device: u64 },
    /// They are given a flat list of formats.
    Legacy,
    /// They cannot share any.
    Off,
}

/// What is known of the device file of a graphics card.
#[derive(Debug, Clone, Copy, PartialEq, Eq, Structural)]
pub struct DeviceIds {
    /// The device of its path, and of the render node that belongs to it, where
    /// these could be found.
    pub node: Option<u64>,
    pub render_node: Option<u64>,
    /// The device of the open file.
    pub file: Option<u64>,
}

/// The device that clients are told of: the render node, which they may open,
/// else the node itself, else the open file.
pub open spec fn device_for_clients(ids: DeviceIds) -> Option<u64> {
    if ids.node is Some {
        if ids.render_node is Some { ids.render_node } else { ids.node }
    } else {
        ids.file
    }
}

pub fn main_device(ids: DeviceIds) -> (r: Option<u64>)
    ensures
        r == device_for_clients(ids),
{
    match ids.node {
        Some(node) => match ids.render_node {
            Some(render_node) => Some(render_node),
            None => Some(node),
        },
        None => ids.file,
    }
}

/// How buffers are shared. `feedback_built` says whether the device and the
/// formats could be put into words for clients.
pub fn dmabuf_setup(ids: DeviceIds, feedback_built: bool, disabled: bool) -> (r: DmabufSetup)
    ensures
        r == if disabled {
            DmabufSetup::Off
        } else if device_for_clients(ids) is Some && feedback_built {
            DmabufSetup::Feedback { main_device: device_for_clients(ids)->0 }
        } else {
            DmabufSetup::Legacy
        },
{
    if disabled {
        return DmabufSetup::Off;
    }
    match main_device(ids) {
        Some(main_device) => if feedback_built {
            DmabufSetup::Feedback { main_device }
        } else {
            DmabufSetup::Legacy
        },
        None => DmabufSetup::Legacy,
    }
}

/// How long the main loop may sleep, in milliseconds: hardly at all while the
/// pointer drags a window, a frame's time while one is due.
pub fn dispatch_timeout_ms(grab_active: bool, needs_render: bool) -> (r: u64)
    ensures
        r == if grab_active {
            1u64
        } else if needs_render {
            16
        } else {
            100
        },
{
    if grab_active {
        1
    } else if needs_render {
        16
    } else {
        100
    }
}

/// Whether the main loop renders now.
pub fn render_due(has_gpu: bool, needs_render: bool, blanked: bool) -> (r: bool)
    ensures
        r == (has_gpu && needs_render && !blanked),
{
    has_gpu && needs_render && !blanked
}

/// One setting of a pointing device.
#[derive(Debug, Clone, Copy, PartialEq, Eq, Structural)]
pub enum DeviceSetting {
    TapToClick(bool),
    TwoFingerScroll,
    NaturalScroll(bool),
}

/// What a pointing device can do.
#[derive(Debug, Clone, Copy, PartialEq, Eq, Structural)]
pub struct DeviceAbilities {
    /// How many fingers it can tell apart when they tap; touchpads alone can.
    pub tap_finger_count: u32,
    pub two_finger_scroll: bool,
    pub natural_scroll: bool,
}

/// The settings of a device that appears; only touchpads get any.
pub open spec fn settings_for(
    abilities: DeviceAbilities,
    tap_to_click: bool,
    natural_scroll: bool,
) -> Seq<DeviceSetting> {
    if abilities.tap_finger_count == 0 {
        Seq::empty()
    } else {
        seq![DeviceSetting::TapToClick(tap_to_click)] + (if abilities.two_finger_scroll {
            seq![DeviceSetting::TwoFingerScroll]
        } else {
            Seq::empty()
        }) + (if abilities.natural_scroll {
            seq![DeviceSetting::NaturalScroll(natural_scroll)]
        } else {
            Seq::empty()
        })
    }
}

/// See [`settings_for`].
pub fn configure_device(
    abilities: DeviceAbilities,
    tap_to_click: bool,
    natural_scroll: bool,
) -> (r: Vec<DeviceSetting>)
    ensures
        r@ == settings_for(abilities, tap_to_click, natural_scroll),
{
    let mut r: Vec<DeviceSetting> = Vec::new();
    if abilities.tap_finger_count > 0 {
        r.push(DeviceSetting::TapToClick(tap_to_click));
        if abilities.two_finger_scroll {
            r.push(DeviceSetting::TwoFingerScroll);
        }
        if abilities.natural_scroll {
            r.push(DeviceSetting::NaturalScroll(natural_scroll));
        }
    }
    proof {
        assert(r@ =~= settings_for(abilities, tap_to_click, natural_scroll));
    }
    r
}

/// The runtime directory of a user, for sessions in which nobody has set one.
pub fn fallback_runtime_dir(uid: u32) -> (r: String)
    ensures
        r@ == "/run/user/"@ + decimal_of(uid as nat),
{
    let mut path = String::new();
    path.append("/run/user/");
    let number = decimal(uid as u64);
    path.append(number.as_str());
    proof {
        assert(path@ =~= "/run/user/"@ + decimal_of(uid as nat));
    }
    path
}

/// What the kernel says of a vblank.
#[derive(Debug, Clone, Copy, PartialEq, Eq, Structural)]
pub struct VblankMetadata {
    /// When it was, on the monotonic clock; none where another clock was read.
    pub monotonic: Option<u64>,
    pub sequence: u32,
}

/// The time and the sequence number that clients are told of a vblank: those of
/// the kernel, else the present and zero.
pub fn presentation_stamp(metadata: Option<VblankMetadata>, now: u64) -> (r: (u64, u64))
    ensures
        r.0 == if metadata is Some && metadata->0.monotonic is Some {
            metadata->0.monotonic->0
        } else {
            now
        },
        r.1 == if metadata is Some {
            metadata->0.sequence as u64
        } else {
            0
        },
{
    match metadata {
        Some(metadata) => {
            let time: u64 = match metadata.monotonic {
                Some(time) => time,
                None => now,
            };
            (time, metadata.sequence as u64)
        },
        None => (now, 0),
    }
}

/// How rendering into a window of another desktop came out.
#[derive(Debug, Clone, Copy, PartialEq, Eq, Structural)]
pub enum NestedOutcome {
    /// The window could not be drawn to, or drawing failed.
    Failed,
    /// Nothing had changed.
    Undamaged,
    /// The changes were handed over, or could not be.
    Damaged { submitted: bool },
}

/// What follows: whether the frame counts as drawn, so that none is due, and
/// the number of the presentation where clients are to be told of one.
pub fn nested_frame_done(outcome: NestedOutcome, sequence: u64) -> (r: (bool, Option<u64>))
    ensures
        r.0 == (outcome is Undamaged || outcome == NestedOutcome::Damaged { submitted: true }),
        r.1 == if outcome == (NestedOutcome::Damaged { submitted: true }) {
            Some(if sequence == u64::MAX { 0u64 } else { (sequence + 1) as u64 })
        } else {
            None
        },
{
    match outcome {
        NestedOutcome::Failed => (false, None),
        NestedOutcome::Undamaged => (true, None),
        NestedOutcome::Damaged { submitted } => if submitted {
            (true, Some(sequence.wrapping_add(1)))
        } else {
            (false, None)
        },
    }
}

/// A terminal's number is read as it is written behind `tty`.
pub proof fn terminals_are_read_by_their_numbers(n: nat)
    requires
        n <= i32::MAX,
    ensures
        terminal_number("tty"@ + decimal_of(n)) == Some(n as int),
{
    reveal_strlit("tty");
    let name = "tty"@ + decimal_of(n);
    crate::text::lemma_decimal_is_not_empty(n);
    crate::text::numbers_are_read_as_they_are_written(n);
    crate::text::signed_numbers_are_read_as_they_are_written(n as int);
    let digits = decimal_of(n);
    assert(name[0] == 't');
    assert(name.last() == digits.last());
    assert(crate::text::is_digit(digits[digits.len() - 1]));
    assert(name.subrange(0, 3) =~= "tty"@);
    assert(name.subrange(3, name.len() as int) =~= digits);
}

/// Clients share buffers by the device that renders, where it has one of its own.
pub proof fn clients_use_the_rendering_device(ids: DeviceIds)
    ensures
        ids.node is Some && ids.render_node is Some ==> device_for_clients(ids) == ids.render_node,
        ids.node is Some && ids.render_node is None ==> device_for_clients(ids) == ids.node,
        ids.node is None ==> device_for_clients(ids) == ids.file,
{
}

/// A touchpad is set up as configured, and what is no touchpad is left alone.
pub proof fn touchpads_are_set_up_as_configured(
    abilities: DeviceAbilities,
    tap_to_click: bool,
    natural_scroll: bool,
)
    ensures
        ({
            let set = settings_for(abilities, tap_to_click, natural_scroll);
            &&& abilities.tap_finger_count == 0 ==> set.len() == 0
            &&& abilities.tap_finger_count != 0 ==> set.contains(
                DeviceSetting::TapToClick(tap_to_click),
            ) && !set.contains(DeviceSetting::TapToClick(!tap_to_click))
            &&& abilities.tap_finger_count != 0 ==> (set.contains(DeviceSetting::TwoFingerScroll)
                <==> abilities.two_finger_scroll) && (set.contains(
                DeviceSetting::NaturalScroll(natural_scroll),
            ) <==> abilities.natural_scroll) && !set.contains(
                DeviceSetting::NaturalScroll(!natural_scroll),
            )
        }),
{
    let set = settings_for(abilities, tap_to_click, natural_scroll);
    if abilities.tap_finger_count != 0 {
        assert(set[0] == DeviceSetting::TapToClick(tap_to_click));
        if abilities.two_finger_scroll {
            assert(set[1] == DeviceSetting::TwoFingerScroll);
        }
        if abilities.natural_scroll {
            assert(set.last() == DeviceSetting::NaturalScroll(natural_scroll));
        }
    }
}

/// The driver is loaded where a line of the list of modules begins with its name and a
/// space, be it the first line or a later one.
pub proof fn the_driver_is_found_in_the_list(before: Seq<char>, after: Seq<char>)
    ensures
        nvidia_loaded(Some("nvidia_drm "@ + after)),
        nvidia_loaded(Some(before.push('\n') + "nvidia_drm "@ + after)),
        !nvidia_loaded(None),
        !nvidia_loaded(Some(Seq::empty())),
{
    reveal_strlit("nvidia_drm ");
    let name = "nvidia_drm "@;
    assert((name + after).subrange(0, name.len() as int) =~= name);
    assert(stands_at(name + after, name, 0));
    let text = before.push('\n') + name + after;
    let at = before.len() as int + 1;
    assert(text.subrange(at, at + name.len()) =~= name);
    assert(text[at - 1] == '\n');
    assert(stands_at(text, name, at));
}

} // verus!
