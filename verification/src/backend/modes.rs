//! Connectors: their names, the modes they offer and the CRTCs that can drive
//! them.
use crate::config::{OutputConfig, OutputModeSpec};
use crate::geometry::Size;
use crate::text::{decimal, decimal_of, str_eq};
use crate::tray::OutputModes;
use vstd::prelude::*;

verus! {

/// A mode that a connector offers: size in pixels, refresh rate in hertz.
#[derive(Debug, Clone, Copy, PartialEq, Eq, Structural)]
pub struct DisplayMode {
    pub width: u16,
    pub height: u16,
    pub vrefresh: u32,
    /// The display prefers this mode.
    pub preferred: bool,
}

/// A mode as an output carries it: the refresh rate is in thousandths of a
/// hertz.
#[derive(Debug, Clone, Copy, PartialEq, Eq, Structural)]
pub struct OutputMode {
    pub size: Size,
    pub refresh: i32,
}

/// The short name of a kind of connector; other kinds keep their name.
pub open spec fn short_kind(interface: Seq<char>) -> Seq<char> {
    if interface == "DisplayPort"@ {
        "DP"@
    } else if interface == "HDMIA"@ {
        "HDMI-A"@
    } else if interface == "HDMIB"@ {
        "HDMI-B"@
    } else if interface == "EmbeddedDisplayPort"@ {
        "eDP"@
    } else if interface == "DVID"@ {
        "DVI-D"@
    } else if interface == "DVII"@ {
        "DVI-I"@
    } else if interface == "DVIA"@ {
        "DVI-A"@
    } else {
        interface
    }
}

/// The name of a connector, such as `DP-3`, from its kind and its number among
/// those of that kind.
pub fn connector_name(interface: &str, interface_id: u32) -> (r: String)
    ensures
        r@ == short_kind(interface@) + "-"@ + decimal_of(interface_id as nat),
{
    let kind = if str_eq(interface, "DisplayPort") {
        "DP"
    } else if str_eq(interface, "HDMIA") {
        "HDMI-A"
    } else if str_eq(interface, "HDMIB") {
        "HDMI-B"
    } else if str_eq(interface, "EmbeddedDisplayPort") {
        "eDP"
    } else if str_eq(interface, "DVID") {
        "DVI-D"
    } else if str_eq(interface, "DVII") {
        "DVI-I"
    } else if str_eq(interface, "DVIA") {
        "DVI-A"
    } else {
        interface
    };
    let mut name = String::new();
    name.append(kind);
    name.append("-");
    let number = decimal(interface_id as u64);
    name.append(number.as_str());
    proof {
        assert(name@ =~= short_kind(interface@) + "-"@ + decimal_of(interface_id as nat));
    }
    name
}

/// Number of the first configuration for an output of this name.
pub open spec fn config_index(configs: Seq<OutputConfig>, name: Seq<char>) -> Option<int>
    decreases configs.len(),
{
    if configs.len() == 0 {
        None
    } else {
        match config_index(configs.drop_last(), name) {
            Some(i) => Some(i),
            None => if configs.last().name@ == name {
                Some(configs.len() - 1)
            } else {
                None
            },
        }
    }
}

/// The number is that of the first configuration with the name.
pub proof fn lemma_config_index(configs: Seq<OutputConfig>, name: Seq<char>)
    ensures
        match config_index(configs, name) {
            Some(i) => 0 <= i < configs.len() && configs[i].name@ == name && forall|k: int|
                0 <= k < i ==> (#[trigger] configs[k]).name@ != name,
            None => forall|k: int|
                0 <= k < configs.len() ==> (#[trigger] configs[k]).name@ != name,
        },
    decreases configs.len(),
{
    if configs.len() > 0 {
        let rest = configs.drop_last();
        lemma_config_index(rest, name);
        assert(forall|k: int| 0 <= k < rest.len() ==> rest[k] == configs[k]);
    }
}

/// What the configuration says of the output of that name.
pub fn config_for_output<'a>(configs: &'a Vec<OutputConfig>, name: &str) -> (r: Option<
    &'a OutputConfig,
>)
    ensures
        match r {
            Some(config) => config_index(configs@, name@) is Some && *config
                == configs@[config_index(configs@, name@)->0],
            None => config_index(configs@, name@) is None,
        },
{
    proof {
        lemma_config_index(configs@, name@);
    }
    let mut i: usize = 0;
    while i < configs.len()
        invariant
            i <= configs.len(),
            forall|k: int| 0 <= k < i ==> (#[trigger] configs@[k]).name@ != name@,
            match config_index(configs@, name@) {
                Some(j) => 0 <= j < configs@.len() && configs@[j].name@ == name@ && forall|k: int|
                    0 <= k < j ==> (#[trigger] configs@[k]).name@ != name@,
                None => forall|k: int|
                    0 <= k < configs@.len() ==> (#[trigger] configs@[k]).name@ != name@,
            },
        decreases configs.len() - i,
    {
        if str_eq(configs[i].name.as_str(), name) {
            return Some(&configs[i]);
        }
        i = i + 1;
    }
    None
}

/// The first mode that meets a condition.
pub open spec fn first_mode(
    modes: Seq<DisplayMode>,
    meets: spec_fn(DisplayMode) -> bool,
) -> Option<DisplayMode>
    decreases modes.len(),
{
    if modes.len() == 0 {
        None
    } else {
        match first_mode(modes.drop_last(), meets) {
            Some(mode) => Some(mode),
            None => if meets(modes.last()) {
                Some(modes.last())
            } else {
                None
            },
        }
    }
}

/// The mode found is one of the list, the first that meets the condition; none
/// is found where none meets it.
pub proof fn lemma_first_mode(modes: Seq<DisplayMode>, meets: spec_fn(DisplayMode) -> bool)
    ensures
        match first_mode(modes, meets) {
            Some(mode) => meets(mode) && exists|i: int|
                0 <= i < modes.len() && #[trigger] modes[i] == mode && forall|k: int|
                    0 <= k < i ==> !meets(#[trigger] modes[k]),
            None => forall|k: int| 0 <= k < modes.len() ==> !meets(#[trigger] modes[k]),
        },
    decreases modes.len(),
{
    if modes.len() > 0 {
        let rest = modes.drop_last();
        lemma_first_mode(rest, meets);
        assert(forall|k: int| 0 <= k < rest.len() ==> rest[k] == modes[k]);
        match first_mode(rest, meets) {
            Some(mode) => {
                let i = choose|i: int|
                    0 <= i < rest.len() && #[trigger] rest[i] == mode && forall|k: int|
                        0 <= k < i ==> !meets(#[trigger] rest[k]);
                assert(modes[i] == mode);
            },
            None => {
                if meets(modes.last()) {
                    assert(modes[modes.len() - 1] == modes.last());
                }
            },
        }
    }
}

/// The first one that meets it among all is the first among those up to it.
proof fn lemma_first_mode_at(
    modes: Seq<DisplayMode>,
    meets: spec_fn(DisplayMode) -> bool,
    i: int,
)
    requires
        0 <= i < modes.len(),
        meets(modes[i]),
        forall|k: int| 0 <= k < i ==> !meets(#[trigger] modes[k]),
    ensures
        first_mode(modes, meets) == Some(modes[i]),
{
    lemma_first_mode(modes, meets);
    let mode = first_mode(modes, meets)->0;
    let j = choose|j: int|
        0 <= j < modes.len() && #[trigger] modes[j] == mode && forall|k: int|
            0 <= k < j ==> !meets(#[trigger] modes[k]);
    assert(meets(modes[i]));
    assert(!(j < i)) by {
        if j < i {
            assert(!meets(modes[j]));
        }
    }
    assert(!(i < j)) by {
        if i < j {
            assert(!meets(modes[i]));
        }
    }
}

/// Whether a mode is what the configuration asks for: the size, and the refresh
/// rate where it names one.
pub open spec fn meets_spec(mode: DisplayMode, spec: OutputModeSpec) -> bool {
    mode.width == spec.width && mode.height == spec.height && (spec.refresh is Some
        ==> mode.vrefresh == spec.refresh->0)
}

/// The first mode that is what the configuration asks for.
pub fn find_mode_for_spec(modes: &Vec<DisplayMode>, spec: OutputModeSpec) -> (r: Option<
    DisplayMode,
>)
    ensures
        r == first_mode(modes@, |m: DisplayMode| meets_spec(m, spec)),
{
    let ghost meets = |m: DisplayMode| meets_spec(m, spec);
    let mut i: usize = 0;
    while i < modes.len()
        invariant
            i <= modes.len(),
            meets == (|m: DisplayMode| meets_spec(m, spec)),
            forall|k: int| 0 <= k < i ==> !meets(#[trigger] modes@[k]),
        decreases modes.len() - i,
    {
        let mode = modes[i];
        let refresh_fits = match spec.refresh {
            Some(hz) => mode.vrefresh == hz,
            None => true,
        };
        if mode.width as i32 == spec.width && mode.height as i32 == spec.height && refresh_fits {
            proof {
                lemma_first_mode_at(modes@, meets, i as int);
            }
            return Some(mode);
        }
        i = i + 1;
    }
    proof {
        lemma_first_mode(modes@, meets);
    }
    None
}

/// The mode that the display prefers, or else its first one.
pub open spec fn preferred_mode(modes: Seq<DisplayMode>) -> Option<DisplayMode> {
    match first_mode(modes, |m: DisplayMode| m.preferred) {
        Some(mode) => Some(mode),
        None => if modes.len() > 0 {
            Some(modes[0])
        } else {
            None
        },
    }
}

/// The mode to drive a display with: the preferred one, or the first one of the
/// same size with the refresh rate asked for.
pub open spec fn selected_mode(modes: Seq<DisplayMode>, refresh_rate: Option<u32>) -> Option<
    DisplayMode,
> {
    match preferred_mode(modes) {
        None => None,
        Some(preferred) => match refresh_rate {
            None => Some(preferred),
            Some(hz) => {
                let wanted = first_mode(
                    modes,
                    |m: DisplayMode|
                        m.width == preferred.width && m.height == preferred.height && m.vrefresh
                            == hz,
                );
                if wanted is Some { wanted } else { Some(preferred) }
            },
        },
    }
}

fn find_preferred(modes: &Vec<DisplayMode>) -> (r: Option<DisplayMode>)
    ensures
        r == preferred_mode(modes@),
{
    let ghost meets = |m: DisplayMode| m.preferred;
    let mut i: usize = 0;
    while i < modes.len()
        invariant
            i <= modes.len(),
            meets == (|m: DisplayMode| m.preferred),
            forall|k: int| 0 <= k < i ==> !meets(#[trigger] modes@[k]),
        decreases modes.len() - i,
    {
        if modes[i].preferred {
            proof {
                lemma_first_mode_at(modes@, meets, i as int);
            }
            return Some(modes[i]);
        }
        i = i + 1;
    }
    proof {
        lemma_first_mode(modes@, meets);
    }
    if modes.len() > 0 {
        Some(modes[0])
    } else {
        None
    }
}

/// See [`selected_mode`].
pub fn select_connector_mode(modes: &Vec<DisplayMode>, refresh_rate: Option<u32>) -> (r: Option<
    DisplayMode,
>)
    ensures
        r == selected_mode(modes@, refresh_rate),
{
    let preferred = match find_preferred(modes) {
        Some(preferred) => preferred,
        None => {
            return None;
        },
    };
    let hz: u32 = match refresh_rate {
        Some(hz) => hz,
        None => {
            return Some(preferred);
        },
    };
    let ghost meets = |m: DisplayMode|
        m.width == preferred.width && m.height == preferred.height && m.vrefresh == hz;
    let mut i: usize = 0;
    while i < modes.len()
        invariant
            i <= modes.len(),
            meets == (|m: DisplayMode|
                m.width == preferred.width && m.height == preferred.height && m.vrefresh == hz),
            preferred_mode(modes@) == Some(preferred),
            refresh_rate == Some(hz),
            forall|k: int| 0 <= k < i ==> !meets(#[trigger] modes@[k]),
        decreases modes.len() - i,
    {
        let mode = modes[i];
        if mode.width == preferred.width && mode.height == preferred.height && mode.vrefresh == hz {
            proof {
                lemma_first_mode_at(modes@, meets, i as int);
            }
            return Some(mode);
        }
        i = i + 1;
    }
    proof {
        lemma_first_mode(modes@, meets);
    }
    Some(preferred)
}

/// The mode that the configuration names, where the display offers it; else the
/// one that would be selected without it.
pub open spec fn resolved_mode(
    modes: Seq<DisplayMode>,
    configured: Option<OutputModeSpec>,
    refresh_rate: Option<u32>,
) -> Option<DisplayMode> {
    let named = first_mode(modes, |m: DisplayMode| meets_spec(m, configured->0));
    if configured is Some && named is Some {
        named
    } else {
        selected_mode(modes, refresh_rate)
    }
}

/// See [`resolved_mode`].
pub fn resolve_connector_mode(
    modes: &Vec<DisplayMode>,
    configured: Option<OutputModeSpec>,
    refresh_rate: Option<u32>,
) -> (r: Option<DisplayMode>)
    ensures
        r == resolved_mode(modes@, configured, refresh_rate),
{
    if let Some(spec) = configured {
        if let Some(mode) = find_mode_for_spec(modes, spec) {
            return Some(mode);
        }
    }
    select_connector_mode(modes, refresh_rate)
}

/// A display that offers a mode is driven with one that it offers; one that
/// offers none is not driven.
pub proof fn the_mode_is_one_of_the_display(
    modes: Seq<DisplayMode>,
    configured: Option<OutputModeSpec>,
    refresh_rate: Option<u32>,
)
    ensures
        match resolved_mode(modes, configured, refresh_rate) {
            Some(mode) => modes.contains(mode),
            None => modes.len() == 0,
        },
{
    lemma_first_mode(modes, |m: DisplayMode| meets_spec(m, configured->0));
    lemma_first_mode(modes, |m: DisplayMode| m.preferred);
    if modes.len() > 0 {
        assert(modes.contains(modes[0]));
        let preferred = preferred_mode(modes)->0;
        if refresh_rate is Some {
            let hz = refresh_rate->0;
            lemma_first_mode(
                modes,
                |m: DisplayMode|
                    m.width == preferred.width && m.height == preferred.height && m.vrefresh == hz,
            );
        }
    }
}

/// What a number below two to the thirty-second is as a signed one.
pub open spec fn wrapped_i32(n: int) -> int {
    if n > i32::MAX {
        n - 0x1_0000_0000
    } else {
        n
    }
}

/// The mode as an output carries it.
pub fn output_mode(mode: DisplayMode) -> (r: OutputMode)
    requires
        mode.vrefresh * 1000 <= u32::MAX,
    ensures
        r.size.w == mode.width,
        r.size.h == mode.height,
        r.refresh == wrapped_i32(mode.vrefresh * 1000),
{
    let millihertz: u32 = mode.vrefresh * 1000;
    let refresh: i32 = if millihertz <= 0x7FFF_FFFF {
        millihertz as i32
    } else {
        (millihertz as i64 - 0x1_0000_0000) as i32
    };
    OutputMode { size: Size { w: mode.width as i32, h: mode.height as i32 }, refresh }
}

/// The mode as the settings menu lists it.
pub open spec fn listed(mode: DisplayMode) -> OutputModeSpec {
    OutputModeSpec {
        width: mode.width as i32,
        height: mode.height as i32,
        refresh: Some(mode.vrefresh),
    }
}

/// The mode that drives an output as the settings menu shows it.
pub open spec fn shown_current(mode: OutputMode) -> OutputModeSpec {
    let refresh = if mode.refresh >= 0 {
        mode.refresh as int / 1000
    } else if (-mode.refresh) / 1000 == 0 {
        0
    } else {
        0x1_0000_0000 - (-mode.refresh) / 1000
    };
    OutputModeSpec { width: mode.size.w, height: mode.size.h, refresh: Some(refresh as u32) }
}

/// Whether a mode stands above another in the menu: the larger one does, and of
/// two of one size the faster one.
pub open spec fn stands_above(a: OutputModeSpec, b: OutputModeSpec) -> bool {
    ||| a.width > b.width
    ||| a.width == b.width && a.height > b.height
    ||| a.width == b.width && a.height == b.height && a.refresh->0 > b.refresh->0
}

/// Whether every mode stands above those that follow it.
pub open spec fn falls(list: Seq<OutputModeSpec>) -> bool {
    &&& forall|i: int| 0 <= i < list.len() ==> (#[trigger] list[i]).refresh is Some
    &&& forall|i: int, j: int|
        0 <= i < j < list.len() ==> stands_above(#[trigger] list[i], #[trigger] list[j])
}

fn is_above(a: OutputModeSpec, b: OutputModeSpec) -> (r: bool)
    requires
        a.refresh is Some,
        b.refresh is Some,
    ensures
        r == stands_above(a, b),
{
    let a_hz: u32 = match a.refresh {
        Some(hz) => hz,
        None => 0,
    };
    let b_hz: u32 = match b.refresh {
        Some(hz) => hz,
        None => 0,
    };
    a.width > b.width || (a.width == b.width && a.height > b.height) || (a.width == b.width
        && a.height == b.height && a_hz > b_hz)
}

fn insert_mode(list: &mut Vec<OutputModeSpec>, mode: OutputModeSpec)
    requires
        falls(old(list)@),
        mode.refresh is Some,
    ensures
        falls(final(list)@),
        forall|m: OutputModeSpec| #[trigger]
            final(list)@.contains(m) <==> old(list)@.contains(m) || m == mode,
{
    let ghost before = list@;
    let mut at: usize = 0;
    while at < list.len() && is_above(list[at], mode)
        invariant
            at <= list.len(),
            list@ == before,
            falls(before),
            mode.refresh is Some,
            forall|k: int| 0 <= k < at ==> stands_above(#[trigger] before[k], mode),
        decreases list.len() - at,
    {
        at = at + 1;
    }
    if at < list.len() && list[at] == mode {
        proof {
            assert(before.contains(mode));
        }
        return;
    }
    list.insert(at, mode);
    proof {
        let after = list@;
        assert(after =~= before.insert(at as int, mode));
        assert forall|i: int| 0 <= i < after.len() implies (#[trigger] after[i]).refresh is Some by {
            assert(after[i] == if i < at {
                before[i]
            } else if i == at {
                mode
            } else {
                before[i - 1]
            });
        }
        if at < before.len() {
            assert(!stands_above(before[at as int], mode));
            assert(before[at as int].refresh is Some);
            assert(stands_above(mode, before[at as int]));
        }
        assert forall|i: int, j: int| 0 <= i < j < after.len() implies stands_above(
            #[trigger] after[i],
            #[trigger] after[j],
        ) by {
            let a = if i < at {
                before[i]
            } else if i == at {
                mode
            } else {
                before[i - 1]
            };
            let b = if j < at {
                before[j]
            } else if j == at {
                mode
            } else {
                before[j - 1]
            };
            assert(after[i] == a && after[j] == b);
            if i < at && j == at {
                assert(stands_above(before[i], mode));
            } else if i == at {
                if j - 1 > at {
                    assert(stands_above(before[at as int], before[j - 1]));
                }
            } else if i < at && j > at {
                assert(stands_above(before[i], before[j - 1]));
            }
        }
        assert forall|m: OutputModeSpec| #[trigger]
            after.contains(m) <==> before.contains(m) || m == mode by {
            if before.contains(m) {
                let k = choose|k: int| 0 <= k < before.len() && before[k] == m;
                let at_k = if k < at { k } else { k + 1 };
                assert(after[at_k] == m);
            }
            if m == mode {
                assert(after[at as int] == m);
            }
            if after.contains(m) {
                let k = choose|k: int| 0 <= k < after.len() && after[k] == m;
                if k < at {
                    assert(before[k] == m);
                } else if k > at {
                    assert(before[k - 1] == m);
                }
            }
        }
    }
}

/// The modes of an output for the settings menu: those that its connector
/// offers, each once, the largest and fastest first, and the one that drives it.
pub fn output_modes_for(modes: &Vec<DisplayMode>, current: Option<OutputMode>) -> (r: OutputModes)
    ensures
        falls(r.available@),
        forall|m: OutputModeSpec| #[trigger]
            r.available@.contains(m) <==> exists|i: int|
                0 <= i < modes.len() && listed(#[trigger] modes@[i]) == m,
        r.current == match current {
            Some(mode) => Some(shown_current(mode)),
            None => None,
        },
{
    let mut available: Vec<OutputModeSpec> = Vec::new();
    let mut i: usize = 0;
    while i < modes.len()
        invariant
            i <= modes.len(),
            falls(available@),
            forall|m: OutputModeSpec| #[trigger]
                available@.contains(m) <==> exists|k: int|
                    0 <= k < i && listed(#[trigger] modes@[k]) == m,
        decreases modes.len() - i,
    {
        let ghost before = available@;
        let mode = modes[i];
        let entry = OutputModeSpec {
            width: mode.width as i32,
            height: mode.height as i32,
            refresh: Some(mode.vrefresh),
        };
        insert_mode(&mut available, entry);
        proof {
            assert forall|m: OutputModeSpec| #[trigger]
                available@.contains(m) <==> exists|k: int|
                    0 <= k < i + 1 && listed(#[trigger] modes@[k]) == m by {
                if before.contains(m) {
                    let k = choose|k: int| 0 <= k < i && listed(#[trigger] modes@[k]) == m;
                    assert(0 <= k < i + 1 && listed(modes@[k]) == m);
                }
                if m == entry {
                    assert(listed(modes@[i as int]) == m);
                }
                if exists|k: int| 0 <= k < i + 1 && listed(#[trigger] modes@[k]) == m {
                    let k = choose|k: int| 0 <= k < i + 1 && listed(#[trigger] modes@[k]) == m;
                    if k < i {
                        assert(before.contains(m));
                    }
                }
            }
        }
        i = i + 1;
    }
    let shown = match current {
        Some(mode) => {
            let refresh: u32 = if mode.refresh >= 0 {
                (mode.refresh / 1000) as u32
            } else {
                let thousands: i64 = (0 - mode.refresh as i64) / 1000;
                if thousands == 0 {
                    0
                } else {
                    (0x1_0000_0000 - thousands) as u32
                }
            };
            Some(
                OutputModeSpec { width: mode.size.w, height: mode.size.h, refresh: Some(refresh) },
            )
        },
        None => None,
    };
    OutputModes { available, current: shown }
}

/// The first CRTC of a list that is not in use.
pub open spec fn first_free(crtcs: Seq<u64>, used: Seq<u64>) -> Option<u64>
    decreases crtcs.len(),
{
    if crtcs.len() == 0 {
        None
    } else {
        match first_free(crtcs.drop_last(), used) {
            Some(crtc) => Some(crtc),
            None => if used.contains(crtcs.last()) {
                None
            } else {
                Some(crtcs.last())
            },
        }
    }
}

/// The first CRTC that is not in use, encoder by encoder; those that could not
/// be asked are passed over.
pub open spec fn free_crtc(encoders: Seq<Option<Vec<u64>>>, used: Seq<u64>) -> Option<u64>
    decreases encoders.len(),
{
    if encoders.len() == 0 {
        None
    } else {
        match free_crtc(encoders.drop_last(), used) {
            Some(crtc) => Some(crtc),
            None => match encoders.last() {
                Some(crtcs) => first_free(crtcs@, used),
                None => None,
            },
        }
    }
}

fn find_free(crtcs: &Vec<u64>, used: &Vec<u64>) -> (r: Option<u64>)
    ensures
        r == first_free(crtcs@, used@),
{
    let mut found: Option<u64> = None;
    let mut i: usize = 0;
    proof {
        assert(crtcs@.subrange(0, 0) =~= Seq::<u64>::empty());
    }
    while i < crtcs.len()
        invariant
            i <= crtcs.len(),
            found == first_free(crtcs@.subrange(0, i as int), used@),
        decreases crtcs.len() - i,
    {
        proof {
            let next = crtcs@.subrange(0, i + 1);
            assert(next.drop_last() =~= crtcs@.subrange(0, i as int));
            assert(next.last() == crtcs@[i as int]);
        }
        if found.is_none() && !crate::animation::contains_id(used, crtcs[i]) {
            found = Some(crtcs[i]);
        }
        i = i + 1;
    }
    proof {
        assert(crtcs@.subrange(0, i as int) =~= crtcs@);
    }
    found
}

/// A CRTC that can drive a connector and drives no other one. `encoders` are
/// the CRTCs that each of its encoders can use.
pub fn find_crtc_for_connector(encoders: &Vec<Option<Vec<u64>>>, used: &Vec<u64>) -> (r: Option<
    u64,
>)
    ensures
        r == free_crtc(encoders@, used@),
{
    let mut found: Option<u64> = None;
    let mut i: usize = 0;
    proof {
        assert(encoders@.subrange(0, 0) =~= Seq::<Option<Vec<u64>>>::empty());
    }
    while i < encoders.len()
        invariant
            i <= encoders.len(),
            found == free_crtc(encoders@.subrange(0, i as int), used@),
        decreases encoders.len() - i,
    {
        proof {
            let next = encoders@.subrange(0, i + 1);
            assert(next.drop_last() =~= encoders@.subrange(0, i as int));
            assert(next.last() == encoders@[i as int]);
        }
        if found.is_none() {
            if let Some(crtcs) = &encoders[i] {
                found = find_free(crtcs, used);
            }
        }
        i = i + 1;
    }
    proof {
        assert(encoders@.subrange(0, i as int) =~= encoders@);
    }
    found
}

proof fn lemma_first_free(crtcs: Seq<u64>, used: Seq<u64>)
    ensures
        match first_free(crtcs, used) {
            Some(crtc) => crtcs.contains(crtc) && !used.contains(crtc),
            None => forall|i: int| 0 <= i < crtcs.len() ==> used.contains(#[trigger] crtcs[i]),
        },
    decreases crtcs.len(),
{
    if crtcs.len() > 0 {
        let rest = crtcs.drop_last();
        lemma_first_free(rest, used);
        assert(forall|k: int| 0 <= k < rest.len() ==> rest[k] == crtcs[k]);
        assert(crtcs[crtcs.len() - 1] == crtcs.last());
    }
}

/// Whether one of the encoders can use the CRTC.
pub open spec fn can_drive(encoders: Seq<Option<Vec<u64>>>, crtc: u64) -> bool {
    exists|i: int|
        0 <= i < encoders.len() && (#[trigger] encoders[i]) is Some && encoders[i]->0@.contains(
            crtc,
        )
}

/// The CRTC found for a connector can drive it and drives no other one; none is
/// found only where every CRTC that could drive it is in use.
pub proof fn a_connector_gets_a_free_crtc(encoders: Seq<Option<Vec<u64>>>, used: Seq<u64>)
    ensures
        match free_crtc(encoders, used) {
            Some(crtc) => can_drive(encoders, crtc) && !used.contains(crtc),
            None => forall|crtc: u64| #[trigger] can_drive(encoders, crtc) ==> used.contains(crtc),
        },
    decreases encoders.len(),
{
    if encoders.len() > 0 {
        let rest = encoders.drop_last();
        a_connector_gets_a_free_crtc(rest, used);
        assert(forall|k: int| 0 <= k < rest.len() ==> rest[k] == encoders[k]);
        let n = encoders.len() - 1;
        assert(encoders[n] == encoders.last());
        if encoders.last() is Some {
            lemma_first_free(encoders.last()->0@, used);
        }
        match free_crtc(rest, used) {
            Some(crtc) => {
                let i = choose|i: int|
                    0 <= i < rest.len() && (#[trigger] rest[i]) is Some && rest[i]->0@.contains(
                        crtc,
                    );
                assert(encoders[i] == rest[i]);
            },
            None => {
                if free_crtc(encoders, used) is None {
                    assert forall|crtc: u64| #[trigger]
                        can_drive(encoders, crtc) implies used.contains(crtc) by {
                        let i = choose|i: int|
                            0 <= i < encoders.len() && (#[trigger] encoders[i]) is Some
                                && encoders[i]->0@.contains(crtc);
                        if i < n {
                            assert(rest[i] is Some && rest[i]->0@.contains(crtc));
                            assert(can_drive(rest, crtc));
                        }
                    }
                }
            },
        }
    }
}

/// The mode that the configuration names is taken where the display has it; otherwise one
/// of the preferred size with the wanted rate where the display has such, else the
/// preferred one; a display without a preferred mode prefers its first.
pub proof fn the_named_mode_comes_first(
    modes: Seq<DisplayMode>,
    configured: Option<OutputModeSpec>,
    refresh_rate: Option<u32>,
    i: int,
)
    requires
        0 <= i < modes.len(),
    ensures
        ({
            let r = resolved_mode(modes, configured, refresh_rate);
            &&& r is Some
            &&& configured is Some && modes[i].width == configured->0.width && modes[i].height
                == configured->0.height && (configured->0.refresh is None
                || configured->0.refresh == Some(modes[i].vrefresh)) ==> r->0.width
                == configured->0.width && r->0.height == configured->0.height && (
            configured->0.refresh is Some ==> r->0.vrefresh == configured->0.refresh->0)
            &&& configured is None && refresh_rate is None && modes[i].preferred ==> r->0.preferred
            &&& configured is None && refresh_rate is None && (forall|j: int|
                0 <= j < modes.len() ==> !(#[trigger] modes[j]).preferred) ==> r->0 == modes[0]
            &&& configured is None && refresh_rate is Some && modes[i].width == preferred_mode(
                modes,
            )->0.width && modes[i].height == preferred_mode(modes)->0.height && modes[i].vrefresh
                == refresh_rate->0 ==> r->0.vrefresh == refresh_rate->0 && r->0.width
                == preferred_mode(modes)->0.width && r->0.height == preferred_mode(modes)->0.height
        }),
{
    lemma_first_mode(modes, |m: DisplayMode| meets_spec(m, configured->0));
    lemma_first_mode(modes, |m: DisplayMode| m.preferred);
    let preferred = preferred_mode(modes)->0;
    lemma_first_mode(
        modes,
        |m: DisplayMode|
            m.width == preferred.width && m.height == preferred.height && m.vrefresh
                == refresh_rate->0,
    );
}

/// Connectors go by their usual short names.
pub proof fn connectors_have_short_names()
    ensures
        short_kind("DisplayPort"@) == "DP"@,
        short_kind("HDMIA"@) == "HDMI-A"@,
        short_kind("HDMIB"@) == "HDMI-B"@,
        short_kind("EmbeddedDisplayPort"@) == "eDP"@,
        short_kind("DVID"@) == "DVI-D"@,
        short_kind("DVII"@) == "DVI-I"@,
        short_kind("DVIA"@) == "DVI-A"@,
        short_kind("VGA"@) == "VGA"@,
        short_kind("LVDS"@) == "LVDS"@,
{
    reveal_strlit("DisplayPort");
    reveal_strlit("HDMIA");
    reveal_strlit("HDMIB");
    reveal_strlit("EmbeddedDisplayPort");
    reveal_strlit("DVID");
    reveal_strlit("DVII");
    reveal_strlit("DVIA");
    reveal_strlit("VGA");
    reveal_strlit("LVDS");
    assert("DisplayPort"@.len() == 11 && "EmbeddedDisplayPort"@.len() == 19);
    assert("HDMIA"@.len() == 5 && "HDMIB"@.len() == 5 && "HDMIA"@[4] == 'A' && "HDMIB"@[4] == 'B');
    assert("DVID"@.len() == 4 && "DVII"@.len() == 4 && "DVIA"@.len() == 4 && "LVDS"@.len() == 4);
    assert("DVID"@[3] == 'D' && "DVII"@[3] == 'I' && "DVIA"@[3] == 'A' && "LVDS"@[3] == 'S');
    assert("VGA"@.len() == 3);
}

/// Modes are listed from the widest down, those of one width from the highest down, and
/// those of one size from the fastest down.
pub proof fn larger_modes_are_listed_first(list: Seq<OutputModeSpec>, i: int, j: int)
    requires
        falls(list),
        0 <= i < j < list.len(),
    ensures
        list[i].width >= list[j].width,
        list[i].width == list[j].width ==> list[i].height >= list[j].height,
        list[i].width == list[j].width && list[i].height == list[j].height
            ==> list[i].refresh->0 > list[j].refresh->0,
{
    assert(stands_above(list[i], list[j]));
}

/// A mode is listed by its size and its rate in hertz, and the current one's rate comes
/// down from thousandths.
pub proof fn modes_are_listed_as_they_are(mode: DisplayMode, current: OutputMode)
    requires
        current.refresh >= 0,
    ensures
        listed(mode).width == mode.width,
        listed(mode).height == mode.height,
        listed(mode).refresh == Some(mode.vrefresh),
        shown_current(current).width == current.size.w,
        shown_current(current).height == current.size.h,
        shown_current(current).refresh is Some,
        1000 * shown_current(current).refresh->0 <= current.refresh,
        current.refresh < 1000 * (shown_current(current).refresh->0 + 1),
{
}

} // verus!
