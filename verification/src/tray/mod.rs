//! The settings menu of the tray icon, and how it goes over D-Bus.
//!
//! The compositor keeps a tree of menu items; a tray host asks for (part of)
//! its layout whenever it opens the menu, and reports which row was clicked.
use crate::config::OutputModeSpec;
use crate::text;
use vstd::prelude::*;
use vstd::string::*;

pub mod layout;

verus! {

/// What a menu row does when it is selected.
#[derive(Debug, Clone, Copy, PartialEq, Eq, Structural)]
pub enum MenuAction {
    SetGap(u32),
    SetScreenTimeout(u32),
    /// Switch the output to this resolution, at the best refresh rate.
    SetResolution { width: i32, height: i32 },
    /// Switch the output to this refresh rate at its current resolution.
    SetRefresh { hz: u32 },
    SignOut,
}

/// The modes that the Resolution and Refresh submenus offer.
#[derive(Debug, Clone, PartialEq, Eq)]
pub struct ModeMenu {
    /// Resolutions, largest first.
    pub resolutions: Vec<(i32, i32)>,
    /// Refresh rates at the current resolution, largest first.
    pub refresh_rates: Vec<u32>,
    pub current_res: Option<(i32, i32)>,
    pub current_hz: Option<u32>,
}

#[derive(Debug)]
pub enum MenuItemKind {
    Submenu(Vec<MenuItem>),
    Action(MenuAction),
    Disabled,
}

#[derive(Debug)]
pub struct MenuItem {
    pub label: String,
    pub kind: MenuItemKind,
}

/// A row without a submenu: its label, and what it does where it is enabled.
pub struct Leaf {
    pub label: Seq<char>,
    pub action: Option<MenuAction>,
}

pub open spec fn is_leaf(item: MenuItem, leaf: Leaf) -> bool {
    &&& item.label@ == leaf.label
    &&& match leaf.action {
        Some(action) => item.kind == MenuItemKind::Action(action),
        None => item.kind == MenuItemKind::Disabled,
    }
}

/// Whether `items` are the rows `leaves`.
pub open spec fn are_leaves(items: Seq<MenuItem>, leaves: Seq<Leaf>) -> bool {
    &&& items.len() == leaves.len()
    &&& forall|i: int| 0 <= i < items.len() ==> is_leaf(#[trigger] items[i], leaves[i])
}

/// Whether `item` is the submenu `label` with the rows `leaves`.
pub open spec fn is_submenu_of(item: MenuItem, label: Seq<char>, leaves: Seq<Leaf>) -> bool {
    &&& item.label@ == label
    &&& item.kind matches MenuItemKind::Submenu(items) && are_leaves(items@, leaves)
}

/// The mark of the entry that is in effect.
pub open spec fn mark_of(selected: bool) -> Seq<char> {
    if selected { " ✓"@ } else { ""@ }
}

fn mark(selected: bool) -> (r: &'static str)
    ensures
        r@ == mark_of(selected),
{
    if selected {
        " ✓"
    } else {
        ""
    }
}

/// `v` put into its place in the ascending numbers `s`.
pub open spec fn inserted(s: Seq<u32>, v: u32) -> Seq<u32>
    decreases s.len(),
{
    if s.len() == 0 {
        seq![v]
    } else if v < s[0] {
        seq![v] + s
    } else {
        seq![s[0]] + inserted(s.drop_first(), v)
    }
}

/// The choices of a menu: the usual ones, and the one in effect where it is
/// not among them, in order.
pub open spec fn choices_of(usual: Seq<u32>, current: u32) -> Seq<u32> {
    if usual.contains(current) { usual } else { inserted(usual, current) }
}

proof fn lemma_inserted(s: Seq<u32>, v: u32, i: int)
    requires
        0 <= i <= s.len(),
        forall|k: int| 0 <= k < i ==> s[k] <= v,
        i < s.len() ==> v < s[i],
    ensures
        inserted(s, v) == s.subrange(0, i) + seq![v] + s.subrange(i, s.len() as int),
    decreases i,
{
    if i == 0 {
        assert(s.subrange(0, 0) + seq![v] + s.subrange(0, s.len() as int) =~= seq![v] + s);
    } else {
        let rest = s.drop_first();
        assert(s[0] <= v);
        lemma_inserted(rest, v, i - 1);
        assert(seq![s[0]] + (rest.subrange(0, i - 1) + seq![v] + rest.subrange(
            i - 1,
            rest.len() as int,
        )) =~= s.subrange(0, i) + seq![v] + s.subrange(i, s.len() as int));
    }
}

fn choices(usual: Vec<u32>, current: u32) -> (r: Vec<u32>)
    ensures
        r@ == choices_of(usual@, current),
{
    let mut i: usize = 0;
    while i < usual.len()
        invariant
            i <= usual.len(),
            forall|k: int| 0 <= k < i ==> usual@[k] != current,
        decreases usual.len() - i,
    {
        if usual[i] == current {
            proof {
                assert(usual@.contains(current));
            }
            return usual;
        }
        i = i + 1;
    }
    let mut at: usize = 0;
    while at < usual.len() && usual[at] <= current
        invariant
            at <= usual.len(),
            forall|k: int| 0 <= k < at ==> usual@[k] <= current,
        decreases usual.len() - at,
    {
        at = at + 1;
    }
    proof {
        lemma_inserted(usual@, current, at as int);
    }
    let mut r = usual;
    r.insert(at, current);
    proof {
        assert(r@ =~= choices_of(usual@, current));
    }
    r
}

/// A number of seconds as a menu shows it.
pub open spec fn duration_text(secs: u32) -> Seq<char> {
    if secs == 0 {
        "Never"@
    } else if secs % 60 == 0 {
        text::decimal_of((secs / 60) as nat) + " min"@
    } else {
        text::decimal_of(secs as nat) + " sec"@
    }
}

pub fn format_duration(secs: u32) -> (r: String)
    ensures
        r@ == duration_text(secs),
{
    if secs == 0 {
        "Never".to_owned()
    } else if secs % 60 == 0 {
        let mut s = text::decimal((secs / 60) as u64);
        s.append(" min");
        s
    } else {
        let mut s = text::decimal(secs as u64);
        s.append(" sec");
        s
    }
}

pub open spec fn usual_gaps() -> Seq<u32> {
    seq![0u32, 4, 8, 16, 32]
}

pub open spec fn usual_timeouts() -> Seq<u32> {
    seq![0u32, 60, 300, 600]
}

pub open spec fn gap_leaf(gap: u32, current_gap: u32) -> Leaf {
    Leaf {
        label: text::decimal_of(gap as nat) + " px"@ + mark_of(current_gap == gap),
        action: Some(MenuAction::SetGap(gap)),
    }
}

pub open spec fn timeout_leaf(secs: u32, screen_timeout: u32) -> Leaf {
    Leaf {
        label: duration_text(secs) + mark_of(screen_timeout == secs),
        action: Some(MenuAction::SetScreenTimeout(secs)),
    }
}

pub open spec fn resolution_leaf(res: (i32, i32), current: Option<(i32, i32)>) -> Leaf {
    Leaf {
        label: text::signed_decimal_of(res.0 as int) + "x"@ + text::signed_decimal_of(res.1 as int)
            + mark_of(current == Some(res)),
        action: Some(MenuAction::SetResolution { width: res.0, height: res.1 }),
    }
}

pub open spec fn refresh_leaf(hz: u32, current: Option<u32>) -> Leaf {
    Leaf {
        label: text::decimal_of(hz as nat) + " Hz"@ + mark_of(current == Some(hz)),
        action: Some(MenuAction::SetRefresh { hz }),
    }
}

/// The row that stands in for a list without entries.
pub open spec fn placeholder() -> Seq<Leaf> {
    seq![Leaf { label: "Unavailable"@, action: None }]
}

pub open spec fn gap_leaves(current_gap: u32) -> Seq<Leaf> {
    choices_of(usual_gaps(), current_gap).map_values(|gap: u32| gap_leaf(gap, current_gap))
}

pub open spec fn timeout_leaves(screen_timeout: u32) -> Seq<Leaf> {
    choices_of(usual_timeouts(), screen_timeout).map_values(
        |secs: u32| timeout_leaf(secs, screen_timeout),
    )
}

pub open spec fn resolution_leaves(modes: Option<&ModeMenu>) -> Seq<Leaf> {
    match modes {
        Some(m) => if m.resolutions@.len() > 0 {
            m.resolutions@.map_values(|res: (i32, i32)| resolution_leaf(res, m.current_res))
        } else {
            placeholder()
        },
        None => placeholder(),
    }
}

pub open spec fn refresh_leaves(modes: Option<&ModeMenu>) -> Seq<Leaf> {
    match modes {
        Some(m) => if m.refresh_rates@.len() > 0 {
            m.refresh_rates@.map_values(|hz: u32| refresh_leaf(hz, m.current_hz))
        } else {
            placeholder()
        },
        None => placeholder(),
    }
}

fn placeholder_items() -> (r: Vec<MenuItem>)
    ensures
        are_leaves(r@, placeholder()),
{
    let mut r: Vec<MenuItem> = Vec::new();
    r.push(MenuItem { label: "Unavailable".to_owned(), kind: MenuItemKind::Disabled });
    r
}

fn gap_items(current_gap: u32) -> (r: Vec<MenuItem>)
    ensures
        are_leaves(r@, gap_leaves(current_gap)),
{
    let usual: Vec<u32> = vec![0u32, 4, 8, 16, 32];
    proof {
        assert(usual@ =~= usual_gaps());
    }
    let gaps = choices(usual, current_gap);
    let mut r: Vec<MenuItem> = Vec::new();
    let mut i: usize = 0;
    while i < gaps.len()
        invariant
            i <= gaps.len(),
            gaps@ == choices_of(usual_gaps(), current_gap),
            r.len() == i,
            forall|k: int|
                0 <= k < i ==> is_leaf(#[trigger] r@[k], gap_leaf(gaps@[k], current_gap)),
        decreases gaps.len() - i,
    {
        let gap: u32 = gaps[i];
        let mut label = text::decimal(gap as u64);
        label.append(" px");
        label.append(mark(current_gap == gap));
        r.push(MenuItem { label, kind: MenuItemKind::Action(MenuAction::SetGap(gap)) });
        i = i + 1;
    }
    r
}

fn timeout_items(screen_timeout: u32) -> (r: Vec<MenuItem>)
    ensures
        are_leaves(r@, timeout_leaves(screen_timeout)),
{
    let usual: Vec<u32> = vec![0u32, 60, 300, 600];
    proof {
        assert(usual@ =~= usual_timeouts());
    }
    let timeouts = choices(usual, screen_timeout);
    let mut r: Vec<MenuItem> = Vec::new();
    let mut i: usize = 0;
    while i < timeouts.len()
        invariant
            i <= timeouts.len(),
            timeouts@ == choices_of(usual_timeouts(), screen_timeout),
            r.len() == i,
            forall|k: int|
                0 <= k < i ==> is_leaf(
                    #[trigger] r@[k],
                    timeout_leaf(timeouts@[k], screen_timeout),
                ),
        decreases timeouts.len() - i,
    {
        let secs: u32 = timeouts[i];
        let mut label = format_duration(secs);
        label.append(mark(screen_timeout == secs));
        r.push(MenuItem { label, kind: MenuItemKind::Action(MenuAction::SetScreenTimeout(secs)) });
        i = i + 1;
    }
    r
}

fn resolution_items(m: &ModeMenu) -> (r: Vec<MenuItem>)
    ensures
        are_leaves(
            r@,
            m.resolutions@.map_values(|res: (i32, i32)| resolution_leaf(res, m.current_res)),
        ),
{
    let mut r: Vec<MenuItem> = Vec::new();
    let mut i: usize = 0;
    while i < m.resolutions.len()
        invariant
            i <= m.resolutions.len(),
            r.len() == i,
            forall|k: int|
                0 <= k < i ==> is_leaf(
                    #[trigger] r@[k],
                    resolution_leaf(m.resolutions@[k], m.current_res),
                ),
        decreases m.resolutions.len() - i,
    {
        let (width, height) = m.resolutions[i];
        let current = match m.current_res {
            Some((w, h)) => w == width && h == height,
            None => false,
        };
        let mut label = text::signed_decimal(width as i64);
        label.append("x");
        label.append(text::signed_decimal(height as i64).as_str());
        label.append(mark(current));
        r.push(
            MenuItem {
                label,
                kind: MenuItemKind::Action(MenuAction::SetResolution { width, height }),
            },
        );
        i = i + 1;
    }
    r
}

fn refresh_items(m: &ModeMenu) -> (r: Vec<MenuItem>)
    ensures
        are_leaves(r@, m.refresh_rates@.map_values(|hz: u32| refresh_leaf(hz, m.current_hz))),
{
    let mut r: Vec<MenuItem> = Vec::new();
    let mut i: usize = 0;
    while i < m.refresh_rates.len()
        invariant
            i <= m.refresh_rates.len(),
            r.len() == i,
            forall|k: int|
                0 <= k < i ==> is_leaf(
                    #[trigger] r@[k],
                    refresh_leaf(m.refresh_rates@[k], m.current_hz),
                ),
        decreases m.refresh_rates.len() - i,
    {
        let hz: u32 = m.refresh_rates[i];
        let current = match m.current_hz {
            Some(current) => current == hz,
            None => false,
        };
        let mut label = text::decimal(hz as u64);
        label.append(" Hz");
        label.append(mark(current));
        r.push(MenuItem { label, kind: MenuItemKind::Action(MenuAction::SetRefresh { hz }) });
        i = i + 1;
    }
    r
}

/// Build the settings menu. Without modes the Resolution and Refresh submenus
/// show a placeholder.
pub fn build_menu_items(
    modes: Option<&ModeMenu>,
    current_gap: u32,
    screen_timeout: u32,
) -> (r: Vec<MenuItem>)
    ensures
        r.len() == 5,
        is_submenu_of(r@[0], "Resolution"@, resolution_leaves(modes)),
        is_submenu_of(r@[1], "Refresh rate"@, refresh_leaves(modes)),
        is_submenu_of(r@[2], "Gaps"@, gap_leaves(current_gap)),
        is_submenu_of(r@[3], "Screen timeout"@, timeout_leaves(screen_timeout)),
        is_leaf(r@[4], (Leaf { label: "Sign out"@, action: Some(MenuAction::SignOut) })),
{
    let resolutions = match modes {
        Some(m) => if m.resolutions.len() > 0 {
            resolution_items(m)
        } else {
            placeholder_items()
        },
        None => placeholder_items(),
    };
    let rates = match modes {
        Some(m) => if m.refresh_rates.len() > 0 {
            refresh_items(m)
        } else {
            placeholder_items()
        },
        None => placeholder_items(),
    };
    let mut r: Vec<MenuItem> = Vec::new();
    r.push(
        MenuItem { label: "Resolution".to_owned(), kind: MenuItemKind::Submenu(resolutions) },
    );
    r.push(MenuItem { label: "Refresh rate".to_owned(), kind: MenuItemKind::Submenu(rates) });
    r.push(
        MenuItem { label: "Gaps".to_owned(), kind: MenuItemKind::Submenu(gap_items(current_gap)) },
    );
    r.push(
        MenuItem {
            label: "Screen timeout".to_owned(),
            kind: MenuItemKind::Submenu(timeout_items(screen_timeout)),
        },
    );
    r.push(
        MenuItem {
            label: "Sign out".to_owned(),
            kind: MenuItemKind::Action(MenuAction::SignOut),
        },
    );
    r
}

/// Width and height of the tray icon.
pub const ICON_SIZE: i32 = 32;

/// Whether a pixel belongs to a slider: the rail of three rows round `cy`, or
/// the knob round column `knob_cx`.
pub open spec fn on_slider(x: int, y: int, cy: int, knob_cx: int) -> bool {
    ||| 5 <= x < ICON_SIZE - 5 && cy - 1 <= y <= cy + 1
    ||| knob_cx - 3 <= x <= knob_cx + 3 && cy - 4 <= y <= cy + 4
}

/// The glyph: three sliders with their knobs at different places.
pub open spec fn on_glyph(x: int, y: int) -> bool {
    on_slider(x, y, 8, 21) || on_slider(x, y, 16, 9) || on_slider(x, y, 24, 18)
}

fn slider(x: i32, y: i32, cy: i32, knob_cx: i32) -> (r: bool)
    requires
        0 <= cy <= ICON_SIZE,
        0 <= knob_cx <= ICON_SIZE,
    ensures
        r == on_slider(x as int, y as int, cy as int, knob_cx as int),
{
    (5 <= x && x < ICON_SIZE - 5 && cy - 1 <= y && y <= cy + 1) || (knob_cx - 3 <= x && x <= knob_cx
        + 3 && cy - 4 <= y && y <= cy + 4)
}

/// The tray pixmap: a white glyph on transparency, row by row, each pixel as
/// alpha, red, green and blue.
pub fn settings_pixmap() -> (r: (i32, i32, Vec<u8>))
    ensures
        r.0 == ICON_SIZE,
        r.1 == ICON_SIZE,
        r.2@.len() == ICON_SIZE * ICON_SIZE * 4,
        forall|i: int|
            0 <= i < r.2@.len() ==> #[trigger] r.2@[i] == if on_glyph(
                (i / 4) % (ICON_SIZE as int),
                (i / 4) / (ICON_SIZE as int),
            ) {
                0xffu8
            } else {
                0x00
            },
{
    let mut data: Vec<u8> = Vec::new();
    let mut i: i32 = 0;
    while i < 4096
        invariant
            0 <= i <= 4096,
            data.len() == i,
            forall|k: int|
                0 <= k < i ==> #[trigger] data@[k] == if on_glyph(
                    (k / 4) % (ICON_SIZE as int),
                    (k / 4) / (ICON_SIZE as int),
                ) {
                    0xffu8
                } else {
                    0x00
                },
        decreases 4096 - i,
    {
        let pixel: i32 = i / 4;
        let x: i32 = pixel % ICON_SIZE;
        let y: i32 = pixel / ICON_SIZE;
        let white = slider(x, y, 8, 21) || slider(x, y, 16, 9) || slider(x, y, 24, 18);
        data.push(
            if white {
                0xff
            } else {
                0x00
            },
        );
        i = i + 1;
    }
    (ICON_SIZE, ICON_SIZE, data)
}

/// A number before another in a list from large to small.
pub open spec fn descending<T>(s: Seq<T>, above: spec_fn(T, T) -> bool) -> bool {
    forall|i: int, j: int| 0 <= i < j < s.len() ==> above(#[trigger] s[i], #[trigger] s[j])
}

pub open spec fn res_above(a: (i32, i32), b: (i32, i32)) -> bool {
    a.0 > b.0 || (a.0 == b.0 && a.1 > b.1)
}

/// The mode lists of an output: what it offers and what drives it.
#[derive(Debug)]
pub struct OutputModes {
    /// Every mode that the connector advertises.
    pub available: Vec<OutputModeSpec>,
    /// The mode that drives the output.
    pub current: Option<OutputModeSpec>,
}

impl Default for OutputModes {
    fn default() -> (r: Self)
        ensures
            r.available@.len() == 0,
            r.current is None,
    {
        OutputModes { available: Vec::new(), current: None }
    }
}

fn insert_resolution(list: &mut Vec<(i32, i32)>, res: (i32, i32))
    requires
        descending(old(list)@, |a: (i32, i32), b: (i32, i32)| res_above(a, b)),
    ensures
        descending(final(list)@, |a: (i32, i32), b: (i32, i32)| res_above(a, b)),
        forall|v: (i32, i32)| #[trigger]
            final(list)@.contains(v) <==> old(list)@.contains(v) || v == res,
{
    let ghost before = list@;
    let mut at: usize = 0;
    while at < list.len() && (list[at].0 > res.0 || (list[at].0 == res.0 && list[at].1 > res.1))
        invariant
            at <= list.len(),
            list@ == before,
            forall|k: int| 0 <= k < at ==> res_above(#[trigger] before[k], res),
        decreases list.len() - at,
    {
        at = at + 1;
    }
    if at < list.len() && list[at].0 == res.0 && list[at].1 == res.1 {
        proof {
            assert(before[at as int] == res);
        }
        return ;
    }
    list.insert(at, res);
    proof {
        let after = list@;
        assert forall|i: int, j: int| 0 <= i < j < after.len() implies res_above(
            #[trigger] after[i],
            #[trigger] after[j],
        ) by {
            let i0 = if i < at { i } else { i - 1 };
            let j0 = if j < at { j } else { j - 1 };
            if i != at && j != at {
                assert(res_above(before[i0], before[j0]));
            } else if j == at {
                assert(res_above(before[i], res));
            } else {
                assert(after[j] == before[j0]);
                if j0 > at {
                    assert(res_above(before[at as int], before[j0]));
                }
            }
        }
        assert forall|v: (i32, i32)| #[trigger] after.contains(v) <==> before.contains(v) || v == res by {
            if after.contains(v) {
                let k = after.index_of(v);
                if k < at {
                    assert(before[k] == v);
                } else if k > at {
                    assert(before[k - 1] == v);
                }
            }
            if before.contains(v) {
                let k = before.index_of(v);
                if k < at {
                    assert(after[k] == v);
                } else {
                    assert(after[k + 1] == v);
                }
            }
            if v == res {
                assert(after[at as int] == v);
            }
        }
    }
}

fn insert_rate(list: &mut Vec<u32>, hz: u32)
    requires
        descending(old(list)@, |a: u32, b: u32| a > b),
    ensures
        descending(final(list)@, |a: u32, b: u32| a > b),
        forall|v: u32| #[trigger] final(list)@.contains(v) <==> old(list)@.contains(v) || v == hz,
{
    let ghost before = list@;
    let mut at: usize = 0;
    while at < list.len() && list[at] > hz
        invariant
            at <= list.len(),
            list@ == before,
            forall|k: int| 0 <= k < at ==> (#[trigger] before[k]) > hz,
        decreases list.len() - at,
    {
        at = at + 1;
    }
    if at < list.len() && list[at] == hz {
        proof {
            assert(before[at as int] == hz);
        }
        return ;
    }
    list.insert(at, hz);
    proof {
        let after = list@;
        assert forall|i: int, j: int| 0 <= i < j < after.len() implies (#[trigger] after[i]) > (
        #[trigger] after[j]) by {
            let i0 = if i < at { i } else { i - 1 };
            let j0 = if j < at { j } else { j - 1 };
            if i != at && j != at {
                assert(before[i0] > before[j0]);
            } else if j == at {
                assert(before[i] > hz);
            } else {
                assert(after[j] == before[j0]);
                if j0 > at {
                    assert(before[at as int] > before[j0]);
                }
            }
        }
        assert forall|v: u32| #[trigger] after.contains(v) <==> before.contains(v) || v == hz by {
            if after.contains(v) {
                let k = after.index_of(v);
                if k < at {
                    assert(before[k] == v);
                } else if k > at {
                    assert(before[k - 1] == v);
                }
            }
            if before.contains(v) {
                let k = before.index_of(v);
                if k < at {
                    assert(after[k] == v);
                } else {
                    assert(after[k + 1] == v);
                }
            }
            if v == hz {
                assert(after[at as int] == v);
            }
        }
    }
}

/// Whether one of the first `n` modes has this resolution.
pub open spec fn offers_res(modes: Seq<OutputModeSpec>, n: int, res: (i32, i32)) -> bool {
    exists|i: int| 0 <= i < n && ((#[trigger] modes[i]).width, modes[i].height) == res
}

/// Whether one of the first `n` modes has this refresh rate at the resolution
/// `res`.
pub open spec fn offers_rate(
    modes: Seq<OutputModeSpec>,
    n: int,
    res: Option<(i32, i32)>,
    hz: u32,
) -> bool {
    exists|i: int|
        0 <= i < n && res == Some(((#[trigger] modes[i]).width, modes[i].height))
            && modes[i].refresh == Some(hz)
}

pub open spec fn current_res_of(modes: OutputModes) -> Option<(i32, i32)> {
    match modes.current {
        Some(m) => Some((m.width, m.height)),
        None => None,
    }
}

/// The menu of an output's modes: each resolution it offers once, and each
/// refresh rate it offers at the current one once, largest first.
pub fn mode_menu(modes: &OutputModes) -> (r: ModeMenu)
    ensures
        r.current_res == current_res_of(*modes),
        r.current_hz == match modes.current {
            Some(m) => m.refresh,
            None => None,
        },
        descending(r.resolutions@, |a: (i32, i32), b: (i32, i32)| res_above(a, b)),
        forall|res: (i32, i32)| #[trigger]
            r.resolutions@.contains(res) <==> offers_res(
                modes.available@,
                modes.available@.len() as int,
                res,
            ),
        descending(r.refresh_rates@, |a: u32, b: u32| a > b),
        forall|hz: u32| #[trigger]
            r.refresh_rates@.contains(hz) <==> offers_rate(
                modes.available@,
                modes.available@.len() as int,
                r.current_res,
                hz,
            ),
{
    let current_res = match modes.current {
        Some(m) => Some((m.width, m.height)),
        None => None,
    };
    let current_hz = match modes.current {
        Some(m) => m.refresh,
        None => None,
    };
    let ghost list = modes.available@;
    let mut resolutions: Vec<(i32, i32)> = Vec::new();
    let mut refresh_rates: Vec<u32> = Vec::new();
    let mut i: usize = 0;
    while i < modes.available.len()
        invariant
            i <= modes.available.len(),
            list == modes.available@,
            descending(resolutions@, |a: (i32, i32), b: (i32, i32)| res_above(a, b)),
            forall|res: (i32, i32)| #[trigger]
                resolutions@.contains(res) <==> offers_res(list, i as int, res),
            descending(refresh_rates@, |a: u32, b: u32| a > b),
            forall|hz: u32| #[trigger]
                refresh_rates@.contains(hz) <==> offers_rate(list, i as int, current_res, hz),
        decreases modes.available.len() - i,
    {
        let m = modes.available[i];
        insert_resolution(&mut resolutions, (m.width, m.height));
        proof {
            assert forall|res: (i32, i32)| #[trigger]
                resolutions@.contains(res) <==> offers_res(list, i + 1, res) by {
                if offers_res(list, i + 1, res) && !offers_res(list, i as int, res) {
                    let k = choose|k: int|
                        0 <= k < i + 1 && ((#[trigger] list[k]).width, list[k].height) == res;
                    assert(k == i);
                }
                if res == (m.width, m.height) {
                    assert((list[i as int].width, list[i as int].height) == res);
                }
                if offers_res(list, i as int, res) {
                    let k = choose|k: int|
                        0 <= k < i && ((#[trigger] list[k]).width, list[k].height) == res;
                    assert(0 <= k < i + 1 && (list[k].width, list[k].height) == res);
                }
            }
        }
        let at_current = match current_res {
            Some((w, h)) => w == m.width && h == m.height,
            None => false,
        };
        let ghost rates0 = refresh_rates@;
        if at_current {
            if let Some(hz) = m.refresh {
                insert_rate(&mut refresh_rates, hz);
            }
        }
        proof {
            assert forall|hz: u32| #[trigger]
                refresh_rates@.contains(hz) <==> offers_rate(list, i + 1, current_res, hz) by {
                assert(rates0.contains(hz) <==> offers_rate(list, i as int, current_res, hz));
                if offers_rate(list, i + 1, current_res, hz) && !offers_rate(
                    list,
                    i as int,
                    current_res,
                    hz,
                ) {
                    let k = choose|k: int|
                        0 <= k < i + 1 && current_res == Some(
                            ((#[trigger] list[k]).width, list[k].height),
                        ) && list[k].refresh == Some(hz);
                    assert(k == i);
                }
                if offers_rate(list, i as int, current_res, hz) {
                    let k = choose|k: int|
                        0 <= k < i && current_res == Some(
                            ((#[trigger] list[k]).width, list[k].height),
                        ) && list[k].refresh == Some(hz);
                    assert(0 <= k < i + 1 && current_res == Some((list[k].width, list[k].height)));
                }
                if at_current && m.refresh == Some(hz) {
                    assert(current_res == Some((list[i as int].width, list[i as int].height)));
                }
            }
        }
        i = i + 1;
    }
    ModeMenu { resolutions, refresh_rates, current_res, current_hz }
}

/// The usual gaps and timeouts are offered, and the current one too where it is none of
/// them; the current one bears the mark and no other does; and a row sets what it names.
pub proof fn choices_are_offered_and_marked(current: u32, i: int)
    ensures
        ({
            let gaps = choices_of(usual_gaps(), current);
            &&& gaps.contains(current)
            &&& gaps.contains(0) && gaps.contains(4) && gaps.contains(8) && gaps.contains(16)
                && gaps.contains(32)
            &&& gap_leaves(current).len() == gaps.len()
            &&& 0 <= i < gaps.len() ==> gap_leaves(current)[i].action == Some(
                MenuAction::SetGap(gaps[i]),
            ) && gap_leaves(current)[i].label == text::decimal_of(gaps[i] as nat) + " px"@ + if gaps[i]
                == current { " ✓"@ } else { ""@ }
        }),
        ({
            let times = choices_of(usual_timeouts(), current);
            &&& times.contains(current)
            &&& times.contains(0) && times.contains(60) && times.contains(300) && times.contains(
                600,
            )
            &&& timeout_leaves(current).len() == times.len()
            &&& 0 <= i < times.len() ==> timeout_leaves(current)[i].action == Some(
                MenuAction::SetScreenTimeout(times[i]),
            ) && timeout_leaves(current)[i].label == duration_text(times[i]) + if times[i]
                == current { " ✓"@ } else { ""@ }
        }),
{
    let g = usual_gaps();
    assert(g[0] == 0 && g[1] == 4 && g[2] == 8 && g[3] == 16 && g[4] == 32);
    let t = usual_timeouts();
    assert(t[0] == 0 && t[1] == 60 && t[2] == 300 && t[3] == 600);
    assert(g.contains(0) && g.contains(4) && g.contains(8) && g.contains(16) && g.contains(32));
    assert(t.contains(0) && t.contains(60) && t.contains(300) && t.contains(600));
    lemma_insertion_keeps_all(g, current);
    lemma_insertion_keeps_all(t, current);
}

proof fn lemma_insertion_keeps_all(s: Seq<u32>, v: u32)
    ensures
        inserted(s, v).contains(v),
        forall|x: u32| #[trigger] s.contains(x) ==> inserted(s, v).contains(x),
        inserted(s, v).len() == s.len() + 1,
    decreases s.len(),
{
    let r = inserted(s, v);
    if s.len() == 0 {
        assert(r[0] == v);
    } else if v < s[0] {
        assert(r[0] == v);
        assert forall|x: u32| #[trigger] s.contains(x) implies r.contains(x) by {
            let k = s.index_of(x);
            assert(r[k + 1] == x);
        }
    } else {
        let tail = s.drop_first();
        lemma_insertion_keeps_all(tail, v);
        let rest = inserted(tail, v);
        assert(r[rest.index_of(v) + 1] == v);
        assert forall|x: u32| #[trigger] s.contains(x) implies r.contains(x) by {
            let k = s.index_of(x);
            if k == 0 {
                assert(r[0] == x);
            } else {
                assert(tail[k - 1] == x);
                assert(tail.contains(x));
                let m = rest.index_of(x);
                assert(r[m + 1] == x);
            }
        }
    }
}

/// Whole minutes are written as minutes, other times in seconds, and none as never.
pub proof fn times_are_written_in_minutes(minutes: u32)
    requires
        0 < minutes <= 71_582_788,
    ensures
        duration_text((60 * minutes) as u32) == text::decimal_of(minutes as nat) + " min"@,
        duration_text(0) == "Never"@,
        forall|rest: u32|
            0 < rest < 60 && 60 * minutes + rest <= u32::MAX ==> #[trigger] duration_text(
                (60 * minutes + rest) as u32,
            ) == text::decimal_of((60 * minutes + rest) as nat) + " sec"@,
{
}

/// Resolutions and rates are written as numbers, and a row sets what it names.
pub proof fn mode_rows_set_what_they_name(menu: ModeMenu, i: int)
    ensures
        0 <= i < menu.resolutions@.len() ==> ({
            let leaf = resolution_leaves(Some(&menu))[i];
            let (w, h) = menu.resolutions@[i];
            &&& leaf.action == Some(MenuAction::SetResolution { width: w, height: h })
            &&& leaf.label == text::signed_decimal_of(w as int) + "x"@ + text::signed_decimal_of(
                h as int,
            ) + if menu.current_res == Some((w, h)) { " ✓"@ } else { ""@ }
        }),
        0 <= i < menu.refresh_rates@.len() ==> ({
            let leaf = refresh_leaves(Some(&menu))[i];
            let hz = menu.refresh_rates@[i];
            &&& leaf.action == Some(MenuAction::SetRefresh { hz })
            &&& leaf.label == text::decimal_of(hz as nat) + " Hz"@ + if menu.current_hz == Some(
                hz,
            ) { " ✓"@ } else { ""@ }
        }),
        resolution_leaves(None).len() == 1,
        resolution_leaves(None)[0].action is None,
        refresh_leaves(None)[0].action is None,
{
}

/// Resolutions are listed from the widest down, those of one width from the highest down.
pub proof fn larger_resolutions_stand_first(list: Seq<(i32, i32)>, i: int, j: int)
    requires
        descending(list, |a: (i32, i32), b: (i32, i32)| res_above(a, b)),
        0 <= i < j < list.len(),
    ensures
        list[i].0 >= list[j].0,
        list[i].0 == list[j].0 ==> list[i].1 > list[j].1,
{
    let above = |a: (i32, i32), b: (i32, i32)| res_above(a, b);
    assert(above(list[i], list[j]));
}

/// The choices stand in ascending order.
pub proof fn choices_ascend(current: u32, i: int, j: int)
    ensures
        0 <= i < j < choices_of(usual_gaps(), current).len() ==> choices_of(
            usual_gaps(),
            current,
        )[i] < choices_of(usual_gaps(), current)[j],
        0 <= i < j < choices_of(usual_timeouts(), current).len() ==> choices_of(
            usual_timeouts(),
            current,
        )[i] < choices_of(usual_timeouts(), current)[j],
{
    lemma_insertion_ascends(usual_gaps(), current);
    lemma_insertion_ascends(usual_timeouts(), current);
}

proof fn lemma_insertion_ascends(s: Seq<u32>, v: u32)
    requires
        forall|i: int, j: int| 0 <= i < j < s.len() ==> #[trigger] s[i] < #[trigger] s[j],
    ensures
        inserted(s, v).len() == s.len() + 1,
        s.len() > 0 ==> inserted(s, v)[0] == if v < s[0] { v } else { s[0] },
        s.len() == 0 ==> inserted(s, v)[0] == v,
        !s.contains(v) ==> forall|i: int, j: int|
            0 <= i < j < inserted(s, v).len() ==> #[trigger] inserted(s, v)[i]
                < #[trigger] inserted(s, v)[j],
    decreases s.len(),
{
    if s.len() > 0 && !(v < s[0]) {
        let rest = s.drop_first();
        assert forall|i: int, j: int| 0 <= i < j < rest.len() implies #[trigger] rest[i]
            < #[trigger] rest[j] by {
            assert(rest[i] == s[i + 1] && rest[j] == s[j + 1]);
        }
        lemma_insertion_ascends(rest, v);
        let tail = inserted(rest, v);
        let all = inserted(s, v);
        if !s.contains(v) {
            assert(!rest.contains(v)) by {
                if rest.contains(v) {
                    let k = rest.index_of(v);
                    assert(s[k + 1] == v);
                }
            }
            assert(s[0] != v) by {
                assert(s.contains(s[0]));
            }
            assert forall|i: int, j: int| 0 <= i < j < all.len() implies #[trigger] all[i]
                < #[trigger] all[j] by {
                assert(all[j] == tail[j - 1]);
                if i > 0 {
                    assert(all[i] == tail[i - 1]);
                    assert(tail[i - 1] < tail[j - 1]);
                } else {
                    assert(s[0] < tail[0]) by {
                        if rest.len() > 0 {
                            assert(rest[0] == s[1]);
                            assert(s[0] < s[1]);
                        }
                    }
                    if j > 1 {
                        assert(tail[0] < tail[j - 1]);
                    }
                }
            }
        }
    } else if s.len() > 0 {
        let all = inserted(s, v);
        assert forall|i: int, j: int| 0 <= i < j < all.len() implies #[trigger] all[i]
            < #[trigger] all[j] by {
            assert(all[j] == s[j - 1]);
            if i > 0 {
                assert(all[i] == s[i - 1]);
                assert(s[i - 1] < s[j - 1]);
            } else if j > 1 {
                assert(s[0] < s[j - 1]);
            }
        }
    }
}

} // verus!
