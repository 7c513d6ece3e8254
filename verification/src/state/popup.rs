//! Dialogs and popups: which windows float, where dialogs are placed, and the
//! area that popups are kept in.
use crate::geometry::{
    clamped, div_trunc, fits_i32, half, max_int, Point, Rect, Size,
};
use crate::text;
use vstd::prelude::*;
use vstd::string::*;

verus! {

/// Whether both extents are given.
pub fn is_fixed_size(size: Size) -> (r: bool)
    ensures
        r == (size.w > 0 && size.h > 0),
{
    size.w > 0 && size.h > 0
}

/// Whether a maximum size is a plausible cap for a dialog: bounded both ways
/// and small, rather than the display's size or another stand-in for "none".
pub open spec fn dialog_size_cap(max_size: Size) -> bool {
    0 < max_size.w <= 1280 && 0 < max_size.h <= 1024
}

pub fn is_dialog_size_cap(max_size: Size) -> (r: bool)
    ensures
        r == dialog_size_cap(max_size),
{
    max_size.w > 0 && max_size.h > 0 && max_size.w <= 1280 && max_size.h <= 1024
}

/// One axis of a dialog's place: centred over the anchor, but kept within the
/// usable area wherever it fits, and at its start where it does not.
pub open spec fn centered_axis(
    anchor_start: int,
    anchor_room: int,
    start: int,
    room: int,
    extent: int,
) -> int {
    clamped(
        anchor_start + div_trunc(anchor_room - extent, 2),
        start,
        start + max_int(room - extent, 0),
    )
}

pub open spec fn centered(usable: Rect, parent: Option<Rect>, win_size: Size) -> Point {
    let anchor = if parent is Some { parent->0 } else { usable };
    Point {
        x: centered_axis(
            anchor.loc.x as int,
            anchor.size.w as int,
            usable.loc.x as int,
            usable.size.w as int,
            win_size.w as int,
        ) as i32,
        y: centered_axis(
            anchor.loc.y as int,
            anchor.size.h as int,
            usable.loc.y as int,
            usable.size.h as int,
            win_size.h as int,
        ) as i32,
    }
}

/// Whether the far limit of a dialog's place is a coordinate.
pub open spec fn centered_in_range(usable: Rect, win_size: Size) -> bool {
    &&& fits_i32(usable.loc.x + max_int(usable.size.w - win_size.w, 0))
    &&& fits_i32(usable.loc.y + max_int(usable.size.h - win_size.h, 0))
}

fn half_i64(n: i64) -> (r: i64)
    requires
        n > i64::MIN,
    ensures
        r == div_trunc(n as int, 2),
{
    if n >= 0 {
        n / 2
    } else {
        -((-n) / 2)
    }
}

fn center_axis(anchor_start: i32, anchor_room: i32, start: i32, room: i32, extent: i32) -> (r: i32)
    requires
        fits_i32(start + max_int(room - extent, 0)),
    ensures
        r == centered_axis(
            anchor_start as int,
            anchor_room as int,
            start as int,
            room as int,
            extent as int,
        ),
{
    let wanted: i64 = anchor_start as i64 + half_i64(anchor_room as i64 - extent as i64);
    let slack: i64 = room as i64 - extent as i64;
    let limit: i64 = start as i64 + if slack > 0 {
        slack
    } else {
        0
    };
    if wanted < start as i64 {
        start
    } else if wanted > limit {
        limit as i32
    } else {
        wanted as i32
    }
}

/// The top-left corner of a floating dialog: centred over its parent where it
/// has one, else in the usable area, and always kept within that.
pub fn centered_dialog_position(usable: Rect, parent: Option<Rect>, win_size: Size) -> (r: Point)
    requires
        centered_in_range(usable, win_size),
    ensures
        r == centered(usable, parent, win_size),
{
    let anchor = match parent {
        Some(parent) => parent,
        None => usable,
    };
    Point {
        x: center_axis(
            anchor.loc.x,
            anchor.size.w,
            usable.loc.x,
            usable.size.w,
            win_size.w,
        ),
        y: center_axis(
            anchor.loc.y,
            anchor.size.h,
            usable.loc.y,
            usable.size.h,
            win_size.h,
        ),
    }
}

/// The authentication prompters that float though nothing on the wire says so.
pub open spec fn known_dialog_app_ids() -> Seq<Seq<char>> {
    seq![
        "gcr-prompter"@,
        "org.gnome.keyring.Prompter"@,
        "gnome-keyring-prompter"@,
        "polkit-gnome-authentication-agent-1"@,
        "org.freedesktop.PolicyKit1.Authority"@,
        "polkit-kde-authentication-agent-1"@,
    ]
}

pub open spec fn known_dialog(app_id: Seq<char>) -> bool {
    exists|i: int|
        0 <= i < known_dialog_app_ids().len() && text::lowered(
            #[trigger] known_dialog_app_ids()[i],
        ) == text::lowered(app_id)
}

/// Whether an application id is one of the known prompters', whatever its
/// case.
pub fn is_known_dialog_app_id(app_id: &str) -> (r: bool)
    ensures
        r == known_dialog(app_id@),
{
    let known: Vec<&str> = vec![
        "gcr-prompter",
        "org.gnome.keyring.Prompter",
        "gnome-keyring-prompter",
        "polkit-gnome-authentication-agent-1",
        "org.freedesktop.PolicyKit1.Authority",
        "polkit-kde-authentication-agent-1",
    ];
    let mut i: usize = 0;
    while i < known.len()
        invariant
            i <= known.len(),
            known.len() == known_dialog_app_ids().len(),
            forall|k: int| 0 <= k < known.len() ==> (#[trigger] known@[k])@ == known_dialog_app_ids()[k],
            forall|k: int|
                0 <= k < i ==> text::lowered(#[trigger] known_dialog_app_ids()[k]) != text::lowered(
                    app_id@,
                ),
        decreases known.len() - i,
    {
        if text::eq_ignore_ascii_case(app_id, known[i]) {
            proof {
                assert(text::lowered(known_dialog_app_ids()[i as int]) == text::lowered(app_id@));
            }
            return true;
        }
        i = i + 1;
    }
    false
}

/// What a toplevel window says of itself.
#[derive(Debug)]
pub struct ToplevelFacts {
    pub has_parent: bool,
    pub is_modal: bool,
    pub app_id: Option<String>,
    pub min_size: Size,
    pub max_size: Size,
}

/// Why a window floats, or does not.
#[derive(Debug, Clone, Copy, PartialEq, Eq, Structural)]
pub enum FloatReason {
    NotAToplevel,
    HasParent,
    Modal,
    KnownDialogAppId,
    FixedSize,
    BoundedSizeCap,
    Normal,
}

impl FloatReason {
    /// A stable name for logs.
    pub fn as_str(self) -> (r: &'static str)
        ensures
            r@ == match self {
                FloatReason::NotAToplevel => "not-a-toplevel"@,
                FloatReason::HasParent => "has-parent"@,
                FloatReason::Modal => "modal"@,
                FloatReason::KnownDialogAppId => "known-dialog-app-id"@,
                FloatReason::FixedSize => "fixed-size"@,
                FloatReason::BoundedSizeCap => "bounded-size-cap"@,
                FloatReason::Normal => "normal"@,
            },
    {
        match self {
            FloatReason::NotAToplevel => "not-a-toplevel",
            FloatReason::HasParent => "has-parent",
            FloatReason::Modal => "modal",
            FloatReason::KnownDialogAppId => "known-dialog-app-id",
            FloatReason::FixedSize => "fixed-size",
            FloatReason::BoundedSizeCap => "bounded-size-cap",
            FloatReason::Normal => "normal",
        }
    }
}

/// Whether a window floats, and what that rests on. It is always the window's
/// own properties: an application that merely has a dialog stays tiled.
#[derive(Debug, Clone, Copy, PartialEq, Eq, Structural)]
pub struct ToplevelFloatClass {
    pub should_float: bool,
    pub reason: FloatReason,
    pub has_parent: bool,
    pub is_modal: bool,
    pub known_dialog: bool,
}

pub open spec fn facts_known_dialog(facts: ToplevelFacts) -> bool {
    facts.app_id is Some && known_dialog(facts.app_id->0@)
}

/// The smallest size is also the largest, and both are given.
pub open spec fn size_is_fixed(facts: ToplevelFacts) -> bool {
    facts.min_size.w > 0 && facts.min_size.h > 0 && facts.min_size == facts.max_size
}

pub open spec fn float_class(facts: Option<ToplevelFacts>) -> ToplevelFloatClass {
    match facts {
        None => ToplevelFloatClass {
            should_float: false,
            reason: FloatReason::NotAToplevel,
            has_parent: false,
            is_modal: false,
            known_dialog: false,
        },
        Some(f) => {
            let reason = if f.has_parent {
                FloatReason::HasParent
            } else if f.is_modal {
                FloatReason::Modal
            } else if facts_known_dialog(f) {
                FloatReason::KnownDialogAppId
            } else if size_is_fixed(f) {
                FloatReason::FixedSize
            } else if dialog_size_cap(f.max_size) {
                FloatReason::BoundedSizeCap
            } else {
                FloatReason::Normal
            };
            ToplevelFloatClass {
                should_float: reason != FloatReason::Normal,
                reason,
                has_parent: f.has_parent,
                is_modal: f.is_modal,
                known_dialog: facts_known_dialog(f),
            }
        },
    }
}

/// Classify a window; `None` for one that is no Wayland toplevel.
pub fn classify_toplevel_floating(facts: &Option<ToplevelFacts>) -> (r: ToplevelFloatClass)
    ensures
        r == float_class(*facts),
{
    match facts {
        None => ToplevelFloatClass {
            should_float: false,
            reason: FloatReason::NotAToplevel,
            has_parent: false,
            is_modal: false,
            known_dialog: false,
        },
        Some(f) => {
            let known_dialog = match &f.app_id {
                Some(app_id) => is_known_dialog_app_id(app_id.as_str()),
                None => false,
            };
            let is_fixed = is_fixed_size(f.min_size) && f.min_size == f.max_size;
            let has_size_cap = is_dialog_size_cap(f.max_size);
            let (should_float, reason) = if f.has_parent {
                (true, FloatReason::HasParent)
            } else if f.is_modal {
                (true, FloatReason::Modal)
            } else if known_dialog {
                (true, FloatReason::KnownDialogAppId)
            } else if is_fixed {
                (true, FloatReason::FixedSize)
            } else if has_size_cap {
                (true, FloatReason::BoundedSizeCap)
            } else {
                (false, FloatReason::Normal)
            };
            ToplevelFloatClass {
                should_float,
                reason,
                has_parent: f.has_parent,
                is_modal: f.is_modal,
                known_dialog,
            }
        },
    }
}

pub fn should_map_toplevel_floating(facts: &Option<ToplevelFacts>) -> (r: bool)
    ensures
        r == float_class(*facts).should_float,
{
    classify_toplevel_floating(facts).should_float
}

/// Whether a floating window that holds the keyboard keeps it when a tiled one
/// is mapped: prompts and dialogs do, an ordinary floating window does not.
pub open spec fn keeps_focus(class: ToplevelFloatClass, floating: bool) -> bool {
    floating && (class.is_modal || class.has_parent || class.known_dialog)
}

/// See [`keeps_focus`].
pub fn pins_focus(class: ToplevelFloatClass, floating: bool) -> (r: bool)
    ensures
        r == keeps_focus(class, floating),
{
    floating && (class.is_modal || class.has_parent || class.known_dialog)
}

/// What a popup is placed against: its parent's geometry and that of the
/// output, both in global coordinates.
#[derive(Debug, Clone, Copy, PartialEq, Eq, Structural)]
pub struct PopupConstraintSpace {
    pub parent_geometry: Rect,
    pub output_geometry: Rect,
}

pub open spec fn constraint_target(parent_geometry: Rect, output_geometry: Rect) -> Rect {
    Rect {
        loc: Point {
            x: (output_geometry.loc.x - parent_geometry.loc.x) as i32,
            y: (output_geometry.loc.y - parent_geometry.loc.y) as i32,
        },
        size: output_geometry.size,
    }
}

/// The output as seen from the popup's parent.
pub fn popup_constraint_target(parent_geometry: Rect, output_geometry: Rect) -> (r: Rect)
    requires
        fits_i32(output_geometry.loc.x - parent_geometry.loc.x),
        fits_i32(output_geometry.loc.y - parent_geometry.loc.y),
    ensures
        r == constraint_target(parent_geometry, output_geometry),
{
    Rect {
        loc: Point {
            x: output_geometry.loc.x - parent_geometry.loc.x,
            y: output_geometry.loc.y - parent_geometry.loc.y,
        },
        size: output_geometry.size,
    }
}

/// Where a popup goes so that it stays on its output. `unconstrained_geometry`
/// applies the rules of the popup's positioner, as smithay's
/// `PositionerState::get_unconstrained_geometry` does: it fits the popup into a
/// rectangle that is given as the popup's parent sees it.
pub fn constrain_popup_geometry<P, F: FnOnce(P, Rect) -> Rect>(
    positioner: P,
    parent_geometry: Rect,
    output_geometry: Rect,
    unconstrained_geometry: F,
) -> (r: Rect)
    requires
        fits_i32(output_geometry.loc.x - parent_geometry.loc.x),
        fits_i32(output_geometry.loc.y - parent_geometry.loc.y),
        unconstrained_geometry.requires(
            (positioner, constraint_target(parent_geometry, output_geometry)),
        ),
    ensures
        unconstrained_geometry.ensures(
            (positioner, constraint_target(parent_geometry, output_geometry)),
            r,
        ),
{
    unconstrained_geometry(positioner, popup_constraint_target(parent_geometry, output_geometry))
}

/// The geometry of a popup: as its positioner fits it into its output, or, where
/// it has no place to be kept in, as its positioner alone puts it.
pub fn configure_xdg_popup<P, F: FnOnce(P, Rect) -> Rect, G: FnOnce(P) -> Rect>(
    positioner: P,
    space: Option<PopupConstraintSpace>,
    unconstrained_geometry: F,
    geometry: G,
) -> (r: Rect)
    requires
        match space {
            Some(space) => {
                &&& fits_i32(space.output_geometry.loc.x - space.parent_geometry.loc.x)
                &&& fits_i32(space.output_geometry.loc.y - space.parent_geometry.loc.y)
                &&& unconstrained_geometry.requires(
                    (positioner, constraint_target(space.parent_geometry, space.output_geometry)),
                )
            },
            None => geometry.requires((positioner,)),
        },
    ensures
        match space {
            Some(space) => unconstrained_geometry.ensures(
                (positioner, constraint_target(space.parent_geometry, space.output_geometry)),
                r,
            ),
            None => geometry.ensures((positioner,), r),
        },
{
    match space {
        Some(space) => constrain_popup_geometry(
            positioner,
            space.parent_geometry,
            space.output_geometry,
            unconstrained_geometry,
        ),
        None => geometry(positioner),
    }
}

/// The middle of a rectangle, in whole pixels.
pub open spec fn center_of(rect: Rect) -> (int, int) {
    (rect.loc.x + div_trunc(rect.size.w as int, 2), rect.loc.y + div_trunc(rect.size.h as int, 2))
}

/// The first of `outputs` that covers the point.
pub open spec fn first_covering(outputs: Seq<Rect>, x: int, y: int) -> Option<Rect>
    decreases outputs.len(),
{
    if outputs.len() == 0 {
        None
    } else if outputs[0].covers(x, y) {
        Some(outputs[0])
    } else {
        first_covering(outputs.drop_first(), x, y)
    }
}

/// The first of `outputs` that overlaps the rectangle.
pub open spec fn first_overlapping(outputs: Seq<Rect>, rect: Rect) -> Option<Rect>
    decreases outputs.len(),
{
    if outputs.len() == 0 {
        None
    } else if outputs[0].overlapping(rect) {
        Some(outputs[0])
    } else {
        first_overlapping(outputs.drop_first(), rect)
    }
}

pub open spec fn output_of(rectangle: Rect, outputs: Seq<Rect>, focused: Option<Rect>) -> Option<
    Rect,
> {
    let (x, y) = center_of(rectangle);
    if first_covering(outputs, x, y) is Some {
        first_covering(outputs, x, y)
    } else if first_overlapping(outputs, rectangle) is Some {
        first_overlapping(outputs, rectangle)
    } else {
        focused
    }
}

/// The output that a rectangle belongs to: the one under its middle, else one
/// that it reaches into, else the focused one.
pub fn output_geometry_for_rectangle(
    rectangle: Rect,
    outputs: &Vec<Rect>,
    focused: Option<Rect>,
) -> (r: Option<Rect>)
    requires
        fits_i32(center_of(rectangle).0),
        fits_i32(center_of(rectangle).1),
    ensures
        r == output_of(rectangle, outputs@, focused),
{
    let x: i32 = (rectangle.loc.x as i64 + half(rectangle.size.w) as i64) as i32;
    let y: i32 = (rectangle.loc.y as i64 + half(rectangle.size.h) as i64) as i32;
    proof {
        assert(outputs@.subrange(0, outputs.len() as int) =~= outputs@);
    }
    let mut i: usize = 0;
    while i < outputs.len()
        invariant
            i <= outputs.len(),
            (x as int, y as int) == center_of(rectangle),
            first_covering(outputs@, x as int, y as int) == first_covering(
                outputs@.subrange(i as int, outputs.len() as int),
                x as int,
                y as int,
            ),
        decreases outputs.len() - i,
    {
        proof {
            let rest = outputs@.subrange(i as int, outputs.len() as int);
            assert(rest[0] == outputs@[i as int]);
            assert(rest.drop_first() =~= outputs@.subrange(i + 1, outputs.len() as int));
        }
        if outputs[i].contains(x, y) {
            return Some(outputs[i]);
        }
        i = i + 1;
    }
    let mut j: usize = 0;
    while j < outputs.len()
        invariant
            j <= outputs.len(),
            first_overlapping(outputs@, rectangle) == first_overlapping(
                outputs@.subrange(j as int, outputs.len() as int),
                rectangle,
            ),
            (x as int, y as int) == center_of(rectangle),
            first_covering(outputs@, x as int, y as int) is None,
        decreases outputs.len() - j,
    {
        proof {
            let rest = outputs@.subrange(j as int, outputs.len() as int);
            assert(rest[0] == outputs@[j as int]);
            assert(rest.drop_first() =~= outputs@.subrange(j + 1, outputs.len() as int));
        }
        if outputs[j].overlaps(&rectangle) {
            return Some(outputs[j]);
        }
        j = j + 1;
    }
    focused
}

pub open spec fn space_within(parent_space: PopupConstraintSpace, geometry: Rect) -> PopupConstraintSpace {
    PopupConstraintSpace {
        parent_geometry: Rect {
            loc: Point {
                x: (parent_space.parent_geometry.loc.x + geometry.loc.x) as i32,
                y: (parent_space.parent_geometry.loc.y + geometry.loc.y) as i32,
            },
            size: geometry.size,
        },
        output_geometry: parent_space.output_geometry,
    }
}

/// The space of a popup whose parent is itself a popup with the given
/// geometry, relative to its own parent's space.
pub fn popup_constraint_space_for_popup(
    parent_space: PopupConstraintSpace,
    geometry: Rect,
) -> (r: PopupConstraintSpace)
    requires
        fits_i32(parent_space.parent_geometry.loc.x + geometry.loc.x),
        fits_i32(parent_space.parent_geometry.loc.y + geometry.loc.y),
    ensures
        r == space_within(parent_space, geometry),
{
    PopupConstraintSpace {
        parent_geometry: Rect {
            loc: Point {
                x: parent_space.parent_geometry.loc.x + geometry.loc.x,
                y: parent_space.parent_geometry.loc.y + geometry.loc.y,
            },
            size: geometry.size,
        },
        output_geometry: parent_space.output_geometry,
    }
}

pub open spec fn has_extent(size: Size) -> bool {
    size.w > 0 && size.h > 0
}

/// A shell surface that has popups.
#[derive(Debug, Clone, Copy, PartialEq, Eq, Structural)]
pub struct LayerParent {
    pub layer_geometry: Rect,
    /// Where its box begins, seen from the surface.
    pub bbox_loc: Point,
    /// The size it was last told to have, where it was told one.
    pub current_size: Option<Size>,
    /// The size it asked for.
    pub cached_size: Size,
    pub output_geometry: Rect,
}

pub open spec fn layer_space(layer: LayerParent) -> PopupConstraintSpace {
    PopupConstraintSpace {
        parent_geometry: Rect {
            loc: Point {
                x: (layer.layer_geometry.loc.x - layer.bbox_loc.x) as i32,
                y: (layer.layer_geometry.loc.y - layer.bbox_loc.y) as i32,
            },
            size: if layer.current_size is Some && has_extent(layer.current_size->0) {
                layer.current_size->0
            } else if has_extent(layer.cached_size) {
                layer.cached_size
            } else {
                layer.layer_geometry.size
            },
        },
        output_geometry: layer.output_geometry,
    }
}

/// The space of a popup whose parent is a shell surface. The parent is as
/// large as it was last told to be, else as it asked to be, else as it is.
pub fn popup_constraint_space_for_layer_surface(layer: LayerParent) -> (r: PopupConstraintSpace)
    requires
        fits_i32(layer.layer_geometry.loc.x - layer.bbox_loc.x),
        fits_i32(layer.layer_geometry.loc.y - layer.bbox_loc.y),
    ensures
        r == layer_space(layer),
{
    let told = match layer.current_size {
        Some(size) => if size.w > 0 && size.h > 0 {
            Some(size)
        } else {
            None
        },
        None => None,
    };
    let size = match told {
        Some(size) => size,
        None => if layer.cached_size.w > 0 && layer.cached_size.h > 0 {
            layer.cached_size
        } else {
            layer.layer_geometry.size
        },
    };
    PopupConstraintSpace {
        parent_geometry: Rect {
            loc: Point {
                x: layer.layer_geometry.loc.x - layer.bbox_loc.x,
                y: layer.layer_geometry.loc.y - layer.bbox_loc.y,
            },
            size,
        },
        output_geometry: layer.output_geometry,
    }
}

/// What the popups of a tree belong to, in the end.
#[derive(Debug, Clone, Copy, PartialEq, Eq, Structural)]
pub enum PopupRoot {
    /// A mapped window, with its place where it is shown.
    Window(Option<Rect>),
    /// A shell surface of an output.
    Layer(LayerParent),
    /// A surface that is neither, or a popup of another kind.
    Unknown,
}

pub open spec fn root_space(
    root: PopupRoot,
    outputs: Seq<Rect>,
    focused: Option<Rect>,
) -> Option<PopupConstraintSpace> {
    match root {
        PopupRoot::Window(Some(geometry)) => match output_of(geometry, outputs, focused) {
            Some(output_geometry) => Some(
                PopupConstraintSpace { parent_geometry: geometry, output_geometry },
            ),
            None => None,
        },
        PopupRoot::Layer(layer) => Some(layer_space(layer)),
        _ => None,
    }
}

/// The space within popups that lie in one another; the first of them lies in
/// `space`.
pub open spec fn nested_space(space: PopupConstraintSpace, popups: Seq<Rect>) -> PopupConstraintSpace
    decreases popups.len(),
{
    if popups.len() == 0 {
        space
    } else {
        space_within(nested_space(space, popups.drop_last()), popups.last())
    }
}

/// Whether all of these popups lie within the coordinates.
pub open spec fn nested_in_range(space: PopupConstraintSpace, popups: Seq<Rect>) -> bool {
    forall|n: int|
        0 <= n < popups.len() ==> {
            let at = (#[trigger] nested_space(space, popups.subrange(0, n))).parent_geometry.loc;
            fits_i32(at.x + popups[n].loc.x) && fits_i32(at.y + popups[n].loc.y)
        }
}

/// What a popup is placed against: its parent is the last of `popups`, which lie
/// in one another, or `root` itself where there are none. `None` where the root
/// has no place, or no output.
pub fn popup_constraint_space_for_surface(
    root: PopupRoot,
    popups: &Vec<Rect>,
    outputs: &Vec<Rect>,
    focused: Option<Rect>,
) -> (r: Option<PopupConstraintSpace>)
    requires
        match root {
            PopupRoot::Window(Some(geometry)) => fits_i32(center_of(geometry).0) && fits_i32(
                center_of(geometry).1,
            ),
            PopupRoot::Layer(layer) => fits_i32(layer.layer_geometry.loc.x - layer.bbox_loc.x)
                && fits_i32(layer.layer_geometry.loc.y - layer.bbox_loc.y),
            _ => true,
        },
        root_space(root, outputs@, focused) matches Some(space) ==> nested_in_range(space, popups@),
    ensures
        r == match root_space(root, outputs@, focused) {
            Some(space) => Some(nested_space(space, popups@)),
            None => None,
        },
{
    let space = match root {
        PopupRoot::Window(Some(parent_geometry)) => {
            match output_geometry_for_rectangle(parent_geometry, outputs, focused) {
                Some(output_geometry) => PopupConstraintSpace { parent_geometry, output_geometry },
                None => {
                    return None;
                },
            }
        },
        PopupRoot::Layer(layer) => popup_constraint_space_for_layer_surface(layer),
        _ => {
            return None;
        },
    };
    let mut within = space;
    let mut n: usize = 0;
    proof {
        assert(popups@.subrange(0, 0) =~= Seq::<Rect>::empty());
    }
    while n < popups.len()
        invariant
            n <= popups.len(),
            nested_in_range(space, popups@),
            within == nested_space(space, popups@.subrange(0, n as int)),
        decreases popups.len() - n,
    {
        proof {
            let next = popups@.subrange(0, n + 1);
            assert(next.drop_last() =~= popups@.subrange(0, n as int));
            assert(next.last() == popups@[n as int]);
        }
        within = popup_constraint_space_for_popup(within, popups[n]);
        n = n + 1;
    }
    proof {
        assert(popups@.subrange(0, n as int) =~= popups@);
    }
    Some(within)
}

/// Popups keep to the output of what they belong to, however deep they lie, and
/// each is where its offsets from there add up to.
pub proof fn nested_popups_share_the_output(space: PopupConstraintSpace, popups: Seq<Rect>)
    requires
        nested_in_range(space, popups),
    ensures
        nested_space(space, popups).output_geometry == space.output_geometry,
        nested_space(space, popups).parent_geometry.loc.x == space.parent_geometry.loc.x
            + popups.fold_left(0int, |sum: int, popup: Rect| sum + popup.loc.x),
        nested_space(space, popups).parent_geometry.loc.y == space.parent_geometry.loc.y
            + popups.fold_left(0int, |sum: int, popup: Rect| sum + popup.loc.y),
    decreases popups.len(),
{
    if popups.len() > 0 {
        let rest = popups.drop_last();
        assert(popups.subrange(0, popups.len() - 1) =~= rest);
        assert(nested_space(space, popups.subrange(0, popups.len() - 1)) == nested_space(
            space,
            rest,
        ));
        assert forall|n: int| 0 <= n < rest.len() implies {
            let at = (#[trigger] nested_space(space, rest.subrange(0, n))).parent_geometry.loc;
            fits_i32(at.x + rest[n].loc.x) && fits_i32(at.y + rest[n].loc.y)
        } by {
            assert(rest.subrange(0, n) =~= popups.subrange(0, n));
        }
        nested_popups_share_the_output(space, rest);
    }
}

/// A dialog that fits the usable area lies within it, parent or not; one that
/// does not starts where the area starts.
pub proof fn dialogs_stay_on_screen(usable: Rect, parent: Option<Rect>, win_size: Size)
    requires
        centered_in_range(usable, win_size),
    ensures
        ({
            let at = centered(usable, parent, win_size);
            &&& win_size.w <= usable.size.w ==> usable.loc.x <= at.x && at.x + win_size.w
                <= usable.right()
            &&& win_size.h <= usable.size.h ==> usable.loc.y <= at.y && at.y + win_size.h
                <= usable.bottom()
            &&& win_size.w > usable.size.w ==> at.x == usable.loc.x
            &&& win_size.h > usable.size.h ==> at.y == usable.loc.y
        }),
{
}

/// A dialog over a parent that has room for it within the usable area is
/// centred: the margins on both sides differ by at most a pixel.
pub proof fn dialogs_are_centred_over_their_parent(usable: Rect, parent: Rect, win_size: Size)
    requires
        centered_in_range(usable, win_size),
        win_size.w <= parent.size.w,
        win_size.h <= parent.size.h,
        usable.loc.x <= parent.loc.x,
        usable.loc.y <= parent.loc.y,
        parent.right() <= usable.right(),
        parent.bottom() <= usable.bottom(),
    ensures
        ({
            let at = centered(usable, Some(parent), win_size);
            let left = at.x - parent.loc.x;
            let right = parent.right() - (at.x + win_size.w);
            let top = at.y - parent.loc.y;
            let bottom = parent.bottom() - (at.y + win_size.h);
            &&& 0 <= right - left <= 1
            &&& 0 <= bottom - top <= 1
        }),
{
}

/// A window floats only for what it says of itself: one without a parent, modal
/// flag, known id, fixed size or small cap is tiled.
pub proof fn an_ordinary_window_is_tiled(facts: ToplevelFacts)
    requires
        !facts.has_parent,
        !facts.is_modal,
        !facts_known_dialog(facts),
        !size_is_fixed(facts),
        !dialog_size_cap(facts.max_size),
    ensures
        !float_class(Some(facts)).should_float,
{
}

/// A window floats exactly where it has a parent, is modal, is a known prompter, gives one
/// size as its least and its largest, or caps its size at that of a dialog.
pub proof fn dialogs_float_and_others_do_not(facts: ToplevelFacts)
    ensures
        float_class(Some(facts)).should_float <==> {
            ||| facts.has_parent
            ||| facts.is_modal
            ||| facts.app_id is Some && known_dialog(facts.app_id->0@)
            ||| facts.min_size.w > 0 && facts.min_size.h > 0 && facts.min_size.w
                == facts.max_size.w && facts.min_size.h == facts.max_size.h
            ||| facts.max_size.w > 0 && facts.max_size.h > 0 && facts.max_size.w <= 1280
                && facts.max_size.h <= 1024
        },
        !float_class(None).should_float,
        float_class(Some(facts)).has_parent == facts.has_parent,
        float_class(Some(facts)).is_modal == facts.is_modal,
        float_class(Some(facts)).known_dialog == (facts.app_id is Some && known_dialog(
            facts.app_id->0@,
        )),
{
}

/// The prompters for passwords and keys are known, in whatever case they are written, and
/// nothing else is.
pub proof fn the_known_prompters(app_id: Seq<char>)
    ensures
        known_dialog(app_id) <==> {
            ||| text::lowered(app_id) == text::lowered("gcr-prompter"@)
            ||| text::lowered(app_id) == text::lowered("org.gnome.keyring.Prompter"@)
            ||| text::lowered(app_id) == text::lowered("gnome-keyring-prompter"@)
            ||| text::lowered(app_id) == text::lowered("polkit-gnome-authentication-agent-1"@)
            ||| text::lowered(app_id) == text::lowered("org.freedesktop.PolicyKit1.Authority"@)
            ||| text::lowered(app_id) == text::lowered("polkit-kde-authentication-agent-1"@)
        },
{
    let ids = known_dialog_app_ids();
    assert(ids[0] == "gcr-prompter"@);
    assert(ids[1] == "org.gnome.keyring.Prompter"@);
    assert(ids[2] == "gnome-keyring-prompter"@);
    assert(ids[3] == "polkit-gnome-authentication-agent-1"@);
    assert(ids[4] == "org.freedesktop.PolicyKit1.Authority"@);
    assert(ids[5] == "polkit-kde-authentication-agent-1"@);
}

/// Only a dialog that floats keeps the keyboard: one with a parent, a modal one, or a
/// known prompter.
pub proof fn only_floating_dialogs_keep_the_keyboard(facts: ToplevelFacts)
    ensures
        keeps_focus(float_class(Some(facts)), true) <==> facts.has_parent || facts.is_modal || (
        facts.app_id is Some && known_dialog(facts.app_id->0@)),
        !keeps_focus(float_class(Some(facts)), false),
        !keeps_focus(float_class(None), true),
{
}

/// A popup is kept on its output: what it is fitted into, moved to where its parent is, is
/// the output.
pub proof fn popups_are_fitted_into_their_output(parent: Rect, output: Rect)
    requires
        fits_i32(output.loc.x - parent.loc.x),
        fits_i32(output.loc.y - parent.loc.y),
    ensures
        parent.loc.x + constraint_target(parent, output).loc.x == output.loc.x,
        parent.loc.y + constraint_target(parent, output).loc.y == output.loc.y,
        constraint_target(parent, output).size == output.size,
{
}

/// A dialog without a parent has the same room on both sides of the usable area, to a
/// pixel, where it fits.
pub proof fn dialogs_without_a_parent_are_centred(usable: Rect, win_size: Size)
    requires
        centered_in_range(usable, win_size),
        0 <= win_size.w <= usable.size.w,
        0 <= win_size.h <= usable.size.h,
    ensures
        ({
            let at = centered(usable, None, win_size);
            let left = at.x - usable.loc.x;
            let right = (usable.loc.x + usable.size.w) - (at.x + win_size.w);
            let above = at.y - usable.loc.y;
            let below = (usable.loc.y + usable.size.h) - (at.y + win_size.h);
            &&& 0 <= left <= right <= left + 1
            &&& 0 <= above <= below <= above + 1
        }),
{
}

/// Whether the middle of a rectangle, in whole pixels, lies on an output.
pub open spec fn has_middle_on(rect: Rect, output: Rect) -> bool {
    let x = rect.loc.x + rect.size.w / 2;
    let y = rect.loc.y + rect.size.h / 2;
    &&& output.loc.x <= x && x < output.loc.x + output.size.w
    &&& output.loc.y <= y && y < output.loc.y + output.size.h
}

/// A rectangle belongs to an output that its middle is on, where it is on one, and to the
/// focused one where it reaches into none at all.
pub proof fn a_rectangle_belongs_where_its_middle_is(
    rect: Rect,
    outputs: Seq<Rect>,
    focused: Option<Rect>,
)
    requires
        rect.size.w >= 0,
        rect.size.h >= 0,
        forall|i: int|
            0 <= i < outputs.len() ==> (#[trigger] outputs[i]).size.w >= 0 && outputs[i].size.h >= 0
                && outputs[i].loc.x + outputs[i].size.w <= i32::MAX && outputs[i].loc.y
                + outputs[i].size.h <= i32::MAX,
    ensures
        (exists|i: int| 0 <= i < outputs.len() && has_middle_on(rect, #[trigger] outputs[i]))
            ==> output_of(rect, outputs, focused) is Some && has_middle_on(
            rect,
            output_of(rect, outputs, focused)->0,
        ) && outputs.contains(output_of(rect, outputs, focused)->0),
        outputs.len() == 0 ==> output_of(rect, outputs, focused) == focused,
    decreases outputs.len(),
{
    let (x, y) = center_of(rect);
    lemma_first_covering(outputs, x, y);
    assert forall|i: int| 0 <= i < outputs.len() implies (has_middle_on(rect, #[trigger] outputs[i])
        <==> outputs[i].covers(x, y)) by {}
}

proof fn lemma_first_covering(outputs: Seq<Rect>, x: int, y: int)
    ensures
        match first_covering(outputs, x, y) {
            Some(output) => output.covers(x, y) && exists|i: int|
                0 <= i < outputs.len() && #[trigger] outputs[i] == output,
            None => forall|i: int| 0 <= i < outputs.len() ==> !(#[trigger] outputs[i]).covers(x, y),
        },
    decreases outputs.len(),
{
    if outputs.len() > 0 {
        let rest = outputs.drop_first();
        lemma_first_covering(rest, x, y);
        if outputs[0].covers(x, y) {
            assert(outputs[0] == first_covering(outputs, x, y)->0);
        } else {
            match first_covering(rest, x, y) {
                Some(output) => {
                    let i = choose|i: int| 0 <= i < rest.len() && #[trigger] rest[i] == output;
                    assert(outputs[i + 1] == output);
                },
                None => {
                    assert forall|i: int| 0 <= i < outputs.len() implies !(
                    #[trigger] outputs[i]).covers(x, y) by {
                        if i > 0 {
                            assert(outputs[i] == rest[i - 1]);
                        }
                    }
                },
            }
        }
    }
}

/// A popup's place counts from its parent: that of a layer surface is where the layer is,
/// less what it draws around itself; that of a popup is the parent's own, moved on by where
/// the popup is in it. Neither changes the output.
pub proof fn popup_places_add_up(
    layer: LayerParent,
    space: PopupConstraintSpace,
    geometry: Rect,
)
    requires
        fits_i32(layer.layer_geometry.loc.x - layer.bbox_loc.x),
        fits_i32(layer.layer_geometry.loc.y - layer.bbox_loc.y),
        fits_i32(space.parent_geometry.loc.x + geometry.loc.x),
        fits_i32(space.parent_geometry.loc.y + geometry.loc.y),
    ensures
        layer_space(layer).parent_geometry.loc.x + layer.bbox_loc.x == layer.layer_geometry.loc.x,
        layer_space(layer).parent_geometry.loc.y + layer.bbox_loc.y == layer.layer_geometry.loc.y,
        layer_space(layer).output_geometry == layer.output_geometry,
        layer.current_size is Some && layer.current_size->0.w > 0 && layer.current_size->0.h > 0
            ==> layer_space(layer).parent_geometry.size == layer.current_size->0,
        layer.current_size is None && layer.cached_size.w > 0 && layer.cached_size.h > 0
            ==> layer_space(layer).parent_geometry.size == layer.cached_size,
        layer.current_size is None && layer.cached_size.w <= 0 ==> layer_space(
            layer,
        ).parent_geometry.size == layer.layer_geometry.size,
        space_within(space, geometry).parent_geometry.loc.x - space.parent_geometry.loc.x
            == geometry.loc.x,
        space_within(space, geometry).parent_geometry.loc.y - space.parent_geometry.loc.y
            == geometry.loc.y,
        space_within(space, geometry).parent_geometry.size == geometry.size,
        space_within(space, geometry).output_geometry == space.output_geometry,
{
}

} // verus!
