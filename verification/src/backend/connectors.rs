//! Which connectors of a graphics device are driven, by what, and where their
//! outputs lie: at startup and whenever a display is plugged in or out.
use crate::backend::modes::{
    a_connector_gets_a_free_crtc, config_for_output, config_index, connector_name,
    find_crtc_for_connector, free_crtc, resolve_connector_mode, resolved_mode, short_kind,
    DisplayMode,
};
use crate::backend::surfaces::{
    built_surface, crtcs_are_distinct, crtcs_of, still_connected, GpuData, SurfaceData, SurfacePlan,
};
use crate::config::OutputConfig;
use crate::geometry::{fits_i32, Point, Rect};
use crate::text::decimal_of;
use vstd::prelude::*;

verus! {

/// What is known of a connector.
#[derive(Debug)]
pub struct ConnectorInfo {
    pub connector: u64,
    /// Its kind, as the driver names it.
    pub interface: String,
    /// Its number among those of that kind.
    pub interface_id: u32,
    /// A display is plugged in.
    pub connected: bool,
    pub modes: Vec<DisplayMode>,
    /// The CRTCs that each of its encoders can use; none where it could not be
    /// asked.
    pub encoders: Vec<Option<Vec<u64>>>,
}

impl ConnectorInfo {
    /// The name by which the configuration knows it.
    pub open spec fn name(&self) -> Seq<char> {
        short_kind(self.interface@) + "-"@ + decimal_of(self.interface_id as nat)
    }

    /// Whether there is a display that can show something.
    pub open spec fn usable(&self) -> bool {
        self.connected && self.modes@.len() > 0
    }

    pub fn is_usable(&self) -> (r: bool)
        ensures
            r == self.usable(),
    {
        self.connected && self.modes.len() > 0
    }
}

/// What the configuration says of a connector.
pub open spec fn configured(info: ConnectorInfo, configs: Seq<OutputConfig>) -> Option<
    OutputConfig,
> {
    match config_index(configs, info.name()) {
        Some(i) => Some(configs[i]),
        None => None,
    }
}

/// The mode that drives a connector.
pub open spec fn mode_for(
    info: ConnectorInfo,
    configs: Seq<OutputConfig>,
    refresh_rate: Option<u32>,
) -> Option<DisplayMode> {
    let config = configured(info, configs);
    resolved_mode(info.modes@, if config is Some { config->0.mode } else { None }, refresh_rate)
}

/// The mode to rebuild an output with after resume.
pub fn connector_mode(
    info: &ConnectorInfo,
    configs: &Vec<OutputConfig>,
    refresh_rate: Option<u32>,
) -> (r: Option<DisplayMode>)
    ensures
        r == mode_for(*info, configs@, refresh_rate),
{
    let name = connector_name(info.interface.as_str(), info.interface_id);
    let spec = match config_for_output(configs, name.as_str()) {
        Some(config) => config.mode,
        None => None,
    };
    resolve_connector_mode(&info.modes, spec, refresh_rate)
}

/// The output for a connector: none where no display is plugged in, the
/// configuration disables it, or every CRTC that could drive it is in use. It
/// lies where the configuration says, else at `auto_x`.
pub open spec fn planned(
    info: ConnectorInfo,
    configs: Seq<OutputConfig>,
    refresh_rate: Option<u32>,
    used: Seq<u64>,
    auto_x: i32,
) -> Option<SurfacePlan> {
    let config = configured(info, configs);
    let mode = mode_for(info, configs, refresh_rate);
    let crtc = free_crtc(info.encoders@, used);
    let disabled = config is Some && !config->0.enabled;
    if !info.usable() || disabled || mode is None || crtc is None {
        None
    } else {
        Some(
            SurfacePlan {
                connector: info.connector,
                crtc: crtc->0,
                position: if config is Some && config->0.position is Some {
                    Point { x: (config->0.position->0).0, y: (config->0.position->0).1 }
                } else {
                    Point { x: auto_x, y: 0 }
                },
                mode: mode->0,
            },
        )
    }
}

/// See [`planned`].
pub fn plan_connector(
    info: &ConnectorInfo,
    configs: &Vec<OutputConfig>,
    refresh_rate: Option<u32>,
    used: &Vec<u64>,
    auto_x: i32,
) -> (r: Option<SurfacePlan>)
    ensures
        r == planned(*info, configs@, refresh_rate, used@, auto_x),
{
    if !info.is_usable() {
        return None;
    }
    let name = connector_name(info.interface.as_str(), info.interface_id);
    let config = config_for_output(configs, name.as_str());
    let mut spec = None;
    let mut position = Point { x: auto_x, y: 0 };
    if let Some(config) = config {
        if !config.enabled {
            return None;
        }
        spec = config.mode;
        if let Some(at) = config.position {
            position = Point { x: at.0, y: at.1 };
        }
    }
    let mode = match resolve_connector_mode(&info.modes, spec, refresh_rate) {
        Some(mode) => mode,
        None => {
            return None;
        },
    };
    match find_crtc_for_connector(&info.encoders, used) {
        Some(crtc) => Some(SurfacePlan { connector: info.connector, crtc, position, mode }),
        None => None,
    }
}

/// The search for the outputs of a device at startup, connector by connector.
#[derive(Debug)]
pub struct Enumeration {
    pub gpu: GpuData,
    /// Where the next output goes that the configuration does not place.
    pub x_offset: i32,
    /// No further connector is driven.
    pub done: bool,
}

impl Enumeration {
    /// The outputs have CRTCs of their own, and none reaches past the place of
    /// the next one.
    pub open spec fn wf(&self) -> bool {
        &&& self.gpu.wf()
        &&& self.x_offset >= 0
        &&& forall|i: int|
            0 <= i < self.gpu.surfaces@.len() ==> (#[trigger] self.gpu.surfaces@[i]).right()
                <= self.x_offset
    }

    pub fn new() -> (r: Self)
        ensures
            r.wf(),
            r.gpu.surfaces@.len() == 0,
            r.x_offset == 0,
            !r.done,
    {
        Enumeration { gpu: GpuData { surfaces: Vec::new() }, x_offset: 0, done: false }
    }

    /// The output to build for the next connector, if any.
    pub fn consider(
        &self,
        info: &ConnectorInfo,
        configs: &Vec<OutputConfig>,
        refresh_rate: Option<u32>,
    ) -> (r: Option<SurfacePlan>)
        ensures
            r == if self.done {
                None
            } else {
                planned(
                    *info,
                    configs@,
                    refresh_rate,
                    crtcs_of(self.gpu.surfaces@),
                    self.x_offset,
                )
            },
    {
        if self.done {
            return None;
        }
        let used = self.gpu.used_crtcs();
        plan_connector(info, configs, refresh_rate, &used, self.x_offset)
    }

    /// The output was built. Unless several outputs are to be driven, it is the
    /// only one.
    pub fn surface_built(&mut self, plan: SurfacePlan, output: u64, multi_output: bool, now: u64)
        requires
            old(self).wf(),
            !crtcs_of(old(self).gpu.surfaces@).contains(plan.crtc),
            plan.mode.vrefresh * 1000 <= u32::MAX,
            fits_i32(plan.position.x + plan.mode.width),
        ensures
            final(self).wf(),
            final(self).gpu.surfaces@ == old(self).gpu.surfaces@.push(
                built_surface(plan, output, now),
            ),
            final(self).x_offset == if plan.position.x + plan.mode.width > old(self).x_offset {
                plan.position.x + plan.mode.width
            } else {
                old(self).x_offset as int
            },
            final(self).done == !multi_output,
    {
        let right: i32 = plan.position.x + plan.mode.width as i32;
        let ghost before = self.gpu.surfaces@;
        self.gpu.add_surface(plan, output, now);
        if right > self.x_offset {
            self.x_offset = right;
        }
        self.done = !multi_output;
        proof {
            lemma_push_keeps_crtcs_distinct(before, built_surface(plan, output, now));
        }
    }
}

/// Where the search for outputs ends: a device without any cannot be used.
pub fn finish_enumeration(enumeration: Enumeration) -> (r: Option<GpuData>)
    ensures
        r is Some <==> enumeration.gpu.surfaces@.len() > 0,
        r is Some ==> r->0.surfaces@ == enumeration.gpu.surfaces@,
{
    if enumeration.gpu.surfaces.len() == 0 {
        None
    } else {
        Some(enumeration.gpu)
    }
}

proof fn lemma_push_keeps_crtcs_distinct(surfaces: Seq<SurfaceData>, surface: SurfaceData)
    requires
        crtcs_are_distinct(surfaces),
        !crtcs_of(surfaces).contains(surface.crtc),
    ensures
        crtcs_are_distinct(surfaces.push(surface)),
{
    let after = surfaces.push(surface);
    assert forall|i: int, j: int| 0 <= i < j < after.len() implies (#[trigger] after[i]).crtc != (
    #[trigger] after[j]).crtc by {
        if j == surfaces.len() {
            assert(crtcs_of(surfaces)[i] == surfaces[i].crtc);
        }
    }
}

/// Where the rightmost of the known outputs ends; the origin where none is
/// known. `geometries` are those of the outputs, where they are known.
pub open spec fn rightmost(geometries: Seq<Option<Rect>>) -> Option<int>
    decreases geometries.len(),
{
    if geometries.len() == 0 {
        None
    } else {
        let rest = rightmost(geometries.drop_last());
        match geometries.last() {
            None => rest,
            Some(geo) => if rest is Some && rest->0 > geo.right() {
                rest
            } else {
                Some(geo.right())
            },
        }
    }
}

/// The place of an output that was plugged in and is placed by no
/// configuration: right of every known one.
pub fn auto_x(geometries: &Vec<Option<Rect>>) -> (r: i32)
    requires
        forall|i: int|
            0 <= i < geometries.len() && (#[trigger] geometries@[i]) is Some ==> fits_i32(
                geometries@[i]->0.right(),
            ),
    ensures
        r == match rightmost(geometries@) {
            Some(x) => x,
            None => 0,
        },
{
    let mut found: Option<i32> = None;
    let mut i: usize = 0;
    proof {
        assert(geometries@.subrange(0, 0) =~= Seq::<Option<Rect>>::empty());
    }
    while i < geometries.len()
        invariant
            i <= geometries.len(),
            forall|k: int|
                0 <= k < geometries.len() && (#[trigger] geometries@[k]) is Some ==> fits_i32(
                    geometries@[k]->0.right(),
                ),
            match found {
                Some(x) => rightmost(geometries@.subrange(0, i as int)) == Some(x as int),
                None => rightmost(geometries@.subrange(0, i as int)) is None,
            },
        decreases geometries.len() - i,
    {
        proof {
            let next = geometries@.subrange(0, i + 1);
            assert(next.drop_last() =~= geometries@.subrange(0, i as int));
            assert(next.last() == geometries@[i as int]);
        }
        if let Some(geo) = geometries[i] {
            let right: i32 = geo.loc.x + geo.size.w;
            found = match found {
                Some(x) => if x > right {
                    Some(x)
                } else {
                    Some(right)
                },
                None => Some(right),
            };
        }
        i = i + 1;
    }
    proof {
        assert(geometries@.subrange(0, i as int) =~= geometries@);
    }
    match found {
        Some(x) => x,
        None => 0,
    }
}

impl GpuData {
    /// The output for a connector that was plugged in: none where it is driven
    /// already.
    pub fn plan_hotplug(
        &self,
        info: &ConnectorInfo,
        configs: &Vec<OutputConfig>,
        refresh_rate: Option<u32>,
        auto_x: i32,
    ) -> (r: Option<SurfacePlan>)
        ensures
            r == if exists|i: int|
                0 <= i < self.surfaces@.len() && (#[trigger] self.surfaces@[i]).connector
                    == info.connector {
                None
            } else {
                planned(*info, configs@, refresh_rate, crtcs_of(self.surfaces@), auto_x)
            },
    {
        if self.drives(info.connector) {
            return None;
        }
        let used = self.used_crtcs();
        plan_connector(info, configs, refresh_rate, &used, auto_x)
    }
}

/// The connectors that have a display, in order.
pub open spec fn usable_connectors(infos: Seq<ConnectorInfo>) -> Seq<u64>
    decreases infos.len(),
{
    if infos.len() == 0 {
        Seq::empty()
    } else {
        let rest = usable_connectors(infos.drop_last());
        if infos.last().usable() {
            rest.push(infos.last().connector)
        } else {
            rest
        }
    }
}

/// See [`usable_connectors`].
pub fn connected_connectors(infos: &Vec<ConnectorInfo>) -> (r: Vec<u64>)
    ensures
        r@ == usable_connectors(infos@),
{
    let mut r: Vec<u64> = Vec::new();
    let mut i: usize = 0;
    proof {
        assert(infos@.subrange(0, 0) =~= Seq::<ConnectorInfo>::empty());
    }
    while i < infos.len()
        invariant
            i <= infos.len(),
            r@ == usable_connectors(infos@.subrange(0, i as int)),
        decreases infos.len() - i,
    {
        proof {
            let next = infos@.subrange(0, i + 1);
            assert(next.drop_last() =~= infos@.subrange(0, i as int));
            assert(next.last() == infos@[i as int]);
        }
        if infos[i].is_usable() {
            r.push(infos[i].connector);
        }
        i = i + 1;
    }
    proof {
        assert(infos@.subrange(0, i as int) =~= infos@);
    }
    r
}

/// Every output that is planned gets a CRTC that no other one uses: adding it
/// keeps the CRTCs distinct.
pub proof fn a_planned_output_has_its_own_crtc(
    gpu: GpuData,
    info: ConnectorInfo,
    configs: Seq<OutputConfig>,
    refresh_rate: Option<u32>,
    auto_x: i32,
    output: u64,
    now: u64,
)
    requires
        gpu.wf(),
    ensures
        match planned(info, configs, refresh_rate, crtcs_of(gpu.surfaces@), auto_x) {
            Some(plan) => {
                &&& !crtcs_of(gpu.surfaces@).contains(plan.crtc)
                &&& crtcs_are_distinct(gpu.surfaces@.push(built_surface(plan, output, now)))
            },
            None => true,
        },
{
    a_connector_gets_a_free_crtc(info.encoders@, crtcs_of(gpu.surfaces@));
    if let Some(plan) = planned(info, configs, refresh_rate, crtcs_of(gpu.surfaces@), auto_x) {
        lemma_push_keeps_crtcs_distinct(gpu.surfaces@, built_surface(plan, output, now));
    }
}

/// Outputs that leave take nothing from the others: the CRTCs stay distinct.
pub proof fn unplugging_keeps_crtcs_distinct(surfaces: Seq<SurfaceData>, connected: Seq<u64>)
    requires
        crtcs_are_distinct(surfaces),
    ensures
        crtcs_are_distinct(still_connected(surfaces, connected)),
        forall|i: int|
            0 <= i < still_connected(surfaces, connected).len() ==> connected.contains(
                (#[trigger] still_connected(surfaces, connected)[i]).connector,
            ),
    decreases surfaces.len(),
{
    reveal(Seq::filter);
    let keep = |s: SurfaceData| connected.contains(s.connector);
    let kept = surfaces.filter(keep);
    if surfaces.len() > 0 {
        let rest = surfaces.drop_last();
        assert forall|i: int, j: int| 0 <= i < j < rest.len() implies (#[trigger] rest[i]).crtc != (
        #[trigger] rest[j]).crtc by {
            assert(surfaces[i] == rest[i] && surfaces[j] == rest[j]);
        }
        unplugging_keeps_crtcs_distinct(rest, connected);
        let less = rest.filter(keep);
        if keep(surfaces.last()) {
            assert(kept =~= less.push(surfaces.last()));
            assert forall|i: int, j: int| 0 <= i < j < kept.len() implies (
            #[trigger] kept[i]).crtc != (#[trigger] kept[j]).crtc by {
                if j == less.len() {
                    assert(less.contains(less[i]));
                    rest.lemma_filter_contains_rev(keep, less[i]);
                    assert(kept[i] == less[i]);
                    assert(rest.contains(less[i]));
                    let k = choose|k: int| 0 <= k < rest.len() && rest[k] == less[i];
                    assert(surfaces[k] == rest[k]);
                    assert(surfaces[surfaces.len() - 1] == surfaces.last());
                } else {
                    assert(kept[i] == less[i] && kept[j] == less[j]);
                }
            }
            assert forall|i: int| 0 <= i < kept.len() implies connected.contains(
                (#[trigger] kept[i]).connector,
            ) by {
                if i < less.len() {
                    assert(kept[i] == less[i]);
                }
            }
        } else {
            assert(kept =~= less);
        }
    }
}

/// At startup an output that the configuration does not place starts where all
/// the earlier ones have ended: it overlaps none of them.
pub proof fn unplaced_outputs_overlap_no_earlier_one(
    enumeration: Enumeration,
    info: ConnectorInfo,
    configs: Seq<OutputConfig>,
    refresh_rate: Option<u32>,
)
    requires
        enumeration.wf(),
        configured(info, configs) is None || configured(info, configs)->0.position is None,
    ensures
        match planned(
            info,
            configs,
            refresh_rate,
            crtcs_of(enumeration.gpu.surfaces@),
            enumeration.x_offset,
        ) {
            Some(plan) => forall|i: int|
                0 <= i < enumeration.gpu.surfaces@.len() ==> (
                #[trigger] enumeration.gpu.surfaces@[i]).right() <= plan.position.x,
            None => true,
        },
{
}

/// An output is placed where the configuration says, or to the right of the others at the
/// top; it goes by its connector, and one that is switched off or not plugged in gets no
/// place.
pub proof fn outputs_are_placed_as_configured(
    info: ConnectorInfo,
    configs: Seq<OutputConfig>,
    refresh_rate: Option<u32>,
    used: Seq<u64>,
    auto_x: i32,
)
    ensures
        ({
            let plan = planned(info, configs, refresh_rate, used, auto_x);
            let config = configured(info, configs);
            &&& !info.connected || info.modes@.len() == 0 ==> plan is None
            &&& config is Some && !config->0.enabled ==> plan is None
            &&& plan is Some ==> plan->0.connector == info.connector
            &&& plan is Some && config is Some && config->0.position is Some
                ==> plan->0.position.x == (config->0.position->0).0 && plan->0.position.y == (
            config->0.position->0).1
            &&& plan is Some && (config is None || config->0.position is None)
                ==> plan->0.position.x == auto_x && plan->0.position.y == 0
            &&& config is Some ==> config->0.name@ == short_kind(info.interface@) + "-"@
                + decimal_of(info.interface_id as nat)
        }),
{
    crate::backend::modes::lemma_config_index(configs, info.name());
}

/// The outputs' right edge is that of the one that reaches farthest.
pub proof fn the_right_edge_is_the_farthest(geometries: Seq<Option<Rect>>, i: int)
    requires
        0 <= i < geometries.len(),
        geometries[i] is Some,
    ensures
        rightmost(geometries) is Some,
        rightmost(geometries)->0 >= geometries[i]->0.loc.x + geometries[i]->0.size.w,
        exists|j: int|
            0 <= j < geometries.len() && (#[trigger] geometries[j]) is Some
                && geometries[j]->0.loc.x + geometries[j]->0.size.w == rightmost(geometries)->0,
    decreases geometries.len(),
{
    let last = geometries.len() - 1;
    let shorter = geometries.drop_last();
    if i < last {
        assert(shorter[i] == geometries[i]);
        the_right_edge_is_the_farthest(shorter, i);
        let j = choose|j: int|
            0 <= j < shorter.len() && (#[trigger] shorter[j]) is Some && shorter[j]->0.loc.x
                + shorter[j]->0.size.w == rightmost(shorter)->0;
        assert(geometries[j] == shorter[j]);
    } else if rightmost(shorter) is Some {
        lemma_rightmost_is_reached(shorter);
        let j = choose|j: int|
            0 <= j < shorter.len() && (#[trigger] shorter[j]) is Some && shorter[j]->0.loc.x
                + shorter[j]->0.size.w == rightmost(shorter)->0;
        assert(geometries[j] == shorter[j]);
    }
    assert(geometries[last] == geometries.last());
}

proof fn lemma_rightmost_is_reached(geometries: Seq<Option<Rect>>)
    requires
        rightmost(geometries) is Some,
    ensures
        exists|j: int|
            0 <= j < geometries.len() && (#[trigger] geometries[j]) is Some
                && geometries[j]->0.loc.x + geometries[j]->0.size.w == rightmost(geometries)->0,
    decreases geometries.len(),
{
    let shorter = geometries.drop_last();
    let last = geometries.len() - 1;
    assert(geometries[last] == geometries.last());
    if rightmost(shorter) is Some {
        lemma_rightmost_is_reached(shorter);
        let j = choose|j: int|
            0 <= j < shorter.len() && (#[trigger] shorter[j]) is Some && shorter[j]->0.loc.x
                + shorter[j]->0.size.w == rightmost(shorter)->0;
        assert(geometries[j] == shorter[j]);
    }
}

} // verus!
