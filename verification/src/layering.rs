//! Where the shell layers stand relative to the windows.
use vstd::prelude::*;

verus! {

/// The four layers of the layer shell, from back to front.
#[derive(Debug, Clone, Copy, PartialEq, Eq, Structural)]
pub enum WlrLayer {
    Background,
    Bottom,
    Top,
    Overlay,
}

/// The layers in front of the windows, topmost first.
pub open spec fn above() -> Seq<WlrLayer> {
    seq![WlrLayer::Overlay, WlrLayer::Top]
}

/// The layers behind the windows, topmost first.
pub open spec fn below() -> Seq<WlrLayer> {
    seq![WlrLayer::Bottom, WlrLayer::Background]
}

fn layers_above() -> (r: Vec<WlrLayer>)
    ensures
        r@ == above(),
{
    let r = vec![WlrLayer::Overlay, WlrLayer::Top];
    proof {
        assert(r@ =~= above());
    }
    r
}

fn layers_below() -> (r: Vec<WlrLayer>)
    ensures
        r@ == below(),
{
    let r = vec![WlrLayer::Bottom, WlrLayer::Background];
    proof {
        assert(r@ =~= below());
    }
    r
}

fn no_layers() -> (r: Vec<WlrLayer>)
    ensures
        r@ == Seq::<WlrLayer>::empty(),
{
    Vec::new()
}

/// The layers drawn in front of the windows, topmost first; none while a
/// window owns the screen.
pub fn layers_rendered_above_windows(fullscreen_active: bool) -> (r: Vec<WlrLayer>)
    ensures
        r@ == if fullscreen_active {
            Seq::empty()
        } else {
            above()
        },
{
    if fullscreen_active {
        no_layers()
    } else {
        layers_above()
    }
}

/// The layers drawn behind the windows, topmost first; all of them while a
/// window owns the screen.
pub fn layers_rendered_below_windows(fullscreen_active: bool) -> (r: Vec<WlrLayer>)
    ensures
        r@ == if fullscreen_active {
            above() + below()
        } else {
            below()
        },
{
    if fullscreen_active {
        let r = vec![WlrLayer::Overlay, WlrLayer::Top, WlrLayer::Bottom, WlrLayer::Background];
        proof {
            assert(r@ =~= above() + below());
        }
        r
    } else {
        layers_below()
    }
}

/// The layers that the pointer reaches before the windows.
pub fn layers_hit_tested_before_windows(fullscreen_active: bool) -> (r: Vec<WlrLayer>)
    ensures
        r@ == if fullscreen_active {
            Seq::empty()
        } else {
            above()
        },
{
    if fullscreen_active {
        no_layers()
    } else {
        layers_above()
    }
}

/// The layers that the pointer reaches after the windows.
pub fn layers_hit_tested_after_windows(fullscreen_active: bool) -> (r: Vec<WlrLayer>)
    ensures
        r@ == if fullscreen_active {
            Seq::empty()
        } else {
            below()
        },
{
    if fullscreen_active {
        no_layers()
    } else {
        layers_below()
    }
}

/// The layers above and those below the windows are, together, every layer
/// once: whatever owns the screen, none is drawn twice and none is lost.
pub proof fn every_layer_is_drawn_once(fullscreen_active: bool, layer: WlrLayer)
    ensures
        ({
            let front = if fullscreen_active { Seq::empty() } else { above() };
            let back = if fullscreen_active { above() + below() } else { below() };
            let all = front + back;
            &&& all.contains(layer)
            &&& all.no_duplicates()
        }),
{
    let front = if fullscreen_active { Seq::empty() } else { above() };
    let back = if fullscreen_active { above() + below() } else { below() };
    let all = front + back;
    assert(all =~= above() + below());
    assert(all[0] == WlrLayer::Overlay && all[1] == WlrLayer::Top && all[2] == WlrLayer::Bottom
        && all[3] == WlrLayer::Background);
}

/// Overlay and top surfaces are in front of the windows, bottom and background surfaces
/// behind them, and within each part the one named first is in front.
pub proof fn layers_stand_in_order()
    ensures
        above().len() == 2,
        above()[0] == WlrLayer::Overlay,
        above()[1] == WlrLayer::Top,
        below().len() == 2,
        below()[0] == WlrLayer::Bottom,
        below()[1] == WlrLayer::Background,
{
}

} // verus!
