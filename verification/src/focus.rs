use vstd::prelude::*;

verus! {

/// What the focus resolver can point at: a closed tagged variant over the
/// two focusable surface classes, dispatched by pattern match.
#[derive(Clone, Copy, Debug, PartialEq, Eq, Structural)]
pub enum FocusTarget {
    LayerSurfaceTarget { id: u64 },
    WindowTarget { id: u64 },
}

} // verus!

use crate::geometry::GEOM_LIMIT;
use crate::output::{LayerSurface, LayerTier};
use crate::state::{Fht, OutputEntry};
use crate::workspace::Window;

verus! {

/// Topmost layer surface of the given tier containing the point; layers
/// stack in list order, topmost last.
pub open spec fn layer_hit(layers: Seq<LayerSurface>, tier: LayerTier, px: int, py: int) -> Option<
    int,
>
    decreases layers.len(),
{
    if layers.len() == 0 {
        None
    } else {
        let last = layers.last();
        if last.tier == tier && last.geometry.contains_spec(px, py) {
            Some(layers.len() - 1)
        } else {
            layer_hit(layers.drop_last(), tier, px, py)
        }
    }
}

/// Topmost window of the stack containing the point.
pub open spec fn window_hit(windows: Seq<Window>, px: int, py: int) -> Option<int>
    decreases windows.len(),
{
    if windows.len() == 0 {
        None
    } else if windows.last().geometry.contains_spec(px, py) {
        Some(windows.len() - 1)
    } else {
        window_hit(windows.drop_last(), px, py)
    }
}

/// The focus target under a point on one output, tested in strict
/// priority order: overlay layers, the active workspace's fullscreen
/// window, top layers, the active workspace's stack (topmost first),
/// bottom layers, background layers.  Lower tiers are never consulted
/// once a higher tier matches.
pub open spec fn focus_target_spec(e: OutputEntry, px: int, py: int) -> Option<
    (FocusTarget, (i32, i32)),
> {
    let layers = e.layers@;
    let aws = e.wset.workspaces@[e.wset.active_index as int];
    match layer_hit(layers, LayerTier::Overlay, px, py) {
        Some(k) => Some(
            (
                FocusTarget::LayerSurfaceTarget { id: layers[k].id },
                (layers[k].geometry.x, layers[k].geometry.y),
            ),
        ),
        None => match aws.fullscreen {
            Some(fs) => Some(
                (
                    FocusTarget::WindowTarget { id: fs.window.id },
                    (fs.window.geometry.x, fs.window.geometry.y),
                ),
            ),
            None => match layer_hit(layers, LayerTier::Top, px, py) {
                Some(k) => Some(
                    (
                        FocusTarget::LayerSurfaceTarget { id: layers[k].id },
                        (layers[k].geometry.x, layers[k].geometry.y),
                    ),
                ),
                None => match window_hit(aws.windows@, px, py) {
                    Some(k) => Some(
                        (
                            FocusTarget::WindowTarget { id: aws.windows@[k].id },
                            (aws.windows@[k].geometry.x, aws.windows@[k].geometry.y),
                        ),
                    ),
                    None => match layer_hit(layers, LayerTier::Bottom, px, py) {
                        Some(k) => Some(
                            (
                                FocusTarget::LayerSurfaceTarget { id: layers[k].id },
                                (layers[k].geometry.x, layers[k].geometry.y),
                            ),
                        ),
                        None => match layer_hit(layers, LayerTier::Background, px, py) {
                            Some(k) => Some(
                                (
                                    FocusTarget::LayerSurfaceTarget { id: layers[k].id },
                                    (layers[k].geometry.x, layers[k].geometry.y),
                                ),
                            ),
                            None => None,
                        },
                    },
                },
            },
        },
    }
}

/// Topmost layer of a tier under the point.
fn find_layer_hit(layers: &Vec<LayerSurface>, tier: LayerTier, px: i32, py: i32) -> (r: Option<
    usize,
>)
    requires
        forall|i: int| 0 <= i < layers@.len() ==> (#[trigger] layers@[i]).wf(),
        -GEOM_LIMIT <= px <= GEOM_LIMIT,
        -GEOM_LIMIT <= py <= GEOM_LIMIT,
    ensures
        match r {
            Some(k) => k < layers@.len() && layer_hit(layers@, tier, px as int, py as int)
                == Some(k as int),
            None => layer_hit(layers@, tier, px as int, py as int) is None,
        },
{
    let mut k: usize = layers.len();
    proof {
        assert(layers@.take(layers@.len() as int) =~= layers@);
    }
    while k > 0
        invariant
            forall|i: int| 0 <= i < layers@.len() ==> (#[trigger] layers@[i]).wf(),
            -GEOM_LIMIT <= px <= GEOM_LIMIT,
            -GEOM_LIMIT <= py <= GEOM_LIMIT,
            0 <= k <= layers@.len(),
            layer_hit(layers@, tier, px as int, py as int) == layer_hit(
                layers@.take(k as int),
                tier,
                px as int,
                py as int,
            ),
        decreases k,
    {
        proof {
            assert(layers@.take(k as int).drop_last() =~= layers@.take(k as int - 1));
            assert(layers@.take(k as int).last() == layers@[k as int - 1]);
        }
        k = k - 1;
        let l = &layers[k];
        if tier_eq(l.tier, tier) && l.geometry.contains(px, py) {
            return Some(k);
        }
    }
    None
}

/// Exec comparison of layer tiers.
fn tier_eq(a: LayerTier, b: LayerTier) -> (r: bool)
    ensures
        r == (a == b),
{
    match (a, b) {
        (LayerTier::Background, LayerTier::Background) => true,
        (LayerTier::Bottom, LayerTier::Bottom) => true,
        (LayerTier::Top, LayerTier::Top) => true,
        (LayerTier::Overlay, LayerTier::Overlay) => true,
        _ => false,
    }
}

/// Topmost stacked window under the point.
fn find_window_hit(windows: &Vec<Window>, px: i32, py: i32) -> (r: Option<usize>)
    requires
        forall|i: int| 0 <= i < windows@.len() ==> (#[trigger] windows@[i]).geometry.bounded(),
        -GEOM_LIMIT <= px <= GEOM_LIMIT,
        -GEOM_LIMIT <= py <= GEOM_LIMIT,
    ensures
        match r {
            Some(k) => k < windows@.len() && window_hit(windows@, px as int, py as int) == Some(
                k as int,
            ),
            None => window_hit(windows@, px as int, py as int) is None,
        },
{
    let mut k: usize = windows.len();
    proof {
        assert(windows@.take(windows@.len() as int) =~= windows@);
    }
    while k > 0
        invariant
            forall|i: int| 0 <= i < windows@.len() ==> (#[trigger] windows@[i]).geometry.bounded(),
            -GEOM_LIMIT <= px <= GEOM_LIMIT,
            -GEOM_LIMIT <= py <= GEOM_LIMIT,
            0 <= k <= windows@.len(),
            window_hit(windows@, px as int, py as int) == window_hit(
                windows@.take(k as int),
                px as int,
                py as int,
            ),
        decreases k,
    {
        proof {
            assert(windows@.take(k as int).drop_last() =~= windows@.take(k as int - 1));
            assert(windows@.take(k as int).last() == windows@[k as int - 1]);
        }
        k = k - 1;
        if windows[k].geometry.contains(px, py) {
            return Some(k);
        }
    }
    None
}

impl Fht {
    /// The focus target under the point on the focused output, resolved
    /// in strict tier priority.
    pub fn focus_target_under(&self, px: i32, py: i32) -> (r: Option<(FocusTarget, (i32, i32))>)
        requires
            self.wf(),
            -GEOM_LIMIT <= px <= GEOM_LIMIT,
            -GEOM_LIMIT <= py <= GEOM_LIMIT,
        ensures
            match self.focused_output {
                Some(oid) => r == focus_target_spec(
                    self.entries@[self.position_of(oid)],
                    px as int,
                    py as int,
                ),
                None => r is None,
            },
    {
        let oid = match self.focused_output {
            Some(o) => o,
            None => {
                return None;
            },
        };
        let pos = match self.output_position(oid) {
            Some(p) => p,
            None => {
                proof {
                    assert(false);
                }
                0
            },
        };
        let entry = &self.entries[pos];
        let aws = &entry.wset.workspaces[entry.wset.active_index];
        match find_layer_hit(&entry.layers, LayerTier::Overlay, px, py) {
            Some(k) => {
                let l = &entry.layers[k];
                return Some(
                    (FocusTarget::LayerSurfaceTarget { id: l.id }, (l.geometry.x, l.geometry.y)),
                );
            },
            None => (),
        }
        match &aws.fullscreen {
            Some(fs) => {
                return Some(
                    (
                        FocusTarget::WindowTarget { id: fs.window.id },
                        (fs.window.geometry.x, fs.window.geometry.y),
                    ),
                );
            },
            None => (),
        }
        match find_layer_hit(&entry.layers, LayerTier::Top, px, py) {
            Some(k) => {
                let l = &entry.layers[k];
                return Some(
                    (FocusTarget::LayerSurfaceTarget { id: l.id }, (l.geometry.x, l.geometry.y)),
                );
            },
            None => (),
        }
        match find_window_hit(&aws.windows, px, py) {
            Some(k) => {
                let w = &aws.windows[k];
                return Some(
                    (FocusTarget::WindowTarget { id: w.id }, (w.geometry.x, w.geometry.y)),
                );
            },
            None => (),
        }
        match find_layer_hit(&entry.layers, LayerTier::Bottom, px, py) {
            Some(k) => {
                let l = &entry.layers[k];
                return Some(
                    (FocusTarget::LayerSurfaceTarget { id: l.id }, (l.geometry.x, l.geometry.y)),
                );
            },
            None => (),
        }
        match find_layer_hit(&entry.layers, LayerTier::Background, px, py) {
            Some(k) => {
                let l = &entry.layers[k];
                return Some(
                    (FocusTarget::LayerSurfaceTarget { id: l.id }, (l.geometry.x, l.geometry.y)),
                );
            },
            None => (),
        }
        None
    }

    /// Law: a point covered by both an overlay-layer surface and a
    /// fullscreen window resolves to the overlay-layer surface.
    pub proof fn lemma_overlay_beats_fullscreen(e: OutputEntry, px: int, py: int)
        requires
            layer_hit(e.layers@, LayerTier::Overlay, px, py) is Some,
        ensures
            ({
                let k = layer_hit(e.layers@, LayerTier::Overlay, px, py).unwrap();
                focus_target_spec(e, px, py) == Some(
                    (
                        FocusTarget::LayerSurfaceTarget { id: e.layers@[k].id },
                        (e.layers@[k].geometry.x, e.layers@[k].geometry.y),
                    ),
                )
            }),
    {
    }
}

} // verus!
