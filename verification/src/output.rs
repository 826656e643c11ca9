use vstd::prelude::*;

use crate::geometry::{Rect, COORD_LIMIT};

verus! {

/// One display device as the engine models it: identity, placement, mode
/// and scale.  The refresh rate is kept in millihertz and the fractional
/// scale in thousandths, so the whole record is made of plain integers.
pub struct OutputInfo {
    pub id: u64,
    pub name: String,
    pub geometry: Rect,
    pub refresh_millihertz: u32,
    pub integer_scale: u32,
    pub fractional_scale_thousandths: u32,
}

impl OutputInfo {
    pub open spec fn wf(self) -> bool {
        self.geometry.wf()
    }
}

/// Compositing tier of a layer surface, from back to front.
#[derive(Clone, Copy, Debug, PartialEq, Eq, Structural)]
pub enum LayerTier {
    Background,
    Bottom,
    Top,
    Overlay,
}

/// Edge of the output a layer surface reserves space on, if any.
#[derive(Clone, Copy, Debug, PartialEq, Eq, Structural)]
pub enum ReservedEdge {
    Top,
    Bottom,
    Left,
    Right,
    NoEdge,
}

/// A mapped layer surface on one output: a surface bound to a fixed
/// compositing tier, with an optional exclusive zone it reserves along one
/// edge of the output.
pub struct LayerSurface {
    pub id: u64,
    pub geometry: Rect,
    pub tier: LayerTier,
    pub edge: ReservedEdge,
    pub exclusive: i32,
}

impl LayerSurface {
    pub open spec fn wf(self) -> bool {
        &&& self.geometry.bounded()
        &&& 0 <= self.exclusive <= COORD_LIMIT
    }
}

/// Space reserved on one edge by the layer surfaces of an output.
pub open spec fn reserved(layers: Seq<LayerSurface>, edge: ReservedEdge) -> int
    decreases layers.len(),
{
    if layers.len() == 0 {
        0
    } else {
        reserved(layers.drop_last(), edge) + if layers.last().edge == edge {
            layers.last().exclusive as int
        } else {
            0int
        }
    }
}

pub proof fn lemma_reserved_nonneg(layers: Seq<LayerSurface>, edge: ReservedEdge)
    requires
        forall|i: int| 0 <= i < layers.len() ==> (#[trigger] layers[i]).wf(),
    ensures
        0 <= reserved(layers, edge),
    decreases layers.len(),
{
    if layers.len() > 0 {
        assert(forall|i: int|
            0 <= i < layers.drop_last().len() ==> (#[trigger] layers.drop_last()[i]).wf());
        lemma_reserved_nonneg(layers.drop_last(), edge);
        assert(layers.last().wf());
    }
}

/// The usable area of an output: its geometry minus the exclusive zones of
/// its layer surfaces.  Zones larger than the output clamp to a degenerate
/// area at the far edge rather than crossing or leaving the output.
pub open spec fn usable_area_spec(geometry: Rect, layers: Seq<LayerSurface>) -> Rect {
    let left = reserved(layers, ReservedEdge::Left);
    let top = reserved(layers, ReservedEdge::Top);
    let right = reserved(layers, ReservedEdge::Right);
    let bottom = reserved(layers, ReservedEdge::Bottom);
    let leftc = if left <= geometry.w {
        left
    } else {
        geometry.w as int
    };
    let topc = if top <= geometry.h {
        top
    } else {
        geometry.h as int
    };
    let w = if geometry.w - leftc - right < 0 {
        0int
    } else {
        geometry.w - leftc - right
    };
    let h = if geometry.h - topc - bottom < 0 {
        0int
    } else {
        geometry.h - topc - bottom
    };
    Rect { x: (geometry.x + leftc) as i32, y: (geometry.y + topc) as i32, w: w as i32, h: h as i32 }
}

/// Exec computation of the usable area; equal to `usable_area_spec`.
pub fn usable_area(geometry: &Rect, layers: &Vec<LayerSurface>) -> (r: Rect)
    requires
        geometry.wf(),
        forall|i: int| 0 <= i < layers@.len() ==> (#[trigger] layers@[i]).wf(),
        reserved(layers@, ReservedEdge::Left) + reserved(layers@, ReservedEdge::Right)
            <= 2 * COORD_LIMIT,
        reserved(layers@, ReservedEdge::Top) + reserved(layers@, ReservedEdge::Bottom)
            <= 2 * COORD_LIMIT,
    ensures
        r == usable_area_spec(*geometry, layers@),
        r.wf(),
{
    let mut left: i32 = 0;
    let mut top: i32 = 0;
    let mut right: i32 = 0;
    let mut bottom: i32 = 0;
    let mut i: usize = 0;
    proof {
        lemma_reserved_nonneg(layers@, ReservedEdge::Left);
        lemma_reserved_nonneg(layers@, ReservedEdge::Top);
        lemma_reserved_nonneg(layers@, ReservedEdge::Right);
        lemma_reserved_nonneg(layers@, ReservedEdge::Bottom);
    }
    while i < layers.len()
        invariant
            forall|j: int| 0 <= j < layers@.len() ==> (#[trigger] layers@[j]).wf(),
            0 <= i <= layers@.len(),
            left == reserved(layers@.take(i as int), ReservedEdge::Left),
            top == reserved(layers@.take(i as int), ReservedEdge::Top),
            right == reserved(layers@.take(i as int), ReservedEdge::Right),
            bottom == reserved(layers@.take(i as int), ReservedEdge::Bottom),
            geometry.wf(),
            reserved(layers@, ReservedEdge::Left) + reserved(layers@, ReservedEdge::Right)
                <= 2 * COORD_LIMIT,
            reserved(layers@, ReservedEdge::Top) + reserved(layers@, ReservedEdge::Bottom)
                <= 2 * COORD_LIMIT,
            0 <= reserved(layers@, ReservedEdge::Left),
            0 <= reserved(layers@, ReservedEdge::Top),
            0 <= reserved(layers@, ReservedEdge::Right),
            0 <= reserved(layers@, ReservedEdge::Bottom),
            0 <= left && 0 <= top && 0 <= right && 0 <= bottom,
        decreases layers@.len() - i,
    {
        proof {
            lemma_reserved_step(layers@, i as int, ReservedEdge::Left);
            lemma_reserved_step(layers@, i as int, ReservedEdge::Top);
            lemma_reserved_step(layers@, i as int, ReservedEdge::Right);
            lemma_reserved_step(layers@, i as int, ReservedEdge::Bottom);
            lemma_reserved_prefix_bound(layers@, i as int + 1, ReservedEdge::Left);
            lemma_reserved_prefix_bound(layers@, i as int + 1, ReservedEdge::Top);
            lemma_reserved_prefix_bound(layers@, i as int + 1, ReservedEdge::Right);
            lemma_reserved_prefix_bound(layers@, i as int + 1, ReservedEdge::Bottom);
        }
        let l = &layers[i];
        match l.edge {
            ReservedEdge::Left => {
                left = left + l.exclusive;
            },
            ReservedEdge::Top => {
                top = top + l.exclusive;
            },
            ReservedEdge::Right => {
                right = right + l.exclusive;
            },
            ReservedEdge::Bottom => {
                bottom = bottom + l.exclusive;
            },
            ReservedEdge::NoEdge => (),
        }
        i = i + 1;
    }
    proof {
        assert(layers@.take(layers@.len() as int) =~= layers@);
    }
    let leftc = if left <= geometry.w {
        left
    } else {
        geometry.w
    };
    let topc = if top <= geometry.h {
        top
    } else {
        geometry.h
    };
    let w_raw = geometry.w - leftc - right;
    let h_raw = geometry.h - topc - bottom;
    Rect {
        x: geometry.x + leftc,
        y: geometry.y + topc,
        w: if w_raw < 0 {
            0
        } else {
            w_raw
        },
        h: if h_raw < 0 {
            0
        } else {
            h_raw
        },
    }
}

proof fn lemma_reserved_step(s: Seq<LayerSurface>, k: int, edge: ReservedEdge)
    requires
        0 <= k < s.len(),
    ensures
        reserved(s.take(k + 1), edge) == reserved(s.take(k), edge) + if s[k].edge == edge {
            s[k].exclusive as int
        } else {
            0int
        },
{
    assert(s.take(k + 1).drop_last() =~= s.take(k));
    assert(s.take(k + 1).last() == s[k]);
}

proof fn lemma_reserved_prefix_bound(s: Seq<LayerSurface>, k: int, edge: ReservedEdge)
    requires
        forall|i: int| 0 <= i < s.len() ==> (#[trigger] s[i]).wf(),
        0 <= k <= s.len(),
    ensures
        reserved(s.take(k), edge) <= reserved(s, edge),
    decreases s.len() - k,
{
    if k == s.len() {
        assert(s.take(k) =~= s);
    } else {
        lemma_reserved_step(s, k, edge);
        lemma_reserved_prefix_bound(s, k + 1, edge);
        assert(s[k].wf());
    }
}

} // verus!

verus! {

/// Appending a layer surface adds its exclusive zone to its edge's total.
pub proof fn lemma_reserved_push(s: Seq<LayerSurface>, l: LayerSurface, edge: ReservedEdge)
    ensures
        reserved(s.push(l), edge) == reserved(s, edge) + if l.edge == edge {
            l.exclusive as int
        } else {
            0int
        },
{
    assert(s.push(l).drop_last() =~= s);
    assert(s.push(l).last() == l);
}

/// Total space reserved on each edge (left, top, right, bottom) by the
/// given layer surfaces.
pub fn reserved_totals(layers: &Vec<LayerSurface>) -> (r: (i32, i32, i32, i32))
    requires
        forall|i: int| 0 <= i < layers@.len() ==> (#[trigger] layers@[i]).wf(),
        reserved(layers@, ReservedEdge::Left) <= 2 * COORD_LIMIT,
        reserved(layers@, ReservedEdge::Top) <= 2 * COORD_LIMIT,
        reserved(layers@, ReservedEdge::Right) <= 2 * COORD_LIMIT,
        reserved(layers@, ReservedEdge::Bottom) <= 2 * COORD_LIMIT,
    ensures
        r.0 == reserved(layers@, ReservedEdge::Left),
        r.1 == reserved(layers@, ReservedEdge::Top),
        r.2 == reserved(layers@, ReservedEdge::Right),
        r.3 == reserved(layers@, ReservedEdge::Bottom),
{
    let mut left: i32 = 0;
    let mut top: i32 = 0;
    let mut right: i32 = 0;
    let mut bottom: i32 = 0;
    let mut i: usize = 0;
    proof {
        lemma_reserved_nonneg(layers@, ReservedEdge::Left);
        lemma_reserved_nonneg(layers@, ReservedEdge::Top);
        lemma_reserved_nonneg(layers@, ReservedEdge::Right);
        lemma_reserved_nonneg(layers@, ReservedEdge::Bottom);
    }
    while i < layers.len()
        invariant
            forall|j: int| 0 <= j < layers@.len() ==> (#[trigger] layers@[j]).wf(),
            reserved(layers@, ReservedEdge::Left) <= 2 * COORD_LIMIT,
            reserved(layers@, ReservedEdge::Top) <= 2 * COORD_LIMIT,
            reserved(layers@, ReservedEdge::Right) <= 2 * COORD_LIMIT,
            reserved(layers@, ReservedEdge::Bottom) <= 2 * COORD_LIMIT,
            0 <= i <= layers@.len(),
            left == reserved(layers@.take(i as int), ReservedEdge::Left),
            top == reserved(layers@.take(i as int), ReservedEdge::Top),
            right == reserved(layers@.take(i as int), ReservedEdge::Right),
            bottom == reserved(layers@.take(i as int), ReservedEdge::Bottom),
            0 <= left && 0 <= top && 0 <= right && 0 <= bottom,
        decreases layers@.len() - i,
    {
        proof {
            lemma_reserved_step(layers@, i as int, ReservedEdge::Left);
            lemma_reserved_step(layers@, i as int, ReservedEdge::Top);
            lemma_reserved_step(layers@, i as int, ReservedEdge::Right);
            lemma_reserved_step(layers@, i as int, ReservedEdge::Bottom);
            lemma_reserved_prefix_bound(layers@, i as int + 1, ReservedEdge::Left);
            lemma_reserved_prefix_bound(layers@, i as int + 1, ReservedEdge::Top);
            lemma_reserved_prefix_bound(layers@, i as int + 1, ReservedEdge::Right);
            lemma_reserved_prefix_bound(layers@, i as int + 1, ReservedEdge::Bottom);
        }
        let l = &layers[i];
        match l.edge {
            ReservedEdge::Left => {
                left = left + l.exclusive;
            },
            ReservedEdge::Top => {
                top = top + l.exclusive;
            },
            ReservedEdge::Right => {
                right = right + l.exclusive;
            },
            ReservedEdge::Bottom => {
                bottom = bottom + l.exclusive;
            },
            ReservedEdge::NoEdge => (),
        }
        i = i + 1;
    }
    proof {
        assert(layers@.take(layers@.len() as int) =~= layers@);
    }
    (left, top, right, bottom)
}

} // verus!
