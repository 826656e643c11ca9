use vstd::arithmetic::div_mod::{lemma_div_is_ordered, lemma_div_multiples_vanish};
use vstd::arithmetic::mul::lemma_mul_inequality;
use vstd::prelude::*;

use crate::geometry::{Rect, COORD_LIMIT};

verus! {

// The tiling layout: the usable area, shrunk by the outer gap on every
// side, is split into `count` vertical strips of near-equal width; every
// strip but the first is then shrunk by the inner gap on its left edge to
// leave a gap between neighbours.  The function is total: when the gaps do
// not fit, extents clamp to zero instead of going negative.
pub open spec fn max0(v: int) -> int {
    if v < 0 {
        0
    } else {
        v
    }
}

/// Left edge of the gap-reduced area.
pub open spec fn area_x(usable: Rect, outer_gap: int) -> int {
    usable.x + outer_gap
}

/// Top edge of the gap-reduced area.
pub open spec fn area_y(usable: Rect, outer_gap: int) -> int {
    usable.y + outer_gap
}

/// Width of the gap-reduced area.
pub open spec fn area_w(usable: Rect, outer_gap: int) -> int {
    max0(usable.w - 2 * outer_gap)
}

/// Height of the gap-reduced area.
pub open spec fn area_h(usable: Rect, outer_gap: int) -> int {
    max0(usable.h - 2 * outer_gap)
}

/// Offset of the boundary between strip `i - 1` and strip `i`, relative to
/// the gap-reduced area's left edge, when `n` strips share width `aw`.
pub open spec fn strip_lo(aw: int, n: int, i: int) -> int {
    i * aw / n
}

/// Inner-gap padding applied to the left edge of slot `i`: the first slot
/// gets none, every later one is separated from its neighbour by the inner
/// gap, clamped to its strip's width when the strip is too narrow.
pub open spec fn slot_pad(usable: Rect, inner_gap: int, outer_gap: int, n: int, i: int) -> int {
    let aw = area_w(usable, outer_gap);
    let width = strip_lo(aw, n, i + 1) - strip_lo(aw, n, i);
    if i > 0 {
        if inner_gap <= width {
            inner_gap
        } else {
            width
        }
    } else {
        0
    }
}

pub open spec fn slot_x(usable: Rect, inner_gap: int, outer_gap: int, n: int, i: int) -> int {
    area_x(usable, outer_gap) + strip_lo(area_w(usable, outer_gap), n, i) + slot_pad(
        usable,
        inner_gap,
        outer_gap,
        n,
        i,
    )
}

pub open spec fn slot_w(usable: Rect, inner_gap: int, outer_gap: int, n: int, i: int) -> int {
    let aw = area_w(usable, outer_gap);
    strip_lo(aw, n, i + 1) - strip_lo(aw, n, i) - slot_pad(usable, inner_gap, outer_gap, n, i)
}

/// `r` is exactly the geometry that slot `i` of `n` receives.
pub open spec fn slot_matches(
    r: Rect,
    usable: Rect,
    inner_gap: int,
    outer_gap: int,
    n: int,
    i: int,
) -> bool {
    &&& r.x == slot_x(usable, inner_gap, outer_gap, n, i)
    &&& r.y == area_y(usable, outer_gap)
    &&& r.w == slot_w(usable, inner_gap, outer_gap, n, i)
    &&& r.h == area_h(usable, outer_gap)
}

/// `out` is exactly the geometry sequence the layout assigns to `count`
/// windows over `usable`.
pub open spec fn layout_matches(
    out: Seq<Rect>,
    count: int,
    usable: Rect,
    inner_gap: int,
    outer_gap: int,
) -> bool {
    &&& out.len() == count
    &&& forall|i: int|
        0 <= i < count ==> slot_matches(#[trigger] out[i], usable, inner_gap, outer_gap, count, i)
}

/// Bounds under which the layout arithmetic stays well away from machine
/// integer limits.
pub open spec fn layout_inputs_wf(count: int, usable: Rect, inner_gap: int, outer_gap: int) -> bool {
    &&& usable.wf()
    &&& 0 <= inner_gap <= COORD_LIMIT
    &&& 0 <= outer_gap <= COORD_LIMIT
    &&& 0 <= count <= COORD_LIMIT
}

/// Strip boundaries never run backwards.
proof fn lemma_strip_lo_monotone(aw: int, n: int, i: int, j: int)
    requires
        0 <= aw,
        0 < n,
        i <= j,
    ensures
        strip_lo(aw, n, i) <= strip_lo(aw, n, j),
{
    lemma_mul_inequality(i, j, aw);
    lemma_div_is_ordered(i * aw, j * aw, n);
}

/// The last strip boundary is the area's right edge.
proof fn lemma_strip_lo_full(aw: int, n: int)
    requires
        0 <= aw,
        0 < n,
    ensures
        strip_lo(aw, n, 0) == 0,
        strip_lo(aw, n, n) == aw,
{
    lemma_div_multiples_vanish(aw, n);
}

/// Compute the geometry of each of `count` windows tiled over `usable`.
///
/// Zero windows get no geometry; one window fills the whole area minus the
/// outer gaps; `count` windows split the area into `count` vertical strips,
/// separated by the inner gap.
pub fn layout(count: usize, usable: Rect, inner_gap: i32, outer_gap: i32) -> (out: Vec<Rect>)
    requires
        layout_inputs_wf(count as int, usable, inner_gap as int, outer_gap as int),
    ensures
        layout_matches(out@, count as int, usable, inner_gap as int, outer_gap as int),
{
    let mut out: Vec<Rect> = Vec::new();
    if count == 0 {
        return out;
    }
    let ax: i32 = usable.x + outer_gap;
    let ay: i32 = usable.y + outer_gap;
    let aw_raw: i32 = usable.w - 2 * outer_gap;
    let aw: i32 = if aw_raw < 0 {
        0
    } else {
        aw_raw
    };
    let ah_raw: i32 = usable.h - 2 * outer_gap;
    let ah: i32 = if ah_raw < 0 {
        0
    } else {
        ah_raw
    };
    let ghost n = count as int;
    let mut i: usize = 0;
    let mut lo: i32 = 0;
    while i < count
        invariant
            layout_inputs_wf(n, usable, inner_gap as int, outer_gap as int),
            0 < n == count,
            0 <= i <= count,
            ax == area_x(usable, outer_gap as int),
            ay == area_y(usable, outer_gap as int),
            aw == area_w(usable, outer_gap as int),
            ah == area_h(usable, outer_gap as int),
            lo == strip_lo(aw as int, n, i as int),
            0 <= lo <= aw,
            out@.len() == i,
            forall|j: int|
                0 <= j < i ==> slot_matches(
                    #[trigger] out@[j],
                    usable,
                    inner_gap as int,
                    outer_gap as int,
                    n,
                    j,
                ),
        decreases count - i,
    {
        proof {
            vstd::arithmetic::mul::lemma_mul_upper_bound(
                i as int + 1,
                COORD_LIMIT as int,
                aw as int,
                2 * COORD_LIMIT as int,
            );
            vstd::arithmetic::mul::lemma_mul_nonnegative(i as int + 1, aw as int);
        }
        let hi_wide: i64 = (i as i64 + 1) * (aw as i64) / (count as i64);
        proof {
            assert(hi_wide == strip_lo(aw as int, n, i as int + 1));
            lemma_strip_lo_monotone(aw as int, n, 0, i as int + 1);
            lemma_strip_lo_monotone(aw as int, n, i as int + 1, n);
            lemma_strip_lo_full(aw as int, n);
            lemma_strip_lo_monotone(aw as int, n, i as int, i as int + 1);
        }
        let hi: i32 = hi_wide as i32;
        let pad: i32 = if i > 0 {
            if inner_gap <= hi - lo {
                inner_gap
            } else {
                hi - lo
            }
        } else {
            0
        };
        let w: i32 = hi - lo - pad;
        out.push(Rect { x: ax + lo + pad, y: ay, w, h: ah });
        lo = hi;
        i = i + 1;
    }
    out
}

/// Every slot lies inside the usable area shrunk by the outer gaps.
pub proof fn lemma_layout_slots_in_area(
    out: Seq<Rect>,
    count: int,
    usable: Rect,
    inner_gap: int,
    outer_gap: int,
    i: int,
)
    requires
        layout_inputs_wf(count, usable, inner_gap, outer_gap),
        layout_matches(out, count, usable, inner_gap, outer_gap),
        0 <= i < count,
    ensures
        area_x(usable, outer_gap) <= out[i].x,
        out[i].right() <= area_x(usable, outer_gap) + area_w(usable, outer_gap),
        out[i].y == area_y(usable, outer_gap),
        out[i].bottom() == area_y(usable, outer_gap) + area_h(usable, outer_gap),
        0 <= out[i].w <= area_w(usable, outer_gap),
        0 <= out[i].h <= area_h(usable, outer_gap),
{
    let aw = area_w(usable, outer_gap);
    lemma_strip_lo_monotone(aw, count, 0, i);
    lemma_strip_lo_monotone(aw, count, i, i + 1);
    lemma_strip_lo_monotone(aw, count, i + 1, count);
    lemma_strip_lo_full(aw, count);
}

/// Law: the geometries of two distinct windows in one layout never share a
/// point.
pub proof fn lemma_layout_disjoint(
    out: Seq<Rect>,
    count: int,
    usable: Rect,
    inner_gap: int,
    outer_gap: int,
    i: int,
    j: int,
)
    requires
        layout_inputs_wf(count, usable, inner_gap, outer_gap),
        layout_matches(out, count, usable, inner_gap, outer_gap),
        0 <= i < count,
        0 <= j < count,
        i != j,
    ensures
        forall|px: int, py: int|
            !(out[i].contains_spec(px, py) && #[trigger] out[j].contains_spec(px, py)),
{
    let aw = area_w(usable, outer_gap);
    assert forall|px: int, py: int|
        !(out[i].contains_spec(px, py) && #[trigger] out[j].contains_spec(px, py)) by {
        if out[i].contains_spec(px, py) && out[j].contains_spec(px, py) {
            let (a, b) = if i < j {
                (i, j)
            } else {
                (j, i)
            };
            // The right edge of the earlier slot stays at or left of the
            // boundary that starts the later slot's strip.
            lemma_strip_lo_monotone(aw, count, a + 1, b);
            assert(out[a].right() <= area_x(usable, outer_gap) + strip_lo(aw, count, b));
            assert(false);
        }
    }
}

/// Every point of the strip span `[0, aw)` falls in some strip.
proof fn lemma_find_strip(aw: int, n: int, k: int, v: int)
    requires
        0 <= aw,
        0 < n,
        0 < k <= n,
        0 <= v,
        v < strip_lo(aw, n, k),
    ensures
        exists|i: int|
            0 <= i < k && strip_lo(aw, n, i) <= v < strip_lo(aw, n, #[trigger] (i + 1)),
    decreases k,
{
    if strip_lo(aw, n, k - 1) <= v {
        assert(strip_lo(aw, n, (k - 1) + 1) == strip_lo(aw, n, k));
        assert(0 <= k - 1 < k && strip_lo(aw, n, k - 1) <= v < strip_lo(aw, n, (k - 1) + 1));
    } else {
        lemma_find_strip(aw, n, k - 1, v);
        let i = choose|i: int|
            0 <= i < k - 1 && strip_lo(aw, n, i) <= v < strip_lo(aw, n, #[trigger] (i + 1));
        assert(0 <= i < k && strip_lo(aw, n, i) <= v < strip_lo(aw, n, i + 1));
    }
}

/// The strip that window `i` was carved from: the window's own rectangle
/// expanded back by its inner-gap padding on the left and widened to the
/// full strip.
pub open spec fn strip_contains(
    usable: Rect,
    outer_gap: int,
    n: int,
    i: int,
    px: int,
    py: int,
) -> bool {
    let ax = area_x(usable, outer_gap);
    let aw = area_w(usable, outer_gap);
    &&& ax + strip_lo(aw, n, i) <= px < ax + strip_lo(aw, n, i + 1)
    &&& area_y(usable, outer_gap) <= py < area_y(usable, outer_gap) + area_h(usable, outer_gap)
}

/// Law: the strips, which are the window geometries expanded back by the
/// inner gaps, exactly cover the usable area minus the outer gaps: every
/// point of that area lies in exactly one strip, and each window rectangle
/// lies within its own strip.
pub proof fn lemma_layout_cover(
    out: Seq<Rect>,
    count: int,
    usable: Rect,
    inner_gap: int,
    outer_gap: int,
    px: int,
    py: int,
)
    requires
        layout_inputs_wf(count, usable, inner_gap, outer_gap),
        layout_matches(out, count, usable, inner_gap, outer_gap),
        0 < count,
        area_x(usable, outer_gap) <= px < area_x(usable, outer_gap) + area_w(usable, outer_gap),
        area_y(usable, outer_gap) <= py < area_y(usable, outer_gap) + area_h(usable, outer_gap),
    ensures
        exists|i: int| 0 <= i < count && #[trigger] strip_contains(usable, outer_gap, count, i, px, py),
{
    let ax = area_x(usable, outer_gap);
    let aw = area_w(usable, outer_gap);
    lemma_strip_lo_full(aw, count);
    lemma_find_strip(aw, count, count, px - ax);
    let i = choose|i: int|
        0 <= i < count && strip_lo(aw, count, i) <= px - ax < strip_lo(aw, count, #[trigger] (i + 1));
    assert(strip_contains(usable, outer_gap, count, i, px, py));
}

/// Each window rectangle lies inside its own strip.
pub proof fn lemma_slot_in_strip(
    out: Seq<Rect>,
    count: int,
    usable: Rect,
    inner_gap: int,
    outer_gap: int,
    i: int,
    px: int,
    py: int,
)
    requires
        layout_inputs_wf(count, usable, inner_gap, outer_gap),
        layout_matches(out, count, usable, inner_gap, outer_gap),
        0 <= i < count,
        out[i].contains_spec(px, py),
    ensures
        strip_contains(usable, outer_gap, count, i, px, py),
{
}

/// Law: the layout is a pure function of its inputs.  Two runs over
/// identical windows, area and gaps produce identical geometries.
pub proof fn lemma_layout_deterministic(
    first: Seq<Rect>,
    second: Seq<Rect>,
    count: int,
    usable: Rect,
    inner_gap: int,
    outer_gap: int,
)
    requires
        layout_matches(first, count, usable, inner_gap, outer_gap),
        layout_matches(second, count, usable, inner_gap, outer_gap),
    ensures
        first == second,
{
    assert forall|i: int| 0 <= i < count implies first[i] == second[i] by {
        assert(slot_matches(first[i], usable, inner_gap, outer_gap, count, i));
        assert(slot_matches(second[i], usable, inner_gap, outer_gap, count, i));
    }
    assert(first =~= second);
}

} // verus!
