use vstd::prelude::*;

use crate::geometry::{Rect, COORD_LIMIT};

verus! {

/// A transient surface positioned relative to a toplevel ancestor, subject
/// to screen-edge constraint.
pub struct Popup {
    pub surface_id: u64,
    /// Surface the popup is parented to (another popup or a toplevel).
    pub parent_id: u64,
    /// Whether the initial configure has been sent; a popup must receive
    /// one before any content is shown.
    pub configured: bool,
    /// The geometry the client requested, relative to its toplevel.
    pub geometry: Rect,
}

impl Popup {
    pub open spec fn wf(self) -> bool {
        &&& -COORD_LIMIT <= self.geometry.x <= COORD_LIMIT
        &&& -COORD_LIMIT <= self.geometry.y <= COORD_LIMIT
        &&& 0 <= self.geometry.w <= COORD_LIMIT
        &&& 0 <= self.geometry.h <= COORD_LIMIT
    }
}

/// `s` holds a popup with this surface id.
pub open spec fn popup_has(s: Seq<Popup>, id: u64) -> bool {
    exists|k: int| 0 <= k < s.len() && s[k].surface_id == id
}

/// Position of the popup with this surface id.
pub open spec fn popup_idx_of(s: Seq<Popup>, id: u64) -> int {
    choose|k: int| 0 <= k < s.len() && s[k].surface_id == id
}

/// Position of the first popup with this surface id.
pub open spec fn first_popup_index(s: Seq<Popup>, id: u64) -> Option<int>
    decreases s.len(),
{
    if s.len() == 0 {
        None
    } else if s[0].surface_id == id {
        Some(0)
    } else {
        match first_popup_index(s.skip(1), id) {
            Some(i) => Some(i + 1),
            None => None,
        }
    }
}

/// Clamp one axis of a requested extent into a target span: the extent is
/// truncated to the span's length if it does not fit, then slid so that it
/// lies inside the span.
pub open spec fn clamp_axis_spec(lo: int, len: int, target_lo: int, target_len: int) -> (int, int) {
    let len2 = if len <= target_len {
        len
    } else {
        target_len
    };
    let max_lo = target_lo + target_len - len2;
    let lo2 = if lo < target_lo {
        target_lo
    } else if lo > max_lo {
        max_lo
    } else {
        lo
    };
    (lo2, len2)
}

/// The requested popup geometry constrained into the target rectangle:
/// both axes clamped independently by `clamp_axis_spec`.
pub open spec fn constrain_spec(requested: Rect, target: Rect) -> Rect {
    let (x, w) = clamp_axis_spec(requested.x as int, requested.w as int, target.x as int, target.w as int);
    let (y, h) = clamp_axis_spec(requested.y as int, requested.h as int, target.y as int, target.h as int);
    Rect { x: x as i32, y: y as i32, w: w as i32, h: h as i32 }
}

/// Constrain a requested popup geometry into a target rectangle.  The
/// result lies inside the target whenever the target is non-degenerate.
pub fn constrain_popup_geometry(requested: &Rect, target: &Rect) -> (r: Rect)
    requires
        -COORD_LIMIT <= requested.x <= COORD_LIMIT,
        -COORD_LIMIT <= requested.y <= COORD_LIMIT,
        0 <= requested.w <= COORD_LIMIT,
        0 <= requested.h <= COORD_LIMIT,
        -0x4000_0000 <= target.x <= 0x4000_0000,
        -0x4000_0000 <= target.y <= 0x4000_0000,
        0 <= target.w <= 2 * COORD_LIMIT,
        0 <= target.h <= 2 * COORD_LIMIT,
    ensures
        r == constrain_spec(*requested, *target),
        target.contains_rect_spec(r),
    {
    let w = if requested.w <= target.w {
        requested.w
    } else {
        target.w
    };
    let h = if requested.h <= target.h {
        requested.h
    } else {
        target.h
    };
    let max_x = target.x + target.w - w;
    let max_y = target.y + target.h - h;
    let x = if requested.x < target.x {
        target.x
    } else if requested.x > max_x {
        max_x
    } else {
        requested.x
    };
    let y = if requested.y < target.y {
        target.y
    } else if requested.y > max_y {
        max_y
    } else {
        requested.y
    };
    Rect { x, y, w, h }
}

} // verus!

use crate::state::{Fht, OutputEntry};
use crate::pending::root_of_spec;
use crate::shell::{lemma_stacked_first_unique, stacked_first_at, WindowLocation};

verus! {

/// Bounding box of the geometries of the outputs that a window is visible
/// on: every output whose geometry intersects the window's.
pub open spec fn merge_visible(entries: Seq<OutputEntry>, wgeo: Rect) -> Option<Rect>
    decreases entries.len(),
{
    if entries.len() == 0 {
        None
    } else {
        let rest = merge_visible(entries.drop_last(), wgeo);
        if entries.last().output.geometry.overlaps(wgeo) {
            match rest {
                Some(r) => Some(Rect::merge_spec(r, entries.last().output.geometry)),
                None => Some(entries.last().output.geometry),
            }
        } else {
            rest
        }
    }
}

impl Fht {
    /// Constrain a popup so that it does not overflow the outputs its
    /// toplevel ancestor is visible on: resolve the ancestor, take the
    /// union of the geometries of the outputs intersecting it, translate
    /// into ancestor-local coordinates, and clamp the popup's requested
    /// geometry into that rectangle.  The clamped rectangle is owed
    /// whenever the popup is registered, its root ancestor stands in a
    /// workspace stack and at least one output intersects it; `None`
    /// (leaving the popup unconstrained) comes exactly otherwise.
    pub fn unconstrain_popup(&self, popup_id: u64, toplevel_offset: (i32, i32)) -> (r: Option<
        Rect,
    >)
        requires
            self.wf(),
            self.parents@.len() < usize::MAX,
            -COORD_LIMIT <= toplevel_offset.0 <= COORD_LIMIT,
            -COORD_LIMIT <= toplevel_offset.1 <= COORD_LIMIT,
        ensures
            ({
                let root = root_of_spec(self.parents@, popup_id, (self.parents@.len() + 1) as nat);
                let pk = first_popup_index(self.popups@, popup_id);
                match r {
                    Some(c) => pk is Some && exists|e: int, v: int, k: int|
                        #![trigger stacked_first_at(self.entries@, root, e, v, k)]
                        stacked_first_at(self.entries@, root, e, v, k) && ({
                            let wgeo = self.entries@[e].wset.workspaces@[v].windows@[k].geometry;
                            match merge_visible(self.entries@, wgeo) {
                                Some(m) => c == constrain_spec(
                                    self.popups@[pk.unwrap()].geometry,
                                    Rect {
                                        x: (m.x - toplevel_offset.0 - wgeo.x) as i32,
                                        y: (m.y - toplevel_offset.1 - wgeo.y) as i32,
                                        w: m.w,
                                        h: m.h,
                                    },
                                ),
                                None => false,
                            }
                        }),
                    None => pk is None || forall|e: int, v: int, k: int|
                        #![trigger stacked_first_at(self.entries@, root, e, v, k)]
                        stacked_first_at(self.entries@, root, e, v, k) ==> merge_visible(
                            self.entries@,
                            self.entries@[e].wset.workspaces@[v].windows@[k].geometry,
                        ) is None,
                }
            }),
    {
        let pk = match self.find_popup_index(popup_id) {
            Some(pk) => pk,
            None => {
                return None;
            },
        };
        let root = self.root_of(popup_id);
        let loc = match self.find_window(root) {
            Some(WindowLocation::Stacked { entry, workspace, index }) => (entry, workspace, index),
            Some(WindowLocation::InFullscreenSlot { entry, workspace }) => {
                proof {
                    let es = self.entries@;
                    assert(es[entry as int].wset.workspaces@[workspace as int].holds_id(root));
                    assert(es[entry as int].wset.holds_id(root));
                    assert forall|e2: int, v2: int, k2: int|
                        stacked_first_at(es, root, e2, v2, k2) implies merge_visible(
                        es,
                        es[e2].wset.workspaces@[v2].windows@[k2].geometry,
                    ) is None by {
                        assert(es[e2].wset.workspaces@[v2].holds_id(root));
                        assert(es[e2].wset.holds_id(root));
                        if e2 < entry as int {
                            assert(false);
                        } else if e2 > entry as int {
                            assert(false);
                        } else if v2 < workspace as int {
                            assert(false);
                        } else if v2 > workspace as int {
                            assert(false);
                        } else {
                            assert(false);
                        }
                    }
                }
                return None;
            },
            None => {
                proof {
                    let es = self.entries@;
                    assert forall|e2: int, v2: int, k2: int|
                        stacked_first_at(es, root, e2, v2, k2) implies merge_visible(
                        es,
                        es[e2].wset.workspaces@[v2].windows@[k2].geometry,
                    ) is None by {
                        assert(es[e2].wset.workspaces@[v2].holds_id(root));
                        assert(es[e2].wset.holds_id(root));
                        assert(false);
                    }
                }
                return None;
            },
        };
        let (e, v, k) = loc;
        let wgeo = self.entries[e].wset.workspaces[v].windows[k].geometry;
        let mut merged: Option<Rect> = None;
        let mut i: usize = 0;
        proof {
            assert(self.entries@.take(0) =~= Seq::<OutputEntry>::empty());
        }
        while i < self.entries.len()
            invariant
                self.wf(),
                wgeo.bounded(),
                0 <= i <= self.entries@.len(),
                merged == merge_visible(self.entries@.take(i as int), wgeo),
                match merged {
                    Some(m) => m.wf(),
                    None => true,
                },
            decreases self.entries@.len() - i,
        {
            proof {
                assert(self.entries@.take(i as int + 1).drop_last() =~= self.entries@.take(i as int));
                assert(self.entries@.take(i as int + 1).last() == self.entries@[i as int]);
            }
            let ogeo = self.entries[i].output.geometry;
            if ogeo.intersects(&wgeo) {
                merged = match merged {
                    Some(m) => Some(m.merge(&ogeo)),
                    None => Some(ogeo),
                };
            }
            i = i + 1;
        }
        proof {
            assert(self.entries@.take(self.entries@.len() as int) =~= self.entries@);
        }
        let m = match merged {
            Some(m) => m,
            None => {
                proof {
                    let es = self.entries@;
                    assert forall|e2: int, v2: int, k2: int|
                        stacked_first_at(es, root, e2, v2, k2) implies merge_visible(
                        es,
                        es[e2].wset.workspaces@[v2].windows@[k2].geometry,
                    ) is None by {
                        lemma_stacked_first_unique(
                            es,
                            root,
                            e as int,
                            v as int,
                            k as int,
                            e2,
                            v2,
                            k2,
                        );
                    }
                }
                return None;
            },
        };
        let target = Rect {
            x: m.x - toplevel_offset.0 - wgeo.x,
            y: m.y - toplevel_offset.1 - wgeo.y,
            w: m.w,
            h: m.h,
        };
        let requested = self.popups[pk].geometry;
        let c = constrain_popup_geometry(&requested, &target);
        Some(c)
    }

    /// Position of the first popup with this surface id.
    pub fn find_popup_index(&self, popup_id: u64) -> (r: Option<usize>)
        requires
            self.wf(),
        ensures
            match r {
                Some(pk) => pk < self.popups@.len() && self.popups@[pk as int].surface_id
                    == popup_id && first_popup_index(self.popups@, popup_id) == Some(pk as int),
                None => !popup_has(self.popups@, popup_id) && first_popup_index(
                    self.popups@,
                    popup_id,
                ) is None,
            },
    {
        let mut k: usize = 0;
        proof {
            assert(self.popups@.skip(0) =~= self.popups@);
        }
        while k < self.popups.len()
            invariant
                0 <= k <= self.popups@.len(),
                forall|j: int| 0 <= j < k ==> (#[trigger] self.popups@[j]).surface_id != popup_id,
                first_popup_index(self.popups@, popup_id) == match first_popup_index(
                    self.popups@.skip(k as int),
                    popup_id,
                ) {
                    Some(i) => Some(i + k),
                    None => None::<int>,
                },
            decreases self.popups@.len() - k,
        {
            proof {
                assert(self.popups@.skip(k as int)[0] == self.popups@[k as int]);
                assert(self.popups@.skip(k as int).skip(1) =~= self.popups@.skip(k as int + 1));
            }
            if self.popups[k].surface_id == popup_id {
                return Some(k);
            }
            k = k + 1;
        }
        proof {
            assert(self.popups@.skip(self.popups@.len() as int).len() == 0);
        }
        None
    }
}

} // verus!
