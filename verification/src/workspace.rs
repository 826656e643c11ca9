use vstd::prelude::*;

use crate::geometry::{Rect, COORD_LIMIT};
use crate::layout;
use crate::layout::{area_h, area_w, area_x, area_y, layout_inputs_wf, slot_matches};

verus! {

/// One client toplevel as the engine sees it: identity, placement and the
/// flags that drive the tiling engine.  The id doubles as the surface
/// identity of the protocol side.
pub struct Window {
    pub id: u64,
    pub app_id: String,
    pub title: String,
    pub geometry: Rect,
    pub tiled: bool,
    pub maximized: bool,
    pub fullscreen: bool,
    pub server_side_decorations: bool,
}

impl Window {
    /// `other` is the same window with possibly different geometry.
    pub open spec fn same_except_geometry(self, other: Window) -> bool {
        other == Window { geometry: other.geometry, ..self }
    }
}

/// The fullscreen slot of a workspace: the window shown fullscreen and the
/// stacking position it should return to.
pub struct FullscreenSlot {
    pub window: Window,
    pub restore_index: usize,
}

/// `s` holds a window with this id.
pub open spec fn has_id(s: Seq<Window>, id: u64) -> bool {
    exists|k: int| 0 <= k < s.len() && s[k].id == id
}

/// Position of the window with this id.
pub open spec fn idx_of(s: Seq<Window>, id: u64) -> int {
    choose|k: int| 0 <= k < s.len() && s[k].id == id
}

/// No two windows in `s` share an id.
pub open spec fn unique_ids(s: Seq<Window>) -> bool {
    forall|k1: int, k2: int|
        #![trigger s[k1].id, s[k2].id]
        0 <= k1 < k2 < s.len() ==> s[k1].id != s[k2].id
}

/// Windows that take part in tiling: tiled and not maximized.
pub open spec fn tiled_pred(w: Window) -> bool {
    w.tiled && !w.maximized
}

/// Number of tiling participants in `s`.
pub open spec fn tiled_count(s: Seq<Window>) -> int
    decreases s.len(),
{
    if s.len() == 0 {
        0
    } else {
        tiled_count(s.drop_last()) + if tiled_pred(s.last()) {
            1int
        } else {
            0int
        }
    }
}

/// Tiling position of the window at index `k`: how many tiling
/// participants precede it.
pub open spec fn tiled_rank(s: Seq<Window>, k: int) -> int {
    tiled_count(s.take(k))
}

proof fn lemma_tiled_count_step(s: Seq<Window>, k: int)
    requires
        0 <= k < s.len(),
    ensures
        tiled_count(s.take(k + 1)) == tiled_count(s.take(k)) + if tiled_pred(s[k]) {
            1int
        } else {
            0int
        },
{
    assert(s.take(k + 1).drop_last() =~= s.take(k));
    assert(s.take(k + 1).last() == s[k]);
}

proof fn lemma_tiled_count_bounds(s: Seq<Window>)
    ensures
        0 <= tiled_count(s) <= s.len(),
    decreases s.len(),
{
    if s.len() > 0 {
        lemma_tiled_count_bounds(s.drop_last());
    }
}

proof fn lemma_tiled_count_monotone(s: Seq<Window>, j: int, k: int)
    requires
        0 <= j <= k <= s.len(),
    ensures
        tiled_count(s.take(j)) <= tiled_count(s.take(k)),
    decreases k - j,
{
    if j < k {
        lemma_tiled_count_monotone(s, j, k - 1);
        lemma_tiled_count_step(s, k - 1);
    }
}

/// The rank of a tiling participant is strictly below the total count.
pub proof fn lemma_tiled_rank_in_range(s: Seq<Window>, k: int)
    requires
        0 <= k < s.len(),
    ensures
        0 <= tiled_rank(s, k),
        tiled_pred(s[k]) ==> tiled_rank(s, k) < tiled_count(s),
    decreases 0int,
{
    lemma_tiled_count_bounds(s.take(k));
    lemma_tiled_count_step(s, k);
    lemma_tiled_count_monotone(s, k + 1, s.len() as int);
    assert(s.take(s.len() as int) =~= s);
}

/// Geometry every tiled, maximized and fullscreen window receives after a
/// re-partition of the workspace over `usable` into `n` slots (`n` is the
/// number of tiling participants, plus one when an incoming window is
/// about to join); floating geometry is untouched, nothing else about any
/// window changes.
pub open spec fn retiled_windows(
    old_s: Seq<Window>,
    new_s: Seq<Window>,
    usable: Rect,
    inner_gap: int,
    outer_gap: int,
    n: int,
) -> bool {
    &&& new_s.len() == old_s.len()
    &&& forall|k: int| 0 <= k < old_s.len() ==> old_s[k].same_except_geometry(#[trigger] new_s[k])
    &&& forall|k: int|
        0 <= k < old_s.len() && tiled_pred(old_s[k]) ==> slot_matches(
            (#[trigger] new_s[k]).geometry,
            usable,
            inner_gap,
            outer_gap,
            n,
            tiled_rank(old_s, k),
        )
    &&& forall|k: int|
        0 <= k < old_s.len() && old_s[k].maximized ==> (#[trigger] new_s[k]).geometry == (Rect {
            x: area_x(usable, outer_gap) as i32,
            y: area_y(usable, outer_gap) as i32,
            w: area_w(usable, outer_gap) as i32,
            h: area_h(usable, outer_gap) as i32,
        })
    &&& forall|k: int|
        0 <= k < old_s.len() && !old_s[k].tiled && !old_s[k].maximized ==> (#[trigger] new_s[k]).geometry
            == old_s[k].geometry
}

/// A full re-partition over exactly the workspace's own tiling
/// participants.
pub open spec fn refreshed_windows(
    old_s: Seq<Window>,
    new_s: Seq<Window>,
    usable: Rect,
    inner_gap: int,
    outer_gap: int,
) -> bool {
    retiled_windows(old_s, new_s, usable, inner_gap, outer_gap, tiled_count(old_s))
}

/// Law: in a well-formed workspace no window sits both in the fullscreen
/// slot and in the tiled list.
pub proof fn lemma_fullscreen_excluded(ws: Workspace)
    requires
        ws.wf(),
    ensures
        match ws.fullscreen {
            Some(fs) => !has_id(ws.windows@, fs.window.id),
            None => true,
        },
{
}

/// No id occurs both in `a` and in `b`.
pub open spec fn windows_disjoint(a: Seq<Window>, b: Seq<Window>) -> bool {
    forall|p: int, q: int|
        #![trigger a[p].id, b[q].id]
        0 <= p < a.len() && 0 <= q < b.len() ==> a[p].id != b[q].id
}

/// The windows of each donor workspace can join the destination workspace
/// of the same index without any window appearing twice: the data model
/// keeps every window in exactly one workspace.
pub open spec fn migration_ok(dest: Seq<Workspace>, donor: Seq<Workspace>) -> bool {
    forall|i: int|
        0 <= i < donor.len() ==> {
            &&& windows_disjoint((#[trigger] dest[i]).windows@, donor[i].windows@)
            &&& match dest[i].fullscreen {
                Some(fs) => !has_id(donor[i].windows@, fs.window.id),
                None => true,
            }
        }
}

/// What one re-partition pass leaves of a workspace whose windows were
/// `old_windows` and whose fullscreen slot was `old_fullscreen`.
pub open spec fn workspace_refreshed(
    old_windows: Seq<Window>,
    old_fullscreen: Option<FullscreenSlot>,
    new_ws: Workspace,
    usable: Rect,
    inner_gap: int,
    outer_gap: int,
    output_geo: Rect,
) -> bool {
    &&& refreshed_windows(old_windows, new_ws.windows@, usable, inner_gap, outer_gap)
    &&& match old_fullscreen {
        Some(fs) => new_ws.fullscreen == Some(
            FullscreenSlot {
                window: Window { geometry: output_geo, ..fs.window },
                restore_index: fs.restore_index,
            },
        ),
        None => new_ws.fullscreen is None,
    }
}

/// Joining two well-formed, disjoint window stacks gives a well-formed one.
pub proof fn lemma_merged_wf(dest: Workspace, donor: Workspace)
    requires
        dest.wf(),
        donor.wf(),
        windows_disjoint(dest.windows@, donor.windows@),
        match dest.fullscreen {
            Some(fs) => !has_id(donor.windows@, fs.window.id),
            None => true,
        },
    ensures
        unique_ids(dest.windows@ + donor.windows@),
        forall|k: int|
            0 <= k < dest.windows@.len() + donor.windows@.len() ==> ((#[trigger] (dest.windows@
                + donor.windows@)[k])).geometry.bounded(),
        match dest.fullscreen {
            Some(fs) => !has_id(dest.windows@ + donor.windows@, fs.window.id),
            None => true,
        },
{
    let merged = dest.windows@ + donor.windows@;
    let dlen = dest.windows@.len() as int;
    assert forall|k1: int, k2: int|
        #![trigger merged[k1].id, merged[k2].id]
        0 <= k1 < k2 < merged.len() implies merged[k1].id != merged[k2].id by {
        if k1 < dlen {
            assert(merged[k1] == dest.windows@[k1]);
        } else {
            assert(merged[k1] == donor.windows@[k1 - dlen]);
        }
        if k2 < dlen {
            assert(merged[k2] == dest.windows@[k2]);
        } else {
            assert(merged[k2] == donor.windows@[k2 - dlen]);
        }
    }
    assert forall|k: int| 0 <= k < merged.len() implies (#[trigger] merged[k]).geometry.bounded() by {
        if k < dlen {
            assert(merged[k] == dest.windows@[k]);
        } else {
            assert(merged[k] == donor.windows@[k - dlen]);
        }
    }
    match dest.fullscreen {
        Some(fs) => {
            assert forall|k: int| 0 <= k < merged.len() implies (#[trigger] merged[k]).id
                != fs.window.id by {
                if k < dlen {
                    assert(merged[k] == dest.windows@[k]);
                } else {
                    assert(merged[k] == donor.windows@[k - dlen]);
                }
            }
        },
        None => (),
    }
}

/// One workspace: the tileable window stack (stacking order = list order,
/// topmost last) plus at most one fullscreen slot.
pub struct Workspace {
    pub windows: Vec<Window>,
    pub fullscreen: Option<FullscreenSlot>,
}

impl Workspace {
    /// Well-formed: ids are unique, every geometry is bounded, and no
    /// window sits both in the fullscreen slot and in the tiled list.
    pub open spec fn wf(self) -> bool {
        &&& self.windows@.len() <= COORD_LIMIT
        &&& unique_ids(self.windows@)
        &&& forall|k: int| 0 <= k < self.windows@.len() ==> (#[trigger] self.windows@[k]).geometry.bounded()
        &&& match self.fullscreen {
            Some(fs) => {
                &&& fs.window.geometry.bounded()
                &&& !has_id(self.windows@, fs.window.id)
            },
            None => true,
        }
    }

    /// Some window of this workspace (list or fullscreen slot) has this id.
    pub open spec fn holds_id(self, id: u64) -> bool {
        has_id(self.windows@, id) || match self.fullscreen {
            Some(fs) => fs.window.id == id,
            None => false,
        }
    }

    pub fn new() -> (ws: Workspace)
        ensures
            ws.windows@ =~= Seq::<Window>::empty(),
            ws.fullscreen is None,
            ws.wf(),
    {
        Workspace { windows: Vec::new(), fullscreen: None }
    }

    /// Position of the window with this id in the stack, if present.
    pub fn find_index(&self, id: u64) -> (r: Option<usize>)
        requires
            unique_ids(self.windows@),
        ensures
            match r {
                Some(k) => k < self.windows@.len() && self.windows@[k as int].id == id && idx_of(
                    self.windows@,
                    id,
                ) == k as int,
                None => !has_id(self.windows@, id),
            },
    {
        let mut k: usize = 0;
        while k < self.windows.len()
            invariant
                unique_ids(self.windows@),
                0 <= k <= self.windows@.len(),
                forall|j: int| 0 <= j < k ==> (#[trigger] self.windows@[j]).id != id,
            decreases self.windows@.len() - k,
        {
            if self.windows[k].id == id {
                proof {
                    let w = choose|j: int| 0 <= j < self.windows@.len() && self.windows@[j].id == id;
                    assert(self.windows@[w].id == id);
                    assert(w == k as int);
                }
                return Some(k);
            }
            k = k + 1;
        }
        None
    }

    /// Append a window to the top of the stack.  A window is inserted into
    /// its workspace exactly once per mapping.
    pub fn insert_window(&mut self, w: Window)
        requires
            old(self).wf(),
            old(self).windows@.len() < COORD_LIMIT,
            w.geometry.bounded(),
            !old(self).holds_id(w.id),
        ensures
            final(self).windows@ == old(self).windows@.push(w),
            final(self).fullscreen == old(self).fullscreen,
            final(self).wf(),
    {
        self.windows.push(w);
        proof {
            assert forall|k1: int, k2: int|
                #![trigger self.windows@[k1].id, self.windows@[k2].id]
                0 <= k1 < k2 < self.windows@.len() implies self.windows@[k1].id != self
                .windows@[k2].id by {
                if k2 == self.windows@.len() - 1 {
                    assert(self.windows@[k1] == old(self).windows@[k1]);
                }
            }
        }
    }

    /// Remove the window with this id from the stack or the fullscreen
    /// slot, whichever holds it, and hand it back.
    pub fn remove_window(&mut self, id: u64) -> (r: Option<Window>)
        requires
            old(self).wf(),
        ensures
            final(self).wf(),
            has_id(old(self).windows@, id) ==> {
                let k = idx_of(old(self).windows@, id);
                &&& r == Some(old(self).windows@[k])
                &&& final(self).windows@ == old(self).windows@.remove(k)
                &&& final(self).fullscreen == old(self).fullscreen
            },
            !has_id(old(self).windows@, id) ==> final(self).windows@ == old(self).windows@ && match old(
                self,
            ).fullscreen {
                Some(fs) => {
                    if fs.window.id == id {
                        r == Some(fs.window) && final(self).fullscreen is None
                    } else {
                        r is None && final(self).fullscreen == old(self).fullscreen
                    }
                },
                None => r is None && final(self).fullscreen is None,
            },
            !old(self).holds_id(id) ==> *final(self) == *old(self),
    {
        let found = self.find_index(id);
        match found {
            Some(k) => {
                let w = self.windows.remove(k);
                proof {
                    assert forall|k1: int, k2: int|
                        #![trigger self.windows@[k1].id, self.windows@[k2].id]
                        0 <= k1 < k2 < self.windows@.len() implies self.windows@[k1].id != self
                        .windows@[k2].id by {
                        let o = old(self).windows@;
                        let f = |j: int|
                            if j < k as int {
                                j
                            } else {
                                j + 1
                            };
                        assert(self.windows@[k1] == o[f(k1)]);
                        assert(self.windows@[k2] == o[f(k2)]);
                    }
                    assert forall|j: int| 0 <= j < self.windows@.len() implies (#[trigger] self
                        .windows@[j]).geometry.bounded() by {
                        let o = old(self).windows@;
                        if j < k as int {
                            assert(self.windows@[j] == o[j]);
                        } else {
                            assert(self.windows@[j] == o[j + 1]);
                        }
                    }
                    if old(self).fullscreen is Some {
                        let fs = old(self).fullscreen.unwrap();
                        assert forall|j: int| 0 <= j < self.windows@.len() implies (#[trigger] self
                            .windows@[j]).id != fs.window.id by {
                            let o = old(self).windows@;
                            if j < k as int {
                                assert(self.windows@[j] == o[j]);
                            } else {
                                assert(self.windows@[j] == o[j + 1]);
                            }
                        }
                    }
                }
                Some(w)
            },
            None => {
                let is_fs = match &self.fullscreen {
                    Some(fs) => fs.window.id == id,
                    None => false,
                };
                if is_fs {
                    let slot = self.fullscreen.take();
                    match slot {
                        Some(fs) => Some(fs.window),
                        None => None,
                    }
                } else {
                    None
                }
            },
        }
    }

    /// Move the window with this id to the top of the stack.
    pub fn raise_window(&mut self, id: u64)
        requires
            old(self).wf(),
            has_id(old(self).windows@, id),
        ensures
            final(self).wf(),
            final(self).windows@ == old(self).windows@.remove(idx_of(old(self).windows@, id)).push(
                old(self).windows@[idx_of(old(self).windows@, id)],
            ),
            final(self).fullscreen == old(self).fullscreen,
    {
        let found = self.find_index(id);
        match found {
            Some(k) => {
                let ghost pre = *self;
                let w = self.remove_window(id);
                match w {
                    Some(w) => {
                        proof {
                            assert(!self.holds_id(w.id)) by {
                                let o = pre.windows@;
                                let ki = idx_of(o, id);
                                assert forall|j: int| 0 <= j < self.windows@.len() implies (
                                #[trigger] self.windows@[j]).id != id by {
                                    if j < ki {
                                        assert(self.windows@[j] == o[j]);
                                    } else {
                                        assert(self.windows@[j] == o[j + 1]);
                                    }
                                }
                            }
                        }
                        self.insert_window(w);
                    },
                    None => (),
                }
            },
            None => (),
        }
    }

    /// Re-partition the workspace: every tiling participant gets its slot
    /// of `usable`, maximized windows each get the whole gap-reduced area,
    /// a fullscreen window is re-sent the full output geometry, floating
    /// windows keep their geometry.
    pub fn refresh_geometries(&mut self, usable: Rect, inner_gap: i32, outer_gap: i32, output_geo: Rect)
        requires
            old(self).wf(),
            usable.wf(),
            output_geo.wf(),
            0 <= inner_gap <= COORD_LIMIT,
            0 <= outer_gap <= COORD_LIMIT,
            old(self).windows@.len() <= COORD_LIMIT,
        ensures
            final(self).wf(),
            refreshed_windows(
                old(self).windows@,
                final(self).windows@,
                usable,
                inner_gap as int,
                outer_gap as int,
            ),
            match old(self).fullscreen {
                Some(fs) => final(self).fullscreen == Some(
                    FullscreenSlot {
                        window: Window { geometry: output_geo, ..fs.window },
                        restore_index: fs.restore_index,
                    },
                ),
                None => final(self).fullscreen is None,
            },
    {
        let _ = self.retile(usable, inner_gap, outer_gap, output_geo, 0);
    }

    /// Re-partition the workspace over `tiled_count + extra` slots: with
    /// `extra == 1` the last slot is left for an incoming window and its
    /// geometry comes back.
    pub fn retile(
        &mut self,
        usable: Rect,
        inner_gap: i32,
        outer_gap: i32,
        output_geo: Rect,
        extra: usize,
    ) -> (incoming: Rect)
        requires
            old(self).wf(),
            usable.wf(),
            output_geo.wf(),
            0 <= inner_gap <= COORD_LIMIT,
            0 <= outer_gap <= COORD_LIMIT,
            extra <= 1,
            old(self).windows@.len() + extra <= COORD_LIMIT,
        ensures
            final(self).wf(),
            retiled_windows(
                old(self).windows@,
                final(self).windows@,
                usable,
                inner_gap as int,
                outer_gap as int,
                tiled_count(old(self).windows@) + extra,
            ),
            match old(self).fullscreen {
                Some(fs) => final(self).fullscreen == Some(
                    FullscreenSlot {
                        window: Window { geometry: output_geo, ..fs.window },
                        restore_index: fs.restore_index,
                    },
                ),
                None => final(self).fullscreen is None,
            },
            extra == 1 ==> slot_matches(
                incoming,
                usable,
                inner_gap as int,
                outer_gap as int,
                tiled_count(old(self).windows@) + 1,
                tiled_count(old(self).windows@),
            ) && incoming.bounded(),
    {
        let ghost orig = self.windows@;
        let mut tc: usize = 0;
        let mut k: usize = 0;
        while k < self.windows.len()
            invariant
                self.windows@ == orig,
                orig.len() <= COORD_LIMIT,
                0 <= k <= orig.len(),
                tc == tiled_count(orig.take(k as int)),
                tc <= k,
            decreases orig.len() - k,
        {
            proof {
                lemma_tiled_count_step(orig, k as int);
            }
            let w = &self.windows[k];
            if w.tiled && !w.maximized {
                tc = tc + 1;
            }
            k = k + 1;
        }
        proof {
            assert(orig.take(orig.len() as int) =~= orig);
            lemma_tiled_count_bounds(orig);
        }
        let n = tc + extra;
        let geoms = layout::layout(n, usable, inner_gap, outer_gap);
        let area = Rect {
            x: usable.x + outer_gap,
            y: usable.y + outer_gap,
            w: if usable.w - 2 * outer_gap < 0 {
                0
            } else {
                usable.w - 2 * outer_gap
            },
            h: if usable.h - 2 * outer_gap < 0 {
                0
            } else {
                usable.h - 2 * outer_gap
            },
        };
        let mut m: usize = 0;
        let mut k: usize = 0;
        while k < self.windows.len()
            invariant
                layout_inputs_wf(n as int, usable, inner_gap as int, outer_gap as int),
                layout::layout_matches(geoms@, n as int, usable, inner_gap as int, outer_gap as int),
                tc == tiled_count(orig),
                n == tc + extra,
                area.x == area_x(usable, outer_gap as int),
                area.y == area_y(usable, outer_gap as int),
                area.w == area_w(usable, outer_gap as int),
                area.h == area_h(usable, outer_gap as int),
                self.windows@.len() == orig.len(),
                self.fullscreen == old(self).fullscreen,
                0 <= k <= orig.len(),
                m == tiled_count(orig.take(k as int)),
                m <= k,
                forall|j: int| k <= j < orig.len() ==> #[trigger] self.windows@[j] == orig[j],
                forall|j: int| 0 <= j < k ==> orig[j].same_except_geometry(#[trigger] self.windows@[j]),
                forall|j: int|
                    0 <= j < k && tiled_pred(orig[j]) ==> slot_matches(
                        (#[trigger] self.windows@[j]).geometry,
                        usable,
                        inner_gap as int,
                        outer_gap as int,
                        n as int,
                        tiled_rank(orig, j),
                    ),
                forall|j: int|
                    0 <= j < k && orig[j].maximized ==> (#[trigger] self.windows@[j]).geometry == area,
                forall|j: int|
                    0 <= j < k && !orig[j].tiled && !orig[j].maximized ==> (#[trigger] self
                        .windows@[j]).geometry == orig[j].geometry,
            decreases orig.len() - k,
        {
            proof {
                lemma_tiled_count_step(orig, k as int);
                lemma_tiled_rank_in_range(orig, k as int);
            }
            let tiled = self.windows[k].tiled;
            let maximized = self.windows[k].maximized;
            if tiled && !maximized {
                let g = geoms[m];
                let wref = &mut self.windows[k];
                wref.geometry = g;
                m = m + 1;
            } else if maximized {
                let wref = &mut self.windows[k];
                wref.geometry = area;
            }
            k = k + 1;
        }
        match &mut self.fullscreen {
            Some(fs) => {
                fs.window.geometry = output_geo;
            },
            None => (),
        }
        proof {
            assert forall|k1: int, k2: int|
                #![trigger self.windows@[k1].id, self.windows@[k2].id]
                0 <= k1 < k2 < self.windows@.len() implies self.windows@[k1].id != self
                .windows@[k2].id by {
                assert(orig[k1].same_except_geometry(self.windows@[k1]));
                assert(orig[k2].same_except_geometry(self.windows@[k2]));
            }
            assert forall|j: int| 0 <= j < self.windows@.len() implies (#[trigger] self
                .windows@[j]).geometry.bounded() by {
                assert(orig[j].same_except_geometry(self.windows@[j]));
                if tiled_pred(orig[j]) {
                    lemma_tiled_rank_in_range(orig, j);
                    layout::lemma_layout_slots_in_area(
                        geoms@,
                        n as int,
                        usable,
                        inner_gap as int,
                        outer_gap as int,
                        tiled_rank(orig, j),
                    );
                }
            }
            if self.fullscreen is Some {
                let fs = self.fullscreen.unwrap();
                assert forall|j: int| 0 <= j < self.windows@.len() implies (#[trigger] self
                    .windows@[j]).id != fs.window.id by {
                    assert(orig[j].same_except_geometry(self.windows@[j]));
                }
            }
        }
        if extra > 0 {
            proof {
                layout::lemma_layout_slots_in_area(
                    geoms@,
                    n as int,
                    usable,
                    inner_gap as int,
                    outer_gap as int,
                    tc as int,
                );
            }
            geoms[tc]
        } else {
            Rect { x: 0, y: 0, w: 0, h: 0 }
        }
    }
}

} // verus!
