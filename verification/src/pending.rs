use vstd::prelude::*;

use crate::geometry::COORD_LIMIT;
use crate::mapping::WindowMapSettings;
use crate::output::LayerSurface;
use crate::workspace::Window;

verus! {

/// Protocol progress of a pending toplevel: a window must never be shown
/// before an initial configure went out and was acknowledged.
#[derive(Clone, Copy, Debug, PartialEq, Eq, Structural)]
pub enum PendingWindowState {
    Unconfigured,
    ConfigureSent,
}

/// Mapping settings resolved to concrete values, cached on the pending
/// window and consumed exactly once at promotion time.
pub struct WindowMapSettingsInternal {
    pub output_id: u64,
    pub workspace_idx: usize,
    pub user: WindowMapSettings,
}

/// A toplevel surface between its creation and its mapping, keyed by its
/// surface identity (the window's id), held in the pending registry only.
pub struct PendingWindow {
    pub window: Window,
    pub state: PendingWindowState,
    pub has_buffer: bool,
    /// Size the client carried in its latest configure reply, if any.
    pub pending_size: Option<(i32, i32)>,
    /// Minimum size the client advertised.
    pub min_size: (i32, i32),
    pub settings: Option<WindowMapSettingsInternal>,
}

impl PendingWindow {
    pub open spec fn wf(self) -> bool {
        &&& self.window.geometry.bounded()
        &&& match self.settings {
            Some(s) => s.user.wf(),
            None => true,
        }
        &&& match self.pending_size {
            Some((w, h)) => 0 <= w <= COORD_LIMIT && 0 <= h <= COORD_LIMIT,
            None => true,
        }
        &&& 0 <= self.min_size.0 <= COORD_LIMIT
        &&& 0 <= self.min_size.1 <= COORD_LIMIT
    }
}

/// A layer surface between its creation and its mapping: layer surfaces
/// skip placement policy and are mapped once their initial configure is
/// acknowledged.
pub struct PendingLayer {
    pub layer: LayerSurface,
    pub output_id: u64,
    pub configured: bool,
}

impl PendingLayer {
    pub open spec fn wf(self) -> bool {
        self.layer.wf()
    }
}

/// No two pending windows share a surface id.
pub open spec fn pending_ids_unique(s: Seq<PendingWindow>) -> bool {
    forall|k1: int, k2: int|
        #![trigger s[k1].window.id, s[k2].window.id]
        0 <= k1 < k2 < s.len() ==> s[k1].window.id != s[k2].window.id
}

/// Position of the pending window with this surface id.
pub open spec fn pending_idx_of(s: Seq<PendingWindow>, id: u64) -> int {
    choose|k: int| 0 <= k < s.len() && s[k].window.id == id
}

/// `s` holds a pending window with this surface id.
pub open spec fn pending_has(s: Seq<PendingWindow>, id: u64) -> bool {
    exists|k: int| 0 <= k < s.len() && s[k].window.id == id
}

/// `s` holds a pending layer with this surface id.
pub open spec fn pending_layer_has(s: Seq<PendingLayer>, id: u64) -> bool {
    exists|k: int| 0 <= k < s.len() && s[k].layer.id == id
}

/// Position of the pending layer with this surface id.
pub open spec fn pending_layer_idx_of(s: Seq<PendingLayer>, id: u64) -> int {
    choose|k: int| 0 <= k < s.len() && s[k].layer.id == id
}

/// No two pending layers share a surface id.
pub open spec fn pending_layer_ids_unique(s: Seq<PendingLayer>) -> bool {
    forall|k1: int, k2: int|
        #![trigger s[k1].layer.id, s[k2].layer.id]
        0 <= k1 < k2 < s.len() ==> s[k1].layer.id != s[k2].layer.id
}

} // verus!

use crate::state::Fht;

verus! {

/// Parent of a surface in the child-to-parent index: the first link whose
/// child matches.
pub open spec fn parent_of(s: Seq<(u64, u64)>, id: u64) -> Option<u64>
    decreases s.len(),
{
    if s.len() == 0 {
        None
    } else if s[0].0 == id {
        Some(s[0].1)
    } else {
        parent_of(s.skip(1), id)
    }
}

/// Root ancestor of a surface, walking at most `fuel` parent links: the
/// walk is bounded so that a cycle in client-supplied links cannot hang
/// the engine.
pub open spec fn root_of_spec(s: Seq<(u64, u64)>, id: u64, fuel: nat) -> u64
    decreases fuel,
{
    if fuel == 0 {
        id
    } else {
        match parent_of(s, id) {
            Some(p) => root_of_spec(s, p, (fuel - 1) as nat),
            None => id,
        }
    }
}

/// Parent lookup over the engine's parent index.
fn lookup_parent(parents: &Vec<(u64, u64)>, id: u64) -> (r: Option<u64>)
    ensures
        r == parent_of(parents@, id),
{
    let mut k: usize = 0;
    proof {
        assert(parents@.skip(0) =~= parents@);
    }
    while k < parents.len()
        invariant
            0 <= k <= parents@.len(),
            parent_of(parents@, id) == parent_of(parents@.skip(k as int), id),
        decreases parents@.len() - k,
    {
        proof {
            assert(parents@.skip(k as int)[0] == parents@[k as int]);
            assert(parents@.skip(k as int).skip(1) =~= parents@.skip(k as int + 1));
        }
        if parents[k].0 == id {
            return Some(parents[k].1);
        }
        k = k + 1;
    }
    None
}

impl Fht {
    /// Resolve the root ancestor of a surface by walking parent links
    /// iteratively, guarded against cycles by a step bound.
    pub fn root_of(&self, surface_id: u64) -> (r: u64)
        requires
            self.parents@.len() < usize::MAX,
        ensures
            r == root_of_spec(self.parents@, surface_id, (self.parents@.len() + 1) as nat),
    {
        let mut cur = surface_id;
        let mut fuel: usize = self.parents.len() + 1;
        while fuel > 0
            invariant
                0 <= fuel <= self.parents@.len() + 1,
                root_of_spec(self.parents@, surface_id, (self.parents@.len() + 1) as nat)
                    == root_of_spec(self.parents@, cur, fuel as nat),
            decreases fuel,
        {
            match lookup_parent(&self.parents, cur) {
                Some(p) => {
                    cur = p;
                },
                None => {
                    return cur;
                },
            }
            fuel = fuel - 1;
        }
        cur
    }

    /// Record a surface parent link (on subsurface or popup creation).
    pub fn add_parent_link(&mut self, child: u64, parent: u64)
        requires
            old(self).wf(),
        ensures
            final(self).wf(),
            final(self).parents@ == old(self).parents@.push((child, parent)),
            *final(self) == (Fht { parents: final(self).parents, ..*old(self) }),
    {
        self.parents.push((child, parent));
    }

    /// Register a fresh toplevel surface in the pending registry: it stays
    /// there, unconfigured and without resolved settings, until promoted
    /// or destroyed.
    pub fn new_pending_window(
        &mut self,
        window: Window,
        min_size: (i32, i32),
    )
        requires
            old(self).wf(),
            window.geometry.bounded(),
            0 <= min_size.0 <= crate::geometry::COORD_LIMIT,
            0 <= min_size.1 <= crate::geometry::COORD_LIMIT,
            !pending_has(old(self).pending_windows@, window.id),
        ensures
            final(self).wf(),
            final(self).pending_windows@ == old(self).pending_windows@.push(
                PendingWindow {
                    window,
                    state: PendingWindowState::Unconfigured,
                    has_buffer: false,
                    pending_size: None,
                    min_size,
                    settings: None,
                },
            ),
            *final(self) == (Fht { pending_windows: final(self).pending_windows, ..*old(self) }),
    {
        self.pending_windows.push(
            PendingWindow {
                window,
                state: PendingWindowState::Unconfigured,
                has_buffer: false,
                pending_size: None,
                min_size,
                settings: None,
            },
        );
        proof {
            let s = self.pending_windows@;
            assert forall|k1: int, k2: int|
                #![trigger s[k1].window.id, s[k2].window.id]
                0 <= k1 < k2 < s.len() implies s[k1].window.id != s[k2].window.id by {
                if k2 == s.len() - 1 {
                    assert(s[k1] == old(self).pending_windows@[k1]);
                }
            }
        }
    }

    /// Note the size the client carried in its latest configure reply and
    /// its advertised minimum size.
    pub fn update_pending_sizes(
        &mut self,
        surface_id: u64,
        pending_size: Option<(i32, i32)>,
        min_size: (i32, i32),
    )
        requires
            old(self).wf(),
            pending_has(old(self).pending_windows@, surface_id),
            match pending_size {
                Some((w, h)) => 0 <= w <= crate::geometry::COORD_LIMIT && 0 <= h
                    <= crate::geometry::COORD_LIMIT,
                None => true,
            },
            0 <= min_size.0 <= crate::geometry::COORD_LIMIT,
            0 <= min_size.1 <= crate::geometry::COORD_LIMIT,
        ensures
            final(self).wf(),
            final(self).pending_windows@.len() == old(self).pending_windows@.len(),
            ({
                let p_idx = pending_idx_of(old(self).pending_windows@, surface_id);
                &&& final(self).pending_windows@[p_idx] == (PendingWindow {
                    pending_size,
                    min_size,
                    ..old(self).pending_windows@[p_idx]
                })
                &&& forall|q: int|
                    0 <= q < old(self).pending_windows@.len() && q != p_idx ==> #[trigger] final(self)
                        .pending_windows@[q] == old(self).pending_windows@[q]
            }),
            *final(self) == (Fht { pending_windows: final(self).pending_windows, ..*old(self) }),
    {
        let p_idx = find_pending_index_here(&self.pending_windows, surface_id);
        let mut p = self.pending_windows.remove(p_idx);
        p.pending_size = pending_size;
        p.min_size = min_size;
        self.pending_windows.insert(p_idx, p);
        proof {
            assert(self.pending_windows@ =~= old(self).pending_windows@.update(
                p_idx as int,
                self.pending_windows@[p_idx as int],
            ));
            Fht::lemma_wf_after_pending_update(*old(self), *self, p_idx as int);
        }
    }

    /// Register a fresh layer surface bound to an output; it skips policy
    /// resolution and is mapped once its initial configure is
    /// acknowledged.
    pub fn new_pending_layer(&mut self, layer: LayerSurface, output_id: u64)
        requires
            old(self).wf(),
            layer.wf(),
            !pending_layer_has(old(self).pending_layers@, layer.id),
        ensures
            final(self).wf(),
            final(self).pending_layers@ == old(self).pending_layers@.push(
                PendingLayer { layer, output_id, configured: false },
            ),
            *final(self) == (Fht { pending_layers: final(self).pending_layers, ..*old(self) }),
    {
        self.pending_layers.push(PendingLayer { layer, output_id, configured: false });
        proof {
            let s = self.pending_layers@;
            assert forall|k1: int, k2: int|
                #![trigger s[k1].layer.id, s[k2].layer.id]
                0 <= k1 < k2 < s.len() implies s[k1].layer.id != s[k2].layer.id by {
                if k2 == s.len() - 1 {
                    assert(s[k1] == old(self).pending_layers@[k1]);
                }
            }
        }
    }

    /// Drop the pending entry for a surface whose client disconnected
    /// mid-handshake: the entry leaves whichever registry holds it, so no
    /// orphaned entry is ever visible to the layout engine.
    pub fn drop_pending(&mut self, surface_id: u64)
        requires
            old(self).wf(),
        ensures
            final(self).wf(),
            !pending_has(final(self).pending_windows@, surface_id),
            !pending_layer_has(final(self).pending_layers@, surface_id),
            pending_has(old(self).pending_windows@, surface_id) ==> final(self).pending_windows@
                == old(self).pending_windows@.remove(
                pending_idx_of(old(self).pending_windows@, surface_id),
            ),
            !pending_has(old(self).pending_windows@, surface_id) ==> final(self).pending_windows
                == old(self).pending_windows,
            pending_layer_has(old(self).pending_layers@, surface_id) ==> final(self).pending_layers@
                == old(self).pending_layers@.remove(
                pending_layer_idx_of(old(self).pending_layers@, surface_id),
            ),
            !pending_layer_has(old(self).pending_layers@, surface_id) ==> final(self).pending_layers
                == old(self).pending_layers,
            final(self).entries == old(self).entries,
            final(self).config == old(self).config,
            final(self).focused_output == old(self).focused_output,
            final(self).focus_target == old(self).focus_target,
            final(self).popups == old(self).popups,
            final(self).parents == old(self).parents,
    {
        let ghost pre = *self;
        let mut k: usize = 0;
        let mut found: bool = false;
        let mut fidx: usize = 0;
        while k < self.pending_windows.len()
            invariant
                *self == pre,
                0 <= k <= pre.pending_windows@.len(),
                !found ==> forall|j: int|
                    0 <= j < k ==> (#[trigger] pre.pending_windows@[j]).window.id != surface_id,
                found ==> fidx < pre.pending_windows@.len()
                    && pre.pending_windows@[fidx as int].window.id == surface_id,
                found ==> k == pre.pending_windows@.len(),
            decreases pre.pending_windows@.len() - k,
        {
            if self.pending_windows[k].window.id == surface_id {
                found = true;
                fidx = k;
                k = self.pending_windows.len();
            } else {
                k = k + 1;
            }
        }
        if found {
            proof {
                let w = pending_idx_of(pre.pending_windows@, surface_id);
                assert(pending_has(pre.pending_windows@, surface_id));
                assert(pre.pending_windows@[w].window.id == surface_id);
                if w != fidx as int {
                    assert(false);
                }
            }
            let _ = self.pending_windows.remove(fidx);
            proof {
                Fht::lemma_wf_after_pending_removal(pre, *self, fidx as int);
                if pending_has(self.pending_windows@, surface_id) {
                    let w = choose|j: int|
                        0 <= j < self.pending_windows@.len() && (#[trigger] self
                            .pending_windows@[j]).window.id == surface_id;
                    let f: int = if w < fidx as int {
                        w
                    } else {
                        w + 1
                    };
                    assert(self.pending_windows@[w] == pre.pending_windows@[f]);
                    assert(false);
                }
            }
        } else {
            proof {
                if pending_has(pre.pending_windows@, surface_id) {
                    let w = choose|j: int|
                        0 <= j < pre.pending_windows@.len() && (#[trigger] pre
                            .pending_windows@[j]).window.id == surface_id;
                    assert(false);
                }
            }
        }
        let ghost mid = *self;
        let mut k: usize = 0;
        let mut lfound: bool = false;
        let mut lidx: usize = 0;
        while k < self.pending_layers.len()
            invariant
                *self == mid,
                0 <= k <= mid.pending_layers@.len(),
                !lfound ==> forall|j: int|
                    0 <= j < k ==> (#[trigger] mid.pending_layers@[j]).layer.id != surface_id,
                lfound ==> lidx < mid.pending_layers@.len()
                    && mid.pending_layers@[lidx as int].layer.id == surface_id,
                lfound ==> k == mid.pending_layers@.len(),
            decreases mid.pending_layers@.len() - k,
        {
            if self.pending_layers[k].layer.id == surface_id {
                lfound = true;
                lidx = k;
                k = self.pending_layers.len();
            } else {
                k = k + 1;
            }
        }
        if lfound {
            proof {
                let w = pending_layer_idx_of(mid.pending_layers@, surface_id);
                assert(pending_layer_has(mid.pending_layers@, surface_id));
                assert(mid.pending_layers@[w].layer.id == surface_id);
                if w != lidx as int {
                    assert(false);
                }
            }
            let _ = self.pending_layers.remove(lidx);
            proof {
                let s = self.pending_layers@;
                assert forall|q: int| 0 <= q < s.len() implies (#[trigger] s[q]).wf() by {
                    if q < lidx as int {
                        assert(s[q] == mid.pending_layers@[q]);
                    } else {
                        assert(s[q] == mid.pending_layers@[q + 1]);
                    }
                }
                assert forall|k1: int, k2: int|
                    #![trigger s[k1].layer.id, s[k2].layer.id]
                    0 <= k1 < k2 < s.len() implies s[k1].layer.id != s[k2].layer.id by {
                    let f1: int = if k1 < lidx as int {
                        k1
                    } else {
                        k1 + 1
                    };
                    let f2: int = if k2 < lidx as int {
                        k2
                    } else {
                        k2 + 1
                    };
                    assert(s[k1] == mid.pending_layers@[f1]);
                    assert(s[k2] == mid.pending_layers@[f2]);
                }
                if pending_layer_has(s, surface_id) {
                    let w = choose|j: int|
                        0 <= j < s.len() && (#[trigger] s[j]).layer.id == surface_id;
                    let f: int = if w < lidx as int {
                        w
                    } else {
                        w + 1
                    };
                    assert(s[w] == mid.pending_layers@[f]);
                    assert(false);
                }
            }
        } else {
            proof {
                if pending_layer_has(mid.pending_layers@, surface_id) {
                    let w = choose|j: int|
                        0 <= j < mid.pending_layers@.len() && (#[trigger] mid
                            .pending_layers@[j]).layer.id == surface_id;
                    assert(false);
                }
            }
        }
    }
}

/// Position of the pending window with this surface id.
fn find_pending_index_here(pending: &Vec<PendingWindow>, surface_id: u64) -> (r: usize)
    requires
        pending_ids_unique(pending@),
        pending_has(pending@, surface_id),
    ensures
        r < pending@.len(),
        pending@[r as int].window.id == surface_id,
        pending_idx_of(pending@, surface_id) == r as int,
{
    let mut k: usize = 0;
    while k < pending.len()
        invariant
            pending_ids_unique(pending@),
            pending_has(pending@, surface_id),
            0 <= k <= pending@.len(),
            forall|j: int| 0 <= j < k ==> (#[trigger] pending@[j]).window.id != surface_id,
        decreases pending@.len() - k,
    {
        if pending[k].window.id == surface_id {
            proof {
                let w = pending_idx_of(pending@, surface_id);
                assert(pending@[w].window.id == surface_id);
                if w != k as int {
                    assert(false);
                }
            }
            return k;
        }
        k = k + 1;
    }
    proof {
        assert(false);
    }
    0
}

} // verus!
