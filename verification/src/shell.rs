use vstd::prelude::*;

use crate::geometry::Rect;
use crate::pending::PendingLayer;
use crate::state::{Fht, OutputEntry};
use crate::workspace::{Window, Workspace};

verus! {

/// Where a mapped window lives: in a workspace's stack, or in its
/// fullscreen slot.
#[derive(Clone, Copy, Debug, PartialEq, Eq, Structural)]
pub enum WindowLocation {
    Stacked { entry: usize, workspace: usize, index: usize },
    InFullscreenSlot { entry: usize, workspace: usize },
}

/// Ids of the stacked windows of a workspace sequence, in order.
pub open spec fn workspaces_ids(wss: Seq<Workspace>) -> Seq<u64>
    decreases wss.len(),
{
    if wss.len() == 0 {
        Seq::empty()
    } else {
        workspaces_ids(wss.drop_last()) + wss.last().windows@.map_values(|w: Window| w.id)
    }
}

/// Ids of every window registered in any workspace of any output.
pub open spec fn all_window_ids(entries: Seq<OutputEntry>) -> Seq<u64>
    decreases entries.len(),
{
    if entries.len() == 0 {
        Seq::empty()
    } else {
        all_window_ids(entries.drop_last()) + workspaces_ids(entries.last().wset.workspaces@)
    }
}

/// An output's layer map holds this surface.
pub open spec fn entry_has_layer(e: OutputEntry, sid: u64) -> bool {
    exists|k: int| 0 <= k < e.layers@.len() && (#[trigger] e.layers@[k]).id == sid
}

/// The active workspace of this output holds the surface.
pub open spec fn entry_active_holds(e: OutputEntry, sid: u64) -> bool {
    e.wset.workspaces@[e.wset.active_index as int].holds_id(sid)
}

/// First output whose layer map holds the surface.
pub open spec fn first_layer_entry(entries: Seq<OutputEntry>, sid: u64) -> Option<int>
    decreases entries.len(),
{
    if entries.len() == 0 {
        None
    } else if entry_has_layer(entries[0], sid) {
        Some(0)
    } else {
        match first_layer_entry(entries.skip(1), sid) {
            Some(i) => Some(i + 1),
            None => None,
        }
    }
}

/// Output the first matching pending layer surface is bound to.
pub open spec fn first_pending_layer_output(pls: Seq<PendingLayer>, sid: u64) -> Option<u64>
    decreases pls.len(),
{
    if pls.len() == 0 {
        None
    } else if pls[0].layer.id == sid {
        Some(pls[0].output_id)
    } else {
        first_pending_layer_output(pls.skip(1), sid)
    }
}

/// First output whose active workspace holds the surface.
pub open spec fn first_active_holder(entries: Seq<OutputEntry>, sid: u64) -> Option<int>
    decreases entries.len(),
{
    if entries.len() == 0 {
        None
    } else if entry_active_holds(entries[0], sid) {
        Some(0)
    } else {
        match first_active_holder(entries.skip(1), sid) {
            Some(i) => Some(i + 1),
            None => None,
        }
    }
}

/// The surface's display test of the engine: a layer map holding it, else
/// a pending layer surface bound to an output, else an active workspace
/// holding it.
pub open spec fn visible_output_spec(state: Fht, sid: u64) -> Option<u64> {
    match first_layer_entry(state.entries@, sid) {
        Some(i) => Some(state.entries@[i].output.id),
        None => match first_pending_layer_output(state.pending_layers@, sid) {
            Some(oid) => Some(oid),
            None => match first_active_holder(state.entries@, sid) {
                Some(i) => Some(state.entries@[i].output.id),
                None => None,
            },
        },
    }
}

/// Whether this workspace (stack or fullscreen slot) holds the id.
fn workspace_holds(ws: &Workspace, sid: u64) -> (r: bool)
    requires
        ws.wf(),
    ensures
        r == ws.holds_id(sid),
{
    let in_stack = match ws.find_index(sid) {
        Some(_) => true,
        None => false,
    };
    let in_slot = match &ws.fullscreen {
        Some(fs) => fs.window.id == sid,
        None => false,
    };
    in_stack || in_slot
}

/// The window with this id stands at stack position `k` of workspace `v`
/// of output entry `e`, and no position earlier in the search order (by
/// entry, then workspace, then stack position) holds the id.  The search
/// order makes this location unique.
pub open spec fn stacked_first_at(entries: Seq<OutputEntry>, id: u64, e: int, v: int, k: int) -> bool {
    &&& 0 <= e < entries.len()
    &&& 0 <= v < entries[e].wset.workspaces@.len()
    &&& 0 <= k < entries[e].wset.workspaces@[v].windows@.len()
    &&& entries[e].wset.workspaces@[v].windows@[k].id == id
    &&& forall|i: int| 0 <= i < e ==> !(#[trigger] entries[i]).wset.holds_id(id)
    &&& forall|vv: int|
        0 <= vv < v ==> !(#[trigger] entries[e].wset.workspaces@[vv]).holds_id(id)
    &&& forall|kk: int|
        0 <= kk < k ==> (#[trigger] entries[e].wset.workspaces@[v].windows@[kk]).id != id
}

/// The first stacked location of an id is unique.
pub proof fn lemma_stacked_first_unique(
    entries: Seq<OutputEntry>,
    id: u64,
    e1: int,
    v1: int,
    k1: int,
    e2: int,
    v2: int,
    k2: int,
)
    requires
        stacked_first_at(entries, id, e1, v1, k1),
        stacked_first_at(entries, id, e2, v2, k2),
    ensures
        e1 == e2 && v1 == v2 && k1 == k2,
{
    assert(entries[e1].wset.workspaces@[v1].holds_id(id));
    assert(entries[e1].wset.holds_id(id));
    assert(entries[e2].wset.workspaces@[v2].holds_id(id));
    assert(entries[e2].wset.holds_id(id));
    if e1 < e2 {
        assert(false);
    }
    if e2 < e1 {
        assert(false);
    }
    if v1 < v2 {
        assert(false);
    }
    if v2 < v1 {
        assert(false);
    }
    if k1 < k2 {
        assert(false);
    }
    if k2 < k1 {
        assert(false);
    }
}

fn entry_layer_holds(e: &OutputEntry, sid: u64) -> (r: bool)
    ensures
        r == entry_has_layer(*e, sid),
{
    let mut k: usize = 0;
    while k < e.layers.len()
        invariant
            0 <= k <= e.layers@.len(),
            forall|j: int| 0 <= j < k ==> (#[trigger] e.layers@[j]).id != sid,
        decreases e.layers@.len() - k,
    {
        if e.layers[k].id == sid {
            return true;
        }
        k = k + 1;
    }
    false
}

impl Fht {
    /// Find the window carrying this surface id, with the output, the
    /// workspace and the stacking position that hold it.
    pub fn find_window(&self, sid: u64) -> (r: Option<WindowLocation>)
        requires
            self.wf(),
        ensures
            match r {
                Some(loc) => match loc {
                    WindowLocation::Stacked { entry, workspace, index } => stacked_first_at(
                        self.entries@,
                        sid,
                        entry as int,
                        workspace as int,
                        index as int,
                    ),
                    WindowLocation::InFullscreenSlot { entry, workspace } => {
                        &&& entry < self.entries@.len()
                        &&& workspace < self.entries@[entry as int].wset.workspaces@.len()
                        &&& match self.entries@[entry as int].wset.workspaces@[workspace as int]
                            .fullscreen {
                            Some(fs) => fs.window.id == sid,
                            None => false,
                        }
                        &&& forall|i: int|
                            0 <= i < entry as int ==> !(#[trigger] self.entries@[i]).wset.holds_id(
                                sid,
                            )
                        &&& forall|vv: int|
                            0 <= vv < workspace as int ==> !(#[trigger] self
                                .entries@[entry as int].wset.workspaces@[vv]).holds_id(sid)
                        &&& !crate::workspace::has_id(
                            self.entries@[entry as int].wset.workspaces@[workspace as int].windows@,
                            sid,
                        )
                    },
                },
                None => self.mapped_nowhere(sid),
            },
    {
        let mut e: usize = 0;
        while e < self.entries.len()
            invariant
                self.wf(),
                0 <= e <= self.entries@.len(),
                forall|i: int| 0 <= i < e ==> !(#[trigger] self.entries@[i]).wset.holds_id(sid),
            decreases self.entries@.len() - e,
        {
            let wset = &self.entries[e].wset;
            let mut v: usize = 0;
            while v < wset.workspaces.len()
                invariant
                    self.wf(),
                    0 <= e < self.entries@.len(),
                    wset == self.entries@[e as int].wset,
                    0 <= v <= wset.workspaces@.len(),
                    forall|i: int| 0 <= i < e ==> !(#[trigger] self.entries@[i]).wset.holds_id(sid),
                    forall|j: int|
                        0 <= j < v ==> !(#[trigger] wset.workspaces@[j]).holds_id(sid),
                decreases wset.workspaces@.len() - v,
            {
                let ws = &wset.workspaces[v];
                match ws.find_index(sid) {
                    Some(k) => {
                        proof {
                            assert forall|kk: int| 0 <= kk < k as int implies (#[trigger] ws
                                .windows@[kk]).id != sid by {
                                if ws.windows@[kk].id == sid {
                                    assert(ws.windows@[kk].id != ws.windows@[k as int].id);
                                }
                            }
                        }
                        return Some(WindowLocation::Stacked { entry: e, workspace: v, index: k });
                    },
                    None => (),
                }
                let in_slot = match &ws.fullscreen {
                    Some(fs) => fs.window.id == sid,
                    None => false,
                };
                if in_slot {
                    return Some(WindowLocation::InFullscreenSlot { entry: e, workspace: v });
                }
                v = v + 1;
            }
            proof {
                if self.entries@[e as int].wset.holds_id(sid) {
                    let j = choose|j: int|
                        0 <= j < wset.workspaces@.len() && (#[trigger] wset.workspaces@[j]).holds_id(
                            sid,
                        );
                    assert(false);
                }
            }
            e = e + 1;
        }
        None
    }

    /// First output where this surface is visible: on a layer map, bound
    /// as a pending layer, or held by an active workspace.
    pub fn visible_output_for_surface(&self, sid: u64) -> (r: Option<u64>)
        requires
            self.wf(),
        ensures
            r == visible_output_spec(*self, sid),
    {
        let mut e: usize = 0;
        proof {
            assert(self.entries@.skip(0) =~= self.entries@);
        }
        while e < self.entries.len()
            invariant
                self.wf(),
                0 <= e <= self.entries@.len(),
                first_layer_entry(self.entries@, sid) == match first_layer_entry(
                    self.entries@.skip(e as int),
                    sid,
                ) {
                    Some(i) => Some(i + e),
                    None => None::<int>,
                },
            decreases self.entries@.len() - e,
        {
            proof {
                assert(self.entries@.skip(e as int)[0] == self.entries@[e as int]);
                assert(self.entries@.skip(e as int).skip(1) =~= self.entries@.skip(e as int + 1));
            }
            if entry_layer_holds(&self.entries[e], sid) {
                return Some(self.entries[e].output.id);
            }
            e = e + 1;
        }
        proof {
            assert(self.entries@.skip(self.entries@.len() as int).len() == 0);
        }
        let mut p: usize = 0;
        proof {
            assert(self.pending_layers@.skip(0) =~= self.pending_layers@);
        }
        while p < self.pending_layers.len()
            invariant
                self.wf(),
                first_layer_entry(self.entries@, sid) is None,
                0 <= p <= self.pending_layers@.len(),
                first_pending_layer_output(self.pending_layers@, sid)
                    == first_pending_layer_output(self.pending_layers@.skip(p as int), sid),
            decreases self.pending_layers@.len() - p,
        {
            proof {
                assert(self.pending_layers@.skip(p as int)[0] == self.pending_layers@[p as int]);
                assert(self.pending_layers@.skip(p as int).skip(1) =~= self.pending_layers@.skip(
                    p as int + 1,
                ));
            }
            if self.pending_layers[p].layer.id == sid {
                return Some(self.pending_layers[p].output_id);
            }
            p = p + 1;
        }
        proof {
            assert(self.pending_layers@.skip(self.pending_layers@.len() as int).len() == 0);
        }
        let mut e: usize = 0;
        proof {
            assert(self.entries@.skip(0) =~= self.entries@);
        }
        while e < self.entries.len()
            invariant
                self.wf(),
                first_layer_entry(self.entries@, sid) is None,
                first_pending_layer_output(self.pending_layers@, sid) is None,
                0 <= e <= self.entries@.len(),
                first_active_holder(self.entries@, sid) == match first_active_holder(
                    self.entries@.skip(e as int),
                    sid,
                ) {
                    Some(i) => Some(i + e),
                    None => None::<int>,
                },
            decreases self.entries@.len() - e,
        {
            proof {
                assert(self.entries@.skip(e as int)[0] == self.entries@[e as int]);
                assert(self.entries@.skip(e as int).skip(1) =~= self.entries@.skip(e as int + 1));
            }
            let wset = &self.entries[e].wset;
            let active = &wset.workspaces[wset.active_index];
            if workspace_holds(active, sid) {
                return Some(self.entries[e].output.id);
            }
            e = e + 1;
        }
        proof {
            assert(self.entries@.skip(self.entries@.len() as int).len() == 0);
        }
        None
    }

    /// Ids of every window registered in the engine, output by output,
    /// workspace by workspace, in stacking order.
    pub fn all_windows(&self) -> (r: Vec<u64>)
        requires
            self.wf(),
        ensures
            r@ == all_window_ids(self.entries@),
    {
        let mut out: Vec<u64> = Vec::new();
        let mut e: usize = 0;
        proof {
            assert(self.entries@.take(0) =~= Seq::<OutputEntry>::empty());
        }
        while e < self.entries.len()
            invariant
                self.wf(),
                0 <= e <= self.entries@.len(),
                out@ == all_window_ids(self.entries@.take(e as int)),
            decreases self.entries@.len() - e,
        {
            proof {
                assert(self.entries@.take(e as int + 1).drop_last() =~= self.entries@.take(e as int));
                assert(self.entries@.take(e as int + 1).last() == self.entries@[e as int]);
            }
            let wss = &self.entries[e].wset.workspaces;
            let mut v: usize = 0;
            let ghost base = out@;
            proof {
                assert(wss@.take(0) =~= Seq::<Workspace>::empty());
                assert(base + workspaces_ids(wss@.take(0)) =~= base);
            }
            while v < wss.len()
                invariant
                    0 <= v <= wss@.len(),
                    out@ == base + workspaces_ids(wss@.take(v as int)),
                decreases wss@.len() - v,
            {
                proof {
                    assert(wss@.take(v as int + 1).drop_last() =~= wss@.take(v as int));
                    assert(wss@.take(v as int + 1).last() == wss@[v as int]);
                }
                crate::wset::push_window_ids(&mut out, &wss[v].windows);
                proof {
                    assert(out@ =~= base + workspaces_ids(wss@.take(v as int + 1)));
                }
                v = v + 1;
            }
            proof {
                assert(wss@.take(wss@.len() as int) =~= wss@);
            }
            e = e + 1;
        }
        proof {
            assert(self.entries@.take(self.entries@.len() as int) =~= self.entries@);
        }
        out
    }

    /// Ids of the windows an output must currently composite: during a
    /// switch animation both endpoint workspaces' content (or the shared
    /// fullscreen window), otherwise the active workspace's content.
    pub fn visible_windows_for_output(&self, output_id: u64) -> (r: Vec<u64>)
        requires
            self.wf(),
            self.has_output(output_id),
        ensures
            r@ == self.entries@[self.position_of(output_id)].wset.visible_ids_spec(),
    {
        let pos = match self.output_position(output_id) {
            Some(p) => p,
            None => {
                proof {
                    assert(false);
                }
                0
            },
        };
        self.entries[pos].wset.visible_window_ids()
    }

    /// Begin an interactive move of a mapped window: a maximized or
    /// fullscreen window first drops those modes and re-anchors at the
    /// pointer; the returned point is where the grab starts from, `None`
    /// when the window is not in any workspace stack.
    pub fn handle_move_request(&mut self, window_id: u64, pointer: (i32, i32)) -> (r: Option<
        ((usize, usize, usize), (i32, i32)),
    >)
        requires
            old(self).wf(),
        ensures
            final(self).wf(),
            final(self).config == old(self).config,
            final(self).focused_output == old(self).focused_output,
            final(self).focus_target == old(self).focus_target,
            final(self).pending_windows == old(self).pending_windows,
            final(self).pending_layers == old(self).pending_layers,
            final(self).popups == old(self).popups,
            final(self).parents == old(self).parents,
            final(self).entries@.len() == old(self).entries@.len(),
            match r {
                Some(((e, v, k), start)) => {
                    let w = old(self).entries@[e as int].wset.workspaces@[v as int].windows@[k as int];
                    &&& e < old(self).entries@.len()
                    &&& v < old(self).entries@[e as int].wset.workspaces@.len()
                    &&& k < old(self).entries@[e as int].wset.workspaces@[v as int].windows@.len()
                    &&& w.id == window_id
                    &&& final(self).entries@[e as int].wset.workspaces@[v as int].windows@[k as int]
                        == (Window { maximized: false, fullscreen: false, ..w })
                    &&& forall|j: int|
                        0 <= j < old(self).entries@[e as int].wset.workspaces@[v as int]
                            .windows@
                            .len() && j != k ==> #[trigger] final(self)
                            .entries@[e as int].wset.workspaces@[v as int].windows@[j] == old(self)
                            .entries@[e as int].wset.workspaces@[v as int].windows@[j]
                    &&& forall|vv: int|
                        0 <= vv < old(self).entries@[e as int].wset.workspaces@.len() && vv
                            != v as int ==> #[trigger] final(self)
                            .entries@[e as int].wset.workspaces@[vv] == old(self)
                            .entries@[e as int].wset.workspaces@[vv]
                    &&& forall|i: int|
                        0 <= i < old(self).entries@.len() && i != e as int ==> #[trigger] final(self)
                            .entries@[i] == old(self).entries@[i]
                    &&& start == (if w.maximized || w.fullscreen {
                        pointer
                    } else {
                        (w.geometry.x, w.geometry.y)
                    })
                },
                None => final(self).entries == old(self).entries && forall|i: int, v: int, k: int|
                    #![trigger old(self).entries@[i].wset.workspaces@[v].windows@[k]]
                    0 <= i < old(self).entries@.len() && 0 <= v < old(self)
                        .entries@[i].wset.workspaces@.len() && 0 <= k < old(self)
                        .entries@[i].wset.workspaces@[v].windows@.len() ==> old(self)
                        .entries@[i].wset.workspaces@[v].windows@[k].id != window_id,
            },
    {
        let loc = self.locate_stacked(window_id);
        match loc {
            Some((e, v, k)) => {
                let ghost pre = *self;
                let mut entry = self.entries.remove(e);
                let mut ws = entry.wset.workspaces.remove(v);
                let mut w = ws.windows.remove(k);
                let was_modal = w.maximized || w.fullscreen;
                let start = if was_modal {
                    pointer
                } else {
                    (w.geometry.x, w.geometry.y)
                };
                w.maximized = false;
                w.fullscreen = false;
                ws.windows.insert(k, w);
                proof {
                    let o = pre.entries@[e as int].wset.workspaces@[v as int].windows@;
                    assert(ws.windows@ =~= o.update(k as int, ws.windows@[k as int]));
                    assert forall|k1: int, k2: int|
                        #![trigger ws.windows@[k1].id, ws.windows@[k2].id]
                        0 <= k1 < k2 < ws.windows@.len() implies ws.windows@[k1].id != ws
                        .windows@[k2].id by {
                        assert(ws.windows@[k1].id == o[k1].id);
                        assert(ws.windows@[k2].id == o[k2].id);
                    }
                    assert forall|j: int| 0 <= j < ws.windows@.len() implies (#[trigger] ws
                        .windows@[j]).geometry.bounded() by {
                        assert(ws.windows@[j].geometry == o[j].geometry);
                    }
                    match &ws.fullscreen {
                        Some(fs) => {
                            assert forall|j: int| 0 <= j < ws.windows@.len() implies (#[trigger] ws
                                .windows@[j]).id != fs.window.id by {
                                assert(ws.windows@[j].id == o[j].id);
                            }
                        },
                        None => (),
                    }
                }
                entry.wset.workspaces.insert(v, ws);
                self.entries.insert(e, entry);
                proof {
                    assert(self.entries@ =~= pre.entries@.update(e as int, self.entries@[e as int]));
                    assert(self.entries@[e as int].wset.workspaces@ =~= pre.entries@[e as int]
                        .wset
                        .workspaces@
                        .update(v as int, self.entries@[e as int].wset.workspaces@[v as int]));
                    Fht::lemma_wf_after_entry_update(pre, *self, e as int);
                }
                Some(((e, v, k), start))
            },
            None => None,
        }
    }

    /// Locate a window in the workspace stacks.
    fn locate_stacked(&self, window_id: u64) -> (r: Option<(usize, usize, usize)>)
        requires
            self.wf(),
        ensures
            match r {
                Some((e, v, k)) => {
                    &&& e < self.entries@.len()
                    &&& v < self.entries@[e as int].wset.workspaces@.len()
                    &&& k < self.entries@[e as int].wset.workspaces@[v as int].windows@.len()
                    &&& self.entries@[e as int].wset.workspaces@[v as int].windows@[k as int].id
                        == window_id
                },
                None => forall|i: int, v: int, k: int|
                    #![trigger self.entries@[i].wset.workspaces@[v].windows@[k]]
                    0 <= i < self.entries@.len() && 0 <= v < self.entries@[i].wset.workspaces@.len()
                        && 0 <= k < self.entries@[i].wset.workspaces@[v].windows@.len() ==> self
                        .entries@[i].wset.workspaces@[v].windows@[k].id != window_id,
            },
    {
        let mut e: usize = 0;
        while e < self.entries.len()
            invariant
                self.wf(),
                0 <= e <= self.entries@.len(),
                forall|i: int, v: int, k: int|
                    #![trigger self.entries@[i].wset.workspaces@[v].windows@[k]]
                    0 <= i < e && 0 <= v < self.entries@[i].wset.workspaces@.len() && 0 <= k < self
                        .entries@[i].wset.workspaces@[v].windows@.len() ==> self
                        .entries@[i].wset.workspaces@[v].windows@[k].id != window_id,
            decreases self.entries@.len() - e,
        {
            let wset = &self.entries[e].wset;
            let mut v: usize = 0;
            while v < wset.workspaces.len()
                invariant
                    self.wf(),
                    0 <= e < self.entries@.len(),
                    wset == self.entries@[e as int].wset,
                    0 <= v <= wset.workspaces@.len(),
                    forall|i: int, vv: int, k: int|
                        #![trigger self.entries@[i].wset.workspaces@[vv].windows@[k]]
                        0 <= i < e && 0 <= vv < self.entries@[i].wset.workspaces@.len() && 0 <= k
                            < self.entries@[i].wset.workspaces@[vv].windows@.len() ==> self
                            .entries@[i].wset.workspaces@[vv].windows@[k].id != window_id,
                    forall|vv: int, k: int|
                        #![trigger wset.workspaces@[vv].windows@[k]]
                        0 <= vv < v && 0 <= k < wset.workspaces@[vv].windows@.len() ==> wset
                            .workspaces@[vv].windows@[k].id != window_id,
                decreases wset.workspaces@.len() - v,
            {
                match wset.workspaces[v].find_index(window_id) {
                    Some(k) => {
                        return Some((e, v, k));
                    },
                    None => (),
                }
                v = v + 1;
            }
            e = e + 1;
        }
        None
    }
}

} // verus!

use crate::focus::FocusTarget;

verus! {

/// Exec comparison of focus targets.
fn focus_target_eq(a: &FocusTarget, b: &FocusTarget) -> (r: bool)
    ensures
        r == (a == b),
{
    match (a, b) {
        (FocusTarget::LayerSurfaceTarget { id: x }, FocusTarget::LayerSurfaceTarget { id: y }) => x
            == y,
        (FocusTarget::WindowTarget { id: x }, FocusTarget::WindowTarget { id: y }) => x == y,
        _ => false,
    }
}

impl Fht {
    /// Per-dispatch focus refresh: a dead explicit focus target is
    /// dropped; a live one is (re-)applied when it differs from the
    /// currently applied focus; with no explicit target the focus falls
    /// to the active workspace's fullscreen window, else its topmost
    /// window.  The returned target, if any, is what the keyboard focus
    /// should be set to.
    pub fn refresh_focus(&mut self, target_alive: bool, current: Option<FocusTarget>) -> (r:
        Option<FocusTarget>)
        requires
            old(self).wf(),
        ensures
            final(self).wf(),
            final(self).config == old(self).config,
            final(self).entries == old(self).entries,
            final(self).focused_output == old(self).focused_output,
            final(self).pending_windows == old(self).pending_windows,
            final(self).pending_layers == old(self).pending_layers,
            final(self).popups == old(self).popups,
            final(self).parents == old(self).parents,
            ({
                let kept: Option<FocusTarget> = if old(self).focus_target is Some && !target_alive {
                    None
                } else {
                    old(self).focus_target
                };
                match kept {
                    Some(t) => final(self).focus_target == Some(t) && r == (if current == Some(t) {
                        None::<FocusTarget>
                    } else {
                        Some(t)
                    }),
                    None => match old(self).focused_output {
                        Some(oid) => {
                            let e = old(self).entries@[old(self).position_of(oid)];
                            let aws = e.wset.workspaces@[e.wset.active_index as int];
                            match aws.fullscreen {
                                Some(fs) => final(self).focus_target == Some(
                                    FocusTarget::WindowTarget { id: fs.window.id },
                                ) && r == Some(FocusTarget::WindowTarget { id: fs.window.id }),
                                None => {
                                    if aws.windows@.len() > 0 {
                                        let id = aws.windows@.last().id;
                                        final(self).focus_target == Some(
                                            FocusTarget::WindowTarget { id },
                                        ) && r == Some(FocusTarget::WindowTarget { id })
                                    } else {
                                        final(self).focus_target is None && r is None
                                    }
                                },
                            }
                        },
                        None => final(self).focus_target is None && r is None,
                    },
                }
            }),
    {
        if self.focus_target.is_some() && !target_alive {
            self.focus_target = None;
        }
        match self.focus_target {
            Some(t) => {
                let same = match &current {
                    Some(c) => focus_target_eq(c, &t),
                    None => false,
                };
                if same {
                    None
                } else {
                    Some(t)
                }
            },
            None => {
                let oid = match self.focused_output {
                    Some(o) => o,
                    None => {
                        return None;
                    },
                };
                let pos = match self.output_position(oid) {
                    Some(p) => p,
                    None => {
                        proof {
                            assert(false);
                        }
                        0
                    },
                };
                let wset = &self.entries[pos].wset;
                let aws = &wset.workspaces[wset.active_index];
                let pick: Option<u64> = match &aws.fullscreen {
                    Some(fs) => Some(fs.window.id),
                    None => {
                        if aws.windows.len() > 0 {
                            Some(aws.windows[aws.windows.len() - 1].id)
                        } else {
                            None
                        }
                    },
                };
                match pick {
                    Some(id) => {
                        self.focus_target = Some(FocusTarget::WindowTarget { id });
                        Some(FocusTarget::WindowTarget { id })
                    },
                    None => None,
                }
            },
        }
    }
}

} // verus!

use crate::output::usable_area;
use crate::output::usable_area_spec;
use crate::workspace::{has_id, idx_of, workspace_refreshed, refreshed_windows};

verus! {

impl Fht {
    /// Remove a destroyed client's window from whichever workspace holds
    /// it — the stack or the fullscreen slot — and re-partition that
    /// workspace once.  `false` when no workspace holds it: a disconnect
    /// of an unknown surface is ignored.
    pub fn remove_window(&mut self, window_id: u64) -> (r: bool)
        requires
            old(self).wf(),
        ensures
            final(self).wf(),
            final(self).config == old(self).config,
            final(self).focused_output == old(self).focused_output,
            final(self).focus_target == old(self).focus_target,
            final(self).pending_windows == old(self).pending_windows,
            final(self).pending_layers == old(self).pending_layers,
            final(self).popups == old(self).popups,
            final(self).parents == old(self).parents,
            final(self).entries@.len() == old(self).entries@.len(),
            !r ==> *final(self) == *old(self) && old(self).mapped_nowhere(window_id),
            r ==> exists|e: int, v: int|
                #![trigger old(self).entries@[e].wset.workspaces@[v]]
                {
                    &&& 0 <= e < old(self).entries@.len()
                    &&& 0 <= v < old(self).entries@[e].wset.workspaces@.len()
                    &&& old(self).entries@[e].wset.workspaces@[v].holds_id(window_id)
                    &&& forall|i: int|
                        0 <= i < old(self).entries@.len() && i != e ==> #[trigger] final(self)
                            .entries@[i] == old(self).entries@[i]
                    &&& final(self).entries@[e].output == old(self).entries@[e].output
                    &&& final(self).entries@[e].layers == old(self).entries@[e].layers
                    &&& final(self).entries@[e].wset.active_index == old(self)
                        .entries@[e].wset.active_index
                    &&& final(self).entries@[e].wset.switch_animation == old(self)
                        .entries@[e].wset.switch_animation
                    &&& forall|w: int|
                        0 <= w < old(self).entries@[e].wset.workspaces@.len() && w != v
                            ==> #[trigger] final(self).entries@[e].wset.workspaces@[w] == old(self)
                            .entries@[e].wset.workspaces@[w]
                    &&& ({
                        let ws = old(self).entries@[e].wset.workspaces@[v];
                        let nws = final(self).entries@[e].wset.workspaces@[v];
                        let usable = usable_area_spec(
                            old(self).entries@[e].output.geometry,
                            old(self).entries@[e].layers@,
                        );
                        let ig = old(self).config.inner_gaps as int;
                        let og = old(self).config.outer_gaps as int;
                        let geo = old(self).entries@[e].output.geometry;
                        if has_id(ws.windows@, window_id) {
                            workspace_refreshed(
                                ws.windows@.remove(idx_of(ws.windows@, window_id)),
                                ws.fullscreen,
                                nws,
                                usable,
                                ig,
                                og,
                                geo,
                            )
                        } else {
                            refreshed_windows(ws.windows@, nws.windows@, usable, ig, og)
                                && nws.fullscreen is None
                        }
                    })
                },
    {
        let loc = self.find_window(window_id);
        let (e, v) = match loc {
            Some(WindowLocation::Stacked { entry, workspace, .. }) => (entry, workspace),
            Some(WindowLocation::InFullscreenSlot { entry, workspace }) => (entry, workspace),
            None => {
                return false;
            },
        };
        let ghost pre = *self;
        let inner = self.config.inner_gaps;
        let outer = self.config.outer_gaps;
        let usable = usable_area(&self.entries[e].output.geometry, &self.entries[e].layers);
        let geo = self.entries[e].output.geometry;
        let mut entry = self.entries.remove(e);
        let mut ws = entry.wset.workspaces.remove(v);
        let _ = ws.remove_window(window_id);
        ws.refresh_geometries(usable, inner, outer, geo);
        entry.wset.workspaces.insert(v, ws);
        self.entries.insert(e, entry);
        proof {
            assert(self.entries@ =~= pre.entries@.update(e as int, self.entries@[e as int]));
            assert(self.entries@[e as int].wset.workspaces@ =~= pre.entries@[e as int]
                .wset
                .workspaces@
                .update(v as int, self.entries@[e as int].wset.workspaces@[v as int]));
            Fht::lemma_wf_after_entry_update(pre, *self, e as int);
            assert(pre.entries@[e as int].wset.workspaces@[v as int].holds_id(window_id));
        }
        true
    }
}

} // verus!

verus! {

/// Ids of the outputs whose geometry intersects `wgeo`, in registration
/// order.
pub open spec fn overlapping_output_ids(entries: Seq<OutputEntry>, wgeo: Rect) -> Seq<u64>
    decreases entries.len(),
{
    if entries.len() == 0 {
        Seq::empty()
    } else {
        overlapping_output_ids(entries.drop_last(), wgeo) + if entries.last()
            .output
            .geometry
            .overlaps(wgeo) {
            seq![entries.last().output.id]
        } else {
            Seq::empty()
        }
    }
}

impl Fht {
    /// Every output where a window with this global geometry is displayed:
    /// the outputs whose geometry intersects it, in registration order.
    pub fn visible_outputs_for_window(&self, wgeo: Rect) -> (r: Vec<u64>)
        requires
            self.wf(),
            wgeo.bounded(),
        ensures
            r@ == overlapping_output_ids(self.entries@, wgeo),
    {
        let mut out: Vec<u64> = Vec::new();
        let mut i: usize = 0;
        proof {
            assert(self.entries@.take(0) =~= Seq::<OutputEntry>::empty());
        }
        while i < self.entries.len()
            invariant
                self.wf(),
                wgeo.bounded(),
                0 <= i <= self.entries@.len(),
                out@ == overlapping_output_ids(self.entries@.take(i as int), wgeo),
            decreases self.entries@.len() - i,
        {
            proof {
                assert(self.entries@.take(i as int + 1).drop_last() =~= self.entries@.take(i as int));
                assert(self.entries@.take(i as int + 1).last() == self.entries@[i as int]);
            }
            if self.entries[i].output.geometry.intersects(&wgeo) {
                out.push(self.entries[i].output.id);
                proof {
                    assert(out@ =~= overlapping_output_ids(self.entries@.take(i as int), wgeo)
                        + seq![self.entries@[i as int].output.id]);
                }
            } else {
                proof {
                    assert(out@ =~= overlapping_output_ids(self.entries@.take(i as int), wgeo)
                        + Seq::<u64>::empty());
                }
            }
            i = i + 1;
        }
        proof {
            assert(self.entries@.take(self.entries@.len() as int) =~= self.entries@);
        }
        out
    }
}

} // verus!
