use vstd::prelude::*;

use crate::extmap::{
    output_order, output_set_index_of, output_set_insert, output_set_new, output_set_swap_remove,
    seq_swap_remove,
};
use crate::focus::FocusTarget;
use crate::geometry::{Rect, COORD_LIMIT};
use crate::mapping::RuleEntry;
use crate::output::{reserved, usable_area, usable_area_spec, LayerSurface, OutputInfo, ReservedEdge};
use crate::pending::{
    pending_ids_unique, pending_layer_ids_unique, PendingLayer, PendingWindow,
};
use crate::popup::Popup;
use crate::workspace::{migration_ok, workspace_refreshed};
use crate::wset::WorkspaceSet;

verus! {

/// Static configuration of the engine: workspace layout parameters, focus
/// behaviour, decoration default and the ordered mapping rules.
pub struct Config {
    pub workspace_count: usize,
    pub inner_gaps: i32,
    pub outer_gaps: i32,
    pub focus_new_windows: bool,
    pub cursor_warps: bool,
    pub allow_csd: bool,
    pub switch_animation_duration_ms: u64,
    pub rules: Vec<RuleEntry>,
}

impl Config {
    pub open spec fn wf(self) -> bool {
        &&& 1 <= self.workspace_count <= COORD_LIMIT
        &&& 0 <= self.inner_gaps <= COORD_LIMIT
        &&& 0 <= self.outer_gaps <= COORD_LIMIT
        &&& forall|i: int|
            0 <= i < self.rules@.len() ==> (#[trigger] self.rules@[i]).settings.wf()
    }
}

/// Everything the engine tracks for one registered output: the output's
/// own data, its workspace set and its mapped layer surfaces.
pub struct OutputEntry {
    pub output: OutputInfo,
    pub wset: WorkspaceSet,
    pub layers: Vec<LayerSurface>,
}

impl OutputEntry {
    pub open spec fn wf(self, config: Config) -> bool {
        &&& self.output.wf()
        &&& self.wset.wf()
        &&& self.wset.workspaces@.len() == config.workspace_count
        &&& forall|i: int| 0 <= i < self.layers@.len() ==> (#[trigger] self.layers@[i]).wf()
        &&& reserved(self.layers@, ReservedEdge::Left) + reserved(self.layers@, ReservedEdge::Right)
            <= 2 * COORD_LIMIT
        &&& reserved(self.layers@, ReservedEdge::Top) + reserved(self.layers@, ReservedEdge::Bottom)
            <= 2 * COORD_LIMIT
    }

    /// The output's usable area: its geometry minus reserved zones.
    pub open spec fn usable(self) -> Rect {
        usable_area_spec(self.output.geometry, self.layers@)
    }
}

/// A change notice published on the metrics side-channel, one per changed
/// field of an output.
#[derive(Clone, Copy, Debug, PartialEq, Eq, Structural)]
pub enum OutputNotice {
    LocationChanged { output_id: u64, x: i32, y: i32 },
    SizeChanged { output_id: u64, w: i32, h: i32 },
    RefreshRateChanged { output_id: u64, millihertz: u32 },
    IntegerScaleChanged { output_id: u64, scale: u32 },
    FractionalScaleChanged { output_id: u64, thousandths: u32 },
}

/// What removing an output asks the caller to carry out: signal global
/// shutdown (at most once), send a close notice to each listed layer
/// surface, and note which destination workspaces were re-laid-out.
pub struct RemoveOutcome {
    pub shutdown: bool,
    pub closed_layers: Vec<u64>,
    pub relaid: Vec<usize>,
}

/// The engine state: all registered outputs with their workspace sets, the
/// pending-surface registries, popups, the surface parent index and the
/// focus state.
pub struct Fht {
    pub config: Config,
    pub entries: Vec<OutputEntry>,
    pub output_index: indexmap::IndexSet<u64>,
    pub pending_windows: Vec<PendingWindow>,
    pub pending_layers: Vec<PendingLayer>,
    pub popups: Vec<Popup>,
    /// Acyclic child-to-parent index over surface ids.
    pub parents: Vec<(u64, u64)>,
    pub focused_output: Option<u64>,
    pub focus_target: Option<FocusTarget>,
}

/// The registered output ids in registration order.
pub open spec fn entry_ids(s: Seq<OutputEntry>) -> Seq<u64> {
    s.map_values(|e: OutputEntry| e.output.id)
}

/// Position of the first registered output carrying this name.
pub open spec fn first_output_named(s: Seq<OutputEntry>, name: Seq<char>) -> Option<int>
    decreases s.len(),
{
    if s.len() == 0 {
        None
    } else if s[0].output.name@ == name {
        Some(0)
    } else {
        match first_output_named(s.skip(1), name) {
            Some(i) => Some(i + 1),
            None => None,
        }
    }
}

/// Right edge of the rightmost registered output; a new output is placed
/// there.
pub open spec fn rightmost_edge(s: Seq<OutputEntry>) -> int
    decreases s.len(),
{
    if s.len() == 0 {
        0
    } else {
        let rest = rightmost_edge(s.drop_last());
        let e = s.last().output.geometry.right();
        if e > rest {
            e
        } else {
            rest
        }
    }
}

proof fn lemma_rightmost_edge_step(s: Seq<OutputEntry>, k: int)
    requires
        0 <= k < s.len(),
    ensures
        rightmost_edge(s.take(k + 1)) == if s[k].output.geometry.right() > rightmost_edge(s.take(k)) {
            s[k].output.geometry.right()
        } else {
            rightmost_edge(s.take(k))
        },
{
    assert(s.take(k + 1).drop_last() =~= s.take(k));
    assert(s.take(k + 1).last() == s[k]);
}

impl Fht {
    /// A state differing from a well-formed one only in what one entry's
    /// workspace set holds is well-formed again once that entry is.
    pub(crate) proof fn lemma_wf_after_entry_update(pre: Fht, post: Fht, pos: int)
        requires
            pre.wf(),
            post.config == pre.config,
            post.output_index == pre.output_index,
            forall|p: int|
                0 <= p < post.pending_windows@.len() ==> (#[trigger] post.pending_windows@[p]).wf(),
            pending_ids_unique(post.pending_windows@),
            forall|p: int|
                0 <= p < post.pending_layers@.len() ==> (#[trigger] post.pending_layers@[p]).wf(),
            pending_layer_ids_unique(post.pending_layers@),
            forall|p: int| 0 <= p < post.popups@.len() ==> (#[trigger] post.popups@[p]).wf(),
            post.focused_output == pre.focused_output,
            post.entries@.len() == pre.entries@.len(),
            0 <= pos < pre.entries@.len(),
            forall|j: int|
                0 <= j < pre.entries@.len() && j != pos ==> #[trigger] post.entries@[j]
                    == pre.entries@[j],
            post.entries@[pos].output.id == pre.entries@[pos].output.id,
            post.entries@[pos].wf(pre.config),
        ensures
            post.wf(),
    {
        assert(entry_ids(post.entries@) =~= entry_ids(pre.entries@));
        assert forall|j: int| 0 <= j < post.entries@.len() implies (#[trigger] post.entries@[j]).wf(
            post.config,
        ) by {
            if j != pos {
                assert(post.entries@[j] == pre.entries@[j]);
            }
        }
        assert forall|i: int, j: int|
            #![trigger post.entries@[i].output.id, post.entries@[j].output.id]
            0 <= i < j < post.entries@.len() implies post.entries@[i].output.id
            != post.entries@[j].output.id by {
            assert(post.entries@[i].output.id == pre.entries@[i].output.id);
            assert(post.entries@[j].output.id == pre.entries@[j].output.id);
        }
        match post.focused_output {
            Some(id) => {
                let w = choose|i: int|
                    0 <= i < pre.entries@.len() && (#[trigger] pre.entries@[i]).output.id == id;
                assert(post.entries@[w].output.id == id);
            },
            None => (),
        }
    }

    /// A state differing from a well-formed one only in one pending
    /// window, with the surface id kept, is well-formed again once that
    /// entry is.
    pub(crate) proof fn lemma_wf_after_pending_update(pre: Fht, post: Fht, pos: int)
        requires
            pre.wf(),
            post.config == pre.config,
            post.output_index == pre.output_index,
            post.entries == pre.entries,
            post.pending_layers == pre.pending_layers,
            post.popups == pre.popups,
            post.focused_output == pre.focused_output,
            post.pending_windows@.len() == pre.pending_windows@.len(),
            0 <= pos < pre.pending_windows@.len(),
            forall|q: int|
                0 <= q < pre.pending_windows@.len() && q != pos ==> #[trigger] post
                    .pending_windows@[q] == pre.pending_windows@[q],
            post.pending_windows@[pos].window.id == pre.pending_windows@[pos].window.id,
            post.pending_windows@[pos].wf(),
        ensures
            post.wf(),
    {
        assert forall|q: int| 0 <= q < post.pending_windows@.len() implies (#[trigger] post
            .pending_windows@[q]).wf() by {
            if q != pos {
                assert(post.pending_windows@[q] == pre.pending_windows@[q]);
            }
        }
        assert forall|k1: int, k2: int|
            #![trigger post.pending_windows@[k1].window.id, post.pending_windows@[k2].window.id]
            0 <= k1 < k2 < post.pending_windows@.len() implies post.pending_windows@[k1].window.id
            != post.pending_windows@[k2].window.id by {
            assert(post.pending_windows@[k1].window.id == pre.pending_windows@[k1].window.id);
            assert(post.pending_windows@[k2].window.id == pre.pending_windows@[k2].window.id);
        }
    }

    /// A state differing from a well-formed one only by the removal of
    /// one pending window is well-formed.
    pub(crate) proof fn lemma_wf_after_pending_removal(pre: Fht, post: Fht, pos: int)
        requires
            pre.wf(),
            post.config == pre.config,
            post.output_index == pre.output_index,
            post.entries == pre.entries,
            post.pending_layers == pre.pending_layers,
            post.popups == pre.popups,
            post.focused_output == pre.focused_output,
            0 <= pos < pre.pending_windows@.len(),
            post.pending_windows@ == pre.pending_windows@.remove(pos),
        ensures
            post.wf(),
    {
        assert forall|q: int| 0 <= q < post.pending_windows@.len() implies (#[trigger] post
            .pending_windows@[q]).wf() by {
            if q < pos {
                assert(post.pending_windows@[q] == pre.pending_windows@[q]);
            } else {
                assert(post.pending_windows@[q] == pre.pending_windows@[q + 1]);
            }
        }
        assert forall|k1: int, k2: int|
            #![trigger post.pending_windows@[k1].window.id, post.pending_windows@[k2].window.id]
            0 <= k1 < k2 < post.pending_windows@.len() implies post.pending_windows@[k1].window.id
            != post.pending_windows@[k2].window.id by {
            let f1: int = if k1 < pos {
                k1
            } else {
                k1 + 1
            };
            let f2: int = if k2 < pos {
                k2
            } else {
                k2 + 1
            };
            assert(post.pending_windows@[k1] == pre.pending_windows@[f1]);
            assert(post.pending_windows@[k2] == pre.pending_windows@[f2]);
        }
    }

    /// Some output with this id is registered.
    pub open spec fn has_output(self, id: u64) -> bool {
        exists|i: int| 0 <= i < self.entries@.len() && (#[trigger] self.entries@[i]).output.id == id
    }

    /// Position of the registered output with this id.
    pub open spec fn position_of(self, id: u64) -> int {
        choose|i: int| 0 <= i < self.entries@.len() && (#[trigger] self.entries@[i]).output.id == id
    }

    /// No two registered outputs share an id.
    pub open spec fn unique_output_ids(self) -> bool {
        forall|i: int, j: int|
            #![trigger self.entries@[i].output.id, self.entries@[j].output.id]
            0 <= i < j < self.entries@.len() ==> self.entries@[i].output.id != self.entries@[j].output.id
    }

    /// Well-formed engine state.  Duplicate output registration, mapping
    /// without prior policy resolution and removing an unregistered output
    /// are programming errors, excluded here and fatal at the boundary.
    pub open spec fn wf(self) -> bool {
        &&& self.config.wf()
        &&& output_order(self.output_index) == entry_ids(self.entries@)
        &&& forall|i: int|
            0 <= i < self.entries@.len() ==> (#[trigger] self.entries@[i]).wf(self.config)
        &&& self.unique_output_ids()
        &&& match self.focused_output {
            Some(id) => self.has_output(id),
            None => true,
        }
        &&& forall|p: int|
            0 <= p < self.pending_windows@.len() ==> (#[trigger] self.pending_windows@[p]).wf()
        &&& pending_ids_unique(self.pending_windows@)
        &&& forall|p: int|
            0 <= p < self.pending_layers@.len() ==> (#[trigger] self.pending_layers@[p]).wf()
        &&& pending_layer_ids_unique(self.pending_layers@)
        &&& forall|p: int| 0 <= p < self.popups@.len() ==> (#[trigger] self.popups@[p]).wf()
    }

    /// A fresh engine with no outputs and empty registries.
    pub fn new(config: Config) -> (r: Fht)
        requires
            config.wf(),
        ensures
            r.wf(),
            r.config == config,
            r.entries@.len() == 0,
            r.pending_windows@.len() == 0,
            r.pending_layers@.len() == 0,
            r.popups@.len() == 0,
            r.focused_output is None,
            r.focus_target is None,
    {
        let r = Fht {
            config,
            entries: Vec::new(),
            output_index: output_set_new(),
            pending_windows: Vec::new(),
            pending_layers: Vec::new(),
            popups: Vec::new(),
            parents: Vec::new(),
            focused_output: None,
            focus_target: None,
        };
        proof {
            assert(output_order(r.output_index) =~= entry_ids(r.entries@));
        }
        r
    }

    /// Position of the output with this id, if it is registered.
    pub fn output_position(&self, id: u64) -> (r: Option<usize>)
        requires
            self.wf(),
        ensures
            match r {
                Some(i) => i < self.entries@.len() && self.entries@[i as int].output.id == id
                    && self.position_of(id) == i as int,
                None => !self.has_output(id),
            },
    {
        let r = output_set_index_of(&self.output_index, id);
        proof {
            let order = output_order(self.output_index);
            match r {
                Some(i) => {
                    assert(order[i as int] == entry_ids(self.entries@)[i as int]);
                    let w = self.position_of(id);
                    assert(self.entries@[i as int].output.id == id);
                    assert(0 <= w < self.entries@.len() && self.entries@[w].output.id == id);
                    if w != i as int {
                        assert(false);
                    }
                },
                None => {
                    if self.has_output(id) {
                        let w = choose|i: int|
                            0 <= i < self.entries@.len() && (#[trigger] self.entries@[i]).output.id
                                == id;
                        assert(order[w] == entry_ids(self.entries@)[w]);
                        assert(order.contains(id));
                        assert(false);
                    }
                },
            }
        }
        r
    }

    /// Register an output.  It is placed immediately to the right of the
    /// rightmost existing output, at the top edge, a fresh workspace set is
    /// created for it, and it becomes the focused output.
    pub fn add_output(&mut self, output: OutputInfo)
        requires
            old(self).wf(),
            output.wf(),
            !old(self).has_output(output.id),
            rightmost_edge(old(self).entries@) + output.geometry.w <= COORD_LIMIT,
            output.geometry.h <= COORD_LIMIT,
        ensures
            final(self).wf(),
            final(self).entries@.len() == old(self).entries@.len() + 1,
            forall|i: int|
                0 <= i < old(self).entries@.len() ==> #[trigger] final(self).entries@[i] == old(
                    self,
                ).entries@[i],
            ({
                let e = final(self).entries@.last();
                &&& e.output == (OutputInfo {
                    geometry: Rect {
                        x: rightmost_edge(old(self).entries@) as i32,
                        y: 0,
                        w: output.geometry.w,
                        h: output.geometry.h,
                    },
                    ..output
                })
                &&& e.wset.workspaces@.len() == old(self).config.workspace_count
                &&& e.wset.active_index == 0
                &&& e.wset.switch_animation is None
                &&& forall|w: int|
                    0 <= w < e.wset.workspaces@.len() ==> (#[trigger] e.wset.workspaces@[w])
                        .windows@.len() == 0 && e.wset.workspaces@[w].fullscreen is None
                &&& e.layers@.len() == 0
            }),
            final(self).focused_output == Some(output.id),
            final(self).config == old(self).config,
            final(self).pending_windows == old(self).pending_windows,
            final(self).pending_layers == old(self).pending_layers,
            final(self).popups == old(self).popups,
            final(self).focus_target == old(self).focus_target,
    {
        let ghost pre = *self;
        let mut edge: i32 = 0;
        let mut i: usize = 0;
        proof {
            assert(pre.entries@.take(0) =~= Seq::<OutputEntry>::empty());
        }
        while i < self.entries.len()
            invariant
                *self == pre,
                pre.wf(),
                0 <= i <= pre.entries@.len(),
                edge == rightmost_edge(pre.entries@.take(i as int)),
                0 <= edge <= COORD_LIMIT,
            decreases pre.entries@.len() - i,
        {
            proof {
                lemma_rightmost_edge_step(pre.entries@, i as int);
                assert(pre.entries@[i as int].wf(pre.config));
            }
            let e = &self.entries[i];
            let right = e.output.geometry.x + e.output.geometry.w;
            if right > edge {
                edge = right;
            }
            i = i + 1;
        }
        proof {
            assert(pre.entries@.take(pre.entries@.len() as int) =~= pre.entries@);
        }
        let geometry = Rect { x: edge, y: 0, w: output.geometry.w, h: output.geometry.h };
        let info = OutputInfo { geometry, ..output };
        let id = info.id;
        let wset = WorkspaceSet::new(self.config.workspace_count);
        let fresh = output_set_insert(&mut self.output_index, id);
        proof {
            let order = output_order(pre.output_index);
            if order.contains(id) {
                let w = choose|j: int| 0 <= j < order.len() && order[j] == id;
                assert(order[w] == entry_ids(pre.entries@)[w]);
                assert(pre.entries@[w].output.id == id);
                assert(false);
            }
        }
        let layers: Vec<LayerSurface> = Vec::new();
        proof {
            assert(layers@ =~= Seq::<LayerSurface>::empty());
            assert(reserved(layers@, ReservedEdge::Left) == 0);
            assert(reserved(layers@, ReservedEdge::Right) == 0);
            assert(reserved(layers@, ReservedEdge::Top) == 0);
            assert(reserved(layers@, ReservedEdge::Bottom) == 0);
        }
        self.entries.push(OutputEntry { output: info, wset, layers });
        self.focused_output = Some(id);
        proof {
            assert(output_order(self.output_index) =~= entry_ids(self.entries@));
            let n = self.entries@.len();
            assert forall|a: int, b: int|
                #![trigger self.entries@[a].output.id, self.entries@[b].output.id]
                0 <= a < b < n implies self.entries@[a].output.id != self.entries@[b].output.id by {
                if b == n - 1 {
                    assert(self.entries@[a] == pre.entries@[a]);
                }
            }
            assert(self.entries@.last().wf(self.config));
            assert forall|j: int| 0 <= j < n implies (#[trigger] self.entries@[j]).wf(
                self.config,
            ) by {
                if j < n - 1 {
                    assert(self.entries@[j] == pre.entries@[j]);
                }
            }
        }
    }

    /// The focused output, falling back to the first registered one.
    pub fn active_output(&self) -> (r: Option<u64>)
        requires
            self.wf(),
        ensures
            match self.focused_output {
                Some(id) => r == Some(id),
                None => {
                    if self.entries@.len() > 0 {
                        r == Some(self.entries@[0].output.id)
                    } else {
                        r is None
                    }
                },
            },
            match r {
                Some(id) => self.has_output(id),
                None => self.entries@.len() == 0,
            },
    {
        match self.focused_output {
            Some(id) => Some(id),
            None => {
                if self.entries.len() > 0 {
                    Some(self.entries[0].output.id)
                } else {
                    None
                }
            },
        }
    }

    /// The output with this name; the name `active` selects the focused
    /// output.
    pub fn output_named(&self, name: &String) -> (r: Option<u64>)
        requires
            self.wf(),
        ensures
            match r {
                Some(id) => self.has_output(id),
                None => true,
            },
            name@ != "active"@ ==> match r {
                Some(id) => match first_output_named(self.entries@, name@) {
                    Some(i) => id == self.entries@[i].output.id,
                    None => false,
                },
                None => first_output_named(self.entries@, name@) is None,
            },
            name@ == "active"@ ==> match self.focused_output {
                Some(f) => r == Some(f),
                None => {
                    if self.entries@.len() > 0 {
                        r == Some(self.entries@[0].output.id)
                    } else {
                        r is None
                    }
                },
            },
    {
        let active: String = "active".to_owned();
        if *name == active {
            proof {
                assert(name@ == "active"@);
            }
            return self.active_output();
        }
        let mut i: usize = 0;
        proof {
            assert(self.entries@.skip(0) =~= self.entries@);
        }
        while i < self.entries.len()
            invariant
                self.wf(),
                name@ != "active"@,
                0 <= i <= self.entries@.len(),
                first_output_named(self.entries@, name@) == match first_output_named(
                    self.entries@.skip(i as int),
                    name@,
                ) {
                    Some(j) => Some(j + i),
                    None => None::<int>,
                },
            decreases self.entries@.len() - i,
        {
            proof {
                assert(self.entries@.skip(i as int)[0] == self.entries@[i as int]);
                assert(self.entries@.skip(i as int).skip(1) =~= self.entries@.skip(i as int + 1));
            }
            if self.entries[i].output.name == *name {
                return Some(self.entries[i].output.id);
            }
            i = i + 1;
        }
        proof {
            assert(self.entries@.skip(self.entries@.len() as int).len() == 0);
        }
        None
    }

    /// No workspace of any registered output holds a window with this id.
    pub open spec fn mapped_nowhere(self, id: u64) -> bool {
        forall|i: int|
            0 <= i < self.entries@.len() ==> !(#[trigger] self.entries@[i]).wset.holds_id(id)
    }

    /// Handle the one inbound metrics request: switch this output's active
    /// workspace, animated per the configured switch duration.
    pub fn handle_ipc_output_request(&mut self, output_id: u64, index: usize, now: u64)
        requires
            old(self).wf(),
            old(self).has_output(output_id),
        ensures
            final(self).wf(),
            ({
                let pos = old(self).position_of(output_id);
                let ws = old(self).entries@[pos].wset;
                let target = if index < ws.workspaces@.len() {
                    index as int
                } else {
                    ws.workspaces@.len() - 1
                };
                let nws = final(self).entries@[pos].wset;
                &&& forall|i: int|
                    0 <= i < old(self).entries@.len() && i != pos ==> #[trigger] final(self)
                        .entries@[i] == old(self).entries@[i]
                &&& final(self).entries@[pos].output == old(self).entries@[pos].output
                &&& final(self).entries@[pos].layers == old(self).entries@[pos].layers
                &&& nws.workspaces == ws.workspaces
                &&& if old(self).config.switch_animation_duration_ms == 0 {
                    nws.active_index == target && nws.switch_animation == ws.switch_animation
                } else {
                    nws.active_index == ws.active_index && nws.switch_animation == Some(
                        crate::wset::SwitchAnimation {
                            from_index: ws.active_index,
                            to_index: target as usize,
                            start_time: now,
                            duration: old(self).config.switch_animation_duration_ms,
                        },
                    )
                }
            }),
            final(self).entries@.len() == old(self).entries@.len(),
            final(self).config == old(self).config,
            final(self).focused_output == old(self).focused_output,
    {
        let pos = match self.output_position(output_id) {
            Some(p) => p,
            None => {
                proof {
                    assert(false);
                }
                0
            },
        };
        let duration = self.config.switch_animation_duration_ms;
        let mut entry = self.entries.remove(pos);
        entry.wset.set_active_index(index, now, duration);
        self.entries.insert(pos, entry);
        proof {
            assert(self.entries@ =~= old(self).entries@.update(
                pos as int,
                self.entries@[pos as int],
            ));
            Self::lemma_wf_after_entry_update(*old(self), *self, pos as int);
        }
    }

    /// Drive the switch animation of this output's workspace set: the
    /// active index flips to the target in one atomic step exactly when the
    /// animation's duration has elapsed.
    pub fn advance_animations(&mut self, output_id: u64, now: u64)
        requires
            old(self).wf(),
            old(self).has_output(output_id),
        ensures
            final(self).wf(),
            ({
                let pos = old(self).position_of(output_id);
                let ws = old(self).entries@[pos].wset;
                let nws = final(self).entries@[pos].wset;
                &&& forall|i: int|
                    0 <= i < old(self).entries@.len() && i != pos ==> #[trigger] final(self)
                        .entries@[i] == old(self).entries@[i]
                &&& final(self).entries@[pos].output == old(self).entries@[pos].output
                &&& final(self).entries@[pos].layers == old(self).entries@[pos].layers
                &&& nws.workspaces == ws.workspaces
                &&& match ws.switch_animation {
                    Some(anim) => {
                        if now >= anim.start_time && now - anim.start_time >= anim.duration {
                            nws.active_index == anim.to_index && nws.switch_animation is None
                        } else {
                            nws.active_index == ws.active_index && nws.switch_animation == ws
                                .switch_animation
                        }
                    },
                    None => nws == ws,
                }
            }),
            final(self).entries@.len() == old(self).entries@.len(),
            final(self).config == old(self).config,
            final(self).focused_output == old(self).focused_output,
    {
        let pos = match self.output_position(output_id) {
            Some(p) => p,
            None => {
                proof {
                    assert(false);
                }
                0
            },
        };
        let mut entry = self.entries.remove(pos);
        entry.wset.advance_animations(now);
        self.entries.insert(pos, entry);
        proof {
            assert(self.entries@ =~= old(self).entries@.update(
                pos as int,
                self.entries@[pos as int],
            ));
            Self::lemma_wf_after_entry_update(*old(self), *self, pos as int);
        }
    }
}

} // verus!

use vstd::prelude::*;

verus! {

/// Change notices owed after an output's state changed to the given
/// values: one notice per changed field only, in a fixed field order.
pub open spec fn output_notices_spec(
    o: OutputInfo,
    geometry: Rect,
    refresh: u32,
    iscale: u32,
    fscale: u32,
) -> Seq<OutputNotice> {
    let a: Seq<OutputNotice> = if o.geometry.x != geometry.x || o.geometry.y != geometry.y {
        seq![OutputNotice::LocationChanged { output_id: o.id, x: geometry.x, y: geometry.y }]
    } else {
        Seq::empty()
    };
    let b: Seq<OutputNotice> = if o.geometry.w != geometry.w || o.geometry.h != geometry.h {
        seq![OutputNotice::SizeChanged { output_id: o.id, w: geometry.w, h: geometry.h }]
    } else {
        Seq::empty()
    };
    let c: Seq<OutputNotice> = if o.refresh_millihertz != refresh {
        seq![OutputNotice::RefreshRateChanged { output_id: o.id, millihertz: refresh }]
    } else {
        Seq::empty()
    };
    let d: Seq<OutputNotice> = if o.integer_scale != iscale {
        seq![OutputNotice::IntegerScaleChanged { output_id: o.id, scale: iscale }]
    } else {
        Seq::empty()
    };
    let e: Seq<OutputNotice> = if o.fractional_scale_thousandths != fscale {
        seq![OutputNotice::FractionalScaleChanged { output_id: o.id, thousandths: fscale }]
    } else {
        Seq::empty()
    };
    a + b + c + d + e
}

/// Ids of the given layer surfaces, in order.
fn layer_ids(layers: &Vec<LayerSurface>) -> (r: Vec<u64>)
    ensures
        r@ == layers@.map_values(|l: LayerSurface| l.id),
{
    let mut out: Vec<u64> = Vec::new();
    let mut k: usize = 0;
    while k < layers.len()
        invariant
            0 <= k <= layers@.len(),
            out@ == layers@.map_values(|l: LayerSurface| l.id).take(k as int),
        decreases layers@.len() - k,
    {
        out.push(layers[k].id);
        proof {
            let ids = layers@.map_values(|l: LayerSurface| l.id);
            assert(ids.take(k as int).push(ids[k as int]) =~= ids.take(k as int + 1));
            assert(out@ =~= ids.take(k as int + 1));
        }
        k = k + 1;
    }
    proof {
        let ids = layers@.map_values(|l: LayerSurface| l.id);
        assert(ids.take(ids.len() as int) =~= ids);
    }
    out
}

/// Removing one element by swap from a sequence of entries with pairwise
/// distinct output ids leaves the ids pairwise distinct.
proof fn lemma_unique_after_swap_remove(s: Seq<OutputEntry>, pos: int)
    requires
        0 <= pos < s.len(),
        forall|i: int, j: int|
            #![trigger s[i].output.id, s[j].output.id]
            0 <= i < j < s.len() ==> s[i].output.id != s[j].output.id,
    ensures
        forall|i: int, j: int|
            #![trigger seq_swap_remove(s, pos)[i].output.id, seq_swap_remove(s, pos)[j].output.id]
            0 <= i < j < seq_swap_remove(s, pos).len() ==> seq_swap_remove(s, pos)[i].output.id
                != seq_swap_remove(s, pos)[j].output.id,
{
    let t = seq_swap_remove(s, pos);
    assert forall|i: int, j: int|
        #![trigger t[i].output.id, t[j].output.id]
        0 <= i < j < t.len() implies t[i].output.id != t[j].output.id by {
        if i == pos {
            assert(t[i] == s[s.len() - 1]);
        } else {
            assert(t[i] == s[i]);
        }
        if j == pos {
            assert(t[j] == s[s.len() - 1]);
        } else {
            assert(t[j] == s[j]);
        }
    }
}

impl Fht {
    /// Unregister an output.  Removing the sole output signals global
    /// shutdown, exactly once, and stops.  Otherwise each of its
    /// workspaces' windows moves, in stacking order, into the same-index
    /// workspace of the first remaining output, each touched destination
    /// workspace is re-laid-out exactly once, and every layer surface of
    /// the removed output gets an explicit close notice.
    pub fn remove_output(&mut self, id: u64) -> (r: RemoveOutcome)
        requires
            old(self).wf(),
            old(self).has_output(id),
            old(self).entries@.len() > 1 ==> ({
                let pos = old(self).position_of(id);
                let removed = old(self).entries@[pos];
                let dest = seq_swap_remove(old(self).entries@, pos)[0];
                &&& migration_ok(dest.wset.workspaces@, removed.wset.workspaces@)
                &&& forall|w: int|
                    0 <= w < removed.wset.workspaces@.len() ==> (#[trigger] removed
                        .wset
                        .workspaces@[w]).windows@.len() + dest.wset.workspaces@[w].windows@.len()
                        <= COORD_LIMIT
            }),
        ensures
            final(self).wf(),
            r.shutdown == (old(self).entries@.len() == 1),
            final(self).config == old(self).config,
            final(self).pending_windows == old(self).pending_windows,
            final(self).pending_layers == old(self).pending_layers,
            final(self).popups == old(self).popups,
            old(self).entries@.len() == 1 ==> final(self).entries@.len() == 0 && final(self)
                .focused_output is None && r.closed_layers@.len() == 0 && r.relaid@.len() == 0,
            old(self).entries@.len() > 1 ==> ({
                let pos = old(self).position_of(id);
                let removed = old(self).entries@[pos];
                let interim = seq_swap_remove(old(self).entries@, pos);
                let dest = interim[0];
                &&& final(self).entries@.len() == old(self).entries@.len() - 1
                &&& forall|i: int|
                    1 <= i < final(self).entries@.len() ==> #[trigger] final(self).entries@[i]
                        == interim[i]
                &&& final(self).entries@[0].output == dest.output
                &&& final(self).entries@[0].layers == dest.layers
                &&& final(self).entries@[0].wset.active_index == dest.wset.active_index
                &&& final(self).entries@[0].wset.switch_animation == dest.wset.switch_animation
                &&& forall|w: int|
                    0 <= w < dest.wset.workspaces@.len() ==> workspace_refreshed(
                        (#[trigger] dest.wset.workspaces@[w]).windows@
                            + removed.wset.workspaces@[w].windows@,
                        dest.wset.workspaces@[w].fullscreen,
                        final(self).entries@[0].wset.workspaces@[w],
                        usable_area_spec(dest.output.geometry, dest.layers@),
                        old(self).config.inner_gaps as int,
                        old(self).config.outer_gaps as int,
                        dest.output.geometry,
                    )
                &&& r.closed_layers@ == removed.layers@.map_values(|l: LayerSurface| l.id)
                &&& r.relaid@.len() == old(self).config.workspace_count
                &&& forall|w: int| 0 <= w < r.relaid@.len() ==> #[trigger] r.relaid@[w] == w
                &&& final(self).focused_output == (if old(self).focused_output == Some(id) {
                    Some(dest.output.id)
                } else {
                    old(self).focused_output
                })
            }),
    {
        let pos = match self.output_position(id) {
            Some(p) => p,
            None => {
                proof {
                    assert(false);
                }
                0
            },
        };
        let ghost pre = *self;
        if self.entries.len() == 1 {
            self.entries.clear();
            let removed_flag = output_set_swap_remove(&mut self.output_index, id);
            proof {
                let order = output_order(pre.output_index);
                assert(order[pos as int] == entry_ids(pre.entries@)[pos as int]);
                assert(order.contains(id));
                assert(output_order(self.output_index) == seq_swap_remove(order, pos as int));
                assert(output_order(self.output_index) =~= entry_ids(self.entries@));
            }
            self.focused_output = None;
            return RemoveOutcome { shutdown: true, closed_layers: Vec::new(), relaid: Vec::new() };
        }
        let removed = self.entries.swap_remove(pos);
        let removed_flag = output_set_swap_remove(&mut self.output_index, id);
        proof {
            let order = output_order(pre.output_index);
            assert(order[pos as int] == entry_ids(pre.entries@)[pos as int]);
            assert(order.contains(id));
            assert(output_order(self.output_index) == seq_swap_remove(order, pos as int));
            assert(output_order(self.output_index) =~= entry_ids(self.entries@));
            lemma_unique_after_swap_remove(pre.entries@, pos as int);
            assert forall|i: int| 0 <= i < self.entries@.len() implies (#[trigger] self
                .entries@[i]).wf(self.config) by {
                if i == pos as int {
                    assert(self.entries@[i] == pre.entries@[pre.entries@.len() - 1]);
                } else {
                    assert(self.entries@[i] == pre.entries@[i]);
                }
            }
        }
        let closed = layer_ids(&removed.layers);
        let usable = usable_area(&self.entries[0].output.geometry, &self.entries[0].layers);
        let inner = self.config.inner_gaps;
        let outer = self.config.outer_gaps;
        let ghost interim = *self;
        let mut entry0 = self.entries.remove(0);
        let geo = entry0.output.geometry;
        let relaid = entry0.wset.absorb(removed.wset.workspaces, usable, inner, outer, geo);
        self.entries.insert(0, entry0);
        proof {
            assert(self.entries@ =~= interim.entries@.update(0, self.entries@[0]));
        }
        let refocus = match self.focused_output {
            Some(f) => f == id,
            None => false,
        };
        if refocus {
            let nid = self.entries[0].output.id;
            self.focused_output = Some(nid);
        }
        proof {
            let t = seq_swap_remove(pre.entries@, pos as int);
            assert(entry_ids(self.entries@) =~= entry_ids(interim.entries@));
            assert forall|i: int| 0 <= i < self.entries@.len() implies (#[trigger] self
                .entries@[i]).wf(self.config) by {
                if i != 0 {
                    assert(self.entries@[i] == interim.entries@[i]);
                }
            }
            assert forall|i: int, j: int|
                #![trigger self.entries@[i].output.id, self.entries@[j].output.id]
                0 <= i < j < self.entries@.len() implies self.entries@[i].output.id != self
                .entries@[j].output.id by {
                assert(self.entries@[i].output.id == interim.entries@[i].output.id);
                assert(self.entries@[j].output.id == interim.entries@[j].output.id);
            }
            match self.focused_output {
                Some(f) => {
                    if !refocus {
                        let w = choose|i: int|
                            0 <= i < pre.entries@.len() && (#[trigger] pre.entries@[i]).output.id
                                == f;
                        if w == pos as int {
                            assert(false);
                        } else if w == pre.entries@.len() - 1 {
                            assert(self.entries@[pos as int].output.id == f);
                        } else {
                            assert(self.entries@[w].output.id == f);
                        }
                    } else {
                        assert(self.entries@[0].output.id == f);
                    }
                },
                None => (),
            }
        }
        RemoveOutcome { shutdown: false, closed_layers: closed, relaid }
    }

    /// Apply a change of geometry, mode or scale to an output: the
    /// workspace set and the layer arrangement are recomputed and one
    /// change notice per changed metric field is owed to observers.
    /// Reserved zones that no longer fit the new geometry clamp the usable
    /// area to a degenerate strip rather than making the change illegal.
    pub fn update_output(
        &mut self,
        id: u64,
        geometry: Rect,
        refresh_millihertz: u32,
        integer_scale: u32,
        fractional_scale_thousandths: u32,
    ) -> (notices: Vec<OutputNotice>)
        requires
            old(self).wf(),
            old(self).has_output(id),
            geometry.wf(),
        ensures
            final(self).wf(),
            final(self).entries@.len() == old(self).entries@.len(),
            final(self).config == old(self).config,
            final(self).focused_output == old(self).focused_output,
            final(self).pending_windows == old(self).pending_windows,
            final(self).pending_layers == old(self).pending_layers,
            final(self).popups == old(self).popups,
            ({
                let pos = old(self).position_of(id);
                let entry = old(self).entries@[pos];
                let nentry = final(self).entries@[pos];
                &&& forall|i: int|
                    0 <= i < old(self).entries@.len() && i != pos ==> #[trigger] final(self)
                        .entries@[i] == old(self).entries@[i]
                &&& nentry.output == (OutputInfo {
                    geometry,
                    refresh_millihertz,
                    integer_scale,
                    fractional_scale_thousandths,
                    ..entry.output
                })
                &&& nentry.layers == entry.layers
                &&& nentry.wset.active_index == entry.wset.active_index
                &&& nentry.wset.switch_animation == entry.wset.switch_animation
                &&& forall|w: int|
                    0 <= w < entry.wset.workspaces@.len() ==> workspace_refreshed(
                        (#[trigger] entry.wset.workspaces@[w]).windows@,
                        entry.wset.workspaces@[w].fullscreen,
                        nentry.wset.workspaces@[w],
                        usable_area_spec(geometry, entry.layers@),
                        old(self).config.inner_gaps as int,
                        old(self).config.outer_gaps as int,
                        geometry,
                    )
                &&& notices@ == output_notices_spec(
                    entry.output,
                    geometry,
                    refresh_millihertz,
                    integer_scale,
                    fractional_scale_thousandths,
                )
            }),
    {
        let pos = match self.output_position(id) {
            Some(p) => p,
            None => {
                proof {
                    assert(false);
                }
                0
            },
        };
        let mut notices: Vec<OutputNotice> = Vec::new();
        let inner = self.config.inner_gaps;
        let outer = self.config.outer_gaps;
        let mut entry = self.entries.remove(pos);
        if entry.output.geometry.x != geometry.x || entry.output.geometry.y != geometry.y {
            notices.push(
                OutputNotice::LocationChanged { output_id: entry.output.id, x: geometry.x, y: geometry.y },
            );
        }
        if entry.output.geometry.w != geometry.w || entry.output.geometry.h != geometry.h {
            notices.push(
                OutputNotice::SizeChanged { output_id: entry.output.id, w: geometry.w, h: geometry.h },
            );
        }
        if entry.output.refresh_millihertz != refresh_millihertz {
            notices.push(
                OutputNotice::RefreshRateChanged {
                    output_id: entry.output.id,
                    millihertz: refresh_millihertz,
                },
            );
        }
        if entry.output.integer_scale != integer_scale {
            notices.push(
                OutputNotice::IntegerScaleChanged { output_id: entry.output.id, scale: integer_scale },
            );
        }
        if entry.output.fractional_scale_thousandths != fractional_scale_thousandths {
            notices.push(
                OutputNotice::FractionalScaleChanged {
                    output_id: entry.output.id,
                    thousandths: fractional_scale_thousandths,
                },
            );
        }
        proof {
            assert(notices@ =~= output_notices_spec(
                old(self).entries@[pos as int].output,
                geometry,
                refresh_millihertz,
                integer_scale,
                fractional_scale_thousandths,
            ));
        }
        entry.output.geometry = geometry;
        entry.output.refresh_millihertz = refresh_millihertz;
        entry.output.integer_scale = integer_scale;
        entry.output.fractional_scale_thousandths = fractional_scale_thousandths;
        let usable = usable_area(&entry.output.geometry, &entry.layers);
        entry.wset.arrange(usable, inner, outer, geometry);
        self.entries.insert(pos, entry);
        proof {
            assert(self.entries@ =~= old(self).entries@.update(
                pos as int,
                self.entries@[pos as int],
            ));
            Self::lemma_wf_after_entry_update(*old(self), *self, pos as int);
        }
        notices
    }
}

} // verus!
