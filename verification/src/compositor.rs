use vstd::prelude::*;

use crate::geometry::COORD_LIMIT;
use crate::output::{
    lemma_reserved_push, reserved, reserved_totals, usable_area, usable_area_spec, LayerSurface,
    ReservedEdge,
};
use crate::pending::{
    pending_has, pending_idx_of, pending_layer_has, pending_layer_idx_of, root_of_spec,
    PendingLayer, PendingWindow,
};
use crate::popup::{first_popup_index, Popup};
use crate::shell::visible_output_spec;
use crate::state::Fht;
use crate::workspace::workspace_refreshed;

verus! {

/// What the protocol side reports about one buffer commit.
#[derive(Clone, Copy, Debug, PartialEq, Eq, Structural)]
pub struct CommitInput {
    pub surface_id: u64,
    /// The committed surface is a synchronized subsurface: its root's
    /// commit accounts for it.
    pub is_sync_subsurface: bool,
    /// The surface has a render buffer attached.
    pub has_buffer: bool,
    /// The attached buffer's external synchronization primitive has
    /// signalled readiness.
    pub buffer_ready: bool,
}

/// What the dispatcher asks the protocol side to carry out after a
/// commit, in order.
#[derive(Clone, Copy, Debug, PartialEq, Eq, Structural)]
pub enum CommitAction {
    /// Processing continues only once the buffer's synchronization
    /// primitive signals readiness.
    DeferUntilBufferReady,
    /// Post a one-shot continuation to the event loop that re-checks
    /// liveness, runs the mapping policy and issues the right configure.
    PostMappingContinuation { surface_id: u64 },
    /// The pending window has a buffer and resolved settings: promote it.
    PromoteWindow { surface_id: u64 },
    /// Send the initial configure to a pending layer surface.
    SendLayerConfigure { surface_id: u64 },
    /// The pending layer surface acknowledged its configure: map it.
    PromoteLayer { surface_id: u64 },
    /// A popup must receive an initial configure before showing content.
    SendPopupConfigure { surface_id: u64 },
    /// Redraw the output currently displaying the surface.
    ScheduleRedraw { output_id: u64 },
}

/// Position of the pending window with this id, if any.
fn try_find_pending_index(pending: &Vec<PendingWindow>, sid: u64) -> (r: Option<usize>)
    requires
        crate::pending::pending_ids_unique(pending@),
    ensures
        match r {
            Some(k) => k < pending@.len() && pending@[k as int].window.id == sid && pending_idx_of(
                pending@,
                sid,
            ) == k as int,
            None => !pending_has(pending@, sid),
        },
{
    let mut k: usize = 0;
    while k < pending.len()
        invariant
            crate::pending::pending_ids_unique(pending@),
            0 <= k <= pending@.len(),
            forall|j: int| 0 <= j < k ==> (#[trigger] pending@[j]).window.id != sid,
        decreases pending@.len() - k,
    {
        if pending[k].window.id == sid {
            proof {
                let w = pending_idx_of(pending@, sid);
                assert(pending@[w].window.id == sid);
                if w != k as int {
                    assert(false);
                }
            }
            return Some(k);
        }
        k = k + 1;
    }
    None
}

/// Position of the pending layer with this id, if any.
fn try_find_pending_layer_index(pending: &Vec<PendingLayer>, sid: u64) -> (r: Option<usize>)
    requires
        crate::pending::pending_layer_ids_unique(pending@),
    ensures
        match r {
            Some(k) => k < pending@.len() && pending@[k as int].layer.id == sid
                && pending_layer_idx_of(pending@, sid) == k as int,
            None => !pending_layer_has(pending@, sid),
        },
{
    let mut k: usize = 0;
    while k < pending.len()
        invariant
            crate::pending::pending_layer_ids_unique(pending@),
            0 <= k <= pending@.len(),
            forall|j: int| 0 <= j < k ==> (#[trigger] pending@[j]).layer.id != sid,
        decreases pending@.len() - k,
    {
        if pending[k].layer.id == sid {
            proof {
                let w = pending_layer_idx_of(pending@, sid);
                assert(pending@[w].layer.id == sid);
                if w != k as int {
                    assert(false);
                }
            }
            return Some(k);
        }
        k = k + 1;
    }
    None
}

impl Fht {
    /// Register a popup surface; it must receive an initial configure
    /// before any content is shown.
    pub fn new_popup(&mut self, surface_id: u64, parent_id: u64, geometry: crate::geometry::Rect)
        requires
            old(self).wf(),
            -COORD_LIMIT <= geometry.x <= COORD_LIMIT,
            -COORD_LIMIT <= geometry.y <= COORD_LIMIT,
            0 <= geometry.w <= COORD_LIMIT,
            0 <= geometry.h <= COORD_LIMIT,
        ensures
            final(self).wf(),
            final(self).popups@ == old(self).popups@.push(
                Popup { surface_id, parent_id, configured: false, geometry },
            ),
            *final(self) == (Fht { popups: final(self).popups, ..*old(self) }),
    {
        self.popups.push(Popup { surface_id, parent_id, configured: false, geometry });
    }

    /// Map a pending layer surface whose initial configure was
    /// acknowledged: insert it into its output's layer map and re-arrange
    /// the output.  A layer bound to an output that is gone, or one whose
    /// exclusive zone cannot fit the output, is dropped: a protocol
    /// violation is ignored at the boundary.
    pub fn map_layer_surface(&mut self, surface_id: u64) -> (mapped: bool)
        requires
            old(self).wf(),
            pending_layer_has(old(self).pending_layers@, surface_id),
        ensures
            final(self).wf(),
            final(self).config == old(self).config,
            final(self).focused_output == old(self).focused_output,
            final(self).focus_target == old(self).focus_target,
            final(self).pending_windows == old(self).pending_windows,
            final(self).popups == old(self).popups,
            final(self).parents == old(self).parents,
            final(self).pending_layers@ == old(self).pending_layers@.remove(
                pending_layer_idx_of(old(self).pending_layers@, surface_id),
            ),
            final(self).entries@.len() == old(self).entries@.len(),
            ({
                let pl = old(self).pending_layers@[pending_layer_idx_of(
                    old(self).pending_layers@,
                    surface_id,
                )];
                if !old(self).has_output(pl.output_id) {
                    !mapped && final(self).entries == old(self).entries
                } else {
                    let pos = old(self).position_of(pl.output_id);
                    let entry = old(self).entries@[pos];
                    let fits = {
                        &&& reserved(entry.layers@.push(pl.layer), ReservedEdge::Left) + reserved(
                            entry.layers@.push(pl.layer),
                            ReservedEdge::Right,
                        ) <= entry.output.geometry.w
                        &&& reserved(entry.layers@.push(pl.layer), ReservedEdge::Top) + reserved(
                            entry.layers@.push(pl.layer),
                            ReservedEdge::Bottom,
                        ) <= entry.output.geometry.h
                    };
                    if fits {
                        let nentry = final(self).entries@[pos];
                        let usable = usable_area_spec(
                            entry.output.geometry,
                            entry.layers@.push(pl.layer),
                        );
                        &&& mapped
                        &&& forall|e: int|
                            0 <= e < old(self).entries@.len() && e != pos ==> #[trigger] final(self)
                                .entries@[e] == old(self).entries@[e]
                        &&& nentry.output == entry.output
                        &&& nentry.layers@ == entry.layers@.push(pl.layer)
                        &&& nentry.wset.active_index == entry.wset.active_index
                        &&& nentry.wset.switch_animation == entry.wset.switch_animation
                        &&& forall|w: int|
                            0 <= w < entry.wset.workspaces@.len() ==> workspace_refreshed(
                                (#[trigger] entry.wset.workspaces@[w]).windows@,
                                entry.wset.workspaces@[w].fullscreen,
                                nentry.wset.workspaces@[w],
                                usable,
                                old(self).config.inner_gaps as int,
                                old(self).config.outer_gaps as int,
                                entry.output.geometry,
                            )
                    } else {
                        !mapped && final(self).entries == old(self).entries
                    }
                }
            }),
    {
        let li = match try_find_pending_layer_index(&self.pending_layers, surface_id) {
            Some(li) => li,
            None => {
                proof {
                    assert(false);
                }
                0
            },
        };
        let pl = self.pending_layers.remove(li);
        let ghost pre = *old(self);
        proof {
            let s = self.pending_layers@;
            assert forall|q: int| 0 <= q < s.len() implies (#[trigger] s[q]).wf() by {
                if q < li as int {
                    assert(s[q] == pre.pending_layers@[q]);
                } else {
                    assert(s[q] == pre.pending_layers@[q + 1]);
                }
            }
            assert forall|k1: int, k2: int|
                #![trigger s[k1].layer.id, s[k2].layer.id]
                0 <= k1 < k2 < s.len() implies s[k1].layer.id != s[k2].layer.id by {
                let f1: int = if k1 < li as int {
                    k1
                } else {
                    k1 + 1
                };
                let f2: int = if k2 < li as int {
                    k2
                } else {
                    k2 + 1
                };
                assert(s[k1] == pre.pending_layers@[f1]);
                assert(s[k2] == pre.pending_layers@[f2]);
            }
        }
        let ghost mid = *self;
        let pos = match self.output_position(pl.output_id) {
            Some(p) => p,
            None => {
                return false;
            },
        };
        proof {
            crate::output::lemma_reserved_nonneg(
                self.entries@[pos as int].layers@,
                ReservedEdge::Left,
            );
            crate::output::lemma_reserved_nonneg(
                self.entries@[pos as int].layers@,
                ReservedEdge::Top,
            );
            crate::output::lemma_reserved_nonneg(
                self.entries@[pos as int].layers@,
                ReservedEdge::Right,
            );
            crate::output::lemma_reserved_nonneg(
                self.entries@[pos as int].layers@,
                ReservedEdge::Bottom,
            );
        }
        let totals = reserved_totals(&self.entries[pos].layers);
        let geometry = self.entries[pos].output.geometry;
        let (dl, dr) = match pl.layer.edge {
            ReservedEdge::Left => (pl.layer.exclusive, 0),
            ReservedEdge::Right => (0, pl.layer.exclusive),
            _ => (0, 0),
        };
        let (dt, db) = match pl.layer.edge {
            ReservedEdge::Top => (pl.layer.exclusive, 0),
            ReservedEdge::Bottom => (0, pl.layer.exclusive),
            _ => (0, 0),
        };
        proof {
            lemma_reserved_push(
                pre.entries@[pos as int].layers@,
                pl.layer,
                ReservedEdge::Left,
            );
            lemma_reserved_push(pre.entries@[pos as int].layers@, pl.layer, ReservedEdge::Right);
            lemma_reserved_push(pre.entries@[pos as int].layers@, pl.layer, ReservedEdge::Top);
            lemma_reserved_push(pre.entries@[pos as int].layers@, pl.layer, ReservedEdge::Bottom);
        }
        if totals.0 + dl + totals.2 + dr > geometry.w || totals.1 + dt + totals.3 + db > geometry.h {
            return false;
        }
        let inner = self.config.inner_gaps;
        let outer = self.config.outer_gaps;
        let mut entry = self.entries.remove(pos);
        entry.layers.push(pl.layer);
        let usable = usable_area(&entry.output.geometry, &entry.layers);
        entry.wset.arrange(usable, inner, outer, geometry);
        self.entries.insert(pos, entry);
        proof {
            assert(self.entries@ =~= mid.entries@.update(pos as int, self.entries@[pos as int]));
            Fht::lemma_wf_after_entry_update(mid, *self, pos as int);
        }
        true
    }

    /// Dispatch one client buffer commit.  A commit whose buffer is not
    /// ready is deferred; a synchronized subsurface's commit is accounted
    /// for by its root.  Otherwise, when the committed surface is its own
    /// root, the pending registries advance: a pending window notes buffer
    /// presence and is either deferred to the mapping continuation or
    /// promoted, a pending layer surface gets its initial configure and is
    /// promoted on the next commit; independently a popup gets its initial
    /// configure once, and the output showing the surface is redrawn.
    #[verifier::rlimit(100)]
    pub fn commit(&mut self, input: CommitInput) -> (actions: Vec<CommitAction>)
        requires
            old(self).wf(),
            old(self).parents@.len() < usize::MAX,
        ensures
            final(self).wf(),
            final(self).config == old(self).config,
            final(self).entries == old(self).entries,
            final(self).focused_output == old(self).focused_output,
            final(self).focus_target == old(self).focus_target,
            final(self).parents == old(self).parents,
            !input.buffer_ready ==> *final(self) == *old(self) && actions@ == seq![
                CommitAction::DeferUntilBufferReady,
            ],
            input.buffer_ready && input.is_sync_subsurface ==> *final(self) == *old(self)
                && actions@.len() == 0,
            input.buffer_ready && !input.is_sync_subsurface ==> ({
                let sid = input.surface_id;
                let root = root_of_spec(old(self).parents@, sid, (old(self).parents@.len() + 1) as nat);
                let win_case = root == sid && pending_has(old(self).pending_windows@, sid);
                let lay_case = root == sid && !win_case && pending_layer_has(
                    old(self).pending_layers@,
                    sid,
                );
                let pw = old(self).pending_windows@[pending_idx_of(old(self).pending_windows@, sid)];
                let pl = old(self).pending_layers@[pending_layer_idx_of(
                    old(self).pending_layers@,
                    sid,
                )];
                &&& if win_case {
                    final(self).pending_windows@ == old(self).pending_windows@.update(
                        pending_idx_of(old(self).pending_windows@, sid),
                        PendingWindow { has_buffer: input.has_buffer, ..pw },
                    )
                } else {
                    final(self).pending_windows == old(self).pending_windows
                }
                &&& if lay_case {
                    final(self).pending_layers@ == old(self).pending_layers@.update(
                        pending_layer_idx_of(old(self).pending_layers@, sid),
                        PendingLayer { configured: true, ..pl },
                    )
                } else {
                    final(self).pending_layers == old(self).pending_layers
                }
                &&& ({
                    let popup_hit = match first_popup_index(old(self).popups@, sid) {
                        Some(pk) => !old(self).popups@[pk].configured,
                        None => false,
                    };
                    &&& if popup_hit {
                        final(self).popups@ == old(self).popups@.update(
                            first_popup_index(old(self).popups@, sid).unwrap(),
                            Popup {
                                configured: true,
                                ..old(self).popups@[first_popup_index(
                                    old(self).popups@,
                                    sid,
                                ).unwrap()]
                            },
                        )
                    } else {
                        final(self).popups == old(self).popups
                    }
                    &&& actions@ == (if win_case {
                        if !input.has_buffer || pw.settings is None {
                            seq![CommitAction::PostMappingContinuation { surface_id: sid }]
                        } else {
                            seq![CommitAction::PromoteWindow { surface_id: sid }]
                        }
                    } else {
                        Seq::<CommitAction>::empty()
                    }) + (if lay_case {
                        if !pl.configured {
                            seq![CommitAction::SendLayerConfigure { surface_id: sid }]
                        } else {
                            seq![CommitAction::PromoteLayer { surface_id: sid }]
                        }
                    } else {
                        Seq::<CommitAction>::empty()
                    }) + (if popup_hit {
                        seq![CommitAction::SendPopupConfigure { surface_id: sid }]
                    } else {
                        Seq::<CommitAction>::empty()
                    }) + (match visible_output_spec(*old(self), sid) {
                        Some(oid) => seq![CommitAction::ScheduleRedraw { output_id: oid }],
                        None => Seq::<CommitAction>::empty(),
                    })
                })
            }),
    {
        let mut actions: Vec<CommitAction> = Vec::new();
        if !input.buffer_ready {
            actions.push(CommitAction::DeferUntilBufferReady);
            proof {
                assert(actions@ =~= seq![CommitAction::DeferUntilBufferReady]);
            }
            return actions;
        }
        if input.is_sync_subsurface {
            return actions;
        }
        let sid = input.surface_id;
        let redraw = self.visible_output_for_surface(sid);
        let root = self.root_of(sid);
        let mut win_case = false;
        if root == sid {
            match try_find_pending_index(&self.pending_windows, sid) {
                Some(pi) => {
                    win_case = true;
                    let ghost pre = *self;
                    let mut p = self.pending_windows.remove(pi);
                    let no_promote = !input.has_buffer || !has_settings(&p);
                    p.has_buffer = input.has_buffer;
                    self.pending_windows.insert(pi, p);
                    proof {
                        assert(self.pending_windows@ =~= pre.pending_windows@.update(
                            pi as int,
                            self.pending_windows@[pi as int],
                        ));
                        Fht::lemma_wf_after_pending_update(pre, *self, pi as int);
                    }
                    if no_promote {
                        actions.push(CommitAction::PostMappingContinuation { surface_id: sid });
                    } else {
                        actions.push(CommitAction::PromoteWindow { surface_id: sid });
                    }
                },
                None => (),
            }
            if !win_case {
                match try_find_pending_layer_index(&self.pending_layers, sid) {
                    Some(li) => {
                        let ghost pre = *self;
                        let mut pl = self.pending_layers.remove(li);
                        let was_configured = pl.configured;
                        pl.configured = true;
                        self.pending_layers.insert(li, pl);
                        proof {
                            assert(self.pending_layers@ =~= pre.pending_layers@.update(
                                li as int,
                                self.pending_layers@[li as int],
                            ));
                            let s = self.pending_layers@;
                            assert forall|q: int| 0 <= q < s.len() implies (#[trigger] s[q]).wf() by {
                                if q != li as int {
                                    assert(s[q] == pre.pending_layers@[q]);
                                }
                            }
                            assert forall|k1: int, k2: int|
                                #![trigger s[k1].layer.id, s[k2].layer.id]
                                0 <= k1 < k2 < s.len() implies s[k1].layer.id != s[k2].layer.id by {
                                assert(s[k1].layer.id == pre.pending_layers@[k1].layer.id);
                                assert(s[k2].layer.id == pre.pending_layers@[k2].layer.id);
                            }
                        }
                        if !was_configured {
                            actions.push(CommitAction::SendLayerConfigure { surface_id: sid });
                        } else {
                            actions.push(CommitAction::PromoteLayer { surface_id: sid });
                        }
                    },
                    None => (),
                }
            }
        }
        match self.find_popup_index(sid) {
            Some(pk) => {
                if !self.popups[pk].configured {
                    let ghost pre = *self;
                    let mut pop = self.popups.remove(pk);
                    pop.configured = true;
                    self.popups.insert(pk, pop);
                    proof {
                        assert(self.popups@ =~= pre.popups@.update(
                            pk as int,
                            self.popups@[pk as int],
                        ));
                        let s = self.popups@;
                        assert forall|q: int| 0 <= q < s.len() implies (#[trigger] s[q]).wf() by {
                            if q != pk as int {
                                assert(s[q] == pre.popups@[q]);
                            }
                        }
                    }
                    actions.push(CommitAction::SendPopupConfigure { surface_id: sid });
                }
            },
            None => (),
        }
        match redraw {
            Some(oid) => {
                actions.push(CommitAction::ScheduleRedraw { output_id: oid });
            },
            None => (),
        }
        actions
    }
}

/// Whether the pending window's settings are resolved.
fn has_settings(p: &PendingWindow) -> (r: bool)
    ensures
        r == (p.settings is Some),
{
    match &p.settings {
        Some(_) => true,
        None => false,
    }
}

} // verus!
