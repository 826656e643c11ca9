use vstd::prelude::*;

use crate::geometry::{Rect, COORD_LIMIT, GEOM_LIMIT};
use crate::workspace::{migration_ok, tiled_count, workspace_refreshed, Window, Workspace};
use crate::workspace::lemma_merged_wf;

verus! {

/// A workspace switch in progress.  `active_index` stays at `from_index`
/// until the animation has run for `duration` milliseconds, then flips to
/// `to_index` in one step.
#[derive(Clone, Copy, Debug, PartialEq, Eq, Structural)]
pub struct SwitchAnimation {
    pub from_index: usize,
    pub to_index: usize,
    pub start_time: u64,
    pub duration: u64,
}

/// The ordered workspaces of one output, the active index, and the switch
/// animation state.
pub struct WorkspaceSet {
    pub workspaces: Vec<Workspace>,
    pub active_index: usize,
    pub switch_animation: Option<SwitchAnimation>,
}

impl WorkspaceSet {
    /// Well-formed: at least one workspace, the active index always in
    /// range, every workspace well-formed, animation indices in range.
    pub open spec fn wf(self) -> bool {
        &&& 1 <= self.workspaces@.len()
        &&& self.active_index < self.workspaces@.len()
        &&& forall|i: int| 0 <= i < self.workspaces@.len() ==> (#[trigger] self.workspaces@[i]).wf()
        &&& match self.switch_animation {
            Some(anim) => anim.from_index < self.workspaces@.len() && anim.to_index
                < self.workspaces@.len(),
            None => true,
        }
    }

    /// Some workspace of this set holds a window with this id.
    pub open spec fn holds_id(self, id: u64) -> bool {
        exists|i: int| 0 <= i < self.workspaces@.len() && (#[trigger] self.workspaces@[i]).holds_id(id)
    }

    /// A fresh set of `count` empty workspaces, the first one active.
    pub fn new(count: usize) -> (ws: WorkspaceSet)
        requires
            1 <= count <= COORD_LIMIT,
        ensures
            ws.wf(),
            ws.workspaces@.len() == count,
            ws.active_index == 0,
            ws.switch_animation is None,
            forall|i: int|
                0 <= i < count ==> (#[trigger] ws.workspaces@[i]).windows@.len() == 0 && ws
                    .workspaces@[i].fullscreen is None,
    {
        let mut workspaces: Vec<Workspace> = Vec::new();
        let mut i: usize = 0;
        while i < count
            invariant
                0 <= i <= count,
                workspaces@.len() == i,
                forall|j: int|
                    0 <= j < i ==> (#[trigger] workspaces@[j]).wf() && workspaces@[j].windows@.len()
                        == 0 && workspaces@[j].fullscreen is None,
            decreases count - i,
        {
            workspaces.push(Workspace::new());
            i = i + 1;
        }
        WorkspaceSet { workspaces, active_index: 0, switch_animation: None }
    }

    /// The workspace currently shown.
    pub fn active(&self) -> (ws: &Workspace)
        requires
            self.wf(),
        ensures
            ws == self.workspaces@[self.active_index as int],
    {
        &self.workspaces[self.active_index]
    }

    /// Request the workspace at `index` (clamped into range).  With a zero
    /// duration the active index flips at once; otherwise a switch
    /// animation is recorded and the active index stays put until it has
    /// elapsed.
    pub fn set_active_index(&mut self, index: usize, now: u64, duration: u64)
        requires
            old(self).wf(),
        ensures
            final(self).wf(),
            final(self).workspaces == old(self).workspaces,
            ({
                let target = if index < old(self).workspaces@.len() {
                    index as int
                } else {
                    old(self).workspaces@.len() - 1
                };
                if duration == 0 {
                    final(self).active_index == target && final(self).switch_animation == old(
                        self,
                    ).switch_animation
                } else {
                    final(self).active_index == old(self).active_index && final(self)
                        .switch_animation == Some(
                        SwitchAnimation {
                            from_index: old(self).active_index,
                            to_index: target as usize,
                            start_time: now,
                            duration,
                        },
                    )
                }
            }),
    {
        let target = if index < self.workspaces.len() {
            index
        } else {
            self.workspaces.len() - 1
        };
        if duration == 0 {
            self.active_index = target;
        } else {
            self.switch_animation = Some(
                SwitchAnimation {
                    from_index: self.active_index,
                    to_index: target,
                    start_time: now,
                    duration,
                },
            );
        }
    }

    /// Drive the switch animation.  The active index flips to the target in
    /// exactly one step, at the first call whose time has reached
    /// `start_time + duration`; before that nothing changes.
    pub fn advance_animations(&mut self, now: u64)
        requires
            old(self).wf(),
        ensures
            final(self).wf(),
            final(self).workspaces == old(self).workspaces,
            match old(self).switch_animation {
                Some(anim) => {
                    if now >= anim.start_time && now - anim.start_time >= anim.duration {
                        &&& final(self).active_index == anim.to_index
                        &&& final(self).switch_animation is None
                    } else {
                        &&& final(self).active_index == old(self).active_index
                        &&& final(self).switch_animation == old(self).switch_animation
                    }
                },
                None => *final(self) == *old(self),
            },
    {
        let finished = match &self.switch_animation {
            Some(anim) => now >= anim.start_time && now - anim.start_time >= anim.duration,
            None => false,
        };
        if finished {
            let anim = self.switch_animation.take();
            match anim {
                Some(anim) => {
                    self.active_index = anim.to_index;
                },
                None => (),
            }
        }
    }

    /// Re-partition every workspace of this set over the given usable area:
    /// the whole arrangement of an output is recomputed from current
    /// membership whenever its geometry or reserved zones change.
    pub fn arrange(&mut self, usable: Rect, inner_gap: i32, outer_gap: i32, output_geo: Rect)
        requires
            old(self).wf(),
            usable.wf(),
            output_geo.wf(),
            0 <= inner_gap <= COORD_LIMIT,
            0 <= outer_gap <= COORD_LIMIT,
            forall|i: int|
                0 <= i < old(self).workspaces@.len() ==> (#[trigger] old(
                    self,
                ).workspaces@[i]).windows@.len() <= COORD_LIMIT,
        ensures
            final(self).wf(),
            final(self).workspaces@.len() == old(self).workspaces@.len(),
            final(self).active_index == old(self).active_index,
            final(self).switch_animation == old(self).switch_animation,
            forall|i: int|
                0 <= i < old(self).workspaces@.len() ==> workspace_refreshed(
                    old(self).workspaces@[i].windows@,
                    old(self).workspaces@[i].fullscreen,
                    #[trigger] final(self).workspaces@[i],
                    usable,
                    inner_gap as int,
                    outer_gap as int,
                    output_geo,
                ),
    {
        let mut i: usize = 0;
        while i < self.workspaces.len()
            invariant
                usable.wf(),
                output_geo.wf(),
                0 <= inner_gap <= COORD_LIMIT,
                0 <= outer_gap <= COORD_LIMIT,
                self.workspaces@.len() == old(self).workspaces@.len(),
                self.active_index == old(self).active_index,
                self.switch_animation == old(self).switch_animation,
                old(self).wf(),
                forall|j: int|
                    0 <= j < old(self).workspaces@.len() ==> (#[trigger] old(
                        self,
                    ).workspaces@[j]).windows@.len() <= COORD_LIMIT,
                0 <= i <= self.workspaces@.len(),
                forall|j: int|
                    i <= j < self.workspaces@.len() ==> #[trigger] self.workspaces@[j] == old(
                        self,
                    ).workspaces@[j],
                forall|j: int|
                    0 <= j < i ==> (#[trigger] self.workspaces@[j]).wf() && workspace_refreshed(
                        old(self).workspaces@[j].windows@,
                        old(self).workspaces@[j].fullscreen,
                        self.workspaces@[j],
                        usable,
                        inner_gap as int,
                        outer_gap as int,
                        output_geo,
                    ),
            decreases self.workspaces@.len() - i,
        {
            let mut ws = self.workspaces.remove(i);
            ws.refresh_geometries(usable, inner_gap, outer_gap, output_geo);
            self.workspaces.insert(i, ws);
            proof {
                assert forall|j: int| i + 1 <= j < self.workspaces@.len() implies #[trigger] self
                    .workspaces@[j] == old(self).workspaces@[j] by {}
            }
            i = i + 1;
        }
        proof {
            assert(self.active_index < self.workspaces@.len());
        }
    }

    /// Absorb the workspaces of a removed output's set, index by index: the
    /// donor's workspace `i` windows are appended, in their stacking order,
    /// to this set's workspace `i`, and each destination workspace is then
    /// re-partitioned exactly once.  The list of workspace indices that were
    /// re-laid-out comes back.
    pub fn absorb(
        &mut self,
        donor: Vec<Workspace>,
        usable: Rect,
        inner_gap: i32,
        outer_gap: i32,
        output_geo: Rect,
    ) -> (relaid: Vec<usize>)
        requires
            old(self).wf(),
            usable.wf(),
            output_geo.wf(),
            0 <= inner_gap <= COORD_LIMIT,
            0 <= outer_gap <= COORD_LIMIT,
            donor@.len() == old(self).workspaces@.len(),
            forall|i: int| 0 <= i < donor@.len() ==> (#[trigger] donor@[i]).wf(),
            forall|i: int|
                0 <= i < donor@.len() ==> (#[trigger] donor@[i]).windows@.len() + old(
                    self,
                ).workspaces@[i].windows@.len() <= COORD_LIMIT,
            migration_ok(old(self).workspaces@, donor@),
        ensures
            final(self).wf(),
            final(self).workspaces@.len() == old(self).workspaces@.len(),
            final(self).active_index == old(self).active_index,
            final(self).switch_animation == old(self).switch_animation,
            forall|i: int|
                0 <= i < old(self).workspaces@.len() ==> workspace_refreshed(
                    old(self).workspaces@[i].windows@ + donor@[i].windows@,
                    old(self).workspaces@[i].fullscreen,
                    #[trigger] final(self).workspaces@[i],
                    usable,
                    inner_gap as int,
                    outer_gap as int,
                    output_geo,
                ),
            relaid@.len() == old(self).workspaces@.len(),
            forall|i: int| 0 <= i < relaid@.len() ==> relaid@[i] == i,
    {
        let ghost donor_orig = donor@;
        let mut donor = donor;
        let mut relaid: Vec<usize> = Vec::new();
        let mut i: usize = 0;
        while i < self.workspaces.len()
            invariant
                usable.wf(),
                output_geo.wf(),
                0 <= inner_gap <= COORD_LIMIT,
                0 <= outer_gap <= COORD_LIMIT,
                old(self).wf(),
                donor_orig.len() == old(self).workspaces@.len(),
                forall|j: int| 0 <= j < donor_orig.len() ==> (#[trigger] donor_orig[j]).wf(),
                forall|j: int|
                    0 <= j < donor_orig.len() ==> (#[trigger] donor_orig[j]).windows@.len() + old(
                        self,
                    ).workspaces@[j].windows@.len() <= COORD_LIMIT,
                migration_ok(old(self).workspaces@, donor_orig),
                self.workspaces@.len() == old(self).workspaces@.len(),
                self.active_index == old(self).active_index,
                self.switch_animation == old(self).switch_animation,
                0 <= i <= self.workspaces@.len(),
                donor@ == donor_orig.skip(i as int),
                relaid@.len() == i,
                forall|j: int| 0 <= j < i ==> relaid@[j] == j,
                forall|j: int|
                    i <= j < self.workspaces@.len() ==> #[trigger] self.workspaces@[j] == old(
                        self,
                    ).workspaces@[j],
                forall|j: int|
                    0 <= j < i ==> (#[trigger] self.workspaces@[j]).wf() && workspace_refreshed(
                        old(self).workspaces@[j].windows@ + donor_orig[j].windows@,
                        old(self).workspaces@[j].fullscreen,
                        self.workspaces@[j],
                        usable,
                        inner_gap as int,
                        outer_gap as int,
                        output_geo,
                    ),
            decreases self.workspaces@.len() - i,
        {
            let dws = donor.remove(0);
            proof {
                assert(dws == donor_orig[i as int]);
                assert(donor@ =~= donor_orig.skip(i as int + 1));
            }
            let mut ws = self.workspaces.remove(i);
            let mut incoming = dws.windows;
            ws.windows.append(&mut incoming);
            proof {
                assert(ws.windows@ == old(self).workspaces@[i as int].windows@
                    + donor_orig[i as int].windows@);
                assert(ws.fullscreen == old(self).workspaces@[i as int].fullscreen);
                lemma_merged_wf(old(self).workspaces@[i as int], donor_orig[i as int]);
                assert(ws.wf());
            }
            ws.refresh_geometries(usable, inner_gap, outer_gap, output_geo);
            self.workspaces.insert(i, ws);
            relaid.push(i);
            i = i + 1;
        }
        relaid
    }

    /// Topmost window of the active workspace under the point, if any:
    /// stacking order is list order, topmost last.
    pub fn window_under(&self, px: i32, py: i32) -> (r: Option<(u64, (i32, i32))>)
        requires
            self.wf(),
            -GEOM_LIMIT <= px <= GEOM_LIMIT,
            -GEOM_LIMIT <= py <= GEOM_LIMIT,
        ensures
            ({
                let stack = self.workspaces@[self.active_index as int].windows@;
                match r {
                    Some((id, loc)) => exists|k: int|
                        0 <= k < stack.len() && (#[trigger] stack[k]).id == id && stack[k]
                            .geometry
                            .contains_spec(px as int, py as int) && loc == (
                        stack[k].geometry.x,
                        stack[k].geometry.y,
                        ) && forall|j: int|
                            k < j < stack.len() ==> !(#[trigger] stack[j]).geometry.contains_spec(
                                px as int,
                                py as int,
                            ),
                    None => forall|k: int|
                        0 <= k < stack.len() ==> !(#[trigger] stack[k]).geometry.contains_spec(
                            px as int,
                            py as int,
                        ),
                }
            }),
    {
        let ws = &self.workspaces[self.active_index];
        let mut k: usize = ws.windows.len();
        while k > 0
            invariant
                self.wf(),
                -GEOM_LIMIT <= px <= GEOM_LIMIT,
                -GEOM_LIMIT <= py <= GEOM_LIMIT,
                ws == self.workspaces@[self.active_index as int],
                0 <= k <= ws.windows@.len(),
                forall|j: int|
                    k <= j < ws.windows@.len() ==> !(#[trigger] ws.windows@[j]).geometry.contains_spec(
                        px as int,
                        py as int,
                    ),
            decreases k,
        {
            k = k - 1;
            let w = &ws.windows[k];
            if w.geometry.contains(px, py) {
                return Some((w.id, (w.geometry.x, w.geometry.y)));
            }
        }
        None
    }

    /// The fullscreen window of the active workspace, if any, with its
    /// location.
    pub fn current_fullscreen(&self) -> (r: Option<(u64, (i32, i32))>)
        requires
            self.wf(),
        ensures
            ({
                let ws = self.workspaces@[self.active_index as int];
                match ws.fullscreen {
                    Some(fs) => r == Some((fs.window.id, (fs.window.geometry.x, fs.window.geometry.y))),
                    None => r is None,
                }
            }),
    {
        let ws = &self.workspaces[self.active_index];
        match &ws.fullscreen {
            Some(fs) => Some((fs.window.id, (fs.window.geometry.x, fs.window.geometry.y))),
            None => None,
        }
    }

    /// Ids of the windows an output must composite: during a switch both
    /// endpoint workspaces' content (or a fullscreen window of either), and
    /// otherwise the active workspace's content alone.
    pub open spec fn visible_ids_spec(self) -> Seq<u64> {
        let active = self.workspaces@[self.active_index as int];
        match self.switch_animation {
            Some(anim) => {
                let target = self.workspaces@[anim.to_index as int];
                if active.fullscreen is Some {
                    seq![active.fullscreen.unwrap().window.id]
                } else if target.fullscreen is Some {
                    seq![target.fullscreen.unwrap().window.id]
                } else {
                    active.windows@.map_values(|w: Window| w.id) + target.windows@.map_values(
                        |w: Window| w.id,
                    )
                }
            },
            None => {
                if active.fullscreen is Some {
                    seq![active.fullscreen.unwrap().window.id]
                } else {
                    active.windows@.map_values(|w: Window| w.id)
                }
            },
        }
    }

    /// Exec computation of `visible_ids_spec`.
    pub fn visible_window_ids(&self) -> (r: Vec<u64>)
        requires
            self.wf(),
        ensures
            r@ == self.visible_ids_spec(),
    {
        let mut out: Vec<u64> = Vec::new();
        let has_anim = self.switch_animation.is_some();
        let active = &self.workspaces[self.active_index];
        match &active.fullscreen {
            Some(fs) => {
                out.push(fs.window.id);
                proof {
                    assert(out@ =~= seq![fs.window.id]);
                }
                return out;
            },
            None => (),
        }
        if has_anim {
            let target_idx = match &self.switch_animation {
                Some(anim) => anim.to_index,
                None => 0,
            };
            let target = &self.workspaces[target_idx];
            match &target.fullscreen {
                Some(fs) => {
                    out.push(fs.window.id);
                    proof {
                        assert(out@ =~= seq![fs.window.id]);
                    }
                    return out;
                },
                None => (),
            }
            push_window_ids(&mut out, &active.windows);
            push_window_ids(&mut out, &target.windows);
            proof {
                assert(out@ =~= active.windows@.map_values(|w: Window| w.id) + target
                    .windows@
                    .map_values(|w: Window| w.id));
            }
        } else {
            push_window_ids(&mut out, &active.windows);
            proof {
                assert(out@ =~= Seq::<u64>::empty() + active.windows@.map_values(|w: Window| w.id));
                assert(Seq::<u64>::empty() + active.windows@.map_values(|w: Window| w.id)
                    =~= active.windows@.map_values(|w: Window| w.id));
            }
        }
        out
    }

    /// Number of tiling participants in the active workspace (used by the
    /// mapping engine to size the preview layout).
    pub open spec fn spec_active(self) -> Workspace {
        self.workspaces@[self.active_index as int]
    }
}

/// Append the ids of all windows in `windows` to `out`.
pub(crate) fn push_window_ids(out: &mut Vec<u64>, windows: &Vec<Window>)
    ensures
        final(out)@ == old(out)@ + windows@.map_values(|w: Window| w.id),
{
    let mut k: usize = 0;
    while k < windows.len()
        invariant
            0 <= k <= windows@.len(),
            out@ == old(out)@ + windows@.map_values(|w: Window| w.id).take(k as int),
        decreases windows@.len() - k,
    {
        out.push(windows[k].id);
        proof {
            let ids = windows@.map_values(|w: Window| w.id);
            assert(ids.take(k as int).push(ids[k as int]) =~= ids.take(k as int + 1));
            assert(out@ =~= old(out)@ + ids.take(k as int + 1));
        }
        k = k + 1;
    }
    proof {
        let ids = windows@.map_values(|w: Window| w.id);
        assert(ids.take(ids.len() as int) =~= ids);
    }
}

/// Law: for every well-formed workspace set the active index lies in
/// `[0, workspace_count)` — there is always an active workspace to show.
pub proof fn lemma_active_index_in_range(ws: WorkspaceSet)
    requires
        ws.wf(),
    ensures
        0 <= ws.active_index < ws.workspaces@.len(),
{
}

/// Number of tiling participants on the active workspace of `ws`.
pub open spec fn active_tiled_count(ws: WorkspaceSet) -> int {
    tiled_count(ws.spec_active().windows@)
}

} // verus!
