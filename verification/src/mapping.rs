use vstd::prelude::*;

use crate::geometry::COORD_LIMIT;
use crate::workspace::Window;

verus! {

/// One predicate of a user mapping rule: every given field must match the
/// window's attributes and the target output's active workspace index.
pub struct WindowRule {
    pub app_id: Option<String>,
    pub title: Option<String>,
    pub on_workspace: Option<usize>,
}

/// `r` matches window `w` while workspace `active_idx` is active.
pub open spec fn rule_matches_spec(r: WindowRule, w: Window, active_idx: int) -> bool {
    &&& match r.app_id {
        Some(a) => a@ == w.app_id@,
        None => true,
    }
    &&& match r.title {
        Some(t) => t@ == w.title@,
        None => true,
    }
    &&& match r.on_workspace {
        Some(i) => i == active_idx,
        None => true,
    }
}

impl WindowRule {
    pub fn matches(&self, w: &Window, active_idx: usize) -> (r: bool)
        ensures
            r == rule_matches_spec(*self, *w, active_idx as int),
    {
        let app_ok = match &self.app_id {
            Some(a) => *a == w.app_id,
            None => true,
        };
        let title_ok = match &self.title {
            Some(t) => *t == w.title,
            None => true,
        };
        let ws_ok = match &self.on_workspace {
            Some(i) => *i == active_idx,
            None => true,
        };
        app_ok && title_ok && ws_ok
    }
}

/// The mapping settings a rule resolves to for a not-yet-mapped window.
pub struct WindowMapSettings {
    pub output: Option<String>,
    pub workspace: Option<usize>,
    pub fullscreen: bool,
    pub floating: bool,
    pub size: Option<(i32, i32)>,
    pub location: Option<(i32, i32)>,
    pub centered: bool,
    pub allow_csd: Option<bool>,
}

impl WindowMapSettings {
    /// Geometry overrides stay inside the coordinate budget.
    pub open spec fn wf(self) -> bool {
        &&& match self.size {
            Some((w, h)) => 0 <= w <= COORD_LIMIT && 0 <= h <= COORD_LIMIT,
            None => true,
        }
        &&& match self.location {
            Some((x, y)) => -COORD_LIMIT <= x <= COORD_LIMIT && -COORD_LIMIT <= y <= COORD_LIMIT,
            None => true,
        }
    }

    /// The settings used when no rule matches: tiled on the focused
    /// output's active workspace.
    pub fn defaults() -> (s: WindowMapSettings)
        ensures
            s.output is None,
            s.workspace is None,
            !s.fullscreen,
            !s.floating,
            s.size is None,
            s.location is None,
            !s.centered,
            s.allow_csd is None,
            s.wf(),
    {
        WindowMapSettings {
            output: None,
            workspace: None,
            fullscreen: false,
            floating: false,
            size: None,
            location: None,
            centered: false,
            allow_csd: None,
        }
    }

    /// An owned copy equal to `self`.
    pub fn duplicate(&self) -> (r: WindowMapSettings)
        ensures
            r == *self,
    {
        WindowMapSettings {
            output: match &self.output {
                Some(s) => Some(s.clone()),
                None => None,
            },
            workspace: self.workspace,
            fullscreen: self.fullscreen,
            floating: self.floating,
            size: self.size,
            location: self.location,
            centered: self.centered,
            allow_csd: self.allow_csd,
        }
    }
}

/// One entry of the ordered rule list: if any of its predicates matches,
/// its settings apply.
pub struct RuleEntry {
    pub predicates: Vec<WindowRule>,
    pub settings: WindowMapSettings,
}

/// Some predicate of `e` matches.
pub open spec fn entry_matches(e: RuleEntry, w: Window, active_idx: int) -> bool {
    exists|j: int| 0 <= j < e.predicates@.len() && rule_matches_spec(#[trigger] e.predicates@[j], w, active_idx)
}

/// Index of the first rule entry that matches, if any.
pub open spec fn first_match(rules: Seq<RuleEntry>, w: Window, active_idx: int) -> Option<int>
    decreases rules.len(),
{
    if rules.len() == 0 {
        None
    } else if entry_matches(rules[0], w, active_idx) {
        Some(0)
    } else {
        match first_match(rules.skip(1), w, active_idx) {
            Some(i) => Some(i + 1),
            None => None,
        }
    }
}

/// Find the settings of the first matching rule entry: the position comes
/// back so the caller can read the entry's settings.
pub fn find_first_match(rules: &Vec<RuleEntry>, w: &Window, active_idx: usize) -> (r: Option<usize>)
    ensures
        match r {
            Some(i) => i < rules@.len() && first_match(rules@, *w, active_idx as int) == Some(
                i as int,
            ),
            None => first_match(rules@, *w, active_idx as int) is None,
        },
{
    let mut i: usize = 0;
    proof {
        assert(rules@.skip(0) =~= rules@);
    }
    while i < rules.len()
        invariant
            0 <= i <= rules@.len(),
            first_match(rules@, *w, active_idx as int) == match first_match(
                rules@.skip(i as int),
                *w,
                active_idx as int,
            ) {
                Some(j) => Some(j + i),
                None => None::<int>,
            },
        decreases rules@.len() - i,
    {
        let entry = &rules[i];
        let mut matched = false;
        let mut j: usize = 0;
        while j < entry.predicates.len()
            invariant
                entry == rules@[i as int],
                0 <= i < rules@.len(),
                0 <= j <= entry.predicates@.len(),
                matched == exists|p: int|
                    0 <= p < j && rule_matches_spec(#[trigger] entry.predicates@[p], *w, active_idx as int),
            decreases entry.predicates@.len() - j,
        {
            if entry.predicates[j].matches(w, active_idx) {
                matched = true;
            }
            j = j + 1;
        }
        proof {
            assert(rules@.skip(i as int)[0] == rules@[i as int]);
            assert(rules@.skip(i as int).skip(1) =~= rules@.skip(i as int + 1));
        }
        if matched {
            return Some(i);
        }
        i = i + 1;
    }
    proof {
        assert(rules@.skip(rules@.len() as int).len() == 0);
    }
    None
}

} // verus!

use crate::geometry::Rect;
use crate::layout::slot_matches;
use crate::output::{usable_area, usable_area_spec};
use crate::pending::{
    pending_has, pending_idx_of, PendingWindow, PendingWindowState, WindowMapSettingsInternal,
};
use crate::focus::FocusTarget;
use crate::state::{first_output_named, Fht};
use crate::workspace::{retiled_windows, tiled_count, tiled_pred, FullscreenSlot, Workspace};

verus! {

/// Windows owed a live configure after a re-partition of their workspace:
/// the tiling participants and the maximized windows, in stacking order.
pub open spec fn configure_ids(s: Seq<Window>) -> Seq<u64>
    decreases s.len(),
{
    if s.len() == 0 {
        Seq::empty()
    } else {
        configure_ids(s.drop_last()) + if tiled_pred(s.last()) || s.last().maximized {
            seq![s.last().id]
        } else {
            Seq::empty()
        }
    }
}

proof fn lemma_configure_ids_step(s: Seq<Window>, k: int)
    requires
        0 <= k < s.len(),
    ensures
        configure_ids(s.take(k + 1)) == configure_ids(s.take(k)) + if tiled_pred(s[k]) || s[k].maximized {
            seq![s[k].id]
        } else {
            Seq::empty()
        },
{
    assert(s.take(k + 1).drop_last() =~= s.take(k));
    assert(s.take(k + 1).last() == s[k]);
}

/// Collect `configure_ids` of a window stack.
fn collect_configure_ids(windows: &Vec<Window>) -> (r: Vec<u64>)
    ensures
        r@ == configure_ids(windows@),
{
    let mut out: Vec<u64> = Vec::new();
    let mut k: usize = 0;
    proof {
        assert(windows@.take(0) =~= Seq::<Window>::empty());
        assert(out@ =~= configure_ids(windows@.take(0)));
    }
    while k < windows.len()
        invariant
            0 <= k <= windows@.len(),
            out@ == configure_ids(windows@.take(k as int)),
        decreases windows@.len() - k,
    {
        proof {
            lemma_configure_ids_step(windows@, k as int);
        }
        let w = &windows[k];
        if (w.tiled && !w.maximized) || w.maximized {
            out.push(w.id);
            proof {
                assert(out@ =~= configure_ids(windows@.take(k as int)) + seq![windows@[k as int].id]);
            }
        } else {
            proof {
                assert(out@ =~= configure_ids(windows@.take(k as int)) + Seq::<u64>::empty());
            }
        }
        k = k + 1;
    }
    proof {
        assert(windows@.take(windows@.len() as int) =~= windows@);
    }
    out
}

/// The settings of the matching rule entry, or the defaults.
pub open spec fn resolved_user_settings(
    rules: Seq<RuleEntry>,
    w: Window,
    active_idx: int,
) -> WindowMapSettings {
    match first_match(rules, w, active_idx) {
        Some(i) => rules[i].settings,
        None => WindowMapSettings {
            output: None,
            workspace: None,
            fullscreen: false,
            floating: false,
            size: None,
            location: None,
            centered: false,
            allow_csd: None,
        },
    }
}

impl Fht {
    /// The output a window with these settings lands on: the rule-named
    /// output if such an output exists, else the focused output.
    pub open spec fn resolved_output(self, user: WindowMapSettings, focused: u64) -> u64 {
        match user.output {
            Some(name) => if name@ == "active"@ {
                focused
            } else {
                match first_output_named(self.entries@, name@) {
                    Some(i) => self.entries@[i].output.id,
                    None => focused,
                }
            },
            None => focused,
        }
    }

    /// The focused output, falling back to the first registered one.
    pub open spec fn spec_active_output(self) -> u64 {
        match self.focused_output {
            Some(f) => f,
            None => self.entries@[0].output.id,
        }
    }

    /// Resolve the mapping policy for a pending window and pre-place it:
    /// evaluate the ordered rules against the window and the focused
    /// output's active workspace index; resolve target output and
    /// workspace; then, by mode, give the window the full output geometry
    /// (fullscreen), leave sizing for promotion time (floating), or
    /// re-partition the target workspace with one extra slot for the
    /// window (tiled), where every already-mapped re-placed window is owed
    /// a live configure (the returned ids).  The resolved settings are
    /// cached on the pending window, to be consumed exactly once at
    /// promotion.
    /// Re-partition this output's workspace `ws_idx` with one extra slot
    /// for an incoming window: the extra slot's geometry comes back, along
    /// with the ids of the already-mapped windows owed a live configure.
    fn retile_target(&mut self, tpos: usize, ws_idx: usize) -> (r: (Rect, Vec<u64>))
        requires
            old(self).wf(),
            tpos < old(self).entries@.len(),
            ws_idx < old(self).config.workspace_count,
            old(self).entries@[tpos as int].wset.workspaces@[ws_idx as int].windows@.len()
                < COORD_LIMIT,
        ensures
            final(self).wf(),
            final(self).config == old(self).config,
            final(self).focused_output == old(self).focused_output,
            final(self).focus_target == old(self).focus_target,
            final(self).pending_windows == old(self).pending_windows,
            final(self).pending_layers == old(self).pending_layers,
            final(self).popups == old(self).popups,
            final(self).parents == old(self).parents,
            final(self).entries@.len() == old(self).entries@.len(),
            forall|e: int|
                0 <= e < old(self).entries@.len() && e != tpos as int ==> #[trigger] final(self)
                    .entries@[e] == old(self).entries@[e],
            ({
                let entry = old(self).entries@[tpos as int];
                let ws = entry.wset.workspaces@[ws_idx as int];
                let usable = usable_area_spec(entry.output.geometry, entry.layers@);
                let ig = old(self).config.inner_gaps as int;
                let og = old(self).config.outer_gaps as int;
                let nws = final(self).entries@[tpos as int].wset.workspaces@[ws_idx as int];
                &&& slot_matches(
                    r.0,
                    usable,
                    ig,
                    og,
                    tiled_count(ws.windows@) + 1,
                    tiled_count(ws.windows@),
                )
                &&& r.0.bounded()
                &&& retiled_windows(
                    ws.windows@,
                    nws.windows@,
                    usable,
                    ig,
                    og,
                    tiled_count(ws.windows@) + 1,
                )
                &&& match ws.fullscreen {
                    Some(fs) => nws.fullscreen == Some(
                        FullscreenSlot {
                            window: Window { geometry: entry.output.geometry, ..fs.window },
                            restore_index: fs.restore_index,
                        },
                    ),
                    None => nws.fullscreen is None,
                }
                &&& forall|v: int|
                    0 <= v < entry.wset.workspaces@.len() && v != ws_idx as int ==> #[trigger] final(self)
                        .entries@[tpos as int].wset.workspaces@[v] == entry.wset.workspaces@[v]
                &&& final(self).entries@[tpos as int].wset.active_index == entry.wset.active_index
                &&& final(self).entries@[tpos as int].wset.switch_animation
                    == entry.wset.switch_animation
                &&& final(self).entries@[tpos as int].output == entry.output
                &&& final(self).entries@[tpos as int].layers == entry.layers
                &&& r.1@ == configure_ids(ws.windows@) + (match ws.fullscreen {
                    Some(fs) => seq![fs.window.id],
                    None => Seq::<u64>::empty(),
                })
            }),
    {
        let usable = usable_area(&self.entries[tpos].output.geometry, &self.entries[tpos].layers);
        let inner = self.config.inner_gaps;
        let outer = self.config.outer_gaps;
        let ogeo = self.entries[tpos].output.geometry;
        let mut entry = self.entries.remove(tpos);
        let mut ws = entry.wset.workspaces.remove(ws_idx);
        let mut configures = collect_configure_ids(&ws.windows);
        match &ws.fullscreen {
            Some(fs) => {
                configures.push(fs.window.id);
            },
            None => (),
        }
        let incoming = ws.retile(usable, inner, outer, ogeo, 1);
        entry.wset.workspaces.insert(ws_idx, ws);
        self.entries.insert(tpos, entry);
        proof {
            assert(self.entries@ =~= old(self).entries@.update(tpos as int, self.entries@[tpos as int]));
            assert(self.entries@[tpos as int].wset.workspaces@ =~= old(self).entries@[tpos as int]
                .wset
                .workspaces@
                .update(ws_idx as int, self.entries@[tpos as int].wset.workspaces@[ws_idx as int]));
            let fsseq: Seq<u64> = match old(self).entries@[tpos as int].wset.workspaces@[ws_idx as int]
                .fullscreen {
                Some(fs) => seq![fs.window.id],
                None => Seq::<u64>::empty(),
            };
            assert(configures@ =~= configure_ids(
                old(self).entries@[tpos as int].wset.workspaces@[ws_idx as int].windows@,
            ) + fsseq);
            Fht::lemma_wf_after_entry_update(*old(self), *self, tpos as int);
        }
        (incoming, configures)
    }

    /// Resolve the mapping policy for a pending window and pre-place it.
    /// Mapping settings are computed once per window: the first run
    /// evaluates the ordered rules against the window and the focused
    /// output's active workspace index, resolves target output and
    /// workspace, and caches the result on the pending window; a deferred
    /// re-run reuses the cached settings unchanged, so the decision cannot
    /// drift between commits.  By mode, the window gets the full output
    /// geometry (fullscreen), sizing is left for promotion time
    /// (floating), or the target workspace is re-partitioned with one
    /// extra slot for the window (tiled), where every already-mapped
    /// re-placed window is owed a live configure (the returned ids).
    #[verifier::rlimit(100)]
    pub fn prepare_map_window(&mut self, surface_id: u64) -> (configures: Vec<u64>)
        requires
            old(self).wf(),
            pending_has(old(self).pending_windows@, surface_id),
            old(self).entries@.len() > 0,
            ({
                let p = old(self).pending_windows@[pending_idx_of(
                    old(self).pending_windows@,
                    surface_id,
                )];
                match p.settings {
                    Some(s) => old(self).has_output(s.output_id) && s.workspace_idx < old(self)
                        .config
                        .workspace_count,
                    None => true,
                }
            }),
            forall|e: int, v: int|
                #![trigger old(self).entries@[e].wset.workspaces@[v]]
                0 <= e < old(self).entries@.len() && 0 <= v
                    < old(self).entries@[e].wset.workspaces@.len() ==> old(self)
                    .entries@[e].wset.workspaces@[v].windows@.len() < COORD_LIMIT,
        ensures
            final(self).wf(),
            final(self).config == old(self).config,
            final(self).focused_output == old(self).focused_output,
            final(self).focus_target == old(self).focus_target,
            final(self).pending_layers == old(self).pending_layers,
            final(self).popups == old(self).popups,
            final(self).parents == old(self).parents,
            final(self).entries@.len() == old(self).entries@.len(),
            final(self).pending_windows@.len() == old(self).pending_windows@.len(),
            forall|q: int|
                0 <= q < old(self).pending_windows@.len() && q != pending_idx_of(
                    old(self).pending_windows@,
                    surface_id,
                ) ==> #[trigger] final(self).pending_windows@[q] == old(self).pending_windows@[q],
            ({
                let p_idx = pending_idx_of(old(self).pending_windows@, surface_id);
                let old_p = old(self).pending_windows@[p_idx];
                let new_p = final(self).pending_windows@[p_idx];
                let focused = old(self).spec_active_output();
                let rules_idx = old(self).entries@[old(self).position_of(focused)].wset.active_index;
                let fresh_user = resolved_user_settings(
                    old(self).config.rules@,
                    old_p.window,
                    rules_idx as int,
                );
                let fresh_target = old(self).resolved_output(fresh_user, focused);
                let fresh_tpos = old(self).position_of(fresh_target);
                let wcount = old(self).config.workspace_count;
                let fresh_ws_idx = match fresh_user.workspace {
                    Some(i) => if i < wcount {
                        i as int
                    } else {
                        wcount - 1
                    },
                    None => old(self).entries@[fresh_tpos].wset.active_index as int,
                };
                let resolved = match old_p.settings {
                    Some(s) => s,
                    None => WindowMapSettingsInternal {
                        output_id: fresh_target,
                        workspace_idx: fresh_ws_idx as usize,
                        user: fresh_user,
                    },
                };
                let user = resolved.user;
                let target = resolved.output_id;
                let tpos = old(self).position_of(target);
                let ws_idx = resolved.workspace_idx as int;
                let ssd = !(match user.allow_csd {
                    Some(b) => b,
                    None => old(self).config.allow_csd,
                });
                &&& new_p.settings == Some(resolved)
                &&& new_p.state == PendingWindowState::ConfigureSent
                &&& new_p.has_buffer == old_p.has_buffer
                &&& new_p.pending_size == old_p.pending_size
                &&& new_p.min_size == old_p.min_size
                &&& if user.fullscreen {
                    &&& new_p.window == (Window {
                        geometry: old(self).entries@[tpos].output.geometry,
                        tiled: false,
                        fullscreen: true,
                        server_side_decorations: ssd,
                        ..old_p.window
                    })
                    &&& final(self).entries == old(self).entries
                    &&& configures@.len() == 0
                } else if user.floating {
                    &&& new_p.window == (Window {
                        tiled: false,
                        fullscreen: false,
                        server_side_decorations: ssd,
                        ..old_p.window
                    })
                    &&& final(self).entries == old(self).entries
                    &&& configures@.len() == 0
                } else {
                    let entry = old(self).entries@[tpos];
                    let ws = entry.wset.workspaces@[ws_idx];
                    let usable = usable_area_spec(entry.output.geometry, entry.layers@);
                    let ig = old(self).config.inner_gaps as int;
                    let og = old(self).config.outer_gaps as int;
                    let nws = final(self).entries@[tpos].wset.workspaces@[ws_idx];
                    &&& new_p.window == (Window {
                        geometry: new_p.window.geometry,
                        tiled: true,
                        fullscreen: false,
                        server_side_decorations: ssd,
                        ..old_p.window
                    })
                    &&& slot_matches(
                        new_p.window.geometry,
                        usable,
                        ig,
                        og,
                        tiled_count(ws.windows@) + 1,
                        tiled_count(ws.windows@),
                    )
                    &&& retiled_windows(
                        ws.windows@,
                        nws.windows@,
                        usable,
                        ig,
                        og,
                        tiled_count(ws.windows@) + 1,
                    )
                    &&& match ws.fullscreen {
                        Some(fs) => nws.fullscreen == Some(
                            FullscreenSlot {
                                window: Window { geometry: entry.output.geometry, ..fs.window },
                                restore_index: fs.restore_index,
                            },
                        ),
                        None => nws.fullscreen is None,
                    }
                    &&& forall|v: int|
                        0 <= v < entry.wset.workspaces@.len() && v != ws_idx ==> #[trigger] final(self)
                        .entries@[tpos].wset.workspaces@[v] == entry.wset.workspaces@[v]
                    &&& final(self).entries@[tpos].wset.active_index == entry.wset.active_index
                    &&& final(self).entries@[tpos].wset.switch_animation == entry.wset.switch_animation
                    &&& final(self).entries@[tpos].output == entry.output
                    &&& final(self).entries@[tpos].layers == entry.layers
                    &&& forall|e: int|
                        0 <= e < old(self).entries@.len() && e != tpos ==> #[trigger] final(self)
                        .entries@[e] == old(self).entries@[e]
                    &&& configures@ == configure_ids(ws.windows@) + (match ws.fullscreen {
                        Some(fs) => seq![fs.window.id],
                        None => Seq::<u64>::empty(),
                    })
                }
            }),
    {
        let p_idx = find_pending_index(&self.pending_windows, surface_id);
        let (target, ws_idx, user) = match &self.pending_windows[p_idx].settings {
            Some(s) => (s.output_id, s.workspace_idx, s.user.duplicate()),
            None => {
                let focused = match self.active_output() {
                    Some(f) => f,
                    None => {
                        proof {
                            assert(false);
                        }
                        0
                    },
                };
                let fpos = match self.output_position(focused) {
                    Some(p) => p,
                    None => {
                        proof {
                            assert(false);
                        }
                        0
                    },
                };
                let rules_idx = self.entries[fpos].wset.active_index;
                let m = find_first_match(
                    &self.config.rules,
                    &self.pending_windows[p_idx].window,
                    rules_idx,
                );
                let fresh_user = match m {
                    Some(i) => self.config.rules[i].settings.duplicate(),
                    None => WindowMapSettings::defaults(),
                };
                let fresh_target = match &fresh_user.output {
                    Some(name) => match self.output_named(name) {
                        Some(oid) => oid,
                        None => focused,
                    },
                    None => focused,
                };
                let fresh_tpos = match self.output_position(fresh_target) {
                    Some(p) => p,
                    None => {
                        proof {
                            assert(false);
                        }
                        0
                    },
                };
                let wcount = self.config.workspace_count;
                let fresh_ws_idx = match fresh_user.workspace {
                    Some(i) => if i < wcount {
                        i
                    } else {
                        wcount - 1
                    },
                    None => self.entries[fresh_tpos].wset.active_index,
                };
                (fresh_target, fresh_ws_idx, fresh_user)
            },
        };
        let tpos = match self.output_position(target) {
            Some(p) => p,
            None => {
                proof {
                    assert(false);
                }
                0
            },
        };
        let ssd = !(match user.allow_csd {
            Some(b) => b,
            None => self.config.allow_csd,
        });
        let is_fullscreen = user.fullscreen;
        let is_floating = user.floating;
        let ogeo = self.entries[tpos].output.geometry;
        let mut configures: Vec<u64> = Vec::new();
        let mut tiled_geo = Rect { x: 0, y: 0, w: 0, h: 0 };
        if !is_fullscreen && !is_floating {
            let rr = self.retile_target(tpos, ws_idx);
            tiled_geo = rr.0;
            configures = rr.1;
        }
        let ghost mid = *self;
        let mut p = self.pending_windows.remove(p_idx);
        if is_fullscreen {
            p.window.geometry = ogeo;
            p.window.tiled = false;
            p.window.fullscreen = true;
        } else if is_floating {
            p.window.tiled = false;
            p.window.fullscreen = false;
        } else {
            p.window.geometry = tiled_geo;
            p.window.tiled = true;
            p.window.fullscreen = false;
        }
        p.window.server_side_decorations = ssd;
        p.settings = Some(WindowMapSettingsInternal { output_id: target, workspace_idx: ws_idx, user });
        p.state = PendingWindowState::ConfigureSent;
        self.pending_windows.insert(p_idx, p);
        proof {
            assert(self.pending_windows@ =~= mid.pending_windows@.update(
                p_idx as int,
                self.pending_windows@[p_idx as int],
            ));
            assert(self.pending_windows@[p_idx as int].wf());
            Fht::lemma_wf_after_pending_update(mid, *self, p_idx as int);
        }
        configures
    }
}

/// The geometry a floating window gets at promotion time.  In priority
/// order the size is the explicit rule size, the client's pending
/// configure size, the window's current rendered size, the client's
/// minimum size when both sides are at least 20, else a fixed fallback
/// of 800 by 600; the location is the explicit rule location
/// (output-relative), else centered on the output when requested, else
/// the origin.
pub open spec fn floating_geometry(
    user: WindowMapSettings,
    pending_size: Option<(i32, i32)>,
    min_size: (i32, i32),
    current: Rect,
    ogeo: Rect,
) -> Rect {
    let size: (i32, i32) = match user.size {
        Some(sz) => sz,
        None => match pending_size {
            Some(ps) => if ps.0 == 0 && ps.1 == 0 {
                fallback_size(min_size, current)
            } else {
                ps
            },
            None => fallback_size(min_size, current),
        },
    };
    let loc: (int, int) = match user.location {
        Some((lx, ly)) => (ogeo.x + lx, ogeo.y + ly),
        None => if user.centered {
            (ogeo.x + ogeo.w / 2 - size.0 / 2, ogeo.y + ogeo.h / 2 - size.1 / 2)
        } else {
            (0int, 0int)
        },
    };
    Rect { x: loc.0 as i32, y: loc.1 as i32, w: size.0, h: size.1 }
}

/// Size of a floating window when neither a rule nor the client's pending
/// configure gives one.
pub open spec fn fallback_size(min_size: (i32, i32), current: Rect) -> (i32, i32) {
    if current.w != 0 || current.h != 0 {
        (current.w, current.h)
    } else if min_size.0 >= 20 && min_size.1 >= 20 {
        min_size
    } else {
        (800i32, 600i32)
    }
}

/// Exec computation of `floating_geometry`.
fn compute_floating_geometry(
    user: &WindowMapSettings,
    pending_size: Option<(i32, i32)>,
    min_size: (i32, i32),
    current: Rect,
    ogeo: Rect,
) -> (r: Rect)
    requires
        user.wf(),
        match pending_size {
            Some((w, h)) => 0 <= w <= COORD_LIMIT && 0 <= h <= COORD_LIMIT,
            None => true,
        },
        0 <= min_size.0 <= COORD_LIMIT,
        0 <= min_size.1 <= COORD_LIMIT,
        current.bounded(),
        ogeo.wf(),
    ensures
        r == floating_geometry(*user, pending_size, min_size, current, ogeo),
        r.bounded(),
{
    let size: (i32, i32) = match user.size {
        Some(sz) => sz,
        None => match pending_size {
            Some(ps) => if ps.0 == 0 && ps.1 == 0 {
                compute_fallback_size(min_size, current)
            } else {
                ps
            },
            None => compute_fallback_size(min_size, current),
        },
    };
    let loc: (i32, i32) = match user.location {
        Some((lx, ly)) => (ogeo.x + lx, ogeo.y + ly),
        None => if user.centered {
            (ogeo.x + ogeo.w / 2 - size.0 / 2, ogeo.y + ogeo.h / 2 - size.1 / 2)
        } else {
            (0, 0)
        },
    };
    Rect { x: loc.0, y: loc.1, w: size.0, h: size.1 }
}

fn compute_fallback_size(min_size: (i32, i32), current: Rect) -> (r: (i32, i32))
    requires
        0 <= min_size.0 <= COORD_LIMIT,
        0 <= min_size.1 <= COORD_LIMIT,
        current.bounded(),
    ensures
        r == fallback_size(min_size, current),
        0 <= r.0 <= crate::geometry::GEOM_LIMIT,
        0 <= r.1 <= crate::geometry::GEOM_LIMIT,
{
    if current.w != 0 || current.h != 0 {
        (current.w, current.h)
    } else if min_size.0 >= 20 && min_size.1 >= 20 {
        min_size
    } else {
        (800, 600)
    }
}

impl Fht {
    /// Promote a pending window whose mapping settings are resolved:
    /// remove it from the pending registry and place it, consuming the
    /// cached settings exactly once.  A fullscreen window fills the
    /// workspace's fullscreen slot (remembering where it would stack); any
    /// other window is inserted into the workspace stack exactly once, a
    /// floating one after resolving its size and location.  Focus moves to
    /// the window when the target workspace is active and either new
    /// windows take focus by configuration or a workspace switch is in
    /// progress; the returned point, if any, is where the pointer should
    /// warp.
    #[verifier::rlimit(100)]
    pub fn map_window(&mut self, surface_id: u64) -> (warp: Option<(i32, i32)>)
        requires
            old(self).wf(),
            pending_has(old(self).pending_windows@, surface_id),
            ({
                let p = old(self).pending_windows@[pending_idx_of(
                    old(self).pending_windows@,
                    surface_id,
                )];
                &&& p.settings is Some
                &&& old(self).has_output(p.settings.unwrap().output_id)
                &&& p.settings.unwrap().workspace_idx < old(self).config.workspace_count
            }),
            old(self).mapped_nowhere(surface_id),
            forall|e: int, v: int|
                #![trigger old(self).entries@[e].wset.workspaces@[v]]
                0 <= e < old(self).entries@.len() && 0 <= v
                    < old(self).entries@[e].wset.workspaces@.len() ==> old(self)
                    .entries@[e].wset.workspaces@[v].windows@.len() < COORD_LIMIT,
        ensures
            final(self).wf(),
            final(self).config == old(self).config,
            final(self).focused_output == old(self).focused_output,
            final(self).pending_layers == old(self).pending_layers,
            final(self).popups == old(self).popups,
            final(self).parents == old(self).parents,
            final(self).entries@.len() == old(self).entries@.len(),
            final(self).pending_windows@ == old(self).pending_windows@.remove(
                pending_idx_of(old(self).pending_windows@, surface_id),
            ),
            ({
                let p = old(self).pending_windows@[pending_idx_of(
                    old(self).pending_windows@,
                    surface_id,
                )];
                let s = p.settings.unwrap();
                let tpos = old(self).position_of(s.output_id);
                let wsi = s.workspace_idx as int;
                let entry = old(self).entries@[tpos];
                let ws = entry.wset.workspaces@[wsi];
                let is_active = wsi == entry.wset.active_index;
                let nentry = final(self).entries@[tpos];
                let nws = nentry.wset.workspaces@[wsi];
                &&& forall|e: int|
                    0 <= e < old(self).entries@.len() && e != tpos ==> #[trigger] final(self)
                        .entries@[e] == old(self).entries@[e]
                &&& nentry.output == entry.output
                &&& nentry.layers == entry.layers
                &&& nentry.wset.active_index == entry.wset.active_index
                &&& nentry.wset.switch_animation == entry.wset.switch_animation
                &&& forall|v: int|
                    0 <= v < entry.wset.workspaces@.len() && v != wsi ==> #[trigger] nentry
                        .wset
                        .workspaces@[v] == entry.wset.workspaces@[v]
                &&& if s.user.fullscreen {
                    &&& nws.windows == ws.windows
                    &&& nws.fullscreen == Some(
                        FullscreenSlot {
                            window: p.window,
                            restore_index: ws.windows@.len() as usize,
                        },
                    )
                    &&& final(self).focus_target == (if is_active {
                        Some(FocusTarget::WindowTarget { id: surface_id })
                    } else {
                        old(self).focus_target
                    })
                    &&& warp is None
                } else {
                    let w = if s.user.floating {
                        Window {
                            geometry: floating_geometry(
                                s.user,
                                p.pending_size,
                                p.min_size,
                                p.window.geometry,
                                entry.output.geometry,
                            ),
                            ..p.window
                        }
                    } else {
                        p.window
                    };
                    let should_focus = (old(self).config.focus_new_windows
                        || entry.wset.switch_animation is Some) && is_active;
                    &&& nws.windows@ == ws.windows@.push(w)
                    &&& nws.fullscreen == ws.fullscreen
                    &&& final(self).focus_target == (if should_focus {
                        Some(FocusTarget::WindowTarget { id: surface_id })
                    } else {
                        old(self).focus_target
                    })
                    &&& warp == (if should_focus && old(self).config.cursor_warps {
                        Some(
                            (
                                (w.geometry.x + w.geometry.w / 2) as i32,
                                (w.geometry.y + w.geometry.h / 2) as i32,
                            ),
                        )
                    } else {
                        None::<(i32, i32)>
                    })
                }
            }),
    {
        let p_idx = find_pending_index(&self.pending_windows, surface_id);
        let p = self.pending_windows.remove(p_idx);
        let ghost pre = *old(self);
        proof {
            Fht::lemma_wf_after_pending_removal(pre, *self, p_idx as int);
        }
        let ghost mid = *self;
        let internal = match p.settings {
            Some(s) => s,
            None => {
                proof {
                    assert(false);
                }
                WindowMapSettingsInternal {
                    output_id: 0,
                    workspace_idx: 0,
                    user: WindowMapSettings::defaults(),
                }
            },
        };
        let user = internal.user;
        let tpos = match self.output_position(internal.output_id) {
            Some(t) => t,
            None => {
                proof {
                    assert(false);
                }
                0
            },
        };
        let wsi = internal.workspace_idx;
        let ogeo = self.entries[tpos].output.geometry;
        let is_active = wsi == self.entries[tpos].wset.active_index;
        let has_anim = self.entries[tpos].wset.switch_animation.is_some();
        let mut window = p.window;
        proof {
            assert(!pre.entries@[tpos as int].wset.workspaces@[wsi as int].holds_id(surface_id))
                by {
                if pre.entries@[tpos as int].wset.workspaces@[wsi as int].holds_id(surface_id) {
                    assert(pre.entries@[tpos as int].wset.holds_id(surface_id));
                }
            }
        }
        let mut warp: Option<(i32, i32)> = None;
        if user.fullscreen {
            let mut entry = self.entries.remove(tpos);
            let mut ws = entry.wset.workspaces.remove(wsi);
            let restore = ws.windows.len();
            ws.fullscreen = Some(FullscreenSlot { window, restore_index: restore });
            entry.wset.workspaces.insert(wsi, ws);
            self.entries.insert(tpos, entry);
            if is_active {
                self.focus_target = Some(FocusTarget::WindowTarget { id: surface_id });
            }
            proof {
                assert(self.entries@ =~= mid.entries@.update(tpos as int, self.entries@[tpos as int]));
                assert(self.entries@[tpos as int].wset.workspaces@ =~= mid.entries@[tpos as int]
                    .wset
                    .workspaces@
                    .update(wsi as int, self.entries@[tpos as int].wset.workspaces@[wsi as int]));
                Fht::lemma_wf_after_entry_update(mid, *self, tpos as int);
            }
        } else {
            if user.floating {
                let fg = compute_floating_geometry(&user, p.pending_size, p.min_size, window.geometry, ogeo);
                window.geometry = fg;
            }
            let g = window.geometry;
            let mut entry = self.entries.remove(tpos);
            let mut ws = entry.wset.workspaces.remove(wsi);
            ws.insert_window(window);
            entry.wset.workspaces.insert(wsi, ws);
            self.entries.insert(tpos, entry);
            let should_focus = (self.config.focus_new_windows || has_anim) && is_active;
            if should_focus {
                if self.config.cursor_warps {
                    warp = Some((g.x + g.w / 2, g.y + g.h / 2));
                }
                self.focus_target = Some(FocusTarget::WindowTarget { id: surface_id });
            }
            proof {
                assert(self.entries@ =~= mid.entries@.update(tpos as int, self.entries@[tpos as int]));
                assert(self.entries@[tpos as int].wset.workspaces@ =~= mid.entries@[tpos as int]
                    .wset
                    .workspaces@
                    .update(wsi as int, self.entries@[tpos as int].wset.workspaces@[wsi as int]));
                Fht::lemma_wf_after_entry_update(mid, *self, tpos as int);
            }
        }
        warp
    }
}

/// Position of the pending window with this surface id.
fn find_pending_index(pending: &Vec<PendingWindow>, surface_id: u64) -> (r: usize)
    requires
        crate::pending::pending_ids_unique(pending@),
        pending_has(pending@, surface_id),
    ensures
        r < pending@.len(),
        pending@[r as int].window.id == surface_id,
        pending_idx_of(pending@, surface_id) == r as int,
{
    let mut k: usize = 0;
    while k < pending.len()
        invariant
            crate::pending::pending_ids_unique(pending@),
            pending_has(pending@, surface_id),
            0 <= k <= pending@.len(),
            forall|j: int| 0 <= j < k ==> (#[trigger] pending@[j]).window.id != surface_id,
        decreases pending@.len() - k,
    {
        if pending[k].window.id == surface_id {
            proof {
                let w = pending_idx_of(pending@, surface_id);
                assert(pending@[w].window.id == surface_id);
                if w != k as int {
                    assert(false);
                }
            }
            return k;
        }
        k = k + 1;
    }
    proof {
        assert(false);
    }
    0
}

} // verus!
