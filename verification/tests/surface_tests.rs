use fht_compositor::compositor::{CommitAction, CommitInput};
use fht_compositor::focus::FocusTarget;
use fht_compositor::geometry::Rect;
use fht_compositor::mapping::{RuleEntry, WindowMapSettings, WindowRule};
use fht_compositor::output::{LayerSurface, LayerTier, OutputInfo, ReservedEdge};
use fht_compositor::state::{Config, Fht};
use fht_compositor::workspace::Window;

fn config_with_rules(rules: Vec<RuleEntry>) -> Config {
    Config {
        workspace_count: 4,
        inner_gaps: 0,
        outer_gaps: 0,
        focus_new_windows: true,
        cursor_warps: false,
        allow_csd: false,
        switch_animation_duration_ms: 0,
        rules,
    }
}

fn output(id: u64, name: &str, w: i32, h: i32) -> OutputInfo {
    OutputInfo {
        id,
        name: name.to_string(),
        geometry: Rect { x: 0, y: 0, w, h },
        refresh_millihertz: 60_000,
        integer_scale: 1,
        fractional_scale_thousandths: 1_000,
    }
}

fn toplevel(id: u64, app_id: &str) -> Window {
    Window {
        id,
        app_id: app_id.to_string(),
        title: String::new(),
        geometry: Rect { x: 0, y: 0, w: 0, h: 0 },
        tiled: true,
        maximized: false,
        fullscreen: false,
        server_side_decorations: true,
    }
}

fn commit(sid: u64, has_buffer: bool) -> CommitInput {
    CommitInput { surface_id: sid, is_sync_subsurface: false, has_buffer, buffer_ready: true }
}

fn settings() -> WindowMapSettings {
    WindowMapSettings {
        output: None,
        workspace: None,
        fullscreen: false,
        floating: false,
        size: None,
        location: None,
        centered: false,
        allow_csd: None,
    }
}

#[test]
fn fullscreen_rule_gives_full_output_geometry_and_clears_tiled() {
    let rule = RuleEntry {
        predicates: vec![WindowRule {
            app_id: Some("video".to_string()),
            title: None,
            on_workspace: None,
        }],
        settings: WindowMapSettings { fullscreen: true, ..settings() },
    };
    let mut fht = Fht::new(config_with_rules(vec![rule]));
    fht.add_output(output(1, "edp-1", 1920, 1080));
    fht.new_pending_window(toplevel(100, "video"), (0, 0));
    let configures = fht.prepare_map_window(100);
    assert!(configures.is_empty());
    let p = &fht.pending_windows[0];
    assert_eq!(p.window.geometry, Rect { x: 0, y: 0, w: 1920, h: 1080 });
    assert!(!p.window.tiled);
    assert!(p.window.fullscreen);
    let s = p.settings.as_ref().unwrap();
    assert_eq!(s.output_id, 1);
    assert_eq!(s.workspace_idx, 0);
    // Promotion puts the window in the fullscreen slot, not the stack.
    let _ = fht.map_window(100);
    let ws = &fht.entries[0].wset.workspaces[0];
    assert!(ws.windows.is_empty());
    assert_eq!(ws.fullscreen.as_ref().unwrap().window.id, 100);
    assert_eq!(fht.focus_target, Some(FocusTarget::WindowTarget { id: 100 }));
}

#[test]
fn commit_defers_then_promotes_a_pending_window() {
    let mut fht = Fht::new(config_with_rules(Vec::new()));
    fht.add_output(output(1, "edp-1", 1920, 1080));
    fht.new_pending_window(toplevel(7, "term"), (0, 0));
    // First commit: no buffer and no settings yet, so the mapping runs
    // through the posted continuation.
    let actions = fht.commit(commit(7, false));
    assert_eq!(actions, vec![CommitAction::PostMappingContinuation { surface_id: 7 }]);
    let _ = fht.prepare_map_window(7);
    // With settings resolved and a buffer attached the window promotes.
    let actions = fht.commit(commit(7, true));
    assert_eq!(actions[0], CommitAction::PromoteWindow { surface_id: 7 });
    let _ = fht.map_window(7);
    assert!(fht.pending_windows.is_empty());
    let ws = &fht.entries[0].wset.workspaces[0];
    assert_eq!(ws.windows.len(), 1);
    assert_eq!(ws.windows[0].id, 7);
    assert_eq!(ws.windows[0].geometry, Rect { x: 0, y: 0, w: 1920, h: 1080 });
}

#[test]
fn commit_with_unready_buffer_is_deferred() {
    let mut fht = Fht::new(config_with_rules(Vec::new()));
    let actions = fht.commit(CommitInput {
        surface_id: 1,
        is_sync_subsurface: false,
        has_buffer: true,
        buffer_ready: false,
    });
    assert_eq!(actions, vec![CommitAction::DeferUntilBufferReady]);
}

#[test]
fn sync_subsurface_commit_is_accounted_to_its_root() {
    let mut fht = Fht::new(config_with_rules(Vec::new()));
    let actions = fht.commit(CommitInput {
        surface_id: 1,
        is_sync_subsurface: true,
        has_buffer: true,
        buffer_ready: true,
    });
    assert!(actions.is_empty());
}

#[test]
fn tiling_a_second_window_reconfigures_the_first() {
    let mut fht = Fht::new(config_with_rules(Vec::new()));
    fht.add_output(output(1, "edp-1", 1920, 1080));
    fht.new_pending_window(toplevel(1, "a"), (0, 0));
    let _ = fht.prepare_map_window(1);
    let _ = fht.map_window(1);
    fht.new_pending_window(toplevel(2, "b"), (0, 0));
    let configures = fht.prepare_map_window(2);
    // The already-mapped window is owed a live configure for its new slot.
    assert_eq!(configures, vec![1]);
    assert_eq!(
        fht.entries[0].wset.workspaces[0].windows[0].geometry,
        Rect { x: 0, y: 0, w: 960, h: 1080 }
    );
    assert_eq!(fht.pending_windows[0].window.geometry, Rect { x: 960, y: 0, w: 960, h: 1080 });
}

#[test]
fn floating_window_sizes_fall_back_in_priority_order() {
    let rule = RuleEntry {
        predicates: vec![WindowRule { app_id: None, title: None, on_workspace: None }],
        settings: WindowMapSettings { floating: true, centered: true, ..settings() },
    };
    let mut fht = Fht::new(config_with_rules(vec![rule]));
    fht.add_output(output(1, "edp-1", 1920, 1080));
    // No rule size, no pending size, no rendered size, minimum too small:
    // the fixed fallback of 800 by 600 applies, centered on the output.
    fht.new_pending_window(toplevel(4, "float"), (10, 10));
    let _ = fht.prepare_map_window(4);
    let _ = fht.map_window(4);
    let w = &fht.entries[0].wset.workspaces[0].windows[0];
    assert_eq!(w.geometry, Rect { x: 560, y: 240, w: 800, h: 600 });
    assert!(!w.tiled);
    // A usable minimum size wins over the fallback.
    fht.new_pending_window(toplevel(5, "float"), (300, 200));
    let _ = fht.prepare_map_window(5);
    let _ = fht.map_window(5);
    let w = &fht.entries[0].wset.workspaces[0].windows[1];
    assert_eq!(w.geometry, Rect { x: 810, y: 440, w: 300, h: 200 });
}

#[test]
fn overlay_layer_wins_over_fullscreen_window() {
    let mut fht = Fht::new(config_with_rules(Vec::new()));
    fht.add_output(output(1, "edp-1", 1920, 1080));
    // A fullscreen window covers the whole output.
    let active = fht.entries[0].wset.active_index;
    let mut w = toplevel(9, "video");
    w.geometry = Rect { x: 0, y: 0, w: 1920, h: 1080 };
    fht.entries[0].wset.workspaces[active].fullscreen = Some(
        fht_compositor::workspace::FullscreenSlot { window: w, restore_index: 0 },
    );
    // Without an overlay the fullscreen window takes the focus.
    let hit = fht.focus_target_under(100, 100);
    assert_eq!(hit, Some((FocusTarget::WindowTarget { id: 9 }, (0, 0))));
    // An overlay-layer surface covering the same point wins.
    fht.entries[0].layers.push(LayerSurface {
        id: 42,
        geometry: Rect { x: 0, y: 0, w: 1920, h: 40 },
        tier: LayerTier::Overlay,
        edge: ReservedEdge::NoEdge,
        exclusive: 0,
    });
    let hit = fht.focus_target_under(100, 20);
    assert_eq!(hit, Some((FocusTarget::LayerSurfaceTarget { id: 42 }, (0, 0))));
    // Outside the overlay the fullscreen window is the target again.
    let hit = fht.focus_target_under(100, 100);
    assert_eq!(hit, Some((FocusTarget::WindowTarget { id: 9 }, (0, 0))));
}

#[test]
fn layer_surface_maps_after_its_configure_and_reserves_space() {
    let mut fht = Fht::new(config_with_rules(Vec::new()));
    fht.add_output(output(1, "edp-1", 1920, 1080));
    fht.entries[0].wset.workspaces[0].windows.push(toplevel(3, "a"));
    fht.new_pending_layer(
        LayerSurface {
            id: 50,
            geometry: Rect { x: 0, y: 0, w: 1920, h: 40 },
            tier: LayerTier::Top,
            edge: ReservedEdge::Top,
            exclusive: 40,
        },
        1,
    );
    let actions = fht.commit(commit(50, true));
    assert_eq!(actions[0], CommitAction::SendLayerConfigure { surface_id: 50 });
    let actions = fht.commit(commit(50, true));
    assert_eq!(actions[0], CommitAction::PromoteLayer { surface_id: 50 });
    assert!(fht.map_layer_surface(50));
    assert!(fht.pending_layers.is_empty());
    assert_eq!(fht.entries[0].layers.len(), 1);
    // The tiled window moved below the reserved zone.
    assert_eq!(
        fht.entries[0].wset.workspaces[0].windows[0].geometry,
        Rect { x: 0, y: 40, w: 1920, h: 1040 }
    );
}

#[test]
fn popup_gets_one_initial_configure_and_is_constrained() {
    let mut fht = Fht::new(config_with_rules(Vec::new()));
    fht.add_output(output(1, "edp-1", 1920, 1080));
    let mut w = toplevel(9, "app");
    w.geometry = Rect { x: 100, y: 100, w: 800, h: 600 };
    fht.entries[0].wset.workspaces[0].windows.push(w);
    fht.new_popup(77, 9, Rect { x: 1300, y: 900, w: 300, h: 200 });
    fht.add_parent_link(77, 9);
    let actions = fht.commit(commit(77, true));
    assert!(actions.contains(&CommitAction::SendPopupConfigure { surface_id: 77 }));
    let actions = fht.commit(commit(77, true));
    assert!(!actions.contains(&CommitAction::SendPopupConfigure { surface_id: 77 }));
    // The popup would overflow the output's right and bottom edges; it is
    // slid back inside the ancestor-local visible region.
    let constrained = fht.unconstrain_popup(77, (0, 0)).unwrap();
    assert_eq!(constrained, Rect { x: 1300, y: 780, w: 300, h: 200 });
}

#[test]
fn root_resolution_follows_parent_links_and_survives_cycles() {
    let mut fht = Fht::new(config_with_rules(Vec::new()));
    fht.add_parent_link(3, 2);
    fht.add_parent_link(2, 1);
    assert_eq!(fht.root_of(3), 1);
    assert_eq!(fht.root_of(1), 1);
    let mut cyclic = Fht::new(config_with_rules(Vec::new()));
    cyclic.add_parent_link(1, 2);
    cyclic.add_parent_link(2, 1);
    // The walk is bounded, so a malicious cycle terminates.
    let _ = cyclic.root_of(1);
}

#[test]
fn dropping_a_disconnected_pending_surface_leaves_no_orphan() {
    let mut fht = Fht::new(config_with_rules(Vec::new()));
    fht.add_output(output(1, "edp-1", 1920, 1080));
    fht.new_pending_window(toplevel(8, "gone"), (0, 0));
    fht.drop_pending(8);
    assert!(fht.pending_windows.is_empty());
    assert!(fht.all_windows().is_empty());
}

#[test]
fn refresh_focus_falls_back_to_the_top_of_the_active_workspace() {
    let mut fht = Fht::new(config_with_rules(Vec::new()));
    fht.add_output(output(1, "edp-1", 1920, 1080));
    fht.entries[0].wset.workspaces[0].windows.push(toplevel(1, "a"));
    fht.entries[0].wset.workspaces[0].windows.push(toplevel(2, "b"));
    let r = fht.refresh_focus(true, None);
    assert_eq!(r, Some(FocusTarget::WindowTarget { id: 2 }));
    // A dead explicit target is dropped and recomputed.
    fht.focus_target = Some(FocusTarget::WindowTarget { id: 99 });
    let r = fht.refresh_focus(false, Some(FocusTarget::WindowTarget { id: 99 }));
    assert_eq!(r, Some(FocusTarget::WindowTarget { id: 2 }));
}

#[test]
fn rules_can_send_a_window_to_a_named_output_and_workspace() {
    let rule = RuleEntry {
        predicates: vec![WindowRule {
            app_id: Some("mail".to_string()),
            title: None,
            on_workspace: None,
        }],
        settings: WindowMapSettings {
            output: Some("hdmi-1".to_string()),
            workspace: Some(2),
            ..settings()
        },
    };
    let mut fht = Fht::new(config_with_rules(vec![rule]));
    fht.add_output(output(1, "edp-1", 1920, 1080));
    fht.add_output(output(2, "hdmi-1", 1280, 720));
    fht.new_pending_window(toplevel(6, "mail"), (0, 0));
    let _ = fht.prepare_map_window(6);
    let s = fht.pending_windows[0].settings.as_ref().unwrap();
    assert_eq!(s.output_id, 2);
    assert_eq!(s.workspace_idx, 2);
    let _ = fht.map_window(6);
    assert_eq!(fht.entries[1].wset.workspaces[2].windows[0].id, 6);
    // A workspace override beyond the count clamps to the last workspace.
    let rule = RuleEntry {
        predicates: vec![WindowRule { app_id: None, title: None, on_workspace: None }],
        settings: WindowMapSettings { workspace: Some(50), ..settings() },
    };
    let mut fht = Fht::new(config_with_rules(vec![rule]));
    fht.add_output(output(1, "edp-1", 1920, 1080));
    fht.new_pending_window(toplevel(7, "any"), (0, 0));
    let _ = fht.prepare_map_window(7);
    assert_eq!(fht.pending_windows[0].settings.as_ref().unwrap().workspace_idx, 3);
}

#[test]
fn maximized_windows_bypass_tiling_and_take_the_whole_area() {
    let mut fht = Fht::new(Config {
        inner_gaps: 10,
        outer_gaps: 20,
        ..config_with_rules(Vec::new())
    });
    fht.add_output(output(1, "edp-1", 1920, 1080));
    let mut big = toplevel(1, "maxed");
    big.maximized = true;
    fht.entries[0].wset.workspaces[0].windows.push(big);
    fht.entries[0].wset.workspaces[0].windows.push(toplevel(2, "tiled"));
    let _ = fht.update_output(1, Rect { x: 0, y: 0, w: 1920, h: 1080 }, 75_000, 1, 1_000);
    let ws = &fht.entries[0].wset.workspaces[0];
    // The maximized window takes the gap-reduced area; the lone tiling
    // participant does too, since it is the only slot.
    assert_eq!(ws.windows[0].geometry, Rect { x: 20, y: 20, w: 1880, h: 1040 });
    assert_eq!(ws.windows[1].geometry, Rect { x: 20, y: 20, w: 1880, h: 1040 });
}

#[test]
fn mapping_settings_resolve_once_and_stick() {
    // The rule matches only while workspace 0 is active and then sends the
    // window to workspace 1.
    let rule = RuleEntry {
        predicates: vec![WindowRule { app_id: None, title: None, on_workspace: Some(0) }],
        settings: WindowMapSettings { workspace: Some(1), ..settings() },
    };
    let mut fht = Fht::new(config_with_rules(vec![rule]));
    fht.add_output(output(1, "edp-1", 1920, 1080));
    fht.new_pending_window(toplevel(3, "term"), (0, 0));
    let _ = fht.prepare_map_window(3);
    assert_eq!(fht.pending_windows[0].settings.as_ref().unwrap().workspace_idx, 1);
    // The active workspace changes before a deferred re-run; a fresh
    // resolution would now miss the rule and pick workspace 2.  The cached
    // settings stick instead: computed once per window.
    fht.handle_ipc_output_request(1, 2, 0);
    let _ = fht.prepare_map_window(3);
    assert_eq!(fht.pending_windows[0].settings.as_ref().unwrap().workspace_idx, 1);
    let _ = fht.map_window(3);
    assert_eq!(fht.entries[0].wset.workspaces[1].windows[0].id, 3);
}

#[test]
fn minimum_size_of_exactly_twenty_is_used() {
    let rule = RuleEntry {
        predicates: vec![WindowRule { app_id: None, title: None, on_workspace: None }],
        settings: WindowMapSettings { floating: true, ..settings() },
    };
    let mut fht = Fht::new(config_with_rules(vec![rule]));
    fht.add_output(output(1, "edp-1", 1920, 1080));
    fht.new_pending_window(toplevel(6, "tiny"), (20, 20));
    let _ = fht.prepare_map_window(6);
    let _ = fht.map_window(6);
    let w = &fht.entries[0].wset.workspaces[0].windows[0];
    assert_eq!(w.geometry, Rect { x: 0, y: 0, w: 20, h: 20 });
}

#[test]
fn resize_below_a_reserved_zone_clamps_the_usable_area() {
    let mut fht = Fht::new(config_with_rules(Vec::new()));
    fht.add_output(output(1, "edp-1", 1920, 1080));
    fht.entries[0].wset.workspaces[0].windows.push(toplevel(2, "a"));
    fht.new_pending_layer(
        LayerSurface {
            id: 60,
            geometry: Rect { x: 0, y: 0, w: 1920, h: 40 },
            tier: LayerTier::Top,
            edge: ReservedEdge::Top,
            exclusive: 40,
        },
        1,
    );
    let _ = fht.commit(commit(60, true));
    let _ = fht.commit(commit(60, true));
    assert!(fht.map_layer_surface(60));
    // Shrinking the output below the panel's exclusive zone is legal: the
    // usable area degrades to a degenerate strip at the panel's far edge.
    let _ = fht.update_output(1, Rect { x: 0, y: 0, w: 1920, h: 30 }, 60_000, 1, 1_000);
    assert_eq!(
        fht.entries[0].wset.workspaces[0].windows[0].geometry,
        Rect { x: 0, y: 30, w: 1920, h: 0 }
    );
}
