use fht_compositor::geometry::Rect;
use fht_compositor::output::OutputInfo;
use fht_compositor::state::{Config, Fht, OutputNotice, RemoveOutcome};
use fht_compositor::workspace::Window;

fn config(workspaces: usize) -> Config {
    Config {
        workspace_count: workspaces,
        inner_gaps: 0,
        outer_gaps: 0,
        focus_new_windows: true,
        cursor_warps: false,
        allow_csd: false,
        switch_animation_duration_ms: 0,
        rules: Vec::new(),
    }
}

fn output(id: u64, name: &str, w: i32, h: i32) -> OutputInfo {
    OutputInfo {
        id,
        name: name.to_string(),
        geometry: Rect { x: 0, y: 0, w, h },
        refresh_millihertz: 60_000,
        integer_scale: 1,
        fractional_scale_thousandths: 1_000,
    }
}

fn window(id: u64) -> Window {
    Window {
        id,
        app_id: String::new(),
        title: String::new(),
        geometry: Rect { x: 0, y: 0, w: 0, h: 0 },
        tiled: true,
        maximized: false,
        fullscreen: false,
        server_side_decorations: true,
    }
}

#[test]
fn second_output_lands_right_of_the_first() {
    let mut fht = Fht::new(config(4));
    fht.add_output(output(1, "edp-1", 1920, 1080));
    fht.add_output(output(2, "hdmi-1", 1280, 720));
    assert_eq!(fht.entries.len(), 2);
    assert_eq!(fht.entries[0].output.geometry, Rect { x: 0, y: 0, w: 1920, h: 1080 });
    assert_eq!(fht.entries[1].output.geometry, Rect { x: 1920, y: 0, w: 1280, h: 720 });
    assert_eq!(fht.focused_output, Some(2));
}

#[test]
fn removing_the_sole_output_signals_shutdown_once() {
    let mut fht = Fht::new(config(4));
    fht.add_output(output(1, "edp-1", 1920, 1080));
    let outcome: RemoveOutcome = fht.remove_output(1);
    assert!(outcome.shutdown);
    assert!(outcome.closed_layers.is_empty());
    assert!(outcome.relaid.is_empty());
    assert!(fht.entries.is_empty());
    assert_eq!(fht.focused_output, None);
}

#[test]
fn removed_outputs_windows_migrate_per_workspace_in_order() {
    let mut fht = Fht::new(config(4));
    fht.add_output(output(1, "a", 1920, 1080));
    fht.add_output(output(2, "b", 1920, 1080));
    // Windows 11 and 12 sit on output a's workspace 2; window 20 is
    // already on output b's workspace 2.
    fht.entries[0].wset.workspaces[2].windows.push(window(11));
    fht.entries[0].wset.workspaces[2].windows.push(window(12));
    fht.entries[1].wset.workspaces[2].windows.push(window(20));
    let outcome = fht.remove_output(1);
    assert!(!outcome.shutdown);
    assert_eq!(outcome.relaid, vec![0, 1, 2, 3]);
    assert_eq!(fht.entries.len(), 1);
    assert_eq!(fht.entries[0].output.id, 2);
    let ids: Vec<u64> =
        fht.entries[0].wset.workspaces[2].windows.iter().map(|w| w.id).collect();
    assert_eq!(ids, vec![20, 11, 12]);
    // The destination workspace was re-laid-out: three tiled windows now
    // split output b's width.
    let ws = &fht.entries[0].wset.workspaces[2];
    assert_eq!(ws.windows[0].geometry, Rect { x: 1920, y: 0, w: 640, h: 1080 });
    assert_eq!(ws.windows[1].geometry, Rect { x: 2560, y: 0, w: 640, h: 1080 });
    assert_eq!(ws.windows[2].geometry, Rect { x: 3200, y: 0, w: 640, h: 1080 });
}

#[test]
fn update_output_reports_one_notice_per_changed_field() {
    let mut fht = Fht::new(config(2));
    fht.add_output(output(1, "edp-1", 1920, 1080));
    let notices = fht.update_output(
        1,
        Rect { x: 0, y: 0, w: 2560, h: 1440 },
        60_000,
        1,
        1_000,
    );
    assert_eq!(notices, vec![OutputNotice::SizeChanged { output_id: 1, w: 2560, h: 1440 }]);
    let notices = fht.update_output(
        1,
        Rect { x: 0, y: 0, w: 2560, h: 1440 },
        120_000,
        2,
        1_500,
    );
    assert_eq!(
        notices,
        vec![
            OutputNotice::RefreshRateChanged { output_id: 1, millihertz: 120_000 },
            OutputNotice::IntegerScaleChanged { output_id: 1, scale: 2 },
            OutputNotice::FractionalScaleChanged { output_id: 1, thousandths: 1_500 },
        ]
    );
    let notices = fht.update_output(
        1,
        Rect { x: 0, y: 0, w: 2560, h: 1440 },
        120_000,
        2,
        1_500,
    );
    assert!(notices.is_empty());
}

#[test]
fn update_output_retiles_windows_to_the_new_size() {
    let mut fht = Fht::new(config(2));
    fht.add_output(output(1, "edp-1", 1920, 1080));
    fht.entries[0].wset.workspaces[0].windows.push(window(7));
    let _ = fht.update_output(1, Rect { x: 0, y: 0, w: 1000, h: 500 }, 60_000, 1, 1_000);
    assert_eq!(
        fht.entries[0].wset.workspaces[0].windows[0].geometry,
        Rect { x: 0, y: 0, w: 1000, h: 500 }
    );
}

#[test]
fn switch_animation_flips_active_index_exactly_at_the_duration() {
    let mut cfg = config(4);
    cfg.switch_animation_duration_ms = 300;
    let mut fht = Fht::new(cfg);
    fht.add_output(output(1, "edp-1", 1920, 1080));
    let t0: u64 = 1_000;
    fht.handle_ipc_output_request(1, 3, t0);
    assert_eq!(fht.entries[0].wset.active_index, 0);
    fht.advance_animations(1, t0 + 299);
    assert_eq!(fht.entries[0].wset.active_index, 0);
    assert!(fht.entries[0].wset.switch_animation.is_some());
    fht.advance_animations(1, t0 + 300);
    assert_eq!(fht.entries[0].wset.active_index, 3);
    assert!(fht.entries[0].wset.switch_animation.is_none());
    // A further advance changes nothing: the flip happens exactly once.
    fht.advance_animations(1, t0 + 400);
    assert_eq!(fht.entries[0].wset.active_index, 3);
}

#[test]
fn workspace_request_clamps_into_range() {
    let mut fht = Fht::new(config(4));
    fht.add_output(output(1, "edp-1", 1920, 1080));
    fht.handle_ipc_output_request(1, 99, 0);
    assert_eq!(fht.entries[0].wset.active_index, 3);
}

#[test]
fn output_named_resolves_names_and_active() {
    let mut fht = Fht::new(config(2));
    fht.add_output(output(1, "edp-1", 1920, 1080));
    fht.add_output(output(2, "hdmi-1", 1280, 720));
    assert_eq!(fht.output_named(&"edp-1".to_string()), Some(1));
    assert_eq!(fht.output_named(&"hdmi-1".to_string()), Some(2));
    assert_eq!(fht.output_named(&"dp-3".to_string()), None);
    // The focused output is the one added last.
    assert_eq!(fht.output_named(&"active".to_string()), Some(2));
}

#[test]
fn visible_windows_during_a_switch_cover_both_workspaces() {
    let mut cfg = config(4);
    cfg.switch_animation_duration_ms = 300;
    let mut fht = Fht::new(cfg);
    fht.add_output(output(1, "edp-1", 1920, 1080));
    fht.entries[0].wset.workspaces[0].windows.push(window(1));
    fht.entries[0].wset.workspaces[2].windows.push(window(2));
    assert_eq!(fht.visible_windows_for_output(1), vec![1]);
    fht.handle_ipc_output_request(1, 2, 0);
    assert_eq!(fht.visible_windows_for_output(1), vec![1, 2]);
    fht.advance_animations(1, 300);
    assert_eq!(fht.visible_windows_for_output(1), vec![2]);
}

#[test]
fn move_request_unmaximizes_and_anchors_at_the_pointer() {
    let mut fht = Fht::new(config(2));
    fht.add_output(output(1, "edp-1", 1920, 1080));
    let mut w = window(5);
    w.maximized = true;
    w.geometry = Rect { x: 10, y: 10, w: 500, h: 400 };
    fht.entries[0].wset.workspaces[0].windows.push(w);
    let r = fht.handle_move_request(5, (333, 444));
    assert_eq!(r, Some(((0, 0, 0), (333, 444))));
    let w = &fht.entries[0].wset.workspaces[0].windows[0];
    assert!(!w.maximized && !w.fullscreen);
    // A plain window starts the move from its own location.
    let r = fht.handle_move_request(5, (333, 444));
    assert_eq!(r, Some(((0, 0, 0), (10, 10))));
    assert_eq!(fht.handle_move_request(99, (0, 0)), None);
}

#[test]
fn all_windows_lists_every_workspace_in_order() {
    let mut fht = Fht::new(config(2));
    fht.add_output(output(1, "a", 1920, 1080));
    fht.add_output(output(2, "b", 1920, 1080));
    fht.entries[0].wset.workspaces[0].windows.push(window(1));
    fht.entries[0].wset.workspaces[1].windows.push(window(2));
    fht.entries[1].wset.workspaces[0].windows.push(window(3));
    assert_eq!(fht.all_windows(), vec![1, 2, 3]);
}

#[test]
fn destroying_a_window_retiles_its_workspace() {
    let mut fht = Fht::new(config(2));
    fht.add_output(output(1, "edp-1", 1920, 1080));
    fht.entries[0].wset.workspaces[0].windows.push(window(1));
    fht.entries[0].wset.workspaces[0].windows.push(window(2));
    assert!(fht.remove_window(1));
    let ws = &fht.entries[0].wset.workspaces[0];
    assert_eq!(ws.windows.len(), 1);
    assert_eq!(ws.windows[0].id, 2);
    // The survivor takes the whole output again.
    assert_eq!(ws.windows[0].geometry, Rect { x: 0, y: 0, w: 1920, h: 1080 });
    assert!(!fht.remove_window(1));
}

#[test]
fn visible_outputs_follow_window_geometry() {
    let mut fht = Fht::new(config(2));
    fht.add_output(output(1, "a", 1920, 1080));
    fht.add_output(output(2, "b", 1920, 1080));
    // A window spanning the seam is visible on both outputs.
    assert_eq!(
        fht.visible_outputs_for_window(Rect { x: 1900, y: 0, w: 100, h: 100 }),
        vec![1, 2]
    );
    assert_eq!(fht.visible_outputs_for_window(Rect { x: 10, y: 10, w: 50, h: 50 }), vec![1]);
    let none: Vec<u64> = Vec::new();
    assert_eq!(fht.visible_outputs_for_window(Rect { x: 5000, y: 0, w: 10, h: 10 }), none);
}
