use fht_compositor::messages::{
    notification_from_wire, replacement_of_wire, wired_icon_name, wireless_icon_name,
    wireless_strength_icon, DeviceState, Signal,
};
use fht_compositor::style::{
    compile_style, default_radius, default_thickness, parse_hex_color, BorderConfig, Color,
    StyleError,
};

#[test]
fn hex_colors_parse_in_all_three_widths() {
    assert_eq!(
        parse_hex_color("#ff0000".as_bytes()),
        Some(Color { r: 255, g: 0, b: 0, a: 255 })
    );
    assert_eq!(
        parse_hex_color("abc".as_bytes()),
        Some(Color { r: 170, g: 187, b: 204, a: 255 })
    );
    assert_eq!(
        parse_hex_color("#11223344".as_bytes()),
        Some(Color { r: 17, g: 34, b: 51, a: 68 })
    );
    assert_eq!(parse_hex_color("#12345".as_bytes()), None);
    assert_eq!(parse_hex_color("gg0000".as_bytes()), None);
    assert_eq!(parse_hex_color("".as_bytes()), None);
}

#[test]
fn border_defaults() {
    assert_eq!(default_thickness(), 2);
    assert_eq!(default_radius(), 10);
    let b = BorderConfig::default();
    assert_eq!(b.focused_color, Color { r: 255, g: 0, b: 0, a: 255 });
    assert_eq!(b.thickness, 2);
}

#[test]
fn css_files_pass_through_unchanged() {
    let css = "a { color: red; }".to_string();
    let ext = "css".to_string();
    assert_eq!(compile_style(css.clone(), Some(&ext)), Ok(css));
}

#[test]
fn scss_sources_are_compiled() {
    let scss = "a { b { color: &; } }".to_string();
    let out = compile_style(scss, None).unwrap();
    assert_eq!(out, "a b {\n  color: a b;\n}\n");
}

#[test]
fn invalid_scss_reports_a_compile_failure() {
    let bad = "a { color: ".to_string();
    assert_eq!(compile_style(bad, None), Err(StyleError::CompileFailed));
}

#[test]
fn notifications_resolve_empty_fields_and_timeouts() {
    let n = notification_from_wire(
        1,
        String::new(),
        "icon".to_string(),
        "hello".to_string(),
        String::new(),
        -1,
    );
    assert_eq!(n.app_name, None);
    assert_eq!(n.app_icon, Some("icon".to_string()));
    assert_eq!(n.summary, "hello".to_string());
    assert_eq!(n.body, None);
    assert_eq!(n.timeout_secs, Some(10));
    let n = notification_from_wire(2, "app".to_string(), String::new(), "s".to_string(), "b".to_string(), 0);
    assert_eq!(n.timeout_secs, None);
    let n = notification_from_wire(3, "app".to_string(), String::new(), "s".to_string(), "b".to_string(), 5);
    assert_eq!(n.timeout_secs, Some(5));
    assert_eq!(replacement_of_wire(0), None);
    assert_eq!(replacement_of_wire(4), Some(4));
}

#[test]
fn signal_names_parse() {
    assert_eq!(Signal::parse(&"test".to_string()), Some(Signal::Test));
    assert_eq!(Signal::parse(&"other".to_string()), None);
    assert_eq!("test".parse::<Signal>(), Ok(Signal::Test));
    assert_eq!("nope".parse::<Signal>(), Err(()));
}

#[test]
fn network_icons_follow_device_state_and_strength() {
    assert_eq!(wired_icon_name(DeviceState::Activated), "network-wired-activated-symbolic");
    assert_eq!(wired_icon_name(DeviceState::Failed), "network-wired-error-symbolic");
    assert_eq!(
        wireless_icon_name(DeviceState::Disconnected),
        "network-wireless-offline-symbolic"
    );
    assert_eq!(wireless_strength_icon(0), "network-wireless-signal-none-symbolic");
    assert_eq!(wireless_strength_icon(19), "network-wireless-signal-none-symbolic");
    assert_eq!(wireless_strength_icon(20), "network-wireless-signal-weak-symbolic");
    assert_eq!(wireless_strength_icon(59), "network-wireless-signal-ok-symbolic");
    assert_eq!(wireless_strength_icon(79), "network-wireless-signal-good-symbolic");
    assert_eq!(wireless_strength_icon(80), "network-wireless-symbolic");
}
