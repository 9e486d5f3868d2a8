use edex_de::terminal::shell_environment;
use edex_de::compositor::CompositorState;
use edex_de::hyprland::{
    active_window_from_raw, describes_window, dispatch_command, forwarded_event, framed_command,
    generate_hyprland_config, hyprland_status, HYPRLAND_CONFIG, socket_path, workspace_action, workspaces_from_raw, RawActiveWindow, RawWorkspace,
};
use edex_de::keyboard::HexKeyboard;
use edex_de::sysinfo::{battery_info, is_battery_supply, system_overview};
use edex_de::sysmon::{
    battery_state, check_camera, check_mic, disk_info, get_privacy_status, has_wireguard_interface,
    is_process_dir, push_history, read_battery, BatteryFiles, PrivacyProbes, ProcFds,
};
use edex_de::terminal::{is_session_mode, pty_text_action, PtyTextAction};
use edex_de::theme::{builtin_theme, parse_color, BuiltinTheme, Rgb, ThemeConfig};
use edex_de::units::{byte_unit, kib_unit, ByteUnit, KibUnit};
use std::collections::VecDeque;

#[test]
fn hyprland_config_snippet() {
    let c = generate_hyprland_config();
    assert_eq!(c, HYPRLAND_CONFIG);
    assert!(c.starts_with("# eDEX-DE"));
    assert!(c.contains("\nexec-once = edex-de\n"));
    assert!(c.contains("bind = ALT, Space, exec, edex-de --launcher\n"));
    assert!(c.ends_with("bind = SUPER, 0, workspace, 10\n"));
}

#[test]
fn colors() {
    assert_eq!(parse_color("#00d4ff"), Ok(Rgb { r: 0, g: 212, b: 255 }));
    assert_eq!(parse_color("#FF9F00"), Ok(Rgb { r: 255, g: 159, b: 0 }));
    assert_eq!(parse_color("#+f+f+f"), Ok(Rgb { r: 15, g: 15, b: 15 }));
    assert_eq!(parse_color("00d4ff"), Err("expected color in #rrggbb format, got 00d4ff".to_string()));
    assert_eq!(parse_color("#00d4f"), Err("expected color in #rrggbb format, got #00d4f".to_string()));
    assert_eq!(parse_color("#zz0000"), Err("invalid red channel".to_string()));
    assert_eq!(parse_color("#00zz00"), Err("invalid green channel".to_string()));
    assert_eq!(parse_color("#0000zz"), Err("invalid blue channel".to_string()));
}

#[test]
fn theme_config() {
    let cfg = ThemeConfig {
        name: "tron".to_string(),
        background: "#0a0e1a".to_string(),
        panel_bg: "#0d1117".to_string(),
        border: "#00d4ff".to_string(),
        text_primary: "#c8e6ff".to_string(),
        text_secondary: "#7ab5d0".to_string(),
        accent: "#00ff88".to_string(),
    };
    let t = cfg.to_theme().unwrap();
    assert_eq!(t.background, Rgb { r: 10, g: 14, b: 26 });
    assert_eq!(t.accent, Rgb { r: 0, g: 255, b: 136 });
    let bad = ThemeConfig { panel_bg: "red".to_string(), accent: "#xyz".to_string(), ..cfg };
    assert_eq!(bad.to_theme().err().unwrap(), "expected color in #rrggbb format, got red");
    assert_eq!(builtin_theme("TRON"), Ok(BuiltinTheme::Tron));
    assert_eq!(builtin_theme("Matrix"), Ok(BuiltinTheme::Matrix));
    assert_eq!(builtin_theme("amber"), Ok(BuiltinTheme::Amber));
    assert_eq!(builtin_theme("Neon"), Err("unknown builtin theme: neon".to_string()));
}

#[test]
fn hyprland_requests() {
    assert!(hyprland_status(Some("abc".to_string())).running);
    assert!(!hyprland_status(None).running);
    assert_eq!(socket_path(Some("sig".to_string()), ".socket.sock").as_deref(), Some("/tmp/hypr/sig/.socket.sock"));
    assert_eq!(socket_path(None, ".socket.sock"), None);
    assert_eq!(framed_command("j/workspaces"), "j/workspaces\n");
    assert_eq!(framed_command("x\n"), "x\n");
    assert_eq!(framed_command(&framed_command("y")), framed_command("y"));
    assert_eq!(dispatch_command("workspace 3"), "dispatch workspace 3");
    assert_eq!(workspace_action(3), "workspace 3");
    assert_eq!(workspace_action(-1), "workspace -1");
    assert_eq!(workspace_action(i32::MIN), "workspace -2147483648");
}

#[test]
fn hyprland_answers() {
    let raws = vec![
        RawWorkspace {
            id: Some(1),
            name: Some("1".to_string()),
            monitor: Some("DP-1".to_string()),
            windows: Some(2),
            has_fullscreen: None,
            last_window: None,
        },
        RawWorkspace { id: None, name: Some("x".to_string()), monitor: None, windows: None, has_fullscreen: None, last_window: None },
        RawWorkspace { id: Some(-98), name: Some("special".to_string()), monitor: None, windows: None, has_fullscreen: Some(true), last_window: Some("0x1".to_string()) },
    ];
    let ws = workspaces_from_raw(raws);
    assert_eq!(ws.len(), 2);
    assert_eq!(ws[0].monitor, "DP-1");
    assert_eq!(ws[0].windows, 2);
    assert_eq!(ws[1].id, -98);
    assert!(ws[1].has_fullscreen);
    assert_eq!(ws[1].monitor, "");
    assert!(!describes_window("  {} "));
    assert!(!describes_window(""));
    assert!(describes_window("{\"a\":1}"));
    let w = active_window_from_raw(RawActiveWindow {
        address: Some("0xabc".to_string()),
        class: None,
        title: Some("t".to_string()),
        workspace_id: Some(2),
        workspace_name: None,
        monitor: None,
        pid: Some(42),
        floating: None,
        width: Some(800),
        height: None,
        at_x: Some(10),
        at_y: Some(-5),
    });
    assert_eq!(w.address, "0xabc");
    assert_eq!(w.class, "");
    assert_eq!(w.pid, 42);
    assert_eq!((w.width, w.height), (800, 0));
    assert_eq!(w.at, [10, -5]);
}

#[test]
fn hyprland_events() {
    assert_eq!(
        forwarded_event("workspace>>3"),
        Some(("workspace".to_string(), "3".to_string()))
    );
    assert_eq!(
        forwarded_event("activewindow>>kitty,~>>x"),
        Some(("activewindow".to_string(), "kitty,~>>x".to_string()))
    );
    assert_eq!(forwarded_event("urgent>>0x1"), None);
    assert_eq!(forwarded_event("workspace 3"), None);
    assert_eq!(forwarded_event("workspace>"), None);
}

#[test]
fn pty_messages() {
    assert_eq!(pty_text_action("Resize080024"), PtyTextAction::Resize { cols: 80, rows: 24 });
    assert_eq!(pty_text_action("Resize+08024"), PtyTextAction::Resize { cols: 8, rows: 24 });
    assert_eq!(pty_text_action("Resize+8+024"), PtyTextAction::Ignore);
    assert_eq!(pty_text_action("Resize08x024"), PtyTextAction::Ignore);
    assert_eq!(pty_text_action("Resize0800245"), PtyTextAction::Write);
    assert_eq!(pty_text_action("ls -la\n"), PtyTextAction::Write);
    assert!(is_session_mode(Some("eDEX-DE".to_string())));
    assert!(is_session_mode(Some("edex-de".to_string())));
    assert!(!is_session_mode(Some("GNOME".to_string())));
    assert!(!is_session_mode(None));
}

#[test]
fn size_units() {
    assert_eq!(byte_unit(1023), ByteUnit::Bytes);
    assert_eq!(byte_unit(1024), ByteUnit::Kib);
    assert_eq!(byte_unit(1024 * 1024), ByteUnit::Mib);
    assert_eq!(byte_unit(5 * 1024 * 1024 * 1024), ByteUnit::Gib);
    assert_eq!(kib_unit(1023), KibUnit::Kib);
    assert_eq!(kib_unit(2048), KibUnit::Mib);
    assert_eq!(kib_unit(1024 * 1024), KibUnit::Gib);
}

#[test]
fn privacy_indicators() {
    let dev = "Inter-|   Receive\n face |bytes\n    lo: 0 0\n  wg0: 1 2\n";
    assert!(has_wireguard_interface(dev));
    assert!(!has_wireguard_interface("  eth0: 1\n"));
    assert!(is_process_dir("1234"));
    assert!(!is_process_dir("self"));
    let procs = vec![
        ProcFds { name: "self".to_string(), targets: vec!["/dev/video0".to_string()] },
        ProcFds { name: "77".to_string(), targets: vec!["/dev/null".to_string(), "/dev/snd/pcmC0D0c".to_string()] },
    ];
    assert!(check_mic(&procs));
    assert!(!check_camera(&procs));
    let probes = PrivacyProbes {
        tailscale_ok: true,
        proc_net_dev: Some("  eth0: 1\n".to_string()),
        wireguard_links: true,
        tor_ok: false,
        fprintd_ok: true,
        procs,
    };
    let s = get_privacy_status(&probes);
    assert!(s.tailscale_connected && s.wireguard_active && !s.tor_active && s.fprintd_active);
    assert!(s.mic_active && !s.camera_active);
}

#[test]
fn history_is_bounded() {
    let mut h: VecDeque<u32> = VecDeque::new();
    for v in 0..5 {
        push_history(&mut h, v, 3);
    }
    assert_eq!(h.iter().copied().collect::<Vec<_>>(), vec![2, 3, 4]);
    push_history(&mut h, 9, 0);
    assert!(h.is_empty());
}

#[test]
fn first_readable_battery_decides() {
    let none = BatteryFiles { capacity: None, status: None };
    let bat1 = BatteryFiles { capacity: Some("64\n".to_string()), status: Some("Discharging\n".to_string()) };
    assert_eq!(read_battery(&vec![none.clone(), bat1.clone()]), Some((64, false)));
    let bad = BatteryFiles { capacity: Some("unknown".to_string()), status: None };
    assert_eq!(read_battery(&vec![bad, bat1]), None);
    let charging = BatteryFiles { capacity: Some("100".to_string()), status: Some("Full".to_string()) };
    assert_eq!(read_battery(&vec![charging]), Some((100, true)));
    assert_eq!(read_battery(&vec![none.clone(), none]), None);
    assert_eq!(read_battery(&vec![]), None);
}

#[test]
fn disks_and_batteries() {
    let d = disk_info("/".to_string(), 100, 30, "ext4".to_string());
    assert_eq!(d.used_bytes, 70);
    assert_eq!(disk_info("/x".to_string(), 10, 30, "tmpfs".to_string()).used_bytes, 0);
    assert_eq!(battery_state(" 87\n", Some("Charging\n".to_string())), Some((87, true)));
    assert_eq!(battery_state("50", Some("Full".to_string())), Some((50, true)));
    assert_eq!(battery_state("50", None), Some((50, false)));
    assert_eq!(battery_state("n/a", None), None);
    assert!(is_battery_supply("Battery\n"));
    assert!(!is_battery_supply("Mains\n"));
    let b = battery_info(Some("abc".to_string()), Some("Full\n".to_string()));
    assert_eq!(b.percent, 0);
    assert!(!b.is_charging && b.ac_connected && b.has_battery);
    let c = battery_info(Some(" 42".to_string()), Some("Charging".to_string()));
    assert_eq!(c.percent, 42);
    assert!(c.is_charging && c.ac_connected);
}

#[test]
fn overview_defaults() {
    let o = system_overview(None, None, Some("box".to_string()), 10, 20);
    assert_eq!(o.os_name, "Linux");
    assert_eq!(o.os_version, "");
    assert_eq!(o.hostname, "box");
    assert_eq!((o.uptime_secs, o.boot_time), (10, 20));
}

#[test]
fn keyboard_layout() {
    let k = HexKeyboard::new();
    assert_eq!(k.rows[0][0].label, "`");
    assert_eq!(k.rows[0][13].label, "Backspace");
    assert_eq!(k.rows[0][13].width_units, 2);
    assert!(k.hover_key.is_none() && k.pressed_key.is_none());
}

#[test]
fn compositor_version() {
    assert_eq!(CompositorState::new("0.3.1").version, "0.3.1");
}

#[test]
fn shell_environment_adds_terminal_variables() {
    let env = shell_environment(vec![("LANG".to_string(), "C".to_string())]);
    assert_eq!(env.len(), 4);
    assert_eq!(env[0], ("LANG".to_string(), "C".to_string()));
    assert_eq!(env[1], ("TERM".to_string(), "xterm-256color".to_string()));
    assert_eq!(env[3], ("TERM_PROGRAM".to_string(), "eDEX-UI".to_string()));
}
