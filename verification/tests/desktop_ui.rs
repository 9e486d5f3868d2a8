use edex_de::boot::{BootAnimation, BootPhase, TYPING_STEP_NANOS};
use edex_de::settings_panel::about_content;
use edex_de::ui_state::{panel_texts, FsEntry as UiFsEntry, UiState};
use edex_de::filesystem::{EnterAction, FilesystemPanel, FsEntry};
use edex_de::keys::{
    compositor_key_action, key_action, shortcut_is, shortcut_tab_index, terminal_dimensions,
    CompositorKeyAction, KeyAction, KeyEvent, KeyboardModifiers, KEY_DOWN, KEY_RETURN,
};
use edex_de::launcher_state::LauncherState;
use edex_de::panels::{grab_indicator, PanelLayout, Rectangle};
use edex_de::settings_panel::{category_name, SettingsKey, SettingsPanel, TerminalSettings};
use edex_de::statusbar::{compose as compose_status, StatusInfo};
use edex_de::tiling::{focus_after_removal, retile_geometry, TilingLayout};
use edex_de::topbar::{compose as compose_top, hostname_of, TopBarState};

fn entry(name: &str, is_dir: bool) -> FsEntry {
    FsEntry::from_listing(name.to_string(), format!("/home/u/{name}"), is_dir, false, Some(1))
}

#[test]
fn listing_is_sorted_directories_first() {
    let mut p = FilesystemPanel::new("/home/u".to_string());
    p.apply_listing(vec![
        entry("zeta.txt", false),
        entry("Alpha", true),
        entry(".hidden", false),
        entry("beta.rs", false),
        entry("code", true),
    ]);
    let names: Vec<&str> = p.entries.iter().map(|e| e.name.as_str()).collect();
    assert_eq!(names, vec!["Alpha", "code", "beta.rs", "zeta.txt"]);
    p.toggle_dotfiles();
    assert!(p.show_dotfiles);
    p.apply_listing(vec![entry(".hidden", false), entry("a", false)]);
    assert_eq!(p.entries.len(), 2);
    assert_eq!(p.entries[0].name, ".hidden");
}

#[test]
fn entries_know_their_extension_and_icon() {
    let e = entry("Main.RS", false);
    assert_eq!(e.extension.as_deref(), Some("RS"));
    assert!(entry(".bashrc", false).is_hidden);
    assert!(entry(".bashrc", false).extension.is_none());
    let mut p = FilesystemPanel::new("/".to_string());
    p.apply_listing(vec![entry("Main.RS", false), entry("docs", true), entry("a.tar", false)]);
    let ui = p.to_ui_entries();
    assert_eq!(ui[0].name, "📁 docs");
    assert!(ui[0].is_dir);
    assert_eq!(ui[1].name, "📦 a.tar");
    assert_eq!(ui[2].name, "🦀 Main.RS");
}

#[test]
fn selection_moves_and_scrolls() {
    let mut p = FilesystemPanel::new("/x".to_string());
    p.set_panel_height(32 + 22 * 2);
    assert_eq!(p.max_visible, 2);
    p.apply_listing(vec![entry("a", false), entry("b", false), entry("c", false)]);
    p.navigate_down();
    p.navigate_down();
    assert_eq!(p.selected, 2);
    assert_eq!(p.scroll_offset, 1);
    assert_eq!(p.selected_visible_index(), 1);
    p.navigate_down();
    assert_eq!(p.selected, 2);
    p.navigate_up();
    p.navigate_up();
    assert_eq!(p.selected, 0);
    assert_eq!(p.scroll_offset, 0);
    p.navigate_up();
    assert_eq!(p.selected, 0);
    assert_eq!(p.visible_entries().len(), 2);
}

#[test]
fn down_then_up_comes_back() {
    let mut p = FilesystemPanel::new("/x".to_string());
    p.apply_listing(vec![entry("a", false), entry("b", false), entry("c", false)]);
    p.navigate_down();
    let before = p.selected;
    p.navigate_down();
    p.navigate_up();
    assert_eq!(p.selected, before);
}

#[test]
fn breadcrumbs_and_parent() {
    let p0 = FilesystemPanel::new("/home/./u//docs/".to_string());
    assert_eq!(p0.breadcrumbs(), vec!["/", "home", "u", "docs"]);
    let mut p = FilesystemPanel::new("/home/u/docs".to_string());
    assert!(p.go_parent());
    assert_eq!(p.cwd, "/home/u");
    let mut root = FilesystemPanel::new("/".to_string());
    assert_eq!(root.breadcrumbs(), vec!["/"]);
    assert!(!root.go_parent());
    assert_eq!(root.cwd, "/");
    assert_eq!(FilesystemPanel::new(String::new()).breadcrumbs(), vec!["/"]);
}

#[test]
fn entering_entries() {
    let mut p = FilesystemPanel::new("/home/u".to_string());
    assert!(matches!(p.enter_selected(), EnterAction::Nothing));
    p.apply_listing(vec![entry("docs", true), entry("f.txt", false)]);
    p.navigate_down();
    match p.enter_selected() {
        EnterAction::OpenFile(path) => assert_eq!(path, "/home/u/f.txt"),
        _ => panic!("expected a file"),
    }
    p.navigate_up();
    assert!(matches!(p.enter_selected(), EnterAction::ListDirectory));
    assert_eq!(p.cwd, "/home/u/docs");
    assert_eq!(p.selected, 0);
}

#[test]
fn default_layout_of_full_hd() {
    let l = PanelLayout::from_size(1920, 1080);
    assert_eq!((l.status_bar.width, l.status_bar.height), (1920, 30));
    assert_eq!((l.top_bar.y, l.top_bar.height), (30, 40));
    assert_eq!((l.keyboard.y, l.keyboard.height), (864, 216));
    assert_eq!((l.filesystem.x, l.filesystem.y, l.filesystem.width, l.filesystem.height), (0, 70, 384, 794));
    assert_eq!((l.terminal.x, l.terminal.width), (384, 960));
    assert_eq!((l.sysinfo.x, l.sysinfo.width), (1344, 576));
    assert_eq!(l.fs_terminal_handle.x, 382);
    assert_eq!(l.terminal_sysinfo_handle.x, 1342);
}

#[test]
fn narrow_layout_keeps_minimum_widths() {
    let l = PanelLayout::from_splits(800, 600, 0, 0);
    assert_eq!(l.filesystem.width, 180);
    assert_eq!(l.terminal.x, 180);
    assert_eq!(l.terminal.width, 320);
    assert_eq!(l.sysinfo.x, 500);
    assert_eq!(l.sysinfo.width, 300);
    assert_eq!(l.keyboard.height, 120);
    assert_eq!(l.filesystem.width + l.terminal.width + l.sysinfo.width, 800);
}

#[test]
fn grab_indicator_is_centred() {
    let r = grab_indicator(Rectangle::new(382, 70, 4, 794));
    assert_eq!((r.x, r.y, r.width, r.height), (381, 70 + (794 - 56) / 2, 6, 56));
    let small = grab_indicator(Rectangle::new(0, 10, 4, 20));
    assert_eq!((small.x, small.y, small.height), (0, 10, 20));
}

#[test]
fn tiles_split_the_screen() {
    let one = retile_geometry(1920, 1080, 1);
    assert_eq!((one[0].width, one[0].height), (1920, 1080));
    assert!(one[0].fullscreen);
    let three = retile_geometry(1000, 800, 3);
    let xs: Vec<i32> = three.iter().map(|t| t.x).collect();
    let ws: Vec<i32> = three.iter().map(|t| t.width).collect();
    assert_eq!(xs, vec![0, 333, 666]);
    assert_eq!(ws, vec![333, 333, 334]);
    assert!(!three[0].raise && three[2].raise);
    assert!(retile_geometry(1000, 800, 0).is_empty());
    assert_eq!(focus_after_removal(&vec![1, 2], Some(3), 3), Some(2));
    assert_eq!(focus_after_removal(&vec![], Some(3), 3), None);
    assert_eq!(focus_after_removal(&vec![1, 2], Some(1), 3), Some(1));
}

#[test]
fn tiling_layout_adds_and_removes_windows() {
    let mut layout = TilingLayout::new(1200, 700);
    let one = layout.add_window(7);
    assert_eq!(one.len(), 1);
    assert!(one[0].fullscreen);
    assert_eq!((one[0].x, one[0].width, one[0].height), (0, 1200, 700));
    layout.add_window(9);
    let three = layout.add_window(11);
    assert_eq!(layout.windows, vec![7, 9, 11]);
    let xs: Vec<i32> = three.iter().map(|t| t.x).collect();
    assert_eq!(xs, vec![0, 400, 800]);
    assert!(three.iter().all(|t| !t.fullscreen));
    let two = layout.remove_window(9);
    assert_eq!(layout.windows, vec![7, 11]);
    let ws: Vec<i32> = two.iter().map(|t| t.width).collect();
    assert_eq!(ws, vec![600, 600]);
    let same = layout.remove_window(42);
    assert_eq!(layout.windows, vec![7, 11]);
    assert_eq!(same.len(), 2);
    layout.remove_window(7);
    let none = layout.remove_window(11);
    assert!(none.is_empty());
    assert!(layout.retile().is_empty());
}

#[test]
fn closing_a_new_window_restores_the_layout() {
    let mut layout = TilingLayout::new(1000, 500);
    layout.add_window(1);
    layout.add_window(2);
    let before = layout.retile();
    layout.add_window(3);
    let after = layout.remove_window(3);
    assert_eq!(layout.windows, vec![1, 2]);
    let b: Vec<(i32, i32)> = before.iter().map(|t| (t.x, t.width)).collect();
    let a: Vec<(i32, i32)> = after.iter().map(|t| (t.x, t.width)).collect();
    assert_eq!(a, b);
}

#[test]
fn terminal_size_in_cells() {
    assert_eq!(terminal_dimensions(1920, 1080), (192, 43));
    assert_eq!(terminal_dimensions(100, 100), (40, 16));
}

#[test]
fn key_decisions() {
    let ev = |keysym: u32, ctrl: bool, shift: bool, alt: bool| KeyEvent {
        keysym,
        text: String::new(),
        pressed: true,
        modifiers: KeyboardModifiers { ctrl, alt, shift, logo: false },
    };
    assert_eq!(key_action(&ev('T' as u32, true, true, false)), KeyAction::NewTab);
    assert_eq!(key_action(&ev('w' as u32, true, true, false)), KeyAction::CloseTab);
    assert_eq!(key_action(&ev(KEY_DOWN, false, false, false)), KeyAction::NavigateDown);
    assert_eq!(key_action(&ev(KEY_RETURN, false, false, false)), KeyAction::EnterSelected);
    assert_eq!(key_action(&ev('3' as u32, false, false, true)), KeyAction::SwitchTab(2));
    assert_eq!(key_action(&ev('x' as u32, false, false, false)), KeyAction::TerminalInput);
    let mut released = ev(KEY_DOWN, false, false, false);
    released.pressed = false;
    assert_eq!(key_action(&released), KeyAction::Ignore);
    assert!(shortcut_is('C' as u32, 'c'));
    assert_eq!(shortcut_tab_index('1' as u32), Some(0));
    assert_eq!(shortcut_tab_index('0' as u32), None);
}

#[test]
fn compositor_keys() {
    assert_eq!(compositor_key_action(true, true, false, 0x20), CompositorKeyAction::OpenLauncher);
    assert_eq!(compositor_key_action(true, false, true, 0x51), CompositorKeyAction::CloseFocusedWindow);
    assert_eq!(compositor_key_action(true, false, true, 0x35), CompositorKeyAction::Workspace(5));
    assert_eq!(compositor_key_action(false, true, false, 0x20), CompositorKeyAction::Forward);
}

#[test]
fn launcher_state_edits_the_query() {
    let mut s = LauncherState::default();
    s.open();
    assert!(s.visible);
    s.push_char('f');
    s.push_char('i');
    assert_eq!(s.query, "fi");
    s.pop_char();
    assert_eq!(s.query, "f");
    s.pop_char();
    s.pop_char();
    assert_eq!(s.query, "");
    s.move_down();
    assert_eq!(s.selected, 0);
    s.move_up();
    assert_eq!(s.selected, 0);
    s.close();
    assert!(!s.visible);
}

#[test]
fn settings_navigation() {
    let mut p = SettingsPanel::new("/bin/bash".to_string());
    assert!(!p.handle_key(SettingsKey::Down));
    p.toggle();
    assert!(p.active);
    assert!(p.handle_key(SettingsKey::Up));
    assert_eq!(p.selected_category, 0);
    p.handle_key(SettingsKey::Down);
    p.handle_key(SettingsKey::Down);
    assert_eq!(p.selected_category, 2);
    p.handle_key(SettingsKey::Tab);
    p.handle_key(SettingsKey::Down);
    assert_eq!(p.selected_category, 2);
    p.handle_key(SettingsKey::Tab);
    for _ in 0..20 {
        p.handle_key(SettingsKey::Down);
    }
    assert_eq!(p.selected_category, 13);
    assert!(p.handle_key(SettingsKey::Escape));
    assert!(!p.active);
    assert_eq!(category_name(0), Some("Appearance"));
    assert_eq!(category_name(13), Some("About"));
    assert_eq!(category_name(14), None);
    assert_eq!(TerminalSettings::with_shell("/bin/zsh".to_string()).shell, "/bin/zsh");
}

#[test]
fn settings_content_of_every_category() {
    let mut p = SettingsPanel::new("/bin/bash".to_string());
    let lines = |p: &SettingsPanel| p.category_content("0.1.0", "Linux version 6.8.0-1 (b@h) #1\n", "box\n");
    assert_eq!(
        lines(&p),
        vec![("Theme", "Tron".to_string()), ("Border Glow", "70%".to_string()), ("Font Size", "14pt".to_string())]
    );
    p.selected_category = 1;
    assert_eq!(lines(&p), vec![("Scale", "1.0x".to_string()), ("Refresh Rate", "60Hz".to_string())]);
    p.selected_category = 2;
    assert_eq!(
        lines(&p),
        vec![
            ("Keyboard Layout", "us".to_string()),
            ("Mouse Sensitivity", "1.0".to_string()),
            ("Scroll Speed", "1.0".to_string())
        ]
    );
    p.selected_category = 3;
    assert_eq!(lines(&p), vec![("Volume", "70%".to_string()), ("Muted", "false".to_string())]);
    p.selected_category = 4;
    assert_eq!(lines(&p), vec![("Wi-Fi", "Enabled".to_string()), ("Active Connection", "None".to_string())]);
    p.selected_category = 5;
    assert_eq!(lines(&p), vec![("Bluetooth", "Disabled".to_string())]);
    p.selected_category = 6;
    assert_eq!(lines(&p)[1], ("Suspend After", "900s".to_string()));
    p.selected_category = 7;
    assert_eq!(lines(&p)[0], ("Lock Timeout", "600s".to_string()));
    p.selected_category = 8;
    assert_eq!(lines(&p), vec![("User", String::new())]);
    p.selected_category = 9;
    assert_eq!(lines(&p)[1], ("History Limit", "50".to_string()));
    p.selected_category = 10;
    assert_eq!(lines(&p), vec![("Active Services", "0".to_string())]);
    p.selected_category = 11;
    assert_eq!(
        lines(&p),
        vec![
            ("Border Width", "2px".to_string()),
            ("Gap Size", "8px".to_string()),
            ("Animation Speed", "1.0x".to_string())
        ]
    );
    p.selected_category = 12;
    assert_eq!(lines(&p)[2], ("Cursor Style", "Block".to_string()));
    assert_eq!(lines(&p)[3], ("Font Size", "13pt".to_string()));
    p.selected_category = 13;
    let about = lines(&p);
    assert_eq!(about[1], ("Hostname", "box".to_string()));
    assert_eq!(about[2], ("Kernel", "6.8.0-1".to_string()));
    p.selected_category = 14;
    assert!(lines(&p).is_empty());
    p.selected_category = 0;
    p.appearance.theme_index = 2;
    p.appearance.border_glow_pct = 5;
    assert_eq!(lines(&p)[0].1, "Amber");
    assert_eq!(lines(&p)[1].1, "5%");
    p.selected_category = 1;
    p.display.scale_tenths = 15;
    assert_eq!(lines(&p)[0].1, "1.5x");
}

#[test]
fn enter_leaves_the_settings_unchanged() {
    let mut p = SettingsPanel::new("/bin/sh".to_string());
    p.open();
    p.audio.muted = true;
    p.handle_key(SettingsKey::Down);
    assert!(p.handle_key(SettingsKey::Enter));
    assert!(p.audio.muted);
    assert_eq!(p.selected_category, 1);
    assert_eq!(p.audio.volume, 70);
    p.toggle();
    assert!(!p.active && p.audio.muted);
}

#[test]
fn status_bar_text() {
    let s = StatusInfo {
        volume: 42,
        battery_pct: Some(80),
        battery_charging: true,
        tor_active: true,
        tailscale_active: false,
        vpn_active: true,
        net_tx_kbps: "1.5".to_string(),
        net_rx_kbps: "0.0".to_string(),
    };
    assert_eq!(compose_status(&s), "🧅 🔐   🔊 42%   ⚡ 80%   ▲ 1.5 kb/s   ▼ 0.0 kb/s");
    let quiet = StatusInfo { battery_pct: None, tor_active: false, vpn_active: false, ..s };
    assert_eq!(compose_status(&quiet), "🔊 42%   ▲ 1.5 kb/s   ▼ 0.0 kb/s");
}

#[test]
fn top_bar_text() {
    let st = TopBarState {
        hostname: "box".to_string(),
        active_tab: 1,
        date: "2024-01-02".to_string(),
        clock: "10:00".to_string(),
        vpn_active: false,
        tor_active: false,
        tailscale_active: true,
    };
    let t = compose_top(&st);
    assert_eq!(t.left, "box | ws:2");
    assert_eq!(t.center, "eDEX-DE");
    assert_eq!(t.right, "◉ 2024-01-02 10:00");
    let idle = TopBarState { tailscale_active: false, active_tab: usize::MAX, ..st };
    let t2 = compose_top(&idle);
    assert!(t2.right.starts_with("○ "));
    assert_eq!(t2.left, format!("box | ws:{}", usize::MAX));
    assert_eq!(hostname_of(Some(" host \n".to_string()), None), "host");
    assert_eq!(hostname_of(Some("  ".to_string()), Some("envhost".to_string())), "envhost");
    assert_eq!(hostname_of(None, None), "edex-host");
}

#[test]
fn about_lines() {
    let lines = about_content("0.1.0", "Linux version 6.8.0-1 (builder@host) #1 SMP\n", "box\n");
    assert_eq!(lines[0], ("eDEX-DE Version", "0.1.0".to_string()));
    assert_eq!(lines[1], ("Hostname", "box".to_string()));
    assert_eq!(lines[2], ("Kernel", "6.8.0-1".to_string()));
    assert_eq!(lines[3], ("License", "GPL-3.0".to_string()));
    assert_eq!(about_content("v", "", "")[2].1, "unknown");
}

#[test]
fn boot_screen_types_then_fades() {
    let mut b = BootAnimation::new("0.1.0", 1_000);
    assert_eq!(b.lines.len(), 7);
    assert_eq!(b.lines[0], "eDEX-DE v0.1.0 — Wayland Desktop Environment");
    assert_eq!(b.current_lines(), &["".to_string()][..]);
    assert!(!b.update(1_000 + 7_999_999));
    assert_eq!(b.displayed[0], "");
    assert!(!b.update(1_000 + 8_000_000));
    assert_eq!(b.displayed[0], "e");
    assert!(!b.update(1_000 + 8_000_001));
    assert_eq!(b.displayed[0], "e");
    assert!(!b.update(20_000_000));
    assert_eq!(b.displayed[0], "eD");
    assert_eq!(b.overlay_alpha(), 100);

    let mut short = BootAnimation {
        phase: BootPhase::Typing { line: 0, char_pos: 0, timer_nanos: 0 },
        lines: vec!["ab".to_string(), "c".to_string()],
        displayed: vec![String::new()],
        start_nanos: 0,
    };
    let mut t: u128 = 0;
    let mut step = |b: &mut BootAnimation| {
        t += TYPING_STEP_NANOS;
        b.update(t)
    };
    assert!(!step(&mut short));
    assert!(!step(&mut short));
    assert_eq!(short.displayed, vec!["ab".to_string(), String::new()]);
    assert!(!step(&mut short));
    assert_eq!(short.displayed, vec!["ab".to_string(), "c".to_string()]);
    assert!(matches!(short.phase, BootPhase::FadeIn { alpha_pct: 100 }));
    let mut fades = 0;
    while !short.update(0) {
        fades += 1;
    }
    assert_eq!(fades, 12);
    assert_eq!(short.overlay_alpha(), 0);
    assert!(short.update(0));
}

fn panel_ok(p: &FilesystemPanel) -> bool {
    p.max_visible >= 1
        && if p.entries.is_empty() {
            p.selected == 0 && p.scroll_offset == 0
        } else {
            p.selected < p.entries.len() && p.scroll_offset <= p.selected && p.selected < p.scroll_offset + p.max_visible
        }
}

#[test]
fn every_panel_move_keeps_the_selection_in_view() {
    let mut p = FilesystemPanel::new("/home/u".to_string());
    assert!(panel_ok(&p));
    p.apply_listing((0..40).map(|i| entry(&format!("f{i:02}"), i % 3 == 0)).collect());
    assert!(panel_ok(&p));
    p.set_panel_height(32 + 22 * 5);
    assert_eq!(p.max_visible, 5);
    for _ in 0..12 {
        p.navigate_down();
        assert!(panel_ok(&p));
    }
    p.set_panel_height(40);
    assert!(panel_ok(&p));
    p.navigate_up();
    assert!(panel_ok(&p));
    p.toggle_dotfiles();
    assert!(panel_ok(&p));
    p.go_parent();
    assert!(panel_ok(&p));
    p.apply_listing(vec![entry("only", true)]);
    assert!(panel_ok(&p));
    p.enter_selected();
    assert!(panel_ok(&p));
    p.apply_listing(vec![]);
    assert!(panel_ok(&p));
}

#[test]
fn renderer_panel_texts() {
    let state = UiState {
        clock: "12:00:01".to_string(),
        hostname: "box".to_string(),
        terminal_content: vec![],
        filesystem_cwd: "/ / home".to_string(),
        filesystem_entries: vec![
            UiFsEntry { name: "docs".to_string(), is_dir: true },
            UiFsEntry { name: "a.txt".to_string(), is_dir: false },
        ],
    };
    let t = panel_texts(&state);
    assert_eq!(t.clock, " 12:00:01 ");
    assert_eq!(t.title, "eDEX-DE");
    assert_eq!(t.terminal, "$ renderer online\n$ awaiting shell output");
    assert_eq!(t.filesystem, "/ / home\n[dir] docs\na.txt");
    assert_eq!(t.sysinfo, "HOST   box\nGPU    Vulkan / wgpu\nPANELS filesystem | terminal | sysinfo\nFPS    target 60");
    assert_eq!(t.keyboard, "HEX KEYBOARD // PHASE 2 VISUAL FOUNDATION");
    let busy = UiState {
        terminal_content: vec!["$ ls".to_string(), "x".to_string()],
        filesystem_entries: vec![],
        ..state
    };
    let t2 = panel_texts(&busy);
    assert_eq!(t2.terminal, "$ ls\nx");
    assert_eq!(t2.filesystem, "/ / home\n");
}
