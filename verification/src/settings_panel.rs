//! The settings overlay: a sidebar of categories and a content pane.
//!
//! Fractional settings are held as integers: the border glow in percent, the
//! display scale, pointer speeds and animation speed in tenths. The About
//! page is built from texts that the caller reads.

use crate::text::{bool_string, bool_text, decimal, decimal_string};
use vstd::prelude::*;

verus! {

/// The number of categories in the sidebar.
pub const CATEGORY_COUNT: usize = 14;

/// The name of the sidebar category at `index`.
/// The names of the categories, in the order of the sidebar.
pub open spec fn category_names() -> Seq<Seq<char>> {
    seq![
        "Appearance"@,
        "Display"@,
        "Input"@,
        "Audio"@,
        "Network"@,
        "Bluetooth"@,
        "Power"@,
        "Security"@,
        "Users"@,
        "Notifications"@,
        "Services"@,
        "Compositor"@,
        "Terminal"@,
        "About"@,
    ]
}

pub fn category_name(index: usize) -> (r: Option<&'static str>)
    ensures
        r is Some <==> index < CATEGORY_COUNT,
        r matches Some(n) ==> n@ == category_names()[index as int],
{
    let names: [&'static str; 14] = [
        "Appearance",
        "Display",
        "Input",
        "Audio",
        "Network",
        "Bluetooth",
        "Power",
        "Security",
        "Users",
        "Notifications",
        "Services",
        "Compositor",
        "Terminal",
        "About",
    ];
    proof {
        assert(forall|k: int| 0 <= k < 14 ==> #[trigger] names@[k]@ == category_names()[k]);
    }
    if index < 14 {
        Some(names[index])
    } else {
        None
    }
}

#[derive(Debug, Clone)]
pub struct AppearanceSettings {
    /// 0 Tron, 1 Matrix, 2 Amber.
    pub theme_index: usize,
    /// The border glow in percent.
    pub border_glow_pct: u32,
    pub font_size: u32,
}

impl Default for AppearanceSettings {
    fn default() -> (s: Self)
        ensures
            s.theme_index == 0,
            s.border_glow_pct == 70,
            s.font_size == 14,
    {
        AppearanceSettings { theme_index: 0, border_glow_pct: 70, font_size: 14 }
    }
}

#[derive(Debug, Clone)]
pub struct DisplaySettings {
    /// The output scale in tenths.
    pub scale_tenths: u32,
    pub refresh_rate: u32,
}

impl Default for DisplaySettings {
    fn default() -> (s: Self)
        ensures
            s.scale_tenths == 10,
            s.refresh_rate == 60,
    {
        DisplaySettings { scale_tenths: 10, refresh_rate: 60 }
    }
}

#[derive(Debug, Clone)]
pub struct InputSettings {
    pub kb_layout: String,
    /// The mouse sensitivity in tenths.
    pub mouse_sensitivity_tenths: u32,
    /// The scroll speed in tenths.
    pub scroll_speed_tenths: u32,
}

impl Default for InputSettings {
    fn default() -> (s: Self)
        ensures
            s.kb_layout@ == "us"@,
            s.mouse_sensitivity_tenths == 10,
            s.scroll_speed_tenths == 10,
    {
        InputSettings {
            kb_layout: String::from_str("us"),
            mouse_sensitivity_tenths: 10,
            scroll_speed_tenths: 10,
        }
    }
}

#[derive(Debug, Clone)]
pub struct AudioSettings {
    pub volume: u32,
    pub muted: bool,
}

impl Default for AudioSettings {
    fn default() -> (s: Self)
        ensures
            s.volume == 70,
            !s.muted,
    {
        AudioSettings { volume: 70, muted: false }
    }
}

#[derive(Debug, Clone)]
pub struct NetworkSettings {
    pub wifi_enabled: bool,
    pub active_connection: String,
}

impl Default for NetworkSettings {
    fn default() -> (s: Self)
        ensures
            s.wifi_enabled,
            s.active_connection@ == Seq::<char>::empty(),
    {
        NetworkSettings { wifi_enabled: true, active_connection: String::new() }
    }
}

#[derive(Debug, Clone)]
pub struct BluetoothSettings {
    pub enabled: bool,
}

impl Default for BluetoothSettings {
    fn default() -> (s: Self)
        ensures
            !s.enabled,
    {
        BluetoothSettings { enabled: false }
    }
}

#[derive(Debug, Clone)]
pub struct PowerSettings {
    pub screen_blank_secs: u32,
    pub suspend_secs: u32,
    pub hibernate_on_low: bool,
}

impl Default for PowerSettings {
    fn default() -> (s: Self)
        ensures
            s.screen_blank_secs == 300,
            s.suspend_secs == 900,
            s.hibernate_on_low,
    {
        PowerSettings { screen_blank_secs: 300, suspend_secs: 900, hibernate_on_low: true }
    }
}

#[derive(Debug, Clone)]
pub struct SecuritySettings {
    pub lock_timeout_secs: u32,
    pub tailscale_enabled: bool,
    pub wireguard_enabled: bool,
    pub tor_enabled: bool,
}

impl Default for SecuritySettings {
    fn default() -> (s: Self)
        ensures
            s.lock_timeout_secs == 600,
            !s.tailscale_enabled,
            !s.wireguard_enabled,
            !s.tor_enabled,
    {
        SecuritySettings {
            lock_timeout_secs: 600,
            tailscale_enabled: false,
            wireguard_enabled: false,
            tor_enabled: false,
        }
    }
}

#[derive(Debug, Clone)]
pub struct UsersSettings {
    pub display_name: String,
}

impl Default for UsersSettings {
    fn default() -> (s: Self)
        ensures
            s.display_name@ == Seq::<char>::empty(),
    {
        UsersSettings { display_name: String::new() }
    }
}

#[derive(Debug, Clone)]
pub struct NotificationsSettings {
    pub do_not_disturb: bool,
    pub history_limit: usize,
}

impl Default for NotificationsSettings {
    fn default() -> (s: Self)
        ensures
            !s.do_not_disturb,
            s.history_limit == 50,
    {
        NotificationsSettings { do_not_disturb: false, history_limit: 50 }
    }
}

#[derive(Debug, Clone)]
pub struct ServicesSettings {
    pub service_list: Vec<String>,
}

impl Default for ServicesSettings {
    fn default() -> (s: Self)
        ensures
            s.service_list@.len() == 0,
    {
        ServicesSettings { service_list: Vec::new() }
    }
}

#[derive(Debug, Clone)]
pub struct CompositorSettings {
    pub border_width: u32,
    pub gap_size: u32,
    /// The animation speed in tenths.
    pub animation_speed_tenths: u32,
}

impl Default for CompositorSettings {
    fn default() -> (s: Self)
        ensures
            s.border_width == 2,
            s.gap_size == 8,
            s.animation_speed_tenths == 10,
    {
        CompositorSettings { border_width: 2, gap_size: 8, animation_speed_tenths: 10 }
    }
}

#[derive(Debug, Clone)]
pub struct TerminalSettings {
    pub shell: String,
    pub scrollback: u32,
    /// 0 block, 1 underline, 2 bar.
    pub cursor_style: usize,
    pub font_size: u32,
}

impl TerminalSettings {
    /// The default terminal settings for the given login shell.
    pub fn with_shell(shell: String) -> (s: Self)
        ensures
            s.shell == shell,
            s.scrollback == 10_000,
            s.cursor_style == 0,
            s.font_size == 13,
    {
        TerminalSettings { shell, scrollback: 10_000, cursor_style: 0, font_size: 13 }
    }
}

/// A key that the settings overlay reacts to.
#[derive(Debug, Clone, Copy, PartialEq, Eq, Structural)]
pub enum SettingsKey {
    Up,
    Down,
    Tab,
    Enter,
    Escape,
}

#[derive(Debug, Clone)]
pub struct SettingsPanel {
    pub active: bool,
    pub selected_category: usize,
    /// `false` while the sidebar has focus, `true` while the content pane has.
    pub focus_right: bool,
    pub appearance: AppearanceSettings,
    pub display: DisplaySettings,
    pub input: InputSettings,
    pub audio: AudioSettings,
    pub network: NetworkSettings,
    pub bluetooth: BluetoothSettings,
    pub power: PowerSettings,
    pub security: SecuritySettings,
    pub users: UsersSettings,
    pub notifications: NotificationsSettings,
    pub services: ServicesSettings,
    pub compositor: CompositorSettings,
    pub terminal: TerminalSettings,
}

/// The navigation state: shown, category, which side has focus.
pub open spec fn nav(p: SettingsPanel) -> (bool, usize, bool) {
    (p.active, p.selected_category, p.focus_right)
}

/// The panel with its navigation state replaced by `s` and every setting kept.
pub open spec fn with_nav(p: SettingsPanel, s: (bool, usize, bool)) -> SettingsPanel {
    SettingsPanel { active: s.0, selected_category: s.1, focus_right: s.2, ..p }
}

/// The navigation state after a key, and whether the key was consumed.
pub open spec fn after_key(s: (bool, usize, bool), key: SettingsKey) -> ((bool, usize, bool), bool) {
    let (active, cat, right) = s;
    if !active {
        (s, false)
    } else {
        match key {
            SettingsKey::Escape => ((false, cat, right), true),
            SettingsKey::Up => (
                (active, if !right && cat > 0 {
                    (cat - 1) as usize
                } else {
                    cat
                }, right),
                true,
            ),
            SettingsKey::Down => (
                (active, if !right && cat < CATEGORY_COUNT - 1 {
                    (cat + 1) as usize
                } else {
                    cat
                }, right),
                true,
            ),
            SettingsKey::Tab => ((active, cat, !right), true),
            SettingsKey::Enter => (s, true),
        }
    }
}

pub open spec fn enabled_text(b: bool) -> Seq<char> {
    if b {
        "Enabled"@
    } else {
        "Disabled"@
    }
}

pub open spec fn cursor_style_name(i: usize) -> Seq<char> {
    if i == 0 {
        "Block"@
    } else if i == 1 {
        "Underline"@
    } else {
        "Bar"@
    }
}

pub open spec fn theme_name(i: usize) -> Seq<char> {
    if i == 0 {
        "Tron"@
    } else if i == 1 {
        "Matrix"@
    } else {
        "Amber"@
    }
}

/// A value held in tenths, written with one decimal.
pub open spec fn tenths_text(t: u32) -> Seq<char> {
    decimal((t / 10) as nat) + "."@ + decimal((t % 10) as nat)
}

/// The lines of the About category, from the package version and the texts
/// of `/proc/version` and `/etc/hostname` (empty where they cannot be read).
pub open spec fn about_lines(version: Seq<char>, proc_version: Seq<char>, hostname_file: Seq<char>) -> Seq<(Seq<char>, Seq<char>)> {
    seq![
        ("eDEX-DE Version"@, version),
        ("Hostname"@, crate::text::trim(hostname_file)),
        ("Kernel"@, kernel_release(proc_version)),
        ("License"@, "GPL-3.0"@),
        ("Repository"@, "https://github.com/eDEX-OS/eDEX-DE"@),
    ]
}

/// The (label, value) lines of the selected category; the About category
/// shows [`about_lines`] of the given texts, and an index past the last
/// category shows nothing.
pub open spec fn category_lines(
    p: SettingsPanel,
    version: Seq<char>,
    proc_version: Seq<char>,
    hostname_file: Seq<char>,
) -> Seq<(Seq<char>, Seq<char>)> {
    let c = p.selected_category;
    if c == 0 {
        seq![
            ("Theme"@, theme_name(p.appearance.theme_index)),
            ("Border Glow"@, decimal(p.appearance.border_glow_pct as nat) + "%"@),
            ("Font Size"@, decimal(p.appearance.font_size as nat) + "pt"@),
        ]
    } else if c == 1 {
        seq![
            ("Scale"@, tenths_text(p.display.scale_tenths) + "x"@),
            ("Refresh Rate"@, decimal(p.display.refresh_rate as nat) + "Hz"@),
        ]
    } else if c == 2 {
        seq![
            ("Keyboard Layout"@, p.input.kb_layout@),
            ("Mouse Sensitivity"@, tenths_text(p.input.mouse_sensitivity_tenths)),
            ("Scroll Speed"@, tenths_text(p.input.scroll_speed_tenths)),
        ]
    } else if c == 3 {
        seq![
            ("Volume"@, decimal(p.audio.volume as nat) + "%"@),
            ("Muted"@, bool_text(p.audio.muted)),
        ]
    } else if c == 4 {
        seq![
            ("Wi-Fi"@, enabled_text(p.network.wifi_enabled)),
            (
                "Active Connection"@,
                if p.network.active_connection@.len() == 0 {
                    "None"@
                } else {
                    p.network.active_connection@
                },
            ),
        ]
    } else if c == 5 {
        seq![("Bluetooth"@, enabled_text(p.bluetooth.enabled))]
    } else if c == 6 {
        seq![
            ("Screen Blank"@, decimal(p.power.screen_blank_secs as nat) + "s"@),
            ("Suspend After"@, decimal(p.power.suspend_secs as nat) + "s"@),
            ("Hibernate on Low Battery"@, bool_text(p.power.hibernate_on_low)),
        ]
    } else if c == 7 {
        seq![
            ("Lock Timeout"@, decimal(p.security.lock_timeout_secs as nat) + "s"@),
            ("Tailscale VPN"@, bool_text(p.security.tailscale_enabled)),
            ("WireGuard VPN"@, bool_text(p.security.wireguard_enabled)),
            ("Tor"@, bool_text(p.security.tor_enabled)),
        ]
    } else if c == 8 {
        seq![("User"@, p.users.display_name@)]
    } else if c == 9 {
        seq![
            ("Do Not Disturb"@, bool_text(p.notifications.do_not_disturb)),
            ("History Limit"@, decimal(p.notifications.history_limit as nat)),
        ]
    } else if c == 10 {
        seq![("Active Services"@, decimal(p.services.service_list@.len()))]
    } else if c == 11 {
        seq![
            ("Border Width"@, decimal(p.compositor.border_width as nat) + "px"@),
            ("Gap Size"@, decimal(p.compositor.gap_size as nat) + "px"@),
            ("Animation Speed"@, tenths_text(p.compositor.animation_speed_tenths) + "x"@),
        ]
    } else if c == 12 {
        seq![
            ("Shell"@, p.terminal.shell@),
            ("Scrollback Lines"@, decimal(p.terminal.scrollback as nat)),
            ("Cursor Style"@, cursor_style_name(p.terminal.cursor_style)),
            ("Font Size"@, decimal(p.terminal.font_size as nat) + "pt"@),
        ]
    } else if c == 13 {
        about_lines(version, proc_version, hostname_file)
    } else {
        Seq::empty()
    }
}

pub open spec fn line_view(l: (&'static str, String)) -> (Seq<char>, Seq<char>) {
    (l.0@, l.1@)
}

fn tenths_string(t: u32, suffix: &str) -> (r: String)
    ensures
        r@ == tenths_text(t) + suffix@,
{
    let mut s = decimal_string((t / 10) as u64);
    s.append(".");
    s.append(decimal_string((t % 10) as u64).as_str());
    s.append(suffix);
    proof {
        reveal_strlit(".");
        assert(s@ =~= tenths_text(t) + suffix@);
    }
    s
}

fn with_suffix(n: u64, suffix: &str) -> (r: String)
    ensures
        r@ == decimal(n as nat) + suffix@,
{
    let mut s = decimal_string(n);
    s.append(suffix);
    s
}

impl SettingsPanel {
    /// A closed panel with every category at its defaults and the terminal
    /// using the given login shell.
    pub fn new(shell: String) -> (p: Self)
        ensures
            nav(p) == (false, 0usize, false),
            p.appearance.theme_index == 0,
            p.appearance.border_glow_pct == 70,
            p.appearance.font_size == 14,
            p.display.scale_tenths == 10,
            p.display.refresh_rate == 60,
            p.input.kb_layout@ == "us"@,
            p.input.mouse_sensitivity_tenths == 10,
            p.input.scroll_speed_tenths == 10,
            p.audio.volume == 70,
            !p.audio.muted,
            p.network.wifi_enabled,
            p.network.active_connection@ == Seq::<char>::empty(),
            !p.bluetooth.enabled,
            p.power.screen_blank_secs == 300,
            p.power.suspend_secs == 900,
            p.power.hibernate_on_low,
            p.security.lock_timeout_secs == 600,
            !p.security.tailscale_enabled,
            !p.security.wireguard_enabled,
            !p.security.tor_enabled,
            p.users.display_name@ == Seq::<char>::empty(),
            !p.notifications.do_not_disturb,
            p.notifications.history_limit == 50,
            p.services.service_list@.len() == 0,
            p.compositor.border_width == 2,
            p.compositor.gap_size == 8,
            p.compositor.animation_speed_tenths == 10,
            p.terminal.shell == shell,
            p.terminal.scrollback == 10_000,
            p.terminal.cursor_style == 0,
            p.terminal.font_size == 13,
    {
        SettingsPanel {
            active: false,
            selected_category: 0,
            focus_right: false,
            appearance: AppearanceSettings::default(),
            display: DisplaySettings::default(),
            input: InputSettings::default(),
            audio: AudioSettings::default(),
            network: NetworkSettings::default(),
            bluetooth: BluetoothSettings::default(),
            power: PowerSettings::default(),
            security: SecuritySettings::default(),
            users: UsersSettings::default(),
            notifications: NotificationsSettings::default(),
            services: ServicesSettings::default(),
            compositor: CompositorSettings::default(),
            terminal: TerminalSettings::with_shell(shell),
        }
    }

    /// Show the overlay with the first category selected and the sidebar focused.
    pub fn open(&mut self)
        ensures
            *final(self) == with_nav(*old(self), (true, 0usize, false)),
    {
        self.active = true;
        self.focus_right = false;
        self.selected_category = 0;
    }

    pub fn close(&mut self)
        ensures
            *final(self) == with_nav(
                *old(self),
                (false, old(self).selected_category, old(self).focus_right),
            ),
    {
        self.active = false;
    }

    /// Open the overlay where it is closed, close it where it is open.
    pub fn toggle(&mut self)
        ensures
            old(self).active ==> *final(self) == with_nav(
                *old(self),
                (false, old(self).selected_category, old(self).focus_right),
            ),
            !old(self).active ==> *final(self) == with_nav(*old(self), (true, 0usize, false)),
    {
        if self.active {
            self.close();
        } else {
            self.open();
        }
    }

    /// React to a key; returns whether the key was consumed.
    pub fn handle_key(&mut self, key: SettingsKey) -> (consumed: bool)
        ensures
            consumed == after_key(nav(*old(self)), key).1,
            *final(self) == with_nav(*old(self), after_key(nav(*old(self)), key).0),
    {
        if !self.active {
            return false;
        }
        match key {
            SettingsKey::Escape => {
                self.close();
                true
            },
            SettingsKey::Up => {
                if !self.focus_right && self.selected_category > 0 {
                    self.selected_category -= 1;
                }
                true
            },
            SettingsKey::Down => {
                if !self.focus_right && self.selected_category < CATEGORY_COUNT - 1 {
                    self.selected_category += 1;
                }
                true
            },
            SettingsKey::Tab => {
                self.focus_right = !self.focus_right;
                true
            },
            SettingsKey::Enter => true,
        }
    }

    /// The (label, value) lines of the selected category.
    /// The About category is built from the package version and the texts of
    /// `/proc/version` and `/etc/hostname` (empty where they cannot be read).
    pub fn category_content(&self, version: &str, proc_version: &str, hostname_file: &str) -> (r: Vec<(&'static str, String)>)
        requires
            self.selected_category == 0 ==> self.appearance.theme_index < 3,
            self.selected_category == 12 ==> self.terminal.cursor_style < 3,
        ensures
            r@.map_values(|l: (&'static str, String)| line_view(l)) == category_lines(
                *self,
                version@,
                proc_version@,
                hostname_file@,
            ),
    {
        let c = self.selected_category;
        if c == 13 {
            return about_content(version, proc_version, hostname_file);
        }
        let mut r: Vec<(&'static str, String)> = Vec::new();
        if c == 0 {
            let theme = if self.appearance.theme_index == 0 {
                "Tron"
            } else if self.appearance.theme_index == 1 {
                "Matrix"
            } else {
                "Amber"
            };
            r.push(("Theme", String::from_str(theme)));
            r.push(("Border Glow", with_suffix(self.appearance.border_glow_pct as u64, "%")));
            r.push(("Font Size", with_suffix(self.appearance.font_size as u64, "pt")));
        } else if c == 1 {
            r.push(("Scale", tenths_string(self.display.scale_tenths, "x")));
            r.push(("Refresh Rate", with_suffix(self.display.refresh_rate as u64, "Hz")));
        } else if c == 2 {
            r.push(("Keyboard Layout", self.input.kb_layout.clone()));
            r.push(("Mouse Sensitivity", tenths_string(self.input.mouse_sensitivity_tenths, "")));
            r.push(("Scroll Speed", tenths_string(self.input.scroll_speed_tenths, "")));
        } else if c == 3 {
            r.push(("Volume", with_suffix(self.audio.volume as u64, "%")));
            r.push(("Muted", bool_string(self.audio.muted)));
        } else if c == 4 {
            r.push(
                (
                    "Wi-Fi",
                    if self.network.wifi_enabled {
                        String::from_str("Enabled")
                    } else {
                        String::from_str("Disabled")
                    },
                ),
            );
            r.push(
                (
                    "Active Connection",
                    if self.network.active_connection.as_str().is_empty() {
                        String::from_str("None")
                    } else {
                        self.network.active_connection.clone()
                    },
                ),
            );
        } else if c == 5 {
            r.push(
                (
                    "Bluetooth",
                    if self.bluetooth.enabled {
                        String::from_str("Enabled")
                    } else {
                        String::from_str("Disabled")
                    },
                ),
            );
        } else if c == 6 {
            r.push(("Screen Blank", with_suffix(self.power.screen_blank_secs as u64, "s")));
            r.push(("Suspend After", with_suffix(self.power.suspend_secs as u64, "s")));
            r.push(("Hibernate on Low Battery", bool_string(self.power.hibernate_on_low)));
        } else if c == 7 {
            r.push(("Lock Timeout", with_suffix(self.security.lock_timeout_secs as u64, "s")));
            r.push(("Tailscale VPN", bool_string(self.security.tailscale_enabled)));
            r.push(("WireGuard VPN", bool_string(self.security.wireguard_enabled)));
            r.push(("Tor", bool_string(self.security.tor_enabled)));
        } else if c == 8 {
            r.push(("User", self.users.display_name.clone()));
        } else if c == 9 {
            r.push(("Do Not Disturb", bool_string(self.notifications.do_not_disturb)));
            r.push(("History Limit", decimal_string(self.notifications.history_limit as u64)));
        } else if c == 10 {
            r.push(("Active Services", decimal_string(self.services.service_list.len() as u64)));
        } else if c == 11 {
            r.push(("Border Width", with_suffix(self.compositor.border_width as u64, "px")));
            r.push(("Gap Size", with_suffix(self.compositor.gap_size as u64, "px")));
            r.push(("Animation Speed", tenths_string(self.compositor.animation_speed_tenths, "x")));
        } else if c == 12 {
            r.push(("Shell", self.terminal.shell.clone()));
            r.push(("Scrollback Lines", decimal_string(self.terminal.scrollback as u64)));
            let style = if self.terminal.cursor_style == 0 {
                "Block"
            } else if self.terminal.cursor_style == 1 {
                "Underline"
            } else {
                "Bar"
            };
            r.push(("Cursor Style", String::from_str(style)));
            r.push(("Font Size", with_suffix(self.terminal.font_size as u64, "pt")));
        }
        proof {
            reveal_strlit("");
            assert(r@.map_values(|l: (&'static str, String)| line_view(l)) =~= category_lines(
                *self,
                version@,
                proc_version@,
                hostname_file@,
            ));
        }
        r
    }
}

/// Every key leaves the selected category among the categories.
pub proof fn law_category_in_range(s: (bool, usize, bool), key: SettingsKey)
    requires
        s.1 < CATEGORY_COUNT,
    ensures
        after_key(s, key).0.1 < CATEGORY_COUNT,
{
}

/// With the sidebar focused, moving down and then up comes back to the same
/// category, where there is one below.
pub proof fn law_down_then_up(s: (bool, usize, bool))
    requires
        s.0,
        !s.2,
        s.1 + 1 < CATEGORY_COUNT,
    ensures
        after_key(after_key(s, SettingsKey::Down).0, SettingsKey::Up).0 == s,
{
}

/// Pressing Tab twice gives the focus back to where it was.
pub proof fn law_tab_twice(s: (bool, usize, bool))
    ensures
        after_key(after_key(s, SettingsKey::Tab).0, SettingsKey::Tab).0 == s,
{
}

/// A closed overlay takes no key and stays as it is.
pub proof fn law_closed_ignores_keys(s: (bool, usize, bool), key: SettingsKey)
    requires
        !s.0,
    ensures
        after_key(s, key) == (s, false),
{
}

/// The kernel release in `/proc/version`: its third word, `unknown` where it
/// has none.
pub open spec fn kernel_release(proc_version: Seq<char>) -> Seq<char> {
    if crate::text::words(proc_version).len() > 2 {
        crate::text::words(proc_version)[2]
    } else {
        "unknown"@
    }
}

/// The lines of the About category, from the package version and the texts
/// of `/proc/version` and `/etc/hostname` (empty where they cannot be read).
pub fn about_content(version: &str, proc_version: &str, hostname_file: &str) -> (r: Vec<(&'static str, String)>)
    ensures
        r@.map_values(|l: (&'static str, String)| line_view(l)) == about_lines(
            version@,
            proc_version@,
            hostname_file@,
        ),
{
    let w = crate::text::split_whitespace(crate::text::chars_of(proc_version).as_slice());
    let kernel = if w.len() > 2 {
        crate::text::string_of(w[2].as_slice())
    } else {
        String::from_str("unknown")
    };
    let host = crate::text::string_of(crate::text::trim_chars(crate::text::chars_of(hostname_file).as_slice()).as_slice());
    let mut r: Vec<(&'static str, String)> = Vec::new();
    r.push(("eDEX-DE Version", String::from_str(version)));
    r.push(("Hostname", host));
    r.push(("Kernel", kernel));
    r.push(("License", String::from_str("GPL-3.0")));
    r.push(("Repository", String::from_str("https://github.com/eDEX-OS/eDEX-DE")));
    proof {
        assert(r@.map_values(|l: (&'static str, String)| line_view(l)) =~= seq![
            ("eDEX-DE Version"@, version@),
            ("Hostname"@, crate::text::trim(hostname_file@)),
            ("Kernel"@, kernel_release(proc_version@)),
            ("License"@, "GPL-3.0"@),
            ("Repository"@, "https://github.com/eDEX-OS/eDEX-DE"@),
        ]);
    }
    r
}

} // verus!
