//! Verified core of the eDEX-DE desktop environment: the notification store,
//! the filesystem panel, screen layout, keyboard handling decisions and the
//! parsers for the text that system tools print.

pub mod mako;
pub mod network;
pub mod notifications;
pub mod order;
pub mod privacy;
pub mod statusbar;
pub mod panels;
pub mod power;
pub mod search;
pub mod settings_panel;
pub mod shortcuts;
pub mod terminal;
pub mod text;
pub mod sysinfo;
pub mod sysmon;
pub mod systemd;
pub mod theme;
pub mod tiling;
pub mod topbar;
pub mod ui_state;
pub mod units;
pub mod update;
pub mod users;
pub mod app_index;
pub mod audio;
pub mod bluetooth;
pub mod boot;
pub mod compositor;
pub mod config;
pub mod desktop;
pub mod files;
pub mod filesystem;
pub mod fingerprint;
pub mod hyprland;
pub mod keyboard;
pub mod keys;
pub mod launcher_state;
