//! Keyboard handling of the desktop: which action a key press asks for, in the
//! renderer's window and in the compositor.

use vstd::prelude::*;

verus! {

/// The X11 keysym of the Up arrow key.
pub const KEY_UP: u32 = 0xff52;
/// The X11 keysym of the Down arrow key.
pub const KEY_DOWN: u32 = 0xff54;
/// The X11 keysym of the Return key.
pub const KEY_RETURN: u32 = 0xff0d;
/// The X11 keysym of the keypad Enter key.
pub const KEY_KP_ENTER: u32 = 0xff8d;
/// The X11 keysym of the BackSpace key.
pub const KEY_BACK_SPACE: u32 = 0xff08;
/// The X11 keysym of the Tab key.
pub const KEY_TAB: u32 = 0xff09;

/// Which modifier keys are held.
#[derive(Clone, Copy, Debug, Default)]
pub struct KeyboardModifiers {
    pub ctrl: bool,
    pub alt: bool,
    pub shift: bool,
    pub logo: bool,
}

/// A key press or release as the renderer receives it.
#[derive(Clone, Debug)]
pub struct KeyEvent {
    pub keysym: u32,
    pub text: String,
    pub pressed: bool,
    pub modifiers: KeyboardModifiers,
}

/// The terminal's size in cells for a `width` by `height` screen: the screen
/// without the keyboard, in cells of 10 by 20 pixels, and at least 40 columns
/// by 16 rows.
pub open spec fn terminal_dimensions_spec(width: int, height: int) -> (int, int) {
    let kh = if height / 5 >= 120 {
        height / 5
    } else {
        120
    };
    let th = if height >= kh {
        height - kh
    } else {
        0
    };
    let cols = if width / 10 >= 40 {
        width / 10
    } else {
        40
    };
    let rows = if th / 20 >= 16 {
        th / 20
    } else {
        16
    };
    (cols, rows)
}

pub fn terminal_dimensions(width: u32, height: u32) -> (r: (usize, usize))
    ensures
        (r.0 as int, r.1 as int) == terminal_dimensions_spec(width as int, height as int),
{
    let kh: u32 = if height / 5 >= 120 {
        height / 5
    } else {
        120
    };
    let terminal_height = height.saturating_sub(kh);
    let cols: u32 = if width / 10 >= 40 {
        width / 10
    } else {
        40
    };
    let rows: u32 = if terminal_height / 20 >= 16 {
        terminal_height / 20
    } else {
        16
    };
    (cols as usize, rows as usize)
}

/// Whether the keysym is the character `expected`, ignoring ASCII case.
pub open spec fn shortcut_is_spec(keysym: u32, expected: char) -> bool {
    let lowered = if 0x41 <= keysym <= 0x5A {
        keysym + 32
    } else {
        keysym as int
    };
    lowered == expected as u32
}

pub fn shortcut_is(keysym: u32, expected: char) -> (r: bool)
    ensures
        r == shortcut_is_spec(keysym, expected),
{
    let lowered: u32 = if 0x41 <= keysym && keysym <= 0x5A {
        keysym + 32
    } else {
        keysym
    };
    lowered == expected as u32
}

/// The tab that `Alt` and a digit key switch to: digits 1 to 9 select tabs
/// 0 to 8.
pub open spec fn shortcut_tab_index_spec(keysym: u32) -> Option<usize> {
    if 0x31 <= keysym <= 0x39 {
        Some((keysym - 0x31) as usize)
    } else {
        None
    }
}

pub fn shortcut_tab_index(keysym: u32) -> (r: Option<usize>)
    ensures
        r == shortcut_tab_index_spec(keysym),
{
    if 0x31 <= keysym && keysym <= 0x39 {
        Some((keysym - 0x31) as usize)
    } else {
        None
    }
}

/// What a key event in the renderer's window asks for.
#[derive(Clone, Copy, Debug, PartialEq, Eq, Structural)]
pub enum KeyAction {
    /// A release: nothing to do.
    Ignore,
    NewTab,
    CloseTab,
    CopyVisible,
    Paste,
    ToggleDotfiles,
    NavigateUp,
    NavigateDown,
    EnterSelected,
    GoParent,
    SwitchTab(usize),
    /// The key goes to the terminal.
    TerminalInput,
}

/// The action of a key event: `Ctrl+Shift` with T, W, C, V or H for the tab,
/// clipboard and dotfile commands; the arrow keys, Enter and BackSpace without
/// `Ctrl`, `Alt` or the logo key for the filesystem panel; `Alt` with a digit
/// for switching tabs; everything else for the terminal.
pub open spec fn key_action_spec(e: KeyEvent) -> KeyAction {
    let m = e.modifiers;
    let k = e.keysym;
    if !e.pressed {
        KeyAction::Ignore
    } else if m.ctrl && m.shift && shortcut_is_spec(k, 't') {
        KeyAction::NewTab
    } else if m.ctrl && m.shift && shortcut_is_spec(k, 'w') {
        KeyAction::CloseTab
    } else if m.ctrl && m.shift && shortcut_is_spec(k, 'c') {
        KeyAction::CopyVisible
    } else if m.ctrl && m.shift && shortcut_is_spec(k, 'v') {
        KeyAction::Paste
    } else if m.ctrl && m.shift && shortcut_is_spec(k, 'h') {
        KeyAction::ToggleDotfiles
    } else if !m.ctrl && !m.alt && !m.logo && k == KEY_UP {
        KeyAction::NavigateUp
    } else if !m.ctrl && !m.alt && !m.logo && k == KEY_DOWN {
        KeyAction::NavigateDown
    } else if !m.ctrl && !m.alt && !m.logo && (k == KEY_RETURN || k == KEY_KP_ENTER) {
        KeyAction::EnterSelected
    } else if !m.ctrl && !m.alt && !m.logo && k == KEY_BACK_SPACE {
        KeyAction::GoParent
    } else if m.alt && !m.ctrl && !m.logo && shortcut_tab_index_spec(k) is Some {
        KeyAction::SwitchTab(shortcut_tab_index_spec(k)->0)
    } else {
        KeyAction::TerminalInput
    }
}

pub fn key_action(event: &KeyEvent) -> (r: KeyAction)
    ensures
        r == key_action_spec(*event),
{
    let m = event.modifiers;
    let k = event.keysym;
    if !event.pressed {
        return KeyAction::Ignore;
    }
    if m.ctrl && m.shift && shortcut_is(k, 't') {
        return KeyAction::NewTab;
    }
    if m.ctrl && m.shift && shortcut_is(k, 'w') {
        return KeyAction::CloseTab;
    }
    if m.ctrl && m.shift && shortcut_is(k, 'c') {
        return KeyAction::CopyVisible;
    }
    if m.ctrl && m.shift && shortcut_is(k, 'v') {
        return KeyAction::Paste;
    }
    if m.ctrl && m.shift && shortcut_is(k, 'h') {
        return KeyAction::ToggleDotfiles;
    }
    if !m.ctrl && !m.alt && !m.logo {
        if k == KEY_UP {
            return KeyAction::NavigateUp;
        }
        if k == KEY_DOWN {
            return KeyAction::NavigateDown;
        }
        if k == KEY_RETURN || k == KEY_KP_ENTER {
            return KeyAction::EnterSelected;
        }
        if k == KEY_BACK_SPACE {
            return KeyAction::GoParent;
        }
    }
    if m.alt && !m.ctrl && !m.logo {
        if let Some(index) = shortcut_tab_index(k) {
            return KeyAction::SwitchTab(index);
        }
    }
    KeyAction::TerminalInput
}

/// What a key press asks of the compositor.
#[derive(Clone, Copy, Debug, PartialEq, Eq, Structural)]
pub enum CompositorKeyAction {
    /// The key goes on to the focused client.
    Forward,
    OpenLauncher,
    CycleFocus,
    CloseFocusedWindow,
    ToggleSettings,
    LockScreen,
    /// Switch to the numbered workspace.
    Workspace(u8),
}

/// The compositor's shortcuts: `Alt+Space` opens the launcher, `Alt+Tab`
/// cycles focus, and with the logo key Q closes the focused window, comma
/// toggles the settings, L locks the screen and 1 to 9 pick a workspace.
/// Releases and all other keys go on to the client.
pub open spec fn compositor_key_action_spec(pressed: bool, alt: bool, logo: bool, sym: u32) -> CompositorKeyAction {
    if !pressed {
        CompositorKeyAction::Forward
    } else if alt && sym == 0x20 {
        CompositorKeyAction::OpenLauncher
    } else if alt && sym == KEY_TAB {
        CompositorKeyAction::CycleFocus
    } else if logo && (sym == 0x71 || sym == 0x51) {
        CompositorKeyAction::CloseFocusedWindow
    } else if logo && sym == 0x2c {
        CompositorKeyAction::ToggleSettings
    } else if logo && (sym == 0x6c || sym == 0x4c) {
        CompositorKeyAction::LockScreen
    } else if logo && 0x31 <= sym <= 0x39 {
        CompositorKeyAction::Workspace((sym - 0x30) as u8)
    } else {
        CompositorKeyAction::Forward
    }
}

pub fn compositor_key_action(pressed: bool, alt: bool, logo: bool, sym: u32) -> (r: CompositorKeyAction)
    ensures
        r == compositor_key_action_spec(pressed, alt, logo, sym),
{
    if !pressed {
        return CompositorKeyAction::Forward;
    }
    if alt && sym == 0x20 {
        return CompositorKeyAction::OpenLauncher;
    }
    if alt && sym == KEY_TAB {
        return CompositorKeyAction::CycleFocus;
    }
    if logo {
        if sym == 0x71 || sym == 0x51 {
            return CompositorKeyAction::CloseFocusedWindow;
        }
        if sym == 0x2c {
            return CompositorKeyAction::ToggleSettings;
        }
        if sym == 0x6c || sym == 0x4c {
            return CompositorKeyAction::LockScreen;
        }
        if 0x31 <= sym && sym <= 0x39 {
            return CompositorKeyAction::Workspace((sym - 0x30) as u8);
        }
    }
    CompositorKeyAction::Forward
}

/// A pressed `Ctrl+Shift` with a letter key, in either case, asks for that
/// letter's command: T a new tab, W closing the tab, C copying the visible
/// text, V pasting, H toggling dotfiles. A release asks for nothing.
pub proof fn law_ctrl_shift_commands(e: KeyEvent)
    ensures
        !e.pressed ==> key_action_spec(e) == KeyAction::Ignore,
        e.pressed && e.modifiers.ctrl && e.modifiers.shift ==> {
            &&& (e.keysym == 0x74 || e.keysym == 0x54) ==> key_action_spec(e) == KeyAction::NewTab
            &&& (e.keysym == 0x77 || e.keysym == 0x57) ==> key_action_spec(e) == KeyAction::CloseTab
            &&& (e.keysym == 0x63 || e.keysym == 0x43) ==> key_action_spec(e) == KeyAction::CopyVisible
            &&& (e.keysym == 0x76 || e.keysym == 0x56) ==> key_action_spec(e) == KeyAction::Paste
            &&& (e.keysym == 0x68 || e.keysym == 0x48) ==> key_action_spec(e) == KeyAction::ToggleDotfiles
        },
{
    assert('t' as u32 == 0x74);
    assert('w' as u32 == 0x77);
    assert('c' as u32 == 0x63);
    assert('v' as u32 == 0x76);
    assert('h' as u32 == 0x68);
}

} // verus!
