//! Screen layout of the desktop: status bar, top bar, three side-by-side
//! panels (filesystem, terminal, system information) and the on-screen
//! keyboard at the bottom.

use vstd::prelude::*;

verus! {

/// An axis-aligned rectangle in pixels.
#[derive(Clone, Copy, Debug)]
pub struct Rectangle {
    pub x: u32,
    pub y: u32,
    pub width: u32,
    pub height: u32,
}

impl Rectangle {
    pub fn new(x: u32, y: u32, width: u32, height: u32) -> (r: Self)
        ensures
            r.x == x,
            r.y == y,
            r.width == width,
            r.height == height,
    {
        Rectangle { x, y, width, height }
    }
}

/// Which of the two panel borders is being dragged.
#[derive(Clone, Copy, Debug, PartialEq, Eq, Structural)]
pub enum DragTarget {
    FsTerminal,
    TerminalSysinfo,
}

/// The rectangles of all parts of the screen.
#[derive(Clone, Copy, Debug)]
pub struct PanelLayout {
    pub filesystem: Rectangle,
    pub terminal: Rectangle,
    pub sysinfo: Rectangle,
    pub keyboard: Rectangle,
    pub top_bar: Rectangle,
    pub status_bar: Rectangle,
    pub fs_terminal_handle: Rectangle,
    pub terminal_sysinfo_handle: Rectangle,
}

pub const STATUS_BAR_HEIGHT: u32 = 30;
pub const TOP_BAR_HEIGHT: u32 = 40;
pub const MIN_FS_WIDTH: u32 = 180;
pub const MIN_TERMINAL_WIDTH: u32 = 320;
pub const MIN_SYSINFO_WIDTH: u32 = 220;
pub const HANDLE_WIDTH: u32 = 4;

pub open spec fn sat_sub(a: int, b: int) -> int {
    if a >= b {
        a - b
    } else {
        0
    }
}

pub open spec fn clamp_int(x: int, lo: int, hi: int) -> int {
    if x < lo {
        lo
    } else if x > hi {
        hi
    } else {
        x
    }
}

/// The keyboard's height: a fifth of the screen, and at least 120 pixels.
pub open spec fn keyboard_height(height: int) -> int {
    if height / 5 >= 120 {
        height / 5
    } else {
        120
    }
}

/// The border between the filesystem and terminal panels, given the wanted
/// position: kept between 180 and `width - 540` (or 180 where that is smaller).
pub open spec fn fs_boundary(width: int, wanted: int) -> int {
    let hi = if sat_sub(width, 540) >= 180 {
        sat_sub(width, 540)
    } else {
        180
    };
    clamp_int(wanted, 180, hi)
}

/// The border between the terminal and system panels, given the first border
/// and the wanted position: at least 320 right of the first border and, where
/// there is room, 220 left of the screen's right edge.
pub open spec fn terminal_boundary(width: int, fs: int, wanted: int) -> int {
    let lo = if fs + 320 <= u32::MAX {
        fs + 320
    } else {
        u32::MAX as int
    };
    let hi = if sat_sub(width, 220) >= lo {
        sat_sub(width, 220)
    } else {
        lo
    };
    clamp_int(wanted, lo, hi)
}

pub open spec fn rect(x: int, y: int, w: int, h: int) -> (int, int, int, int) {
    (x, y, w, h)
}

pub open spec fn rect_of(r: Rectangle) -> (int, int, int, int) {
    (r.x as int, r.y as int, r.width as int, r.height as int)
}

/// The layout of a `width` by `height` screen whose panel borders are wanted
/// at `fs_wanted` and `terminal_wanted` pixels from the left edge.
pub open spec fn layout_spec(width: int, height: int, fs_wanted: int, terminal_wanted: int) -> (
    (int, int, int, int),
    (int, int, int, int),
    (int, int, int, int),
    (int, int, int, int),
    (int, int, int, int),
    (int, int, int, int),
    (int, int, int, int),
    (int, int, int, int),
) {
    let kh = keyboard_height(height);
    let panel_y: int = 70;
    let panel_h = sat_sub(height, panel_y + kh);
    let fs = fs_boundary(width, fs_wanted);
    let tb = terminal_boundary(width, fs, terminal_wanted);
    (
        rect(0, panel_y, fs, panel_h),
        rect(fs, panel_y, sat_sub(tb, fs), panel_h),
        rect(tb, panel_y, sat_sub(width, tb), panel_h),
        rect(0, sat_sub(height, kh), width, kh),
        rect(0, 30, width, 40),
        rect(0, 0, width, 30),
        rect(sat_sub(fs, 2), panel_y, 4, panel_h),
        rect(sat_sub(tb, 2), panel_y, 4, panel_h),
    )
}

pub open spec fn layout_of(l: PanelLayout) -> (
    (int, int, int, int),
    (int, int, int, int),
    (int, int, int, int),
    (int, int, int, int),
    (int, int, int, int),
    (int, int, int, int),
    (int, int, int, int),
    (int, int, int, int),
) {
    (
        rect_of(l.filesystem),
        rect_of(l.terminal),
        rect_of(l.sysinfo),
        rect_of(l.keyboard),
        rect_of(l.top_bar),
        rect_of(l.status_bar),
        rect_of(l.fs_terminal_handle),
        rect_of(l.terminal_sysinfo_handle),
    )
}

fn clamp_u32(x: u32, lo: u32, hi: u32) -> (r: u32)
    requires
        lo <= hi,
    ensures
        r == clamp_int(x as int, lo as int, hi as int),
{
    if x < lo {
        lo
    } else if x > hi {
        hi
    } else {
        x
    }
}

/// The wanted position of the filesystem/terminal border by default: a fifth
/// of the width, rounded to the nearest pixel.
pub open spec fn default_fs_split(width: int) -> int {
    (2 * width + 5) / 10
}

/// The wanted position of the terminal/system border by default: seven tenths
/// of the width, rounded to the nearest pixel, halves up.
pub open spec fn default_terminal_split(width: int) -> int {
    (7 * width + 5) / 10
}

impl PanelLayout {
    /// The layout with the panel borders wanted at `fs_wanted` and
    /// `terminal_wanted` pixels from the left edge; each border is moved as
    /// little as needed to leave every panel its minimum width.
    pub fn from_splits(width: u32, height: u32, fs_wanted: u32, terminal_wanted: u32) -> (l: Self)
        ensures
            layout_of(l) == layout_spec(
                width as int,
                height as int,
                fs_wanted as int,
                terminal_wanted as int,
            ),
    {
        let status_bar_h: u32 = STATUS_BAR_HEIGHT;
        let top_bar_h: u32 = TOP_BAR_HEIGHT;
        let keyboard_h: u32 = if height / 5 >= 120 {
            height / 5
        } else {
            120
        };
        let panel_y: u32 = status_bar_h + top_bar_h;
        let panel_h: u32 = height.saturating_sub(panel_y + keyboard_h);
        let min_fs: u32 = MIN_FS_WIDTH;
        let min_terminal: u32 = MIN_TERMINAL_WIDTH;
        let min_sysinfo: u32 = MIN_SYSINFO_WIDTH;
        let room: u32 = width.saturating_sub(min_terminal + min_sysinfo);
        let max_fs_boundary: u32 = if room >= min_fs {
            room
        } else {
            min_fs
        };
        let fs_boundary: u32 = clamp_u32(fs_wanted, min_fs, max_fs_boundary);
        let min_terminal_boundary: u32 = fs_boundary.saturating_add(min_terminal);
        let room2: u32 = width.saturating_sub(min_sysinfo);
        let max_terminal_boundary: u32 = if room2 >= min_terminal_boundary {
            room2
        } else {
            min_terminal_boundary
        };
        let terminal_boundary: u32 = clamp_u32(
            terminal_wanted,
            min_terminal_boundary,
            max_terminal_boundary,
        );
        let handle_w: u32 = HANDLE_WIDTH;
        let filesystem = Rectangle::new(0, panel_y, fs_boundary, panel_h);
        let terminal = Rectangle::new(
            fs_boundary,
            panel_y,
            terminal_boundary.saturating_sub(fs_boundary),
            panel_h,
        );
        let sysinfo = Rectangle::new(
            terminal_boundary,
            panel_y,
            width.saturating_sub(terminal_boundary),
            panel_h,
        );
        PanelLayout {
            status_bar: Rectangle::new(0, 0, width, status_bar_h),
            top_bar: Rectangle::new(0, status_bar_h, width, top_bar_h),
            filesystem,
            terminal,
            sysinfo,
            keyboard: Rectangle::new(0, height.saturating_sub(keyboard_h), width, keyboard_h),
            fs_terminal_handle: Rectangle::new(
                fs_boundary.saturating_sub(handle_w / 2),
                panel_y,
                handle_w,
                panel_h,
            ),
            terminal_sysinfo_handle: Rectangle::new(
                terminal_boundary.saturating_sub(handle_w / 2),
                panel_y,
                handle_w,
                panel_h,
            ),
        }
    }

    /// The default layout of a `width` by `height` screen: the filesystem panel
    /// ends at a fifth of the width and the terminal at seven tenths.
    pub fn from_size(width: u32, height: u32) -> (l: Self)
        ensures
            layout_of(l) == layout_spec(
                width as int,
                height as int,
                default_fs_split(width as int),
                default_terminal_split(width as int),
            ),
    {
        let w = width as u64;
        let fs = ((2 * w + 5) / 10) as u32;
        let tb = ((7 * w + 5) / 10) as u32;
        Self::from_splits(width, height, fs, tb)
    }
}

/// The grab indicator drawn on a panel border: at most 56 pixels high,
/// centred on the border and one pixel wider on each side.
pub fn grab_indicator(handle: Rectangle) -> (r: Rectangle)
    requires
        handle.width + 2 <= u32::MAX,
        handle.y + (handle.height - (if handle.height <= 56 {
            handle.height as int
        } else {
            56
        })) / 2 <= u32::MAX,
    ensures
        r.height == if handle.height <= 56 {
            handle.height
        } else {
            56
        },
        r.x == sat_sub(handle.x as int, 1),
        r.y == handle.y + (handle.height - r.height) / 2,
        r.width == handle.width + 2,
{
    let height = if handle.height <= 56 {
        handle.height
    } else {
        56
    };
    Rectangle::new(
        handle.x.saturating_sub(1),
        handle.y + handle.height.saturating_sub(height) / 2,
        handle.width + 2,
        height,
    )
}

/// Where the screen is at least 720 pixels wide, the three panels fill its
/// width side by side without gaps, each at least as wide as its minimum.
pub proof fn lemma_panels_fill_width(width: u32, height: u32, fs_wanted: u32, terminal_wanted: u32)
    requires
        width >= 720,
    ensures
        ({
            let l = layout_spec(width as int, height as int, fs_wanted as int, terminal_wanted as int);
            &&& l.0.0 == 0
            &&& l.1.0 == l.0.0 + l.0.2
            &&& l.2.0 == l.1.0 + l.1.2
            &&& l.2.0 + l.2.2 == width
            &&& l.0.2 >= 180
            &&& l.1.2 >= 320
            &&& l.2.2 >= 220
        }),
{
}

/// The bars, panels and keyboard are stacked from the top without gaps or
/// overlap wherever the screen is tall enough to hold the keyboard below the
/// bars.
pub proof fn lemma_rows_stack(width: u32, height: u32, fs_wanted: u32, terminal_wanted: u32)
    requires
        height >= 70 + keyboard_height(height as int),
    ensures
        ({
            let l = layout_spec(width as int, height as int, fs_wanted as int, terminal_wanted as int);
            &&& l.5.1 == 0
            &&& l.4.1 == l.5.1 + l.5.3
            &&& l.0.1 == l.4.1 + l.4.3
            &&& l.3.1 == l.0.1 + l.0.3
            &&& l.3.1 + l.3.3 == height
            &&& l.1.1 == l.0.1 && l.2.1 == l.0.1
            &&& l.1.3 == l.0.3 && l.2.3 == l.0.3
        }),
{
}

} // verus!
