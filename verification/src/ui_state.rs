//! Values that the renderer draws, and the texts of its panels.

use crate::text::{join, join_strings, views};
use vstd::prelude::*;

verus! {

/// One line of the filesystem panel as drawn: an icon and a name, and whether
/// it is a directory.
#[derive(Clone, Debug)]
pub struct FsEntry {
    pub name: String,
    pub is_dir: bool,
}

/// What the renderer shows of the desktop's state. The colour theme, held in
/// floating point, stays with the renderer.
#[derive(Clone, Debug)]
pub struct UiState {
    pub clock: String,
    pub hostname: String,
    pub terminal_content: Vec<String>,
    pub filesystem_cwd: String,
    pub filesystem_entries: Vec<FsEntry>,
}

/// The texts laid out in the renderer's panels.
#[derive(Clone, Debug)]
pub struct PanelTexts {
    pub clock: String,
    pub title: String,
    pub terminal: String,
    pub filesystem: String,
    pub sysinfo: String,
    pub keyboard: String,
}

/// A filesystem line as the panel text shows it: directories marked `[dir] `.
pub open spec fn entry_line(e: FsEntry) -> Seq<char> {
    if e.is_dir {
        "[dir] "@ + e.name@
    } else {
        e.name@
    }
}

pub open spec fn entry_lines(es: Seq<FsEntry>) -> Seq<Seq<char>> {
    es.map_values(|e: FsEntry| entry_line(e))
}

/// The terminal panel's text: the terminal's lines, or a placeholder before
/// there is any output.
pub open spec fn terminal_text(content: Seq<Seq<char>>) -> Seq<char> {
    if content.len() == 0 {
        "$ renderer online\n$ awaiting shell output"@
    } else {
        join(content, "\n"@)
    }
}

/// The sysinfo panel's text for a host.
pub open spec fn sysinfo_text(hostname: Seq<char>) -> Seq<char> {
    "HOST   "@ + hostname + "\nGPU    Vulkan / wgpu\nPANELS filesystem | terminal | sysinfo\nFPS    target 60"@
}

/// The texts of the clock, the title, the terminal, the filesystem (the
/// directory, then one line per entry), the system information and the
/// keyboard panel.
pub fn panel_texts(state: &UiState) -> (r: PanelTexts)
    ensures
        r.clock@ == " "@ + state.clock@ + " "@,
        r.title@ == "eDEX-DE"@,
        r.terminal@ == terminal_text(views(state.terminal_content@)),
        r.filesystem@ == state.filesystem_cwd@ + "\n"@ + join(
            entry_lines(state.filesystem_entries@),
            "\n"@,
        ),
        r.sysinfo@ == sysinfo_text(state.hostname@),
        r.keyboard@ == "HEX KEYBOARD // PHASE 2 VISUAL FOUNDATION"@,
{
    let mut clock = String::from_str(" ");
    clock.append(state.clock.as_str());
    clock.append(" ");
    let terminal = if state.terminal_content.len() == 0 {
        String::from_str("$ renderer online\n$ awaiting shell output")
    } else {
        join_strings(&state.terminal_content, "\n")
    };
    let mut lines: Vec<String> = Vec::new();
    let mut i: usize = 0;
    while i < state.filesystem_entries.len()
        invariant
            i <= state.filesystem_entries@.len(),
            views(lines@) == entry_lines(state.filesystem_entries@.take(i as int)),
        decreases state.filesystem_entries@.len() - i,
    {
        let e = &state.filesystem_entries[i];
        let line = if e.is_dir {
            let mut l = String::from_str("[dir] ");
            l.append(e.name.as_str());
            l
        } else {
            e.name.clone()
        };
        let ghost before = lines@;
        lines.push(line);
        proof {
            assert(state.filesystem_entries@.take(i + 1) =~= state.filesystem_entries@.take(i as int).push(
                state.filesystem_entries@[i as int],
            ));
            assert(views(lines@) =~= views(before).push(line@));
            assert(entry_lines(state.filesystem_entries@.take(i + 1)) =~= entry_lines(
                state.filesystem_entries@.take(i as int),
            ).push(entry_line(state.filesystem_entries@[i as int])));
        }
        i = i + 1;
    }
    proof {
        assert(state.filesystem_entries@.take(state.filesystem_entries@.len() as int)
            =~= state.filesystem_entries@);
    }
    let mut filesystem = String::from_str(state.filesystem_cwd.as_str());
    filesystem.append("\n");
    filesystem.append(join_strings(&lines, "\n").as_str());
    let mut sysinfo = String::from_str("HOST   ");
    sysinfo.append(state.hostname.as_str());
    sysinfo.append("\nGPU    Vulkan / wgpu\nPANELS filesystem | terminal | sysinfo\nFPS    target 60");
    PanelTexts {
        clock,
        title: String::from_str("eDEX-DE"),
        terminal,
        filesystem,
        sysinfo,
        keyboard: String::from_str("HEX KEYBOARD // PHASE 2 VISUAL FOUNDATION"),
    }
}

} // verus!
