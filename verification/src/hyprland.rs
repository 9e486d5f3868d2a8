//! Hyprland's sockets: the commands sent to it, what its answers hold, and
//! which of its events the desktop passes on.

use crate::text::{chars_eq_str, chars_of, decimal, decimal_string, string_of, sub_vec};
use vstd::prelude::*;

verus! {

#[derive(Debug, Clone)]
pub struct HyprlandStatus {
    pub running: bool,
    pub instance: Option<String>,
}

/// Hyprland runs where its instance signature is set.
pub fn hyprland_status(instance: Option<String>) -> (r: HyprlandStatus)
    ensures
        r.running == instance is Some,
        r.instance == instance,
{
    HyprlandStatus { running: instance.is_some(), instance }
}

/// The path of one of the instance's sockets: `/tmp/hypr/<signature>/<socket>`.
pub fn socket_path(signature: Option<String>, socket: &str) -> (r: Option<String>)
    ensures
        match signature {
            Some(sig) => r matches Some(p) && p@ == "/tmp/hypr/"@ + sig@ + "/"@ + socket@,
            None => r is None,
        },
{
    match signature {
        Some(sig) => {
            let mut p = String::from_str("/tmp/hypr/");
            p.append(sig.as_str());
            p.append("/");
            p.append(socket);
            Some(p)
        },
        None => None,
    }
}

/// A request as written to the socket: ending with a line break.
pub open spec fn framed(cmd: Seq<char>) -> Seq<char> {
    if cmd.len() > 0 && cmd.last() == '\n' {
        cmd
    } else {
        cmd + seq!['\n']
    }
}

/// Framing a request that is already framed changes nothing.
pub proof fn law_framing_idempotent(cmd: Seq<char>)
    ensures
        framed(framed(cmd)) == framed(cmd),
{
}

pub fn framed_command(cmd: &str) -> (r: String)
    ensures
        r@ == framed(cmd@),
{
    let c = chars_of(cmd);
    let mut s = String::from_str(cmd);
    if !(c.len() > 0 && c[c.len() - 1] == '\n') {
        s.append("\n");
        proof {
            reveal_strlit("\n");
            assert("\n"@ =~= seq!['\n']);
        }
    }
    s
}

/// The request that runs a dispatcher.
pub fn dispatch_command(action: &str) -> (r: String)
    ensures
        r@ == "dispatch "@ + action@,
{
    let mut s = String::from_str("dispatch ");
    s.append(action);
    s
}

/// The decimal text of a signed number.
pub open spec fn signed_decimal(n: int) -> Seq<char> {
    if n < 0 {
        "-"@ + decimal((-n) as nat)
    } else {
        decimal(n as nat)
    }
}

/// The dispatcher argument that switches to a workspace.
pub fn workspace_action(id: i32) -> (r: String)
    ensures
        r@ == "workspace "@ + signed_decimal(id as int),
{
    let mut s = String::from_str("workspace ");
    if id < 0 {
        s.append("-");
        let m: i64 = -(id as i64);
        s.append(decimal_string(m as u64).as_str());
    } else {
        s.append(decimal_string(id as u64).as_str());
    }
    s
}

#[derive(Debug, Clone)]
pub struct WorkspaceInfo {
    pub id: i32,
    pub name: String,
    pub monitor: String,
    pub windows: u32,
    pub has_fullscreen: bool,
    pub last_window: String,
}

/// A workspace as `j/workspaces` describes it: the fields that were present
/// with the expected kind.
#[derive(Debug, Clone)]
pub struct RawWorkspace {
    pub id: Option<i64>,
    pub name: Option<String>,
    pub monitor: Option<String>,
    pub windows: Option<u64>,
    pub has_fullscreen: Option<bool>,
    pub last_window: Option<String>,
}

pub open spec fn text_or_empty(o: Option<String>) -> Seq<char> {
    match o {
        Some(s) => s@,
        None => Seq::empty(),
    }
}

fn text_or_default(o: Option<String>) -> (r: String)
    ensures
        r@ == text_or_empty(o),
{
    match o {
        Some(s) => s,
        None => String::new(),
    }
}

/// `w` is the workspace `raw` describes; numbers are cut to their width as
/// the casts do.
pub open spec fn workspace_matches(raw: RawWorkspace, w: WorkspaceInfo) -> bool {
    &&& w.id == raw.id->0 as i32
    &&& w.name@ == raw.name->0@
    &&& w.monitor@ == text_or_empty(raw.monitor)
    &&& w.windows == match raw.windows {
        Some(n) => n as u32,
        None => 0u32,
    }
    &&& w.has_fullscreen == match raw.has_fullscreen {
        Some(b) => b,
        None => false,
    }
    &&& w.last_window@ == text_or_empty(raw.last_window)
}

/// A workspace with an id and a name.
pub fn workspace_from_raw(raw: RawWorkspace) -> (r: Option<WorkspaceInfo>)
    ensures
        (raw.id is Some && raw.name is Some) <==> r is Some,
        r matches Some(w) ==> workspace_matches(raw, w),
{
    let ghost raw0 = raw;
    let id = match raw.id {
        Some(i) => i,
        None => return None,
    };
    let name = match raw.name {
        Some(n) => n,
        None => return None,
    };
    Some(
        WorkspaceInfo {
            id: id as i32,
            name,
            monitor: text_or_default(raw.monitor),
            windows: match raw.windows {
                Some(n) => n as u32,
                None => 0,
            },
            has_fullscreen: match raw.has_fullscreen {
                Some(b) => b,
                None => false,
            },
            last_window: text_or_default(raw.last_window),
        },
    )
}

pub open spec fn is_listed_workspace(raw: RawWorkspace) -> bool {
    raw.id is Some && raw.name is Some
}

/// The described workspaces that have an id and a name, in order.
pub open spec fn listed_workspaces(raws: Seq<RawWorkspace>) -> Seq<RawWorkspace> {
    raws.filter(|w: RawWorkspace| is_listed_workspace(w))
}

pub fn workspaces_from_raw(raws: Vec<RawWorkspace>) -> (r: Vec<WorkspaceInfo>)
    ensures
        r@.len() == listed_workspaces(raws@).len(),
        forall|k: int| 0 <= k < r@.len() ==> workspace_matches(listed_workspaces(raws@)[k], #[trigger] r@[k]),
{
    let ghost all = raws@;
    let mut rest = raws;
    let mut r: Vec<WorkspaceInfo> = Vec::new();
    let ghost mut i: int = 0;
    while rest.len() > 0
        invariant
            0 <= i <= all.len(),
            rest@ == all.skip(i),
            r@.len() == listed_workspaces(all.take(i)).len(),
            forall|k: int| 0 <= k < r@.len() ==> workspace_matches(listed_workspaces(all.take(i))[k], #[trigger] r@[k]),
        decreases rest@.len(),
    {
        let w = rest.remove(0);
        proof {
            assert(w == all[i]);
            assert(rest@ =~= all.skip(i + 1));
            assert(all.take(i + 1).drop_last() =~= all.take(i));
            reveal_with_fuel(Seq::filter, 1);
        }
        match workspace_from_raw(w) {
            Some(x) => {
                r.push(x);
            },
            None => {},
        }
        proof {
            let f = listed_workspaces(all.take(i + 1));
            let g = listed_workspaces(all.take(i));
            if is_listed_workspace(all[i]) {
                assert(f =~= g.push(all[i]));
            } else {
                assert(f =~= g);
            }
            i = i + 1;
        }
    }
    proof {
        assert(all.take(i) =~= all);
    }
    r
}

#[derive(Debug, Clone)]
pub struct ActiveWindowInfo {
    pub address: String,
    pub class: String,
    pub title: String,
    pub workspace_id: i32,
    pub workspace_name: String,
    pub monitor: String,
    pub pid: u32,
    pub floating: bool,
    pub width: u32,
    pub height: u32,
    pub at: [i32; 2],
}

/// The active window as `j/activewindow` describes it.
#[derive(Debug, Clone)]
pub struct RawActiveWindow {
    pub address: Option<String>,
    pub class: Option<String>,
    pub title: Option<String>,
    pub workspace_id: Option<i64>,
    pub workspace_name: Option<String>,
    pub monitor: Option<String>,
    pub pid: Option<u64>,
    pub floating: Option<bool>,
    pub width: Option<u64>,
    pub height: Option<u64>,
    pub at_x: Option<i64>,
    pub at_y: Option<i64>,
}

/// Whether the answer to `j/activewindow` describes a window: it is neither
/// blank nor an empty object.
pub fn describes_window(answer: &str) -> (r: bool)
    ensures
        r == !(crate::text::trim(answer@).len() == 0 || crate::text::trim(answer@) == "{}"@),
{
    let t = crate::text::trim_chars(chars_of(answer).as_slice());
    !(t.len() == 0 || chars_eq_str(t.as_slice(), "{}"))
}

pub open spec fn u32_or_zero(o: Option<u64>) -> u32 {
    match o {
        Some(n) => n as u32,
        None => 0,
    }
}

pub open spec fn i32_or_zero(o: Option<i64>) -> i32 {
    match o {
        Some(n) => n as i32,
        None => 0,
    }
}

fn to_u32(o: Option<u64>) -> (r: u32)
    ensures
        r == u32_or_zero(o),
{
    match o {
        Some(n) => n as u32,
        None => 0,
    }
}

fn to_i32(o: Option<i64>) -> (r: i32)
    ensures
        r == i32_or_zero(o),
{
    match o {
        Some(n) => n as i32,
        None => 0,
    }
}

/// The active window, each missing field at its default.
pub fn active_window_from_raw(raw: RawActiveWindow) -> (r: ActiveWindowInfo)
    ensures
        r.address@ == text_or_empty(raw.address),
        r.class@ == text_or_empty(raw.class),
        r.title@ == text_or_empty(raw.title),
        r.workspace_id == i32_or_zero(raw.workspace_id),
        r.workspace_name@ == text_or_empty(raw.workspace_name),
        r.monitor@ == text_or_empty(raw.monitor),
        r.pid == u32_or_zero(raw.pid),
        r.floating == match raw.floating {
            Some(b) => b,
            None => false,
        },
        r.width == u32_or_zero(raw.width),
        r.height == u32_or_zero(raw.height),
        r.at@ == seq![i32_or_zero(raw.at_x), i32_or_zero(raw.at_y)],
{
    let ghost raw0 = raw;
    let x = to_i32(raw.at_x);
    let y = to_i32(raw.at_y);
    let at = [x, y];
    proof {
        assert(at@ =~= seq![x, y]);
    }
    ActiveWindowInfo {
        address: text_or_default(raw.address),
        class: text_or_default(raw.class),
        title: text_or_default(raw.title),
        workspace_id: to_i32(raw.workspace_id),
        workspace_name: text_or_default(raw.workspace_name),
        monitor: text_or_default(raw.monitor),
        pid: to_u32(raw.pid),
        floating: match raw.floating {
            Some(b) => b,
            None => false,
        },
        width: to_u32(raw.width),
        height: to_u32(raw.height),
        at,
    }
}

/// The events that the desktop passes on.
pub open spec fn forwarded_event_name(e: Seq<char>) -> bool {
    ||| e == "workspace"@
    ||| e == "focusedmon"@
    ||| e == "activewindow"@
    ||| e == "openwindow"@
    ||| e == "closewindow"@
    ||| e == "movewindow"@
    ||| e == "activelayout"@
    ||| e == "createworkspace"@
    ||| e == "destroyworkspace"@
    ||| e == "moveworkspace"@
}

/// Whether `>>` begins at position `k` of `s`.
pub open spec fn arrows_at(s: Seq<char>, k: int) -> bool {
    0 <= k && k + 1 < s.len() && s[k] == '>' && s[k + 1] == '>'
}

/// Where `>>` first occurs in `s`.
pub open spec fn first_arrows(s: Seq<char>) -> Option<int> {
    if exists|k: int| #[trigger] arrows_at(s, k) {
        Some(choose|k: int| #[trigger] arrows_at(s, k) && forall|j: int| 0 <= j < k ==> !arrows_at(s, j))
    } else {
        None
    }
}

/// A line `<event>>><data>` of the event socket, for an event that is passed
/// on: the event and its data.
pub open spec fn event_of(line: Seq<char>) -> Option<(Seq<char>, Seq<char>)> {
    match first_arrows(line) {
        Some(k) => if forwarded_event_name(line.take(k)) {
            Some((line.take(k), line.skip(k + 2)))
        } else {
            None
        },
        None => None,
    }
}

fn is_forwarded(e: &[char]) -> (r: bool)
    ensures
        r == forwarded_event_name(e@),
{
    chars_eq_str(e, "workspace") || chars_eq_str(e, "focusedmon") || chars_eq_str(e, "activewindow")
        || chars_eq_str(e, "openwindow") || chars_eq_str(e, "closewindow") || chars_eq_str(
        e,
        "movewindow",
    ) || chars_eq_str(e, "activelayout") || chars_eq_str(e, "createworkspace") || chars_eq_str(
        e,
        "destroyworkspace",
    ) || chars_eq_str(e, "moveworkspace")
}

pub fn forwarded_event(line: &str) -> (r: Option<(String, String)>)
    ensures
        match event_of(line@) {
            Some((e, d)) => r matches Some((a, b)) && a@ == e && b@ == d,
            None => r is None,
        },
{
    let s = chars_of(line);
    let mut k: usize = 0;
    while k < s.len() && k + 1 < s.len()
        invariant
            s@ == line@,
            forall|j: int| 0 <= j < k ==> !arrows_at(line@, j),
        decreases s@.len() - k,
    {
        if s[k] == '>' && s[k + 1] == '>' {
            proof {
                let w = k as int;
                assert(arrows_at(line@, w));
                assert(arrows_at(line@, w) && forall|j: int| 0 <= j < w ==> !arrows_at(line@, j));
                let f = first_arrows(line@)->0;
                assert(arrows_at(line@, f) && forall|j: int| 0 <= j < f ==> !arrows_at(line@, j));
                if f < w {
                    assert(!arrows_at(line@, f));
                } else if f > w {
                    assert(!arrows_at(line@, w));
                }
                assert(f == w);
            }
            let ev = sub_vec(s.as_slice(), 0, k);
            let data = sub_vec(s.as_slice(), k + 2, s.len());
            proof {
                assert(ev@ =~= line@.take(k as int));
                assert(data@ =~= line@.skip(k + 2));
            }
            if is_forwarded(ev.as_slice()) {
                return Some((string_of(ev.as_slice()), string_of(data.as_slice())));
            } else {
                return None;
            }
        }
        proof {
            assert(!arrows_at(line@, k as int));
        }
        k = k + 1;
    }
    proof {
        if exists|c: int| #[trigger] arrows_at(line@, c) {
            let c = choose|c: int| #[trigger] arrows_at(line@, c);
            assert(c < k);
        }
    }
    None
}

/// The lines to add to Hyprland's configuration for this desktop: start it,
/// bind its launcher, keep it as an overlay, switch workspaces.
pub const HYPRLAND_CONFIG: &'static str = r#"# eDEX-DE — Hyprland Configuration
# Add these lines to your ~/.config/hypr/hyprland.conf

# Launch eDEX-DE on startup
exec-once = edex-de

# App launcher (Meta/Super key)
bind = SUPER, SUPER, exec, edex-de --launcher
bind = ALT, Space, exec, edex-de --launcher

# eDEX-DE window rules (keeps it as an overlay)
windowrulev2 = float, class:^(edex-de)$
windowrulev2 = nofocus, class:^(edex-de)$, title:^(eDEX-DE Launcher)$
windowrulev2 = pin, class:^(edex-de)$

# Workspace switching (if not already set)
bind = SUPER, 1, workspace, 1
bind = SUPER, 2, workspace, 2
bind = SUPER, 3, workspace, 3
bind = SUPER, 4, workspace, 4
bind = SUPER, 5, workspace, 5
bind = SUPER, 6, workspace, 6
bind = SUPER, 7, workspace, 7
bind = SUPER, 8, workspace, 8
bind = SUPER, 9, workspace, 9
bind = SUPER, 0, workspace, 10
"#;

/// The Hyprland configuration snippet for this desktop.
pub fn generate_hyprland_config() -> (r: String)
    ensures
        r@ == HYPRLAND_CONFIG@,
{
    String::from_str(HYPRLAND_CONFIG)
}

} // verus!
