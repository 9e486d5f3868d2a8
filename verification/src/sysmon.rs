//! The system monitor: privacy indicators, disks, battery and the bounded
//! histories of the network graphs.

use crate::text::{chars_eq_str, chars_of, ends_with, has_prefix, has_suffix, lines, lines_of, parse_u8, parse_u8_spec, starts_with, trim, trim_chars, trim_start, trim_start_chars};
use std::collections::VecDeque;
use vstd::prelude::*;

verus! {

#[derive(Clone, Debug)]
pub struct PrivacyStatus {
    pub tailscale_connected: bool,
    pub wireguard_active: bool,
    pub tor_active: bool,
    pub fprintd_active: bool,
    pub mic_active: bool,
    pub camera_active: bool,
}

/// A line of `/proc/net/dev` that describes a WireGuard interface.
pub open spec fn is_wireguard_line(l: Seq<char>) -> bool {
    starts_with(trim_start(l), "wg"@)
}

/// Whether `/proc/net/dev` lists an interface whose name begins with `wg`.
pub fn has_wireguard_interface(proc_net_dev: &str) -> (r: bool)
    ensures
        r == exists|k: int| 0 <= k < lines_of(proc_net_dev@).len() && is_wireguard_line(#[trigger] lines_of(proc_net_dev@)[k]),
{
    let text = chars_of(proc_net_dev);
    let ls = lines(text.as_slice());
    let ghost all = lines_of(proc_net_dev@);
    let mut i: usize = 0;
    while i < ls.len()
        invariant
            all == lines_of(proc_net_dev@),
            ls@.len() == all.len(),
            forall|k: int| 0 <= k < ls@.len() ==> #[trigger] ls@[k]@ == all[k],
            i <= ls@.len(),
            forall|k: int| 0 <= k < i ==> !is_wireguard_line(#[trigger] all[k]),
        decreases ls@.len() - i,
    {
        let t = trim_start_chars(ls[i].as_slice());
        if has_prefix(t.as_slice(), "wg") {
            proof {
                assert(is_wireguard_line(all[i as int]));
            }
            return true;
        }
        i = i + 1;
    }
    false
}

/// A directory of `/proc` whose name is all decimal digits: a process.
pub open spec fn is_pid_name(name: Seq<char>) -> bool {
    forall|k: int| 0 <= k < name.len() ==> '0' <= #[trigger] name[k] <= '9'
}

pub fn is_process_dir(name: &str) -> (r: bool)
    ensures
        r == is_pid_name(name@),
{
    let cs = chars_of(name);
    let mut i: usize = 0;
    while i < cs.len()
        invariant
            cs@ == name@,
            i <= cs@.len(),
            forall|k: int| 0 <= k < i ==> '0' <= #[trigger] cs@[k] <= '9',
        decreases cs@.len() - i,
    {
        if !('0' <= cs[i] && cs[i] <= '9') {
            return false;
        }
        i = i + 1;
    }
    true
}

/// A link of a process's open files that points at the device: it begins
/// with `prefix` and, where `suffix` is not empty, ends with it.
pub open spec fn points_at(target: Seq<char>, prefix: Seq<char>, suffix: Seq<char>) -> bool {
    starts_with(target, prefix) && (suffix.len() == 0 || ends_with(target, suffix))
}

/// A directory of `/proc` with the targets of the links in its `fd` directory.
#[derive(Clone, Debug)]
pub struct ProcFds {
    pub name: String,
    pub targets: Vec<String>,
}

/// Whether some process holds the device open.
pub open spec fn device_in_use(procs: Seq<ProcFds>, prefix: Seq<char>, suffix: Seq<char>) -> bool {
    exists|p: int, t: int|
        0 <= p < procs.len() && is_pid_name(procs[p].name@) && 0 <= t < procs[p].targets@.len()
            && #[trigger] points_at(procs[p].targets@[t]@, prefix, suffix)
}

fn target_matches(target: &str, prefix: &str, suffix: &str) -> (r: bool)
    ensures
        r == points_at(target@, prefix@, suffix@),
{
    let t = chars_of(target);
    let sfx = chars_of(suffix);
    has_prefix(t.as_slice(), prefix) && (sfx.len() == 0 || has_suffix(t.as_slice(), suffix))
}

pub fn check_dev_in_use(procs: &Vec<ProcFds>, prefix: &str, suffix: &str) -> (r: bool)
    ensures
        r == device_in_use(procs@, prefix@, suffix@),
{
    let mut p: usize = 0;
    while p < procs.len()
        invariant
            p <= procs@.len(),
            forall|q: int, t: int|
                0 <= q < p && is_pid_name(procs@[q].name@) && 0 <= t < procs@[q].targets@.len()
                    ==> !#[trigger] points_at(procs@[q].targets@[t]@, prefix@, suffix@),
        decreases procs@.len() - p,
    {
        let pr = &procs[p];
        if is_process_dir(pr.name.as_str()) {
            let mut t: usize = 0;
            while t < pr.targets.len()
                invariant
                    p < procs@.len(),
                    *pr == procs@[p as int],
                    is_pid_name(pr.name@),
                    t <= pr.targets@.len(),
                    forall|u: int| 0 <= u < t ==> !#[trigger] points_at(pr.targets@[u]@, prefix@, suffix@),
                decreases pr.targets@.len() - t,
            {
                if target_matches(pr.targets[t].as_str(), prefix, suffix) {
                    proof {
                        assert(points_at(procs@[p as int].targets@[t as int]@, prefix@, suffix@));
                    }
                    return true;
                }
                t = t + 1;
            }
        }
        p = p + 1;
    }
    false
}

/// Whether a sound capture device (`/dev/snd/...c`) is open.
pub fn check_mic(procs: &Vec<ProcFds>) -> (r: bool)
    ensures
        r == device_in_use(procs@, "/dev/snd/"@, "c"@),
{
    check_dev_in_use(procs, "/dev/snd/", "c")
}

/// Whether a camera (`/dev/video...`) is open.
pub fn check_camera(procs: &Vec<ProcFds>) -> (r: bool)
    ensures
        r == device_in_use(procs@, "/dev/video"@, ""@),
{
    check_dev_in_use(procs, "/dev/video", "")
}

/// What the indicators are computed from.
#[derive(Clone, Debug)]
pub struct PrivacyProbes {
    /// `tailscale status` succeeded.
    pub tailscale_ok: bool,
    /// `/proc/net/dev`, where it could be read.
    pub proc_net_dev: Option<String>,
    /// `ip link show type wireguard` succeeded and printed something.
    pub wireguard_links: bool,
    /// `systemctl is-active --quiet tor` succeeded.
    pub tor_ok: bool,
    /// `systemctl is-active --quiet fprintd` succeeded.
    pub fprintd_ok: bool,
    /// The processes and their open files.
    pub procs: Vec<ProcFds>,
}

/// The indicators: WireGuard is active where `/proc/net/dev` lists an
/// interface, or else where `ip link` shows one.
pub fn get_privacy_status(probes: &PrivacyProbes) -> (r: PrivacyStatus)
    ensures
        r.tailscale_connected == probes.tailscale_ok,
        r.wireguard_active == ((match probes.proc_net_dev {
            Some(d) => exists|k: int| 0 <= k < lines_of(d@).len() && is_wireguard_line(#[trigger] lines_of(d@)[k]),
            None => false,
        }) || probes.wireguard_links),
        r.tor_active == probes.tor_ok,
        r.fprintd_active == probes.fprintd_ok,
        r.mic_active == device_in_use(probes.procs@, "/dev/snd/"@, "c"@),
        r.camera_active == device_in_use(probes.procs@, "/dev/video"@, ""@),
{
    let listed = match &probes.proc_net_dev {
        Some(d) => has_wireguard_interface(d.as_str()),
        None => false,
    };
    PrivacyStatus {
        tailscale_connected: probes.tailscale_ok,
        wireguard_active: listed || probes.wireguard_links,
        tor_active: probes.tor_ok,
        fprintd_active: probes.fprintd_ok,
        mic_active: check_mic(&probes.procs),
        camera_active: check_camera(&probes.procs),
    }
}

#[derive(Clone, Debug)]
pub struct DiskInfo {
    pub mount: String,
    pub used_bytes: u64,
    pub total_bytes: u64,
    pub fs_type: String,
}

/// A disk's usage: what is not available of its total, never below zero.
pub fn disk_info(mount: String, total_bytes: u64, available_bytes: u64, fs_type: String) -> (r: DiskInfo)
    ensures
        r.mount == mount,
        r.total_bytes == total_bytes,
        r.used_bytes == if available_bytes <= total_bytes {
            total_bytes - available_bytes
        } else {
            0
        },
        r.fs_type == fs_type,
{
    DiskInfo { mount, used_bytes: total_bytes.saturating_sub(available_bytes), total_bytes, fs_type }
}

/// The history after a new value: the value at its end, the oldest values
/// dropped until at most `max_len` remain.
pub open spec fn pushed_history<T>(h: Seq<T>, value: T, max_len: nat) -> Seq<T> {
    let full = h.push(value);
    if full.len() <= max_len {
        full
    } else {
        full.skip(full.len() - max_len)
    }
}

pub fn push_history<T>(history: &mut VecDeque<T>, value: T, max_len: usize)
    ensures
        final(history)@ == pushed_history(old(history)@, value, max_len as nat),
{
    let ghost full = old(history)@.push(value);
    history.push_back(value);
    proof {
        assert(full.skip(0) =~= full);
    }
    let ghost mut dropped: int = 0;
    while history.len() > max_len
        invariant
            0 <= dropped <= full.len(),
            history@ == full.skip(dropped),
            dropped > 0 ==> full.len() - dropped >= max_len,
        decreases history@.len(),
    {
        let _ = history.pop_front();
        proof {
            assert(history@ =~= full.skip(dropped + 1));
            dropped = dropped + 1;
        }
    }
    proof {
        if full.len() > max_len {
            assert(dropped == full.len() - max_len);
        } else {
            assert(dropped == 0);
        }
    }
}

/// A battery's charge in percent and whether it is charging (or full), from
/// its `capacity` and `status` files.
pub open spec fn battery_state_of(capacity: Seq<char>, status: Option<Seq<char>>) -> Option<(u8, bool)> {
    match parse_u8_spec(trim(capacity)) {
        Some(pct) => Some(
            (
                pct,
                match status {
                    Some(s) => trim(s) == "Charging"@ || trim(s) == "Full"@,
                    None => false,
                },
            ),
        ),
        None => None,
    }
}

pub fn battery_state(capacity: &str, status: Option<String>) -> (r: Option<(u8, bool)>)
    ensures
        r == battery_state_of(
            capacity@,
            match status {
                Some(s) => Some(s@),
                None => None,
            },
        ),
{
    let pct = match parse_u8(trim_chars(chars_of(capacity).as_slice()).as_slice()) {
        Some(p) => p,
        None => return None,
    };
    let charging = match &status {
        Some(s) => {
            let t = trim_chars(chars_of(s.as_str()).as_slice());
            chars_eq_str(t.as_slice(), "Charging") || chars_eq_str(t.as_slice(), "Full")
        },
        None => false,
    };
    Some((pct, charging))
}

/// What could be read of one battery's files: the `capacity` file and the
/// `status` file, each where it could be read.
#[derive(Clone, Debug)]
pub struct BatteryFiles {
    pub capacity: Option<String>,
    pub status: Option<String>,
}

pub open spec fn opt_view(s: Option<String>) -> Option<Seq<char>> {
    match s {
        Some(t) => Some(t@),
        None => None,
    }
}

/// The state of the first battery whose capacity could be read; `None` when
/// there is none or its capacity is no percentage.
pub open spec fn first_battery_state(batteries: Seq<BatteryFiles>) -> Option<(u8, bool)>
    decreases batteries.len(),
{
    if batteries.len() == 0 {
        None
    } else {
        match batteries[0].capacity {
            Some(c) => battery_state_of(c@, opt_view(batteries[0].status)),
            None => first_battery_state(batteries.drop_first()),
        }
    }
}

/// The battery's charge and whether it is charging, from the files of the
/// batteries in the order they are looked at.
pub fn read_battery(batteries: &Vec<BatteryFiles>) -> (r: Option<(u8, bool)>)
    ensures
        r == first_battery_state(batteries@),
{
    let mut i: usize = 0;
    proof {
        assert(batteries@.skip(0) =~= batteries@);
    }
    while i < batteries.len()
        invariant
            i <= batteries@.len(),
            first_battery_state(batteries@) == first_battery_state(batteries@.skip(i as int)),
        decreases batteries@.len() - i,
    {
        proof {
            assert(batteries@.skip(i as int)[0] == batteries@[i as int]);
            assert(batteries@.skip(i as int).drop_first() =~= batteries@.skip(i + 1));
        }
        match &batteries[i].capacity {
            Some(c) => {
                let status = match &batteries[i].status {
                    Some(t) => Some(t.clone()),
                    None => None,
                };
                return battery_state(c.as_str(), status);
            },
            None => {},
        }
        i = i + 1;
    }
    proof {
        assert(batteries@.skip(i as int) =~= Seq::<BatteryFiles>::empty());
    }
    None
}

/// A history never holds more than its limit, and where the limit allows any
/// value the newest one is last.
pub proof fn law_history_bounded<T>(h: Seq<T>, value: T, max_len: nat)
    ensures
        pushed_history(h, value, max_len).len() <= if h.len() + 1 <= max_len {
            h.len() + 1
        } else {
            max_len
        },
        max_len > 0 ==> pushed_history(h, value, max_len).last() == value,
{
    let full = h.push(value);
    if full.len() > max_len && max_len > 0 {
        assert(full.skip(full.len() - max_len).last() == full.last());
    }
}

} // verus!
