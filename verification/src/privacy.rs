//! Tailscale, Tor and VPN: what the privacy panel reads from `tailscale`,
//! `systemctl` and `nmcli`, and the arguments and files it hands back.

use crate::text::{joined_lines, lemma_lines_of_joined, plain_line, chars_eq_str, chars_of, contains_seq, contains_str, has_prefix, lines, lines_of, splitn, splitn_chars, starts_with, string_of, sub_vec, trim, trim_chars, trim_start, trim_start_chars, views};
use vstd::prelude::*;

verus! {

/// The text of a command that ran: its trimmed standard output when it
/// succeeded, else its trimmed standard error as the error.
pub fn command_outcome(success: bool, stdout: &str, stderr: &str) -> (r: Result<String, String>)
    ensures
        success ==> (r matches Ok(s) && s@ == trim(stdout@)),
        !success ==> (r matches Err(e) && e@ == trim(stderr@)),
{
    if success {
        Ok(string_of(trim_chars(chars_of(stdout).as_slice()).as_slice()))
    } else {
        Err(string_of(trim_chars(chars_of(stderr).as_slice()).as_slice()))
    }
}

// ---------------------------------------------------------------------------
// Tailscale

#[derive(Debug, Clone)]
pub struct TailscalePeer {
    pub id: String,
    pub hostname: String,
    pub dns_name: String,
    pub os: String,
    pub tailscale_ips: Vec<String>,
    pub online: bool,
    pub exit_node_option: bool,
    pub exit_node: bool,
}

#[derive(Debug, Clone)]
pub struct TailscaleStatus {
    pub backend_state: String,
    pub version: String,
    pub self_node: Option<TailscalePeer>,
    pub peers: Vec<TailscalePeer>,
}

/// A peer as `tailscale status --json` describes it, every field optional.
#[derive(Debug, Clone)]
pub struct RawPeer {
    pub id: Option<String>,
    pub host_name: Option<String>,
    pub dns_name: Option<String>,
    pub os: Option<String>,
    pub tailscale_i_ps: Option<Vec<String>>,
    pub online: Option<bool>,
    pub exit_node_option: Option<bool>,
    pub exit_node: Option<bool>,
}

/// The whole status document; `peer` holds the values of its `Peer` object.
#[derive(Debug, Clone)]
pub struct RawTailscaleStatus {
    pub backend_state: Option<String>,
    pub version: Option<String>,
    pub self_node: Option<RawPeer>,
    pub peer: Option<Vec<RawPeer>>,
}

/// An optional text, empty where it is missing.
pub open spec fn text_or_empty(o: Option<String>) -> Seq<char> {
    match o {
        Some(s) => s@,
        None => Seq::empty(),
    }
}

pub open spec fn flag_or_false(o: Option<bool>) -> bool {
    match o {
        Some(b) => b,
        None => false,
    }
}

/// `t` is `p` with every missing field at its default.
pub open spec fn peer_from_raw(p: RawPeer, t: TailscalePeer) -> bool {
    &&& t.id@ == text_or_empty(p.id)
    &&& t.hostname@ == text_or_empty(p.host_name)
    &&& t.dns_name@ == text_or_empty(p.dns_name)
    &&& t.os@ == text_or_empty(p.os)
    &&& t.tailscale_ips@ == match p.tailscale_i_ps {
        Some(v) => v@,
        None => Seq::empty(),
    }
    &&& t.online == flag_or_false(p.online)
    &&& t.exit_node_option == flag_or_false(p.exit_node_option)
    &&& t.exit_node == flag_or_false(p.exit_node)
}

fn text_or_default(o: Option<String>) -> (r: String)
    ensures
        r@ == text_or_empty(o),
{
    match o {
        Some(s) => s,
        None => String::new(),
    }
}

/// A peer with its missing fields filled in: empty texts, no addresses, `false`.
pub fn raw_peer_to_struct(p: RawPeer) -> (r: TailscalePeer)
    ensures
        peer_from_raw(p, r),
{
    let ghost p0 = p;
    TailscalePeer {
        id: text_or_default(p.id),
        hostname: text_or_default(p.host_name),
        dns_name: text_or_default(p.dns_name),
        os: text_or_default(p.os),
        tailscale_ips: match p.tailscale_i_ps {
            Some(v) => v,
            None => Vec::new(),
        },
        online: match p.online {
            Some(b) => b,
            None => false,
        },
        exit_node_option: match p.exit_node_option {
            Some(b) => b,
            None => false,
        },
        exit_node: match p.exit_node {
            Some(b) => b,
            None => false,
        },
    }
}

/// The status shown when `tailscale status` fails: stopped, nothing known.
pub fn stopped_status() -> (r: TailscaleStatus)
    ensures
        r.backend_state@ == "Stopped"@,
        r.version@ == Seq::<char>::empty(),
        r.self_node is None,
        r.peers@.len() == 0,
{
    TailscaleStatus {
        backend_state: String::from_str("Stopped"),
        version: String::new(),
        self_node: None,
        peers: Vec::new(),
    }
}

/// The status of a parsed document: `Stopped` where no state is given, each
/// peer in the order given with its defaults filled in.
pub fn tailscale_status_of(raw: RawTailscaleStatus) -> (r: TailscaleStatus)
    ensures
        r.backend_state@ == match raw.backend_state {
            Some(s) => s@,
            None => "Stopped"@,
        },
        r.version@ == text_or_empty(raw.version),
        match raw.self_node {
            Some(p) => r.self_node matches Some(t) && peer_from_raw(p, t),
            None => r.self_node is None,
        },
        ({
            let given = match raw.peer {
                Some(v) => v@,
                None => Seq::empty(),
            };
            &&& r.peers@.len() == given.len()
            &&& forall|k: int| 0 <= k < given.len() ==> peer_from_raw(given[k], #[trigger] r.peers@[k])
        }),
{
    let ghost raw0 = raw;
    let backend_state = match raw.backend_state {
        Some(s) => s,
        None => String::from_str("Stopped"),
    };
    let version = text_or_default(raw.version);
    let self_node = match raw.self_node {
        Some(p) => Some(raw_peer_to_struct(p)),
        None => None,
    };
    let mut given = match raw.peer {
        Some(v) => v,
        None => Vec::new(),
    };
    let ghost given0 = given@;
    let mut peers: Vec<TailscalePeer> = Vec::new();
    let ghost mut i: int = 0;
    while given.len() > 0
        invariant
            i <= given0.len(),
            0 <= i,
            given@ == given0.skip(i),
            peers@.len() == i,
            forall|k: int| 0 <= k < i ==> peer_from_raw(given0[k], #[trigger] peers@[k]),
        decreases given@.len(),
    {
        let p = given.remove(0);
        proof {
            assert(p == given0[i]);
            assert(given@ =~= given0.skip(i + 1));
        }
        peers.push(raw_peer_to_struct(p));
        proof {
            i = i + 1;
        }
    }
    TailscaleStatus { backend_state, version, self_node, peers }
}

/// The arguments of `tailscale up`, with `--exit-node=<ip>` where one is given.
pub fn tailscale_up_args(exit_node: Option<String>) -> (r: Vec<String>)
    ensures
        views(r@) == match exit_node {
            Some(ip) => seq!["up"@, "--exit-node="@ + ip@],
            None => seq!["up"@],
        },
{
    let mut r: Vec<String> = Vec::new();
    r.push(String::from_str("up"));
    match exit_node {
        Some(ip) => {
            let mut a = String::from_str("--exit-node=");
            a.append(ip.as_str());
            r.push(a);
        },
        None => {},
    }
    proof {
        assert(views(r@) =~= match exit_node {
            Some(ip) => seq!["up"@, "--exit-node="@ + ip@],
            None => seq!["up"@],
        });
    }
    r
}

/// The argument of `tailscale set` that picks an exit node, or clears it.
pub fn exit_node_arg(node_ip: Option<String>) -> (r: String)
    ensures
        r@ == "--exit-node="@ + text_or_empty(node_ip),
{
    let mut a = String::from_str("--exit-node=");
    match node_ip {
        Some(ip) => {
            a.append(ip.as_str());
        },
        None => {
            proof {
                assert(a@ =~= "--exit-node="@ + Seq::<char>::empty());
            }
        },
    }
    a
}

/// The address that `tailscale login` prints for signing in, on a line that
/// holds it: the trimmed line.
pub fn login_url_in(line: &str) -> (r: Option<String>)
    ensures
        contains_seq(line@, "https://login.tailscale.com"@) ==> (r matches Some(u) && u@ == trim(line@)),
        !contains_seq(line@, "https://login.tailscale.com"@) ==> r is None,
{
    let l = chars_of(line);
    if contains_str(l.as_slice(), "https://login.tailscale.com") {
        Some(string_of(trim_chars(l.as_slice()).as_slice()))
    } else {
        None
    }
}

// ---------------------------------------------------------------------------
// Tor

#[derive(Debug, Clone)]
pub struct TorStatus {
    pub active: bool,
    pub mode: String,
    pub socks_reachable: bool,
}

/// Whether `systemctl status tor` lists the tor service.
pub fn tor_service_listed(stdout: &str) -> (r: bool)
    ensures
        r == contains_seq(stdout@, "tor.service"@),
{
    contains_str(chars_of(stdout).as_slice(), "tor.service")
}

/// Whether `systemctl is-active tor` answered `active`.
pub fn tor_is_active(stdout: &str) -> (r: bool)
    ensures
        r == (trim(stdout@) == "active"@),
{
    chars_eq_str(trim_chars(chars_of(stdout).as_slice()).as_slice(), "active")
}

/// The Tor mode from the mode file, `off` where it could not be read.
pub fn tor_mode_of(file: Option<String>) -> (r: String)
    ensures
        r@ == trim(
            match file {
                Some(s) => s@,
                None => "off"@,
            },
        ),
{
    let s = match file {
        Some(s) => s,
        None => String::from_str("off"),
    };
    string_of(trim_chars(chars_of(s.as_str()).as_slice()).as_slice())
}

/// A Tor status from its three observations.
pub fn tor_status(active_stdout: &str, mode_file: Option<String>, socks_reachable: bool) -> (r: TorStatus)
    ensures
        r.active == (trim(active_stdout@) == "active"@),
        r.mode@ == trim(
            match mode_file {
                Some(s) => s@,
                None => "off"@,
            },
        ),
        r.socks_reachable == socks_reachable,
{
    TorStatus { active: tor_is_active(active_stdout), mode: tor_mode_of(mode_file), socks_reachable }
}

pub open spec fn valid_tor_mode(mode: Seq<char>) -> bool {
    mode == "off"@ || mode == "socks5"@ || mode == "transparent"@
}

/// Refuse a Tor mode other than `off`, `socks5` and `transparent`.
pub fn check_tor_mode(mode: &str) -> (r: Result<(), String>)
    ensures
        r is Ok <==> valid_tor_mode(mode@),
        r matches Err(e) ==> e@ == "invalid tor mode: "@ + mode@,
{
    let m = chars_of(mode);
    if chars_eq_str(m.as_slice(), "off") || chars_eq_str(m.as_slice(), "socks5") || chars_eq_str(
        m.as_slice(),
        "transparent",
    ) {
        Ok(())
    } else {
        let mut e = String::from_str("invalid tor mode: ");
        e.append(mode);
        Err(e)
    }
}

/// The address that hands out bridges of a type: `obfs4`, `snowflake` or
/// `vanilla`; any other type is refused.
pub fn bridge_url(bridge_type: &str) -> (r: Result<String, String>)
    ensures
        bridge_type@ == "obfs4"@ ==> (r matches Ok(u) && u@ == "https://bridges.torproject.org/bridges?transport=obfs4"@),
        bridge_type@ == "snowflake"@ ==> (r matches Ok(u) && u@ == "https://bridges.torproject.org/bridges?transport=snowflake"@),
        bridge_type@ == "vanilla"@ ==> (r matches Ok(u) && u@ == "https://bridges.torproject.org/bridges"@),
        !(bridge_type@ == "obfs4"@ || bridge_type@ == "snowflake"@ || bridge_type@ == "vanilla"@)
            ==> (r matches Err(e) && e@ == "invalid bridge type: "@ + bridge_type@),
{
    let t = chars_of(bridge_type);
    proof {
        reveal_strlit("obfs4");
        reveal_strlit("snowflake");
        reveal_strlit("vanilla");
        assert("obfs4"@.len() != "snowflake"@.len());
        assert("obfs4"@.len() != "vanilla"@.len());
        assert("snowflake"@.len() != "vanilla"@.len());
    }
    if chars_eq_str(t.as_slice(), "obfs4") {
        Ok(String::from_str("https://bridges.torproject.org/bridges?transport=obfs4"))
    } else if chars_eq_str(t.as_slice(), "snowflake") {
        Ok(String::from_str("https://bridges.torproject.org/bridges?transport=snowflake"))
    } else if chars_eq_str(t.as_slice(), "vanilla") {
        Ok(String::from_str("https://bridges.torproject.org/bridges"))
    } else {
        let mut e = String::from_str("invalid bridge type: ");
        e.append(bridge_type);
        Err(e)
    }
}

/// A fetched line that names a bridge: not blank and not a comment.
pub open spec fn is_bridge_line(l: Seq<char>) -> bool {
    trim(l).len() > 0 && !starts_with(trim_start(l), "#"@)
}

/// A configured line that names a bridge.
pub open spec fn is_configured_bridge(l: Seq<char>) -> bool {
    starts_with(l, "Bridge "@)
}

/// The bridges that the bridge service answered: its lines that are neither
/// blank nor comments, in order.
pub fn fetched_bridges(out: &str) -> (r: Vec<String>)
    ensures
        views(r@) == lines_of(out@).filter(|l: Seq<char>| is_bridge_line(l)),
{
    let text = chars_of(out);
    let ls = lines(text.as_slice());
    let ghost all = lines_of(out@);
    let mut r: Vec<String> = Vec::new();
    let mut i: usize = 0;
    while i < ls.len()
        invariant
            text@ == out@,
            all == lines_of(out@),
            ls@.len() == all.len(),
            forall|k: int| 0 <= k < ls@.len() ==> #[trigger] ls@[k]@ == all[k],
            i <= ls@.len(),
            views(r@) == all.take(i as int).filter(|l: Seq<char>| is_bridge_line(l)),
        decreases ls@.len() - i,
    {
        proof {
            assert(all.take(i + 1).drop_last() =~= all.take(i as int));
            assert(all.take(i + 1).last() == all[i as int]);
            reveal_with_fuel(Seq::filter, 1);
        }
        let l = ls[i].as_slice();
        let keep = trim_chars(l).len() > 0 && !has_prefix(trim_start_chars(l).as_slice(), "#");
        if keep {
            r.push(string_of(l));
            proof {
                assert(views(r@) =~= all.take(i as int).filter(|l: Seq<char>| is_bridge_line(l)).push(all[i as int]));
            }
        }
        i = i + 1;
    }
    proof {
        assert(all.take(ls@.len() as int) =~= all);
    }
    r
}

/// The bridges in the bridge configuration: its lines that begin with `Bridge `.
pub fn configured_bridges(content: &str) -> (r: Vec<String>)
    ensures
        views(r@) == lines_of(content@).filter(|l: Seq<char>| is_configured_bridge(l)),
{
    let text = chars_of(content);
    let ls = lines(text.as_slice());
    let ghost all = lines_of(content@);
    let mut r: Vec<String> = Vec::new();
    let mut i: usize = 0;
    while i < ls.len()
        invariant
            text@ == content@,
            all == lines_of(content@),
            ls@.len() == all.len(),
            forall|k: int| 0 <= k < ls@.len() ==> #[trigger] ls@[k]@ == all[k],
            i <= ls@.len(),
            views(r@) == all.take(i as int).filter(|l: Seq<char>| is_configured_bridge(l)),
        decreases ls@.len() - i,
    {
        proof {
            assert(all.take(i + 1).drop_last() =~= all.take(i as int));
            assert(all.take(i + 1).last() == all[i as int]);
            reveal_with_fuel(Seq::filter, 1);
        }
        let l = ls[i].as_slice();
        if has_prefix(l, "Bridge ") {
            r.push(string_of(l));
            proof {
                assert(views(r@) =~= all.take(i as int).filter(|l: Seq<char>| is_configured_bridge(l)).push(all[i as int]));
            }
        }
        i = i + 1;
    }
    proof {
        assert(all.take(ls@.len() as int) =~= all);
    }
    r
}

/// A bridge without the `Bridge ` that it may begin with.
pub open spec fn bridge_body(b: Seq<char>) -> Seq<char> {
    if starts_with(b, "Bridge "@) {
        b.skip(7)
    } else {
        b
    }
}

/// One `Bridge <line>` line for each bridge, in order.
pub open spec fn bridge_entries(bs: Seq<Seq<char>>) -> Seq<char>
    decreases bs.len(),
{
    if bs.len() == 0 {
        Seq::empty()
    } else {
        bridge_entries(bs.drop_last()) + "Bridge "@ + bridge_body(bs.last()) + "\n"@
    }
}

/// The bridge configuration: bridges off where there are none, else on, with
/// one line for each.
pub open spec fn bridges_config_text(bs: Seq<Seq<char>>) -> Seq<char> {
    if bs.len() == 0 {
        "UseBridges 0\n"@
    } else {
        "UseBridges 1\n"@ + bridge_entries(bs)
    }
}

/// The text of the bridge configuration file for a list of bridges.
pub fn bridges_config(bridges: &Vec<String>) -> (r: String)
    ensures
        r@ == bridges_config_text(views(bridges@)),
{
    if bridges.len() == 0 {
        return String::from_str("UseBridges 0\n");
    }
    let mut s = String::from_str("UseBridges 1\n");
    let ghost head = s@;
    let mut i: usize = 0;
    while i < bridges.len()
        invariant
            i <= bridges@.len(),
            head == "UseBridges 1\n"@,
            s@ == head + bridge_entries(views(bridges@.take(i as int))),
        decreases bridges@.len() - i,
    {
        proof {
            assert(views(bridges@.take(i + 1)).drop_last() =~= views(bridges@.take(i as int)));
            assert(views(bridges@.take(i + 1)).last() == bridges@[i as int]@);
        }
        let b = chars_of(bridges[i].as_str());
        proof {
            reveal_strlit("Bridge ");
        }
        let body = if has_prefix(b.as_slice(), "Bridge ") {
            sub_vec(b.as_slice(), 7, b.len())
        } else {
            sub_vec(b.as_slice(), 0, b.len())
        };
        proof {
            assert(b@.subrange(7, b@.len() as int) =~= b@.skip(7));
            assert(b@.subrange(0, b@.len() as int) =~= b@);
            reveal_strlit("Bridge ");
        }
        let ghost before = s@;
        s.append("Bridge ");
        s.append(string_of(body.as_slice()).as_str());
        s.append("\n");
        proof {
            assert(s@ =~= before + "Bridge "@ + bridge_body(bridges@[i as int]@) + "\n"@);
        }
        i = i + 1;
    }
    proof {
        assert(bridges@.take(bridges@.len() as int) =~= bridges@);
    }
    s
}

// ---------------------------------------------------------------------------
// VPN

#[derive(Debug, Clone)]
pub struct VpnConnection {
    pub name: String,
    pub uuid: String,
    pub vpn_type: String,
    pub active: bool,
    pub device: String,
}

pub type VpnView = (Seq<char>, Seq<char>, Seq<char>, bool, Seq<char>);

pub open spec fn vpn_view(c: VpnConnection) -> VpnView {
    (c.name@, c.uuid@, c.vpn_type@, c.active, c.device@)
}

/// A line `NAME:UUID:TYPE:DEVICE:STATE:ACTIVE` of a WireGuard or VPN
/// connection; other types and short lines give nothing.
pub open spec fn vpn_line(line: Seq<char>) -> Option<VpnView> {
    let p = splitn(line, 6, ':');
    if p.len() != 6 {
        None
    } else if p[2] != "wireguard"@ && p[2] != "vpn"@ {
        None
    } else {
        Some((p[0], p[1], p[2], trim(p[5]) == "yes"@, p[3]))
    }
}

pub open spec fn vpns_of(ls: Seq<Seq<char>>) -> Seq<VpnView>
    decreases ls.len(),
{
    if ls.len() == 0 {
        Seq::empty()
    } else {
        let rest = vpns_of(ls.drop_last());
        if trim(ls.last()).len() == 0 {
            rest
        } else {
            match vpn_line(ls.last()) {
                Some(c) => rest.push(c),
                None => rest,
            }
        }
    }
}

fn parse_vpn_line(line: &[char]) -> (r: Option<VpnConnection>)
    ensures
        match r {
            Some(c) => vpn_line(line@) == Some(vpn_view(c)),
            None => vpn_line(line@) is None,
        },
{
    let p = splitn_chars(line, 6, ':');
    if p.len() != 6 {
        return None;
    }
    if !chars_eq_str(p[2].as_slice(), "wireguard") && !chars_eq_str(p[2].as_slice(), "vpn") {
        return None;
    }
    let act = trim_chars(p[5].as_slice());
    Some(
        VpnConnection {
            name: string_of(p[0].as_slice()),
            uuid: string_of(p[1].as_slice()),
            vpn_type: string_of(p[2].as_slice()),
            device: string_of(p[3].as_slice()),
            active: chars_eq_str(act.as_slice(), "yes"),
        },
    )
}

/// The WireGuard and VPN connections among those that
/// `nmcli -t -f NAME,UUID,TYPE,DEVICE,STATE,ACTIVE connection show` lists.
pub fn parse_vpn_connections(output: &str) -> (r: Vec<VpnConnection>)
    ensures
        r@.map_values(|c: VpnConnection| vpn_view(c)) == vpns_of(lines_of(output@)),
{
    let text = chars_of(output);
    let ls = lines(text.as_slice());
    let ghost all = lines_of(output@);
    let mut r: Vec<VpnConnection> = Vec::new();
    let mut i: usize = 0;
    while i < ls.len()
        invariant
            text@ == output@,
            all == lines_of(output@),
            ls@.len() == all.len(),
            forall|k: int| 0 <= k < ls@.len() ==> #[trigger] ls@[k]@ == all[k],
            i <= ls@.len(),
            r@.map_values(|c: VpnConnection| vpn_view(c)) == vpns_of(all.take(i as int)),
        decreases ls@.len() - i,
    {
        proof {
            assert(all.take(i + 1).drop_last() =~= all.take(i as int));
            assert(all.take(i + 1).last() == all[i as int]);
        }
        let t = trim_chars(ls[i].as_slice());
        if t.len() > 0 {
            match parse_vpn_line(ls[i].as_slice()) {
                Some(c) => {
                    let ghost before = r@;
                    r.push(c);
                    proof {
                        assert(r@.map_values(|c: VpnConnection| vpn_view(c)) =~= before.map_values(
                            |c: VpnConnection| vpn_view(c),
                        ).push(vpn_view(c)));
                    }
                },
                None => {},
            }
        }
        i = i + 1;
    }
    proof {
        assert(all.take(ls@.len() as int) =~= all);
    }
    r
}

/// The error of a failed WireGuard import: a hint where the kernel lacks
/// WireGuard, else the tool's own words.
pub fn wireguard_import_error(err: &str) -> (r: String)
    ensures
        (contains_seq(err@, "wireguard"@) && contains_seq(err@, "not supported"@)) ==> r@
            == "WireGuard kernel module not loaded. Try: modprobe wireguard"@,
        !(contains_seq(err@, "wireguard"@) && contains_seq(err@, "not supported"@)) ==> r@ == err@,
{
    let e = chars_of(err);
    if contains_str(e.as_slice(), "wireguard") && contains_str(e.as_slice(), "not supported") {
        String::from_str("WireGuard kernel module not loaded. Try: modprobe wireguard")
    } else {
        string_of(e.as_slice())
    }
}

/// The configured line of each bridge.
pub open spec fn bridge_lines_of(bs: Seq<Seq<char>>) -> Seq<Seq<char>> {
    bs.map_values(|b: Seq<char>| "Bridge "@ + bridge_body(b))
}

proof fn lemma_entries_joined(bs: Seq<Seq<char>>)
    ensures
        bridge_entries(bs) == joined_lines(bridge_lines_of(bs)),
    decreases bs.len(),
{
    if bs.len() > 0 {
        lemma_entries_joined(bs.drop_last());
        assert(bridge_lines_of(bs).drop_last() =~= bridge_lines_of(bs.drop_last()));
        assert(bridge_lines_of(bs).last() == "Bridge "@ + bridge_body(bs.last()));
        reveal_strlit("\n");
        assert("\n"@ =~= seq!['\n']);
        assert(bridge_entries(bs) =~= joined_lines(bridge_lines_of(bs)));
    } else {
        assert(bridge_lines_of(bs) =~= Seq::<Seq<char>>::empty());
    }
}

proof fn lemma_joined_prepend(u: Seq<char>, es: Seq<Seq<char>>)
    ensures
        joined_lines(seq![u] + es) == u + seq!['\n'] + joined_lines(es),
    decreases es.len(),
{
    if es.len() == 0 {
        assert(seq![u] + es =~= seq![u]);
        assert(seq![u].drop_last() =~= Seq::<Seq<char>>::empty());
        assert(joined_lines(Seq::<Seq<char>>::empty()) =~= Seq::<char>::empty());
        assert(seq![u].last() == u);
        assert(joined_lines(seq![u]) == joined_lines(Seq::<Seq<char>>::empty()) + u + seq!['\n']);
        assert(Seq::<char>::empty() + u + seq!['\n'] =~= u + seq!['\n']);
        assert(u + seq!['\n'] + joined_lines(es) =~= u + seq!['\n']);
    } else {
        lemma_joined_prepend(u, es.drop_last());
        assert((seq![u] + es).drop_last() =~= seq![u] + es.drop_last());
        assert((seq![u] + es).last() == es.last());
        assert(joined_lines(seq![u] + es) =~= u + seq!['\n'] + joined_lines(es));
    }
}

/// The bridges read back from a written bridge configuration are the bridges
/// written, each as its `Bridge ...` line, where no bridge holds a line break
/// or ends with a carriage return.
pub proof fn law_bridges_read_back(bs: Seq<Seq<char>>)
    requires
        forall|k: int| 0 <= k < bs.len() ==> plain_line(bridge_body(#[trigger] bs[k])),
    ensures
        lines_of(bridges_config_text(bs)).filter(|l: Seq<char>| is_configured_bridge(l)) == bridge_lines_of(bs),
{
    reveal_strlit("UseBridges 0\n");
    reveal_strlit("UseBridges 1\n");
    reveal_strlit("UseBridges 0");
    reveal_strlit("UseBridges 1");
    reveal_strlit("Bridge ");
    let pred = |l: Seq<char>| is_configured_bridge(l);
    let es = bridge_lines_of(bs);
    assert forall|k: int| 0 <= k < es.len() implies plain_line(#[trigger] es[k]) && pred(es[k]) by {
        let body = bridge_body(bs[k]);
        assert(plain_line(body));
        let e = "Bridge "@ + body;
        assert(es[k] == e);
        assert(!e.contains('\n')) by {
            if e.contains('\n') {
                let j = choose|j: int| 0 <= j < e.len() && e[j] == '\n';
                if j >= 7 {
                    assert(body[j - 7] == '\n');
                }
            }
        }
        if body.len() > 0 {
            assert(e.last() == body.last());
        }
        assert(e.take(7) =~= "Bridge "@);
    }
    let u = if bs.len() == 0 {
        "UseBridges 0"@
    } else {
        "UseBridges 1"@
    };
    let all = seq![u] + es;
    assert(u + seq!['\n'] =~= if bs.len() == 0 {
        "UseBridges 0\n"@
    } else {
        "UseBridges 1\n"@
    });
    lemma_entries_joined(bs);
    lemma_joined_prepend(u, es);
    if bs.len() == 0 {
        assert(es =~= Seq::<Seq<char>>::empty());
        assert(joined_lines(es) =~= Seq::<char>::empty());
        assert(bridges_config_text(bs) =~= joined_lines(all));
    } else {
        assert(bridges_config_text(bs) =~= joined_lines(all));
    }
    assert forall|k: int| 0 <= k < all.len() implies plain_line(#[trigger] all[k]) by {
        if k > 0 {
            assert(all[k] == es[k - 1]);
        }
    }
    lemma_lines_of_joined(all);
    assert(!pred(u)) by {
        assert(u[0] != "Bridge "@[0]);
        assert(u.take(7)[0] == u[0]);
    }
    vstd::seq::Seq::filter_distributes_over_add(seq![u], es, pred);
    reveal_with_fuel(Seq::filter, 2);
    assert(seq![u].filter(pred) =~= Seq::<Seq<char>>::empty()) by {
        assert(seq![u].drop_last() =~= Seq::<Seq<char>>::empty());
    }
    lemma_filter_keeps_all(es, pred);
    assert(Seq::<Seq<char>>::empty() + es =~= es);
}

proof fn lemma_filter_keeps_all(es: Seq<Seq<char>>, pred: spec_fn(Seq<char>) -> bool)
    requires
        forall|k: int| 0 <= k < es.len() ==> pred(#[trigger] es[k]),
    ensures
        es.filter(pred) == es,
    decreases es.len(),
{
    reveal_with_fuel(Seq::filter, 1);
    if es.len() > 0 {
        assert forall|k: int| 0 <= k < es.drop_last().len() implies pred(#[trigger] es.drop_last()[k]) by {
            assert(es.drop_last()[k] == es[k]);
        }
        lemma_filter_keeps_all(es.drop_last(), pred);
        assert(pred(es[es.len() - 1]));
        assert(es.drop_last().push(es.last()) =~= es);
    } else {
        assert(es.filter(pred) =~= es);
    }
}

} // verus!
