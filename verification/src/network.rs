//! NetworkManager's listings as `nmcli` prints them in its terse formats:
//! saved connections and visible Wi-Fi networks.

use crate::order::{is_stable_desc_order, stable_order_desc};
use crate::text::{
    split_once, split_once_chars, lemma_splitn_first_field,
    char_views, chars_eq, chars_eq_str, chars_of, lines, lines_of, parse_u8, parse_u8_spec,
    rsplitn, rsplitn_chars, splitn, splitn_chars, string_of, trim, trim_chars,
};
use vstd::prelude::*;

verus! {

#[derive(Debug, Clone)]
pub struct NetworkConnection {
    pub name: String,
    pub uuid: String,
    pub conn_type: String,
    pub device: String,
    pub active: bool,
    pub state: String,
}

pub open spec fn connection_view(c: NetworkConnection) -> (Seq<char>, Seq<char>, Seq<char>, Seq<char>, bool, Seq<char>) {
    (c.name@, c.uuid@, c.conn_type@, c.device@, c.active, c.state@)
}

/// A line `NAME:UUID:TYPE:DEVICE:STATE:ACTIVE`; the active flag is `yes`
/// after trimming. Lines with fewer fields give nothing.
pub open spec fn connection_line(line: Seq<char>) -> Option<(Seq<char>, Seq<char>, Seq<char>, Seq<char>, bool, Seq<char>)> {
    let p = splitn(line, 6, ':');
    if p.len() == 6 {
        Some((p[0], p[1], p[2], p[3], trim(p[5]) == "yes"@, p[4]))
    } else {
        None
    }
}

/// The connections of the non-blank lines that have all six fields.
pub open spec fn connections_of(ls: Seq<Seq<char>>) -> Seq<(Seq<char>, Seq<char>, Seq<char>, Seq<char>, bool, Seq<char>)>
    decreases ls.len(),
{
    if ls.len() == 0 {
        Seq::empty()
    } else {
        let rest = connections_of(ls.drop_last());
        if trim(ls.last()).len() == 0 {
            rest
        } else {
            match connection_line(ls.last()) {
                Some(c) => rest.push(c),
                None => rest,
            }
        }
    }
}

fn parse_connection_line(line: &[char]) -> (r: Option<NetworkConnection>)
    ensures
        match r {
            Some(c) => connection_line(line@) == Some(connection_view(c)),
            None => connection_line(line@) is None,
        },
{
    let p = splitn_chars(line, 6, ':');
    if p.len() != 6 {
        return None;
    }
    let act = trim_chars(p[5].as_slice());
    Some(
        NetworkConnection {
            name: string_of(p[0].as_slice()),
            uuid: string_of(p[1].as_slice()),
            conn_type: string_of(p[2].as_slice()),
            device: string_of(p[3].as_slice()),
            state: string_of(p[4].as_slice()),
            active: chars_eq_str(act.as_slice(), "yes"),
        },
    )
}

/// Read the saved connections from `nmcli -t -f NAME,UUID,TYPE,DEVICE,STATE,ACTIVE connection show`.
pub fn parse_connections(output: &str) -> (r: Vec<NetworkConnection>)
    ensures
        r@.map_values(|c: NetworkConnection| connection_view(c)) == connections_of(lines_of(output@)),
{
    let text = chars_of(output);
    let ls = lines(text.as_slice());
    let ghost all = lines_of(output@);
    let mut r: Vec<NetworkConnection> = Vec::new();
    let mut i: usize = 0;
    while i < ls.len()
        invariant
            text@ == output@,
            all == lines_of(output@),
            ls@.len() == all.len(),
            forall|k: int| 0 <= k < ls@.len() ==> #[trigger] ls@[k]@ == all[k],
            i <= ls@.len(),
            r@.map_values(|c: NetworkConnection| connection_view(c)) == connections_of(all.take(i as int)),
        decreases ls@.len() - i,
    {
        proof {
            assert(all.take(i + 1).drop_last() =~= all.take(i as int));
            assert(all.take(i + 1).last() == all[i as int]);
        }
        let t = trim_chars(ls[i].as_slice());
        if t.len() > 0 {
            match parse_connection_line(ls[i].as_slice()) {
                Some(c) => {
                    let ghost before = r@;
                    r.push(c);
                    proof {
                        assert(r@.map_values(|c: NetworkConnection| connection_view(c)) =~= before.map_values(
                            |c: NetworkConnection| connection_view(c),
                        ).push(connection_view(c)));
                    }
                },
                None => {},
            }
        }
        i = i + 1;
    }
    proof {
        assert(all.take(ls@.len() as int) =~= all);
    }
    r
}

#[derive(Debug, Clone)]
pub struct WifiNetwork {
    pub ssid: String,
    pub bssid: String,
    pub signal: u8,
    pub security: String,
    pub in_use: bool,
    pub freq: String,
}

pub open spec fn wifi_view(w: WifiNetwork) -> (Seq<char>, Seq<char>, u8, Seq<char>, bool, Seq<char>) {
    (w.ssid@, w.bssid@, w.signal, w.security@, w.in_use, w.freq@)
}

pub open spec fn piece(p: Seq<Seq<char>>, i: int) -> Seq<char> {
    if 0 <= i < p.len() {
        p[i]
    } else {
        Seq::empty()
    }
}

/// A line `IN-USE:SSID:BSSID:SIGNAL:SECURITY:FREQ`, read from the right so
/// that the colons of the BSSID stay in it. The signal is 0 where it is not a
/// number.
pub open spec fn wifi_line(line: Seq<char>) -> Option<(Seq<char>, Seq<char>, u8, Seq<char>, bool, Seq<char>)> {
    let p = rsplitn(line, 4, ':');
    if p.len() != 4 {
        None
    } else {
        let f = splitn(p[3], 3, ':');
        Some(
            (
                trim(piece(f, 1)),
                trim(piece(f, 2)),
                match parse_u8_spec(trim(p[2])) {
                    Some(v) => v,
                    None => 0,
                },
                trim(p[1]),
                trim(piece(f, 0)) == "*"@,
                trim(p[0]),
            ),
        )
    }
}

/// The networks of the non-blank lines, in order, without those with no SSID
/// and without repeats of an SSID already listed.
pub open spec fn wifi_networks_of(ls: Seq<Seq<char>>) -> Seq<(Seq<char>, Seq<char>, u8, Seq<char>, bool, Seq<char>)>
    decreases ls.len(),
{
    if ls.len() == 0 {
        Seq::empty()
    } else {
        let rest = wifi_networks_of(ls.drop_last());
        if trim(ls.last()).len() == 0 {
            rest
        } else {
            match wifi_line(ls.last()) {
                Some(w) => if w.0.len() == 0 || (exists|k: int|
                    0 <= k < rest.len() && (#[trigger] rest[k]).0 == w.0) {
                    rest
                } else {
                    rest.push(w)
                },
                None => rest,
            }
        }
    }
}

fn get_piece(p: &Vec<Vec<char>>, i: usize) -> (r: Vec<char>)
    ensures
        r@ == piece(char_views(p@), i as int),
{
    if i < p.len() {
        crate::text::sub_vec(p[i].as_slice(), 0, p[i].len())
    } else {
        Vec::new()
    }
}

fn parse_wifi_line(line: &[char]) -> (r: Option<WifiNetwork>)
    ensures
        match r {
            Some(w) => wifi_line(line@) == Some(wifi_view(w)),
            None => wifi_line(line@) is None,
        },
{
    let p = rsplitn_chars(line, 4, ':');
    if p.len() != 4 {
        return None;
    }
    let f = splitn_chars(p[3].as_slice(), 3, ':');
    let in_use = trim_chars(get_piece(&f, 0).as_slice());
    let ssid = trim_chars(get_piece(&f, 1).as_slice());
    let bssid = trim_chars(get_piece(&f, 2).as_slice());
    let signal = match parse_u8(trim_chars(p[2].as_slice()).as_slice()) {
        Some(v) => v,
        None => 0,
    };
    Some(
        WifiNetwork {
            ssid: string_of(ssid.as_slice()),
            bssid: string_of(bssid.as_slice()),
            signal,
            security: string_of(trim_chars(p[1].as_slice()).as_slice()),
            in_use: chars_eq_str(in_use.as_slice(), "*"),
            freq: string_of(trim_chars(p[0].as_slice()).as_slice()),
        },
    )
}

pub open spec fn wifi_signals(s: Seq<(Seq<char>, Seq<char>, u8, Seq<char>, bool, Seq<char>)>) -> Seq<i64> {
    s.map_values(|w: (Seq<char>, Seq<char>, u8, Seq<char>, bool, Seq<char>)| w.2 as i64)
}

/// `r` is `listed` sorted by descending signal, equal signals in order.
pub open spec fn wifi_answer(
    listed: Seq<(Seq<char>, Seq<char>, u8, Seq<char>, bool, Seq<char>)>,
    perm: Seq<usize>,
    r: Seq<WifiNetwork>,
) -> bool {
    &&& is_stable_desc_order(wifi_signals(listed), perm)
    &&& r.map_values(|w: WifiNetwork| wifi_view(w)) == perm.map_values(|i: usize| listed[i as int])
}

/// Read the visible Wi-Fi networks from `nmcli --escape no -g
/// IN-USE,SSID,BSSID,SIGNAL,SECURITY,FREQ device wifi list`: one entry per
/// SSID, strongest signal first, equal signals in listing order.
pub fn parse_wifi_list(output: &str) -> (r: Vec<WifiNetwork>)
    ensures
        exists|perm: Seq<usize>| #[trigger] wifi_answer(wifi_networks_of(lines_of(output@)), perm, r@),
{
    let text = chars_of(output);
    let ls = lines(text.as_slice());
    let ghost all = lines_of(output@);
    let mut nets: Vec<WifiNetwork> = Vec::new();
    let mut i: usize = 0;
    while i < ls.len()
        invariant
            text@ == output@,
            all == lines_of(output@),
            ls@.len() == all.len(),
            forall|k: int| 0 <= k < ls@.len() ==> #[trigger] ls@[k]@ == all[k],
            i <= ls@.len(),
            nets@.map_values(|w: WifiNetwork| wifi_view(w)) == wifi_networks_of(all.take(i as int)),
        decreases ls@.len() - i,
    {
        proof {
            assert(all.take(i + 1).drop_last() =~= all.take(i as int));
            assert(all.take(i + 1).last() == all[i as int]);
        }
        let ghost prev = nets@.map_values(|w: WifiNetwork| wifi_view(w));
        let t = trim_chars(ls[i].as_slice());
        if t.len() > 0 {
            match parse_wifi_line(ls[i].as_slice()) {
                Some(w) => {
                    let ssid = chars_of(w.ssid.as_str());
                    let mut seen = false;
                    let mut k: usize = 0;
                    while k < nets.len()
                        invariant
                            k <= nets@.len(),
                            ssid@ == w.ssid@,
                            prev == nets@.map_values(|w: WifiNetwork| wifi_view(w)),
                            seen == exists|j: int| 0 <= j < k && (#[trigger] prev[j]).0 == w.ssid@,
                        decreases nets@.len() - k,
                    {
                        let other = chars_of(nets[k].ssid.as_str());
                        if chars_eq(other.as_slice(), ssid.as_slice()) {
                            seen = true;
                        }
                        proof {
                            assert(prev[k as int] == wifi_view(nets@[k as int]));
                        }
                        k = k + 1;
                    }
                    if ssid.len() > 0 && !seen {
                        let ghost before = nets@;
                        nets.push(w);
                        proof {
                            assert(nets@.map_values(|w: WifiNetwork| wifi_view(w)) =~= prev.push(wifi_view(w)));
                        }
                    }
                },
                None => {},
            }
        }
        i = i + 1;
    }
    proof {
        assert(all.take(ls@.len() as int) =~= all);
    }
    let ghost listed = nets@.map_values(|w: WifiNetwork| wifi_view(w));
    let mut scores: Vec<i64> = Vec::new();
    let mut j: usize = 0;
    while j < nets.len()
        invariant
            j <= nets@.len(),
            scores@ == nets@.take(j as int).map_values(|w: WifiNetwork| w.signal as i64),
        decreases nets@.len() - j,
    {
        scores.push(nets[j].signal as i64);
        proof {
            assert(nets@.take(j + 1).map_values(|w: WifiNetwork| w.signal as i64) =~= nets@.take(j as int).map_values(|w: WifiNetwork| w.signal as i64).push(nets@[j as int].signal as i64));
        }
        j = j + 1;
    }
    proof {
        assert(nets@.take(nets@.len() as int) =~= nets@);
        assert(scores@ =~= wifi_signals(listed));
    }
    let perm = stable_order_desc(&scores);
    let nv = nets.len();
    let mut slots: Vec<Option<WifiNetwork>> = Vec::new();
    let ghost nets_v = nets@;
    let mut z: usize = 0;
    while nets.len() > 0
        invariant
            z <= nets_v.len(),
            nets_v.len() == nv,
            nets@ == nets_v.skip(z as int),
            slots@.len() == z,
            forall|q: int| 0 <= q < z ==> #[trigger] slots@[q] == Some(nets_v[q]),
        decreases nets@.len(),
    {
        let a = nets.remove(0);
        proof {
            assert(nets@ =~= nets_v.skip(z + 1));
        }
        slots.push(Some(a));
        z = z + 1;
    }
    let mut out: Vec<WifiNetwork> = Vec::new();
    let mut k: usize = 0;
    while k < perm.len()
        invariant
            k <= perm@.len(),
            perm@.len() == nv,
            nets_v.len() == nv,
            slots@.len() == nv,
            is_stable_desc_order(scores@, perm@),
            forall|t: int| k <= t < perm@.len() ==> slots@[#[trigger] perm@[t] as int] == Some(nets_v[perm@[t] as int]),
            out@ == perm@.take(k as int).map_values(|x: usize| nets_v[x as int]),
        decreases perm@.len() - k,
    {
        let idx = perm[k];
        let s = slots.remove(idx);
        slots.insert(idx, None);
        proof {
            assert forall|t: int| k + 1 <= t < perm@.len() implies slots@[#[trigger] perm@[t] as int] == Some(nets_v[perm@[t] as int]) by {
                assert(perm@[t] != perm@[k as int]);
            }
        }
        match s {
            Some(a) => out.push(a),
            None => {
                proof {
                    assert(false);
                }
            },
        }
        proof {
            assert(perm@.take(k + 1).map_values(|x: usize| nets_v[x as int]) =~= perm@.take(k as int).map_values(|x: usize| nets_v[x as int]).push(nets_v[perm@[k as int] as int]));
        }
        k = k + 1;
    }
    proof {
        assert(perm@.take(perm@.len() as int) =~= perm@);
        assert(out@.map_values(|w: WifiNetwork| wifi_view(w)) =~= perm@.map_values(|i: usize| listed[i as int]));
        assert(wifi_answer(wifi_networks_of(lines_of(output@)), perm@, out@));
    }
    out
}

/// The answer of an `nmcli` call: its output when it succeeded, else its
/// trimmed error output, or `nmcli command failed` where that is empty.
pub fn nmcli_outcome(success: bool, stdout: &str, stderr: &str) -> (r: Result<String, String>)
    ensures
        success ==> (r matches Ok(s) && s@ == stdout@),
        !success ==> (r matches Err(e) && e@ == if trim(stderr@).len() == 0 {
            "nmcli command failed"@
        } else {
            trim(stderr@)
        }),
{
    if success {
        Ok(String::from_str(stdout))
    } else {
        let e = trim_chars(chars_of(stderr).as_slice());
        if e.len() == 0 {
            Err(String::from_str("nmcli command failed"))
        } else {
            Err(string_of(e.as_slice()))
        }
    }
}

/// The arguments of `nmcli` that join a Wi-Fi network, with its password
/// where one is given.
pub fn wifi_connect_args(ssid: &str, password: Option<String>) -> (r: Vec<String>)
    ensures
        crate::text::views(r@) == match password {
            Some(pw) => seq!["device"@, "wifi"@, "connect"@, ssid@, "password"@, pw@],
            None => seq!["device"@, "wifi"@, "connect"@, ssid@],
        },
{
    let mut r: Vec<String> = Vec::new();
    r.push(String::from_str("device"));
    r.push(String::from_str("wifi"));
    r.push(String::from_str("connect"));
    r.push(String::from_str(ssid));
    match password {
        Some(pw) => {
            r.push(String::from_str("password"));
            r.push(pw);
        },
        None => {},
    }
    proof {
        assert(crate::text::views(r@) =~= match password {
            Some(pw) => seq!["device"@, "wifi"@, "connect"@, ssid@, "password"@, pw@],
            None => seq!["device"@, "wifi"@, "connect"@, ssid@],
        });
    }
    r
}

/// The active connection as `nmcli device show` describes it; each field is
/// the first non-empty value given for its key.
#[derive(Debug, Clone)]
pub struct ActiveConnectionInfo {
    pub connection: Option<String>,
    pub device: Option<String>,
    pub state: Option<String>,
    pub ipv4: Option<String>,
    pub gateway: Option<String>,
    pub conn_type: Option<String>,
}

/// The first trimmed, non-empty value of a `KEY:value` line whose trimmed key
/// is `key`.
pub open spec fn first_value(ls: Seq<Seq<char>>, key: Seq<char>) -> Option<Seq<char>>
    decreases ls.len(),
{
    if ls.len() == 0 {
        None
    } else {
        match split_once(ls[0], ':') {
            Some((k, v)) => if trim(k) == key && trim(v).len() > 0 {
                Some(trim(v))
            } else {
                first_value(ls.drop_first(), key)
            },
            None => first_value(ls.drop_first(), key),
        }
    }
}

pub open spec fn opt_view(o: Option<String>) -> Option<Seq<char>> {
    match o {
        Some(s) => Some(s@),
        None => None,
    }
}

/// The field of `info` that a key fills, if any.
pub open spec fn info_slot(info: ActiveConnectionInfo, key: Seq<char>) -> Option<Option<String>> {
    if key == "GENERAL.CONNECTION"@ {
        Some(info.connection)
    } else if key == "GENERAL.DEVICE"@ {
        Some(info.device)
    } else if key == "GENERAL.STATE"@ {
        Some(info.state)
    } else if key == "IP4.ADDRESS[1]"@ {
        Some(info.ipv4)
    } else if key == "IP4.GATEWAY"@ {
        Some(info.gateway)
    } else if key == "GENERAL.TYPE"@ {
        Some(info.conn_type)
    } else {
        None
    }
}

pub open spec fn info_matches(info: ActiveConnectionInfo, ls: Seq<Seq<char>>) -> bool {
    &&& opt_view(info.connection) == first_value(ls, "GENERAL.CONNECTION"@)
    &&& opt_view(info.device) == first_value(ls, "GENERAL.DEVICE"@)
    &&& opt_view(info.state) == first_value(ls, "GENERAL.STATE"@)
    &&& opt_view(info.ipv4) == first_value(ls, "IP4.ADDRESS[1]"@)
    &&& opt_view(info.gateway) == first_value(ls, "IP4.GATEWAY"@)
    &&& opt_view(info.conn_type) == first_value(ls, "GENERAL.TYPE"@)
}

proof fn lemma_first_value_step(ls: Seq<Seq<char>>, i: int, key: Seq<char>)
    requires
        0 <= i < ls.len(),
    ensures
        first_value(ls.skip(i), key) == match split_once(ls[i], ':') {
            Some((k, v)) => if trim(k) == key && trim(v).len() > 0 {
                Some(trim(v))
            } else {
                first_value(ls.skip(i + 1), key)
            },
            None => first_value(ls.skip(i + 1), key),
        },
{
    assert(ls.skip(i).drop_first() =~= ls.skip(i + 1));
    assert(ls.skip(i)[0] == ls[i]);
}

proof fn lemma_info_keys_distinct()
    ensures
        "GENERAL.CONNECTION"@ != "GENERAL.DEVICE"@,
        "GENERAL.CONNECTION"@ != "GENERAL.STATE"@,
        "GENERAL.CONNECTION"@ != "IP4.ADDRESS[1]"@,
        "GENERAL.CONNECTION"@ != "IP4.GATEWAY"@,
        "GENERAL.CONNECTION"@ != "GENERAL.TYPE"@,
        "GENERAL.DEVICE"@ != "GENERAL.STATE"@,
        "GENERAL.DEVICE"@ != "IP4.ADDRESS[1]"@,
        "GENERAL.DEVICE"@ != "IP4.GATEWAY"@,
        "GENERAL.DEVICE"@ != "GENERAL.TYPE"@,
        "GENERAL.STATE"@ != "IP4.ADDRESS[1]"@,
        "GENERAL.STATE"@ != "IP4.GATEWAY"@,
        "GENERAL.STATE"@ != "GENERAL.TYPE"@,
        "IP4.ADDRESS[1]"@ != "IP4.GATEWAY"@,
        "IP4.ADDRESS[1]"@ != "GENERAL.TYPE"@,
        "IP4.GATEWAY"@ != "GENERAL.TYPE"@,
{
    reveal_strlit("GENERAL.CONNECTION");
    reveal_strlit("GENERAL.DEVICE");
    reveal_strlit("GENERAL.STATE");
    reveal_strlit("IP4.ADDRESS[1]");
    reveal_strlit("IP4.GATEWAY");
    reveal_strlit("GENERAL.TYPE");
    assert("GENERAL.DEVICE"@[0] != "IP4.ADDRESS[1]"@[0]);
    assert("GENERAL.STATE"@[0] != "IP4.GATEWAY"@[0]);
    assert("GENERAL.STATE"@[8] != "GENERAL.TYPE"@[8]);
    assert("IP4.GATEWAY"@[0] != "GENERAL.TYPE"@[0]);
    assert("GENERAL.DEVICE"@.len() != "GENERAL.TYPE"@.len());
    assert("IP4.ADDRESS[1]"@.len() != "IP4.GATEWAY"@.len());
}

/// The fields of the active connection from what `nmcli -t -f
/// GENERAL.CONNECTION,GENERAL.DEVICE,GENERAL.STATE,IP4.ADDRESS,IP4.GATEWAY,GENERAL.TYPE
/// device show` printed. The lines are read from the last to the first, so
/// that the first value given for a key is the one that stays.
pub fn active_connection_info(text: &str) -> (r: ActiveConnectionInfo)
    ensures
        info_matches(r, lines_of(text@)),
{
    let cs = chars_of(text);
    let ls = lines(cs.as_slice());
    let ghost all = lines_of(text@);
    let mut info = ActiveConnectionInfo {
        connection: None,
        device: None,
        state: None,
        ipv4: None,
        gateway: None,
        conn_type: None,
    };
    let mut i: usize = ls.len();
    proof {
        assert(all.skip(all.len() as int) =~= Seq::<Seq<char>>::empty());
    }
    while i > 0
        invariant
            all == lines_of(text@),
            ls@.len() == all.len(),
            forall|k: int| 0 <= k < ls@.len() ==> #[trigger] ls@[k]@ == all[k],
            i <= ls@.len(),
            info_matches(info, all.skip(i as int)),
        decreases i,
    {
        i = i - 1;
        proof {
            assert(all.skip(i as int).drop_first() =~= all.skip(i + 1));
            assert(all.skip(i as int)[0] == all[i as int]);
        }
        proof {
            lemma_info_keys_distinct();
            lemma_first_value_step(all, i as int, "GENERAL.CONNECTION"@);
            lemma_first_value_step(all, i as int, "GENERAL.DEVICE"@);
            lemma_first_value_step(all, i as int, "GENERAL.STATE"@);
            lemma_first_value_step(all, i as int, "IP4.ADDRESS[1]"@);
            lemma_first_value_step(all, i as int, "IP4.GATEWAY"@);
            lemma_first_value_step(all, i as int, "GENERAL.TYPE"@);
        }
        match split_once_chars(ls[i].as_slice(), ':') {
            Some((k, v)) => {
                let key = trim_chars(k.as_slice());
                let val = trim_chars(v.as_slice());
                if val.len() > 0 {
                    let kk = key.as_slice();
                    if chars_eq_str(kk, "GENERAL.CONNECTION") {
                        info.connection = Some(string_of(val.as_slice()));
                    } else if chars_eq_str(kk, "GENERAL.DEVICE") {
                        info.device = Some(string_of(val.as_slice()));
                    } else if chars_eq_str(kk, "GENERAL.STATE") {
                        info.state = Some(string_of(val.as_slice()));
                    } else if chars_eq_str(kk, "IP4.ADDRESS[1]") {
                        info.ipv4 = Some(string_of(val.as_slice()));
                    } else if chars_eq_str(kk, "IP4.GATEWAY") {
                        info.gateway = Some(string_of(val.as_slice()));
                    } else if chars_eq_str(kk, "GENERAL.TYPE") {
                        info.conn_type = Some(string_of(val.as_slice()));
                    }
                }
            },
            None => {},
        }
    }
    proof {
        assert(all.skip(0) =~= all);
    }
    info
}

/// A connection line read back: from `NAME:UUID:TYPE:DEVICE:STATE:ACTIVE`,
/// where no field but the last holds a colon, the connection has the name,
/// UUID, type, device and state of those fields in that order, and is active
/// exactly where the last field is `yes` up to surrounding whitespace.
pub proof fn law_connection_fields(
    name: Seq<char>,
    uuid: Seq<char>,
    kind: Seq<char>,
    device: Seq<char>,
    state: Seq<char>,
    active: Seq<char>,
)
    requires
        !name.contains(':'),
        !uuid.contains(':'),
        !kind.contains(':'),
        !device.contains(':'),
        !state.contains(':'),
    ensures
        connection_line(
            name + seq![':'] + uuid + seq![':'] + kind + seq![':'] + device + seq![':'] + state
                + seq![':'] + active,
        ) == Some((name, uuid, kind, device, trim(active) == "yes"@, state)),
{
    let c = seq![':'];
    let r4 = state + c + active;
    let r3 = device + c + r4;
    let r2 = kind + c + r3;
    let r1 = uuid + c + r2;
    let line = name + c + uuid + c + kind + c + device + c + state + c + active;
    assert(line =~= name + c + r1);
    lemma_splitn_first_field(name, r1, 6, ':');
    lemma_splitn_first_field(uuid, r2, 5, ':');
    lemma_splitn_first_field(kind, r3, 4, ':');
    lemma_splitn_first_field(device, r4, 3, ':');
    lemma_splitn_first_field(state, active, 2, ':');
    assert(splitn(active, 1, ':') == seq![active]);
    let p = splitn(line, 6, ':');
    assert(p =~= seq![name, uuid, kind, device, state, active]);
}

} // verus!
