//! The status bar's text: privacy indicators, volume, battery and network rates.

use crate::text::{decimal, decimal_string, join, join_strings, views};
use vstd::prelude::*;

verus! {

/// What the status bar shows. The network rates arrive already written with
/// one decimal, in kilobytes per second.
#[derive(Clone, Debug)]
pub struct StatusInfo {
    pub volume: u32,
    pub battery_pct: Option<u8>,
    pub battery_charging: bool,
    pub tor_active: bool,
    pub tailscale_active: bool,
    pub vpn_active: bool,
    pub net_tx_kbps: String,
    pub net_rx_kbps: String,
}

/// The privacy indicators that are lit.
pub open spec fn privacy_icons(s: StatusInfo) -> Seq<Seq<char>> {
    let a: Seq<Seq<char>> = if s.tor_active {
        seq!["🧅"@]
    } else {
        Seq::empty()
    };
    let b: Seq<Seq<char>> = if s.tailscale_active {
        a.push("🔒"@)
    } else {
        a
    };
    if s.vpn_active {
        b.push("🔐"@)
    } else {
        b
    }
}

/// The parts of the status bar, left to right.
pub open spec fn status_parts(s: StatusInfo) -> Seq<Seq<char>> {
    let p = privacy_icons(s);
    let a: Seq<Seq<char>> = if p.len() > 0 {
        seq![join(p, " "@)]
    } else {
        Seq::empty()
    };
    let b = a.push("🔊 "@ + decimal(s.volume as nat) + "%"@);
    let c = match s.battery_pct {
        Some(pct) => b.push(
            (if s.battery_charging {
                "⚡"@
            } else {
                "🔋"@
            }) + " "@ + decimal(pct as nat) + "%"@,
        ),
        None => b,
    };
    c.push("▲ "@ + s.net_tx_kbps@ + " kb/s"@).push("▼ "@ + s.net_rx_kbps@ + " kb/s"@)
}

/// The status bar text: its parts with three spaces between each two.
pub fn compose(status: &StatusInfo) -> (r: String)
    ensures
        r@ == join(status_parts(*status), "   "@),
{
    let mut privacy: Vec<String> = Vec::new();
    if status.tor_active {
        privacy.push(String::from_str("🧅"));
    }
    if status.tailscale_active {
        privacy.push(String::from_str("🔒"));
    }
    if status.vpn_active {
        privacy.push(String::from_str("🔐"));
    }
    proof {
        assert(views(privacy@) =~= privacy_icons(*status));
    }
    let mut parts: Vec<String> = Vec::new();
    if privacy.len() > 0 {
        parts.push(join_strings(&privacy, " "));
    }
    let mut vol = String::from_str("🔊 ");
    vol.append(decimal_string(status.volume as u64).as_str());
    vol.append("%");
    parts.push(vol);
    match status.battery_pct {
        Some(pct) => {
            let mut b = if status.battery_charging {
                String::from_str("⚡")
            } else {
                String::from_str("🔋")
            };
            b.append(" ");
            b.append(decimal_string(pct as u64).as_str());
            b.append("%");
            parts.push(b);
        },
        None => {},
    }
    let mut tx = String::from_str("▲ ");
    tx.append(status.net_tx_kbps.as_str());
    tx.append(" kb/s");
    parts.push(tx);
    let mut rx = String::from_str("▼ ");
    rx.append(status.net_rx_kbps.as_str());
    rx.append(" kb/s");
    parts.push(rx);
    proof {
        assert(views(parts@) =~= status_parts(*status));
    }
    join_strings(&parts, "   ")
}

} // verus!
