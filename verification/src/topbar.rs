//! The top bar's three texts: host and workspace, the name of the desktop,
//! and the network indicator with the date and time.

use crate::text::{decimal, decimal_string, trim};
use vstd::prelude::*;

verus! {

/// What the top bar shows.
#[derive(Clone, Debug)]
pub struct TopBarState {
    pub hostname: String,
    pub active_tab: usize,
    pub date: String,
    pub clock: String,
    pub vpn_active: bool,
    pub tor_active: bool,
    pub tailscale_active: bool,
}

pub struct TopBarText {
    pub left: String,
    pub center: String,
    pub right: String,
}

/// The workspace number shown: one more than the active tab, at most the
/// largest `usize`.
pub open spec fn workspace_number(active_tab: usize) -> nat {
    if active_tab < usize::MAX {
        (active_tab + 1) as nat
    } else {
        usize::MAX as nat
    }
}

/// The top bar: `<host> | ws:<n>`, `eDEX-DE`, and a filled circle where a
/// VPN, Tor or Tailscale is active (else an empty one) before the date and time.
pub fn compose(state: &TopBarState) -> (r: TopBarText)
    ensures
        r.left@ == state.hostname@ + " | ws:"@ + decimal(workspace_number(state.active_tab)),
        r.center@ == "eDEX-DE"@,
        r.right@ == (if state.vpn_active || state.tor_active || state.tailscale_active {
            "◉"@
        } else {
            "○"@
        }) + " "@ + state.date@ + " "@ + state.clock@,
{
    let workspace = state.active_tab.saturating_add(1);
    let mut left = String::from_str(state.hostname.as_str());
    left.append(" | ws:");
    left.append(decimal_string(workspace as u64).as_str());
    let icon = if state.vpn_active || state.tor_active || state.tailscale_active {
        "◉"
    } else {
        "○"
    };
    let mut right = String::from_str(icon);
    right.append(" ");
    right.append(state.date.as_str());
    right.append(" ");
    right.append(state.clock.as_str());
    TopBarText { left, center: String::from_str("eDEX-DE"), right }
}

/// The host name shown: the trimmed `/etc/hostname` where it is not empty,
/// else `$HOSTNAME`, else `edex-host`.
pub fn hostname_of(file: Option<String>, env: Option<String>) -> (r: String)
    ensures
        r@ == match file {
            Some(f) if trim(f@).len() > 0 => trim(f@),
            _ => match env {
                Some(h) => h@,
                None => "edex-host"@,
            },
        },
{
    match file {
        Some(f) => {
            let t = crate::text::trim_chars(crate::text::chars_of(f.as_str()).as_slice());
            if t.len() > 0 {
                return crate::text::string_of(t.as_slice());
            }
        },
        None => {},
    }
    match env {
        Some(h) => h,
        None => String::from_str("edex-host"),
    }
}

} // verus!
