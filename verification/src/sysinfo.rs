//! The system information panel: memory, disks, the system overview and the
//! battery.

use crate::text::{chars_eq_str, chars_of, parse_u32, parse_u32_spec, trim, trim_chars};
use vstd::prelude::*;

verus! {

/// What the system information panel shows of a battery.
#[derive(Clone, Debug)]
pub struct BatteryInfo {
    pub has_battery: bool,
    pub percent: u32,
    pub is_charging: bool,
    pub ac_connected: bool,
}

/// Whether a power supply's `type` file names a battery.
pub fn is_battery_supply(type_text: &str) -> (r: bool)
    ensures
        r == (trim(type_text@) == "Battery"@),
{
    chars_eq_str(trim_chars(chars_of(type_text).as_slice()).as_slice(), "Battery")
}

/// A battery from its `capacity` and `status` files: the capacity 0 where it
/// does not read as a number, charging where the status says so, on mains
/// power where it is charging or full.
pub fn battery_info(capacity: Option<String>, status: Option<String>) -> (r: BatteryInfo)
    ensures
        r.has_battery,
        r.percent == match capacity {
            Some(c) => match parse_u32_spec(trim(c@)) {
                Some(v) => v,
                None => 0,
            },
            None => 0,
        },
        r.is_charging == match status {
            Some(s) => trim(s@) == "Charging"@,
            None => false,
        },
        r.ac_connected == match status {
            Some(s) => trim(s@) == "Charging"@ || trim(s@) == "Full"@,
            None => false,
        },
{
    let percent = match &capacity {
        Some(c) => match parse_u32(trim_chars(chars_of(c.as_str()).as_slice()).as_slice()) {
            Some(v) => v,
            None => 0,
        },
        None => 0,
    };
    let (is_charging, ac_connected) = match &status {
        Some(s) => {
            let st = trim_chars(chars_of(s.as_str()).as_slice());
            let charging = chars_eq_str(st.as_slice(), "Charging");
            (charging, chars_eq_str(st.as_slice(), "Full") || charging)
        },
        None => (false, false),
    };
    BatteryInfo { has_battery: true, percent, is_charging, ac_connected }
}

/// The memory figures of the system information panel, in bytes.
#[derive(Clone, Debug)]
pub struct RamInfo {
    pub total: u64,
    pub used: u64,
    pub available: u64,
    pub swap_total: u64,
    pub swap_used: u64,
}

#[derive(Clone, Debug)]
pub struct SystemOverview {
    pub os_name: String,
    pub os_version: String,
    pub hostname: String,
    pub uptime_secs: u64,
    pub boot_time: u64,
}

/// The overview, `Linux` where the system has no name to give, empty texts
/// where it has no version or host name.
pub fn system_overview(
    os_name: Option<String>,
    os_version: Option<String>,
    hostname: Option<String>,
    uptime_secs: u64,
    boot_time: u64,
) -> (r: SystemOverview)
    ensures
        r.os_name@ == match os_name {
            Some(n) => n@,
            None => "Linux"@,
        },
        r.os_version@ == match os_version {
            Some(v) => v@,
            None => Seq::empty(),
        },
        r.hostname@ == match hostname {
            Some(h) => h@,
            None => Seq::empty(),
        },
        r.uptime_secs == uptime_secs,
        r.boot_time == boot_time,
{
    SystemOverview {
        os_name: match os_name {
            Some(n) => n,
            None => String::from_str("Linux"),
        },
        os_version: match os_version {
            Some(v) => v,
            None => String::new(),
        },
        hostname: match hostname {
            Some(h) => h,
            None => String::new(),
        },
        uptime_secs,
        boot_time,
    }
}

/// A disk as the system information panel lists it.
#[derive(Clone, Debug)]
pub struct DiskInfo {
    pub name: String,
    pub mount_point: String,
    pub total_bytes: u64,
    pub available_bytes: u64,
    pub file_system: String,
}

} // verus!
