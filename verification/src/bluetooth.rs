//! Bluetooth devices as `bluetoothctl` lists and describes them.

use crate::text::{
    char_views, chars_eq, chars_eq_str, chars_of, has_prefix, lines, lines_of, split_whitespace,
    splitn, splitn_chars, starts_with, string_of, sub_vec, trim, trim_chars, words,
};
use vstd::prelude::*;

verus! {

#[derive(Debug, Clone)]
pub struct BluetoothDevice {
    pub address: String,
    pub name: String,
    pub paired: bool,
    pub connected: bool,
    pub device_type: String,
}

/// A line `Device <address> <name>`: its address and name.
pub open spec fn device_line(line: Seq<char>) -> Option<(Seq<char>, Seq<char>)> {
    let p = splitn(line, 3, ' ');
    if p.len() < 3 || p[0] != "Device"@ {
        None
    } else {
        Some((p[1], p[2]))
    }
}

/// The devices of a listing, in order.
pub open spec fn devices_of(ls: Seq<Seq<char>>) -> Seq<(Seq<char>, Seq<char>)>
    decreases ls.len(),
{
    if ls.len() == 0 {
        Seq::empty()
    } else {
        let rest = devices_of(ls.drop_last());
        match device_line(ls.last()) {
            Some(d) => rest.push(d),
            None => rest,
        }
    }
}

/// The second word of each line that has one: the addresses of a listing.
pub open spec fn addresses_of(ls: Seq<Seq<char>>) -> Seq<Seq<char>>
    decreases ls.len(),
{
    if ls.len() == 0 {
        Seq::empty()
    } else {
        let rest = addresses_of(ls.drop_last());
        if words(ls.last()).len() > 1 {
            rest.push(words(ls.last())[1])
        } else {
            rest
        }
    }
}

/// A device entry: its address and name.
#[derive(Debug, Clone)]
pub struct DeviceEntry {
    pub address: String,
    pub name: String,
}

pub open spec fn entry_view(e: DeviceEntry) -> (Seq<char>, Seq<char>) {
    (e.address@, e.name@)
}

/// The devices that a `bluetoothctl devices` listing names, in order.
pub fn device_entries(out: &str) -> (r: Vec<DeviceEntry>)
    ensures
        r@.map_values(|e: DeviceEntry| entry_view(e)) == devices_of(lines_of(out@)),
{
    let text = chars_of(out);
    let ls = lines(text.as_slice());
    let ghost all = lines_of(out@);
    let mut r: Vec<DeviceEntry> = Vec::new();
    let mut i: usize = 0;
    while i < ls.len()
        invariant
            text@ == out@,
            all == lines_of(out@),
            ls@.len() == all.len(),
            forall|k: int| 0 <= k < ls@.len() ==> #[trigger] ls@[k]@ == all[k],
            i <= ls@.len(),
            r@.map_values(|e: DeviceEntry| entry_view(e)) == devices_of(all.take(i as int)),
        decreases ls@.len() - i,
    {
        proof {
            assert(all.take(i + 1).drop_last() =~= all.take(i as int));
            assert(all.take(i + 1).last() == all[i as int]);
        }
        let p = splitn_chars(ls[i].as_slice(), 3, ' ');
        if p.len() >= 3 && chars_eq_str(p[0].as_slice(), "Device") {
            let e = DeviceEntry { address: string_of(p[1].as_slice()), name: string_of(p[2].as_slice()) };
            let ghost before = r@;
            r.push(e);
            proof {
                assert(r@.map_values(|e: DeviceEntry| entry_view(e)) =~= before.map_values(
                    |e: DeviceEntry| entry_view(e),
                ).push(entry_view(e)));
            }
        }
        i = i + 1;
    }
    proof {
        assert(all.take(ls@.len() as int) =~= all);
    }
    r
}

/// The addresses that a `bluetoothctl devices` listing names: the second word
/// of each line.
pub fn listed_addresses(out: &str) -> (r: Vec<Vec<char>>)
    ensures
        char_views(r@) == addresses_of(lines_of(out@)),
{
    let text = chars_of(out);
    let ls = lines(text.as_slice());
    let ghost all = lines_of(out@);
    let mut r: Vec<Vec<char>> = Vec::new();
    let mut i: usize = 0;
    while i < ls.len()
        invariant
            text@ == out@,
            all == lines_of(out@),
            ls@.len() == all.len(),
            forall|k: int| 0 <= k < ls@.len() ==> #[trigger] ls@[k]@ == all[k],
            i <= ls@.len(),
            char_views(r@) == addresses_of(all.take(i as int)),
        decreases ls@.len() - i,
    {
        proof {
            assert(all.take(i + 1).drop_last() =~= all.take(i as int));
            assert(all.take(i + 1).last() == all[i as int]);
        }
        let w = split_whitespace(ls[i].as_slice());
        if w.len() > 1 {
            let a = sub_vec(w[1].as_slice(), 0, w[1].len());
            proof {
                assert(a@ =~= w@[1]@);
            }
            let ghost before = r@;
            r.push(a);
            proof {
                assert(char_views(r@) =~= char_views(before).push(a@));
            }
        }
        i = i + 1;
    }
    proof {
        assert(all.take(ls@.len() as int) =~= all);
    }
    r
}

fn contains_address(addrs: &Vec<Vec<char>>, a: &[char]) -> (r: bool)
    ensures
        r == char_views(addrs@).contains(a@),
{
    let mut i: usize = 0;
    while i < addrs.len()
        invariant
            i <= addrs@.len(),
            forall|k: int| 0 <= k < i ==> #[trigger] addrs@[k]@ != a@,
        decreases addrs@.len() - i,
    {
        if chars_eq(addrs[i].as_slice(), a) {
            proof {
                assert(char_views(addrs@)[i as int] == a@);
            }
            return true;
        }
        i = i + 1;
    }
    proof {
        if char_views(addrs@).contains(a@) {
            let k = choose|k: int| 0 <= k < char_views(addrs@).len() && char_views(addrs@)[k] == a@;
            assert(addrs@[k]@ == a@);
        }
    }
    false
}

/// `s` without every `Icon:` at its start.
pub open spec fn strip_icon_prefix(s: Seq<char>) -> Seq<char>
    decreases s.len(),
{
    if starts_with(s, "Icon:"@) && "Icon:"@.len() > 0 {
        strip_icon_prefix(s.skip("Icon:"@.len() as int))
    } else {
        s
    }
}

/// The kind of device that an icon name stands for.
pub open spec fn icon_kind(icon: Seq<char>) -> Seq<char> {
    if icon == "audio-headset"@ || icon == "audio-headphones"@ {
        "headphones"@
    } else if icon == "input-keyboard"@ {
        "keyboard"@
    } else if icon == "input-mouse"@ {
        "mouse"@
    } else if icon == "phone"@ {
        "phone"@
    } else {
        icon
    }
}

/// The device type that `bluetoothctl info` shows: from the first line that
/// begins with `Icon:` once trimmed, else `device`.
pub open spec fn device_type_in(ls: Seq<Seq<char>>) -> Seq<char>
    decreases ls.len(),
{
    if ls.len() == 0 {
        "device"@
    } else if starts_with(trim(ls[0]), "Icon:"@) {
        icon_kind(trim(strip_icon_prefix(trim(ls[0]))))
    } else {
        device_type_in(ls.drop_first())
    }
}

fn icon_kind_of(icon: &[char]) -> (r: String)
    ensures
        r@ == icon_kind(icon@),
{
    proof {
        reveal_strlit("audio-headset");
        reveal_strlit("audio-headphones");
        reveal_strlit("input-keyboard");
        reveal_strlit("input-mouse");
        reveal_strlit("phone");
    }
    if chars_eq_str(icon, "audio-headset") || chars_eq_str(icon, "audio-headphones") {
        String::from_str("headphones")
    } else if chars_eq_str(icon, "input-keyboard") {
        String::from_str("keyboard")
    } else if chars_eq_str(icon, "input-mouse") {
        String::from_str("mouse")
    } else if chars_eq_str(icon, "phone") {
        String::from_str("phone")
    } else {
        string_of(icon)
    }
}

/// The type of a device from what `bluetoothctl info <address>` printed.
pub fn device_type_of(info: &str) -> (r: String)
    ensures
        r@ == device_type_in(lines_of(info@)),
{
    let text = chars_of(info);
    let ls = lines(text.as_slice());
    let ghost all = lines_of(info@);
    let mut i: usize = 0;
    proof {
        assert(all.skip(0) =~= all);
    }
    while i < ls.len()
        invariant
            text@ == info@,
            all == lines_of(info@),
            ls@.len() == all.len(),
            forall|k: int| 0 <= k < ls@.len() ==> #[trigger] ls@[k]@ == all[k],
            i <= ls@.len(),
            device_type_in(all.skip(i as int)) == device_type_in(all),
        decreases ls@.len() - i,
    {
        proof {
            assert(all.skip(i as int).drop_first() =~= all.skip(i + 1));
            assert(all.skip(i as int)[0] == all[i as int]);
            reveal_strlit("Icon:");
        }
        let l = trim_chars(ls[i].as_slice());
        if has_prefix(l.as_slice(), "Icon:") {
            let mut rest = l;
            while has_prefix(rest.as_slice(), "Icon:")
                invariant
                    strip_icon_prefix(rest@) == strip_icon_prefix(trim(all[i as int])),
                    "Icon:"@.len() == 5,
                decreases rest@.len(),
            {
                let ghost prev = rest@;
                rest = sub_vec(rest.as_slice(), 5, rest.len());
                proof {
                    assert(rest@ =~= prev.skip(5));
                }
            }
            let icon = trim_chars(rest.as_slice());
            return icon_kind_of(icon.as_slice());
        }
        i = i + 1;
    }
    proof {
        assert(all.skip(ls@.len() as int) =~= Seq::<Seq<char>>::empty());
    }
    String::from_str("device")
}

/// The devices of a listing, with their types from `infos` (one for each
/// entry, in order); `marks` lists the addresses that the second listing
/// names. From the paired listing a device is paired and connected where the
/// connected listing names it; from a scan it is paired where the paired
/// listing names it, and not connected.
fn make_devices(entries: &Vec<DeviceEntry>, marks: &Vec<Vec<char>>, infos: &Vec<String>, from_paired: bool) -> (r: Vec<BluetoothDevice>)
    requires
        infos@.len() == entries@.len(),
    ensures
        r@.len() == entries@.len(),
        forall|k: int| 0 <= k < r@.len() ==> {
            let d = #[trigger] r@[k];
            let listed = char_views(marks@).contains(entries@[k].address@);
            &&& d.address@ == entries@[k].address@
            &&& d.name@ == entries@[k].name@
            &&& d.paired == (from_paired || listed)
            &&& d.connected == (from_paired && listed)
            &&& d.device_type@ == device_type_in(lines_of(infos@[k]@))
        },
{
    let mut r: Vec<BluetoothDevice> = Vec::new();
    let mut i: usize = 0;
    while i < entries.len()
        invariant
            i <= entries@.len(),
            infos@.len() == entries@.len(),
            r@.len() == i,
            forall|k: int| 0 <= k < i ==> {
                let d = #[trigger] r@[k];
                let listed = char_views(marks@).contains(entries@[k].address@);
                &&& d.address@ == entries@[k].address@
                &&& d.name@ == entries@[k].name@
                &&& d.paired == (from_paired || listed)
                &&& d.connected == (from_paired && listed)
                &&& d.device_type@ == device_type_in(lines_of(infos@[k]@))
            },
        decreases entries@.len() - i,
    {
        let e = &entries[i];
        let a = chars_of(e.address.as_str());
        let listed = contains_address(marks, a.as_slice());
        let d = BluetoothDevice {
            address: string_of(a.as_slice()),
            name: string_of(chars_of(e.name.as_str()).as_slice()),
            paired: from_paired || listed,
            connected: from_paired && listed,
            device_type: device_type_of(infos[i].as_str()),
        };
        r.push(d);
        i = i + 1;
    }
    r
}

/// The paired devices, connected where `bluetoothctl devices Connected` names them.
pub fn bluetooth_list_devices(paired: &Vec<DeviceEntry>, connected_out: &str, infos: &Vec<String>) -> (r: Vec<BluetoothDevice>)
    requires
        infos@.len() == paired@.len(),
    ensures
        r@.len() == paired@.len(),
        forall|k: int| 0 <= k < r@.len() ==> {
            let d = #[trigger] r@[k];
            &&& d.address@ == paired@[k].address@
            &&& d.name@ == paired@[k].name@
            &&& d.paired
            &&& d.connected == addresses_of(lines_of(connected_out@)).contains(paired@[k].address@)
            &&& d.device_type@ == device_type_in(lines_of(infos@[k]@))
        },
{
    let marks = listed_addresses(connected_out);
    make_devices(paired, &marks, infos, true)
}

/// The devices a scan found, paired where `bluetoothctl devices Paired` names
/// them; none is connected.
pub fn bluetooth_scan_devices(found: &Vec<DeviceEntry>, paired_out: &str, infos: &Vec<String>) -> (r: Vec<BluetoothDevice>)
    requires
        infos@.len() == found@.len(),
    ensures
        r@.len() == found@.len(),
        forall|k: int| 0 <= k < r@.len() ==> {
            let d = #[trigger] r@[k];
            &&& d.address@ == found@[k].address@
            &&& d.name@ == found@[k].name@
            &&& d.paired == addresses_of(lines_of(paired_out@)).contains(found@[k].address@)
            &&& !d.connected
            &&& d.device_type@ == device_type_in(lines_of(infos@[k]@))
        },
{
    let marks = listed_addresses(paired_out);
    make_devices(found, &marks, infos, false)
}

} // verus!
