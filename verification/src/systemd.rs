//! systemd units as `systemctl list-units --plain --no-legend` lists them, and
//! the unit actions that the settings panel offers.

use crate::order::{apply_order, is_stable_desc_order, stable_order_desc};
use crate::text::{
    decimal, decimal_string,
    char_views, chars_eq_str, chars_of, join, join_strings, lines, lines_of, rsplit_once,
    rsplit_once_chars, string_of, strings_of, trim, trim_chars, views, words, split_whitespace,
};
use vstd::prelude::*;

verus! {

#[derive(Debug, Clone)]
pub struct SystemdUnit {
    pub name: String,
    pub load_state: String,
    pub active_state: String,
    pub sub_state: String,
    pub description: String,
    pub unit_type: String,
    pub enabled: Option<bool>,
}

pub type UnitView = (Seq<char>, Seq<char>, Seq<char>, Seq<char>, Seq<char>, Seq<char>);

/// Name, load, active and sub state, description, type.
pub open spec fn unit_view(u: SystemdUnit) -> UnitView {
    (u.name@, u.load_state@, u.active_state@, u.sub_state@, u.description@, u.unit_type@)
}

/// The type of a unit: the part of its name after the last dot.
pub open spec fn unit_type_of(name: Seq<char>) -> Seq<char> {
    match rsplit_once(name, '.') {
        Some((_, t)) => t,
        None => name,
    }
}

/// A line of at least five words: name, load, active and sub state, and the
/// description made of the remaining words joined by single spaces.
pub open spec fn unit_line(line: Seq<char>) -> Option<UnitView> {
    let w = words(line);
    if w.len() < 5 {
        None
    } else {
        Some((w[0], w[1], w[2], w[3], join(w.skip(4), " "@), unit_type_of(w[0])))
    }
}

pub open spec fn units_of(ls: Seq<Seq<char>>) -> Seq<UnitView>
    decreases ls.len(),
{
    if ls.len() == 0 {
        Seq::empty()
    } else {
        let rest = units_of(ls.drop_last());
        if trim(ls.last()).len() == 0 {
            rest
        } else {
            match unit_line(ls.last()) {
                Some(u) => rest.push(u),
                None => rest,
            }
        }
    }
}

/// The rank by which units are listed, highest first: failed, active,
/// activating, then the rest.
pub open spec fn state_rank(state: Seq<char>) -> i64 {
    if state == "failed"@ {
        3
    } else if state == "active"@ {
        2
    } else if state == "activating"@ {
        1
    } else {
        0
    }
}

fn rank_of(state: &str) -> (r: i64)
    ensures
        r == state_rank(state@),
{
    let s = chars_of(state);
    if chars_eq_str(s.as_slice(), "failed") {
        3
    } else if chars_eq_str(s.as_slice(), "active") {
        2
    } else if chars_eq_str(s.as_slice(), "activating") {
        1
    } else {
        0
    }
}

fn parse_unit_line(line: &[char]) -> (r: Option<SystemdUnit>)
    ensures
        match r {
            Some(u) => unit_line(line@) == Some(unit_view(u)) && u.enabled is None,
            None => unit_line(line@) is None,
        },
{
    let w = split_whitespace(line);
    proof {
        assert(char_views(w@) =~= words(line@));
    }
    if w.len() < 5 {
        return None;
    }
    let mut tail: Vec<Vec<char>> = Vec::new();
    let mut i: usize = 4;
    while i < w.len()
        invariant
            4 <= i <= w@.len(),
            char_views(tail@) == char_views(w@).subrange(4, i as int),
        decreases w@.len() - i,
    {
        let piece = crate::text::sub_vec(w[i].as_slice(), 0, w[i].len());
        let ghost before = tail@;
        proof {
            assert(piece@ =~= w@[i as int]@);
        }
        tail.push(piece);
        proof {
            assert(char_views(tail@) =~= char_views(before).push(w@[i as int]@));
            assert(char_views(w@).subrange(4, i + 1) =~= char_views(w@).subrange(4, i as int).push(w@[i as int]@));
        }
        i = i + 1;
    }
    proof {
        assert(char_views(w@).subrange(4, w@.len() as int) =~= char_views(w@).skip(4));
    }
    let tail_strings = strings_of(&tail);
    let description = join_strings(&tail_strings, " ");
    let unit_type = match rsplit_once_chars(w[0].as_slice(), '.') {
        Some((_, t)) => string_of(t.as_slice()),
        None => string_of(w[0].as_slice()),
    };
    Some(
        SystemdUnit {
            name: string_of(w[0].as_slice()),
            load_state: string_of(w[1].as_slice()),
            active_state: string_of(w[2].as_slice()),
            sub_state: string_of(w[3].as_slice()),
            description,
            unit_type,
            enabled: None,
        },
    )
}

/// `r` lists `units` sorted by state priority, ties in order.
pub open spec fn units_answer(units: Seq<UnitView>, perm: Seq<usize>, r: Seq<SystemdUnit>) -> bool {
    &&& is_stable_desc_order(units.map_values(|u: UnitView| state_rank(u.2)), perm)
    &&& r.map_values(|u: SystemdUnit| unit_view(u)) == perm.map_values(|i: usize| units[i as int])
    &&& forall|k: int| 0 <= k < r.len() ==> (#[trigger] r[k]).enabled is None
}

/// Read the units from `systemctl list-units --all --plain --no-legend`:
/// failed units first, then active, activating and the rest.
pub fn parse_units(output: &str) -> (r: Vec<SystemdUnit>)
    ensures
        exists|perm: Seq<usize>| #[trigger] units_answer(units_of(lines_of(output@)), perm, r@),
{
    let text = chars_of(output);
    let ls = lines(text.as_slice());
    let ghost all = lines_of(output@);
    let mut units: Vec<SystemdUnit> = Vec::new();
    let mut i: usize = 0;
    while i < ls.len()
        invariant
            text@ == output@,
            all == lines_of(output@),
            ls@.len() == all.len(),
            forall|k: int| 0 <= k < ls@.len() ==> #[trigger] ls@[k]@ == all[k],
            i <= ls@.len(),
            units@.map_values(|u: SystemdUnit| unit_view(u)) == units_of(all.take(i as int)),
            forall|k: int| 0 <= k < units@.len() ==> (#[trigger] units@[k]).enabled is None,
        decreases ls@.len() - i,
    {
        proof {
            assert(all.take(i + 1).drop_last() =~= all.take(i as int));
            assert(all.take(i + 1).last() == all[i as int]);
        }
        let t = trim_chars(ls[i].as_slice());
        if t.len() > 0 {
            match parse_unit_line(ls[i].as_slice()) {
                Some(u) => {
                    let ghost before = units@;
                    units.push(u);
                    proof {
                        assert(units@.map_values(|u: SystemdUnit| unit_view(u)) =~= before.map_values(
                            |u: SystemdUnit| unit_view(u),
                        ).push(unit_view(u)));
                    }
                },
                None => {},
            }
        }
        i = i + 1;
    }
    proof {
        assert(all.take(ls@.len() as int) =~= all);
    }
    let ghost listed = units@.map_values(|u: SystemdUnit| unit_view(u));
    let mut scores: Vec<i64> = Vec::new();
    let mut j: usize = 0;
    while j < units.len()
        invariant
            j <= units@.len(),
            listed == units@.map_values(|u: SystemdUnit| unit_view(u)),
            scores@ == listed.take(j as int).map_values(|u: UnitView| state_rank(u.2)),
        decreases units@.len() - j,
    {
        let p = rank_of(units[j].active_state.as_str());
        scores.push(p);
        proof {
            assert(listed.take(j + 1).map_values(|u: UnitView| state_rank(u.2)) =~= listed.take(j as int).map_values(|u: UnitView| state_rank(u.2)).push(state_rank(listed[j as int].2)));
        }
        j = j + 1;
    }
    proof {
        assert(listed.take(listed.len() as int) =~= listed);
    }
    let perm = stable_order_desc(&scores);
    let ghost units_v = units@;
    let out = apply_order(units, &perm);
    proof {
        assert forall|q: int| 0 <= q < out@.len() implies (#[trigger] out@[q]).enabled is None by {
            assert(out@[q] == units_v[perm@[q] as int]);
        }
        assert(out@.map_values(|u: SystemdUnit| unit_view(u)) =~= perm@.map_values(|i: usize| listed[i as int]));
        assert(units_answer(units_of(lines_of(output@)), perm@, out@));
    }
    out
}

/// Whether `action` is one that the panel may ask of a unit.
pub open spec fn allowed_unit_action(action: Seq<char>) -> bool {
    ||| action == "start"@
    ||| action == "stop"@
    ||| action == "restart"@
    ||| action == "reload"@
    ||| action == "enable"@
    ||| action == "disable"@
    ||| action == "mask"@
    ||| action == "unmask"@
}

/// Refuse an action that is not allowed, with the message `Invalid action: <action>`.
pub fn check_unit_action(action: &str) -> (r: Result<(), String>)
    ensures
        r is Ok <==> allowed_unit_action(action@),
        r matches Err(m) ==> m@ == "Invalid action: "@ + action@,
{
    let a = chars_of(action);
    let a = a.as_slice();
    if chars_eq_str(a, "start") || chars_eq_str(a, "stop") || chars_eq_str(a, "restart")
        || chars_eq_str(a, "reload") || chars_eq_str(a, "enable") || chars_eq_str(a, "disable")
        || chars_eq_str(a, "mask") || chars_eq_str(a, "unmask") {
        Ok(())
    } else {
        let mut m = String::from_str("Invalid action: ");
        m.append(action);
        Err(m)
    }
}

/// The answer to a unit action: `<action> <unit>: OK` on success, else
/// `<action> failed`, followed by `: <error>` where the tool printed one.
pub fn unit_action_outcome(action: &str, unit: &str, success: bool, stderr: &str) -> (r: Result<String, String>)
    ensures
        success ==> (r matches Ok(m) && m@ == action@ + " "@ + unit@ + ": OK"@),
        !success ==> (r matches Err(m) && m@ == if trim(stderr@).len() == 0 {
            action@ + " failed"@
        } else {
            action@ + " failed: "@ + trim(stderr@)
        }),
{
    if success {
        let mut m = String::from_str(action);
        m.append(" ");
        m.append(unit);
        m.append(": OK");
        Ok(m)
    } else {
        let e = trim_chars(chars_of(stderr).as_slice());
        let mut m = String::from_str(action);
        if e.len() == 0 {
            m.append(" failed");
        } else {
            m.append(" failed: ");
            m.append(string_of(e.as_slice()).as_str());
        }
        Err(m)
    }
}

/// How many journal lines to show: the number asked for, 50 by default, at
/// most 500.
pub fn log_line_count(lines: Option<u32>) -> (r: u32)
    ensures
        r == match lines {
            Some(n) => if n <= 500 {
                n
            } else {
                500
            },
            None => 50,
        },
{
    let n = match lines {
        Some(n) => n,
        None => 50,
    };
    if n <= 500 {
        n
    } else {
        500
    }
}

/// The arguments of `systemctl` that list the units, user units with
/// `--user` first, narrowed to a type where one is given.
pub fn list_units_args(user_units: bool, unit_type_filter: Option<String>) -> (r: Vec<String>)
    ensures
        views(r@) == (if user_units {
            seq!["--user"@]
        } else {
            Seq::empty()
        }) + seq!["list-units"@, "--all"@, "--plain"@, "--no-legend"@, "--no-pager"@] + match unit_type_filter {
            Some(t) => seq!["--type="@ + t@],
            None => Seq::empty(),
        },
{
    let mut r: Vec<String> = Vec::new();
    if user_units {
        r.push(String::from_str("--user"));
    }
    let ghost head = views(r@);
    r.push(String::from_str("list-units"));
    r.push(String::from_str("--all"));
    r.push(String::from_str("--plain"));
    r.push(String::from_str("--no-legend"));
    r.push(String::from_str("--no-pager"));
    let ghost mid = views(r@);
    match unit_type_filter {
        Some(t) => {
            let mut a = String::from_str("--type=");
            a.append(t.as_str());
            r.push(a);
        },
        None => {},
    }
    proof {
        assert(mid =~= head + seq!["list-units"@, "--all"@, "--plain"@, "--no-legend"@, "--no-pager"@]);
        assert(views(r@) =~= mid + match unit_type_filter {
            Some(t) => seq!["--type="@ + t@],
            None => Seq::empty(),
        });
    }
    r
}

/// The program and arguments that apply an action to a unit: system units
/// through `pkexec systemctl`, user units through `systemctl --user`.
pub fn unit_action_command(unit: &str, action: &str, user_units: bool) -> (r: (String, Vec<String>))
    ensures
        !user_units ==> r.0@ == "pkexec"@ && views(r.1@) == seq!["systemctl"@, action@, unit@],
        user_units ==> r.0@ == "systemctl"@ && views(r.1@) == seq!["--user"@, action@, unit@],
{
    let mut args: Vec<String> = Vec::new();
    let program = if user_units {
        args.push(String::from_str("--user"));
        String::from_str("systemctl")
    } else {
        args.push(String::from_str("systemctl"));
        String::from_str("pkexec")
    };
    args.push(String::from_str(action));
    args.push(String::from_str(unit));
    proof {
        if user_units {
            assert(views(args@) =~= seq!["--user"@, action@, unit@]);
        } else {
            assert(views(args@) =~= seq!["systemctl"@, action@, unit@]);
        }
    }
    (program, args)
}

/// The arguments of `journalctl` that show a unit's last log lines.
pub fn unit_logs_args(unit: &str, lines: Option<u32>) -> (r: Vec<String>)
    ensures
        views(r@) == seq![
            "-u"@,
            unit@,
            "-n"@,
            decimal(
                (match lines {
                    Some(n) => if n <= 500 {
                        n
                    } else {
                        500
                    },
                    None => 50,
                }) as nat,
            ),
            "--no-pager"@,
            "--output=short-iso"@,
        ],
{
    let count = log_line_count(lines);
    let mut r: Vec<String> = Vec::new();
    r.push(String::from_str("-u"));
    r.push(String::from_str(unit));
    r.push(String::from_str("-n"));
    r.push(decimal_string(count as u64));
    r.push(String::from_str("--no-pager"));
    r.push(String::from_str("--output=short-iso"));
    proof {
        assert(views(r@) =~= seq!["-u"@, unit@, "-n"@, decimal(count as nat), "--no-pager"@, "--output=short-iso"@]);
    }
    r
}

/// The arguments of `systemctl` that describe a unit's status.
pub fn unit_status_args(unit: &str, user_units: bool) -> (r: Vec<String>)
    ensures
        views(r@) == (if user_units {
            seq!["--user"@]
        } else {
            Seq::empty()
        }) + seq!["status"@, "--no-pager"@, "-l"@, unit@],
{
    let mut r: Vec<String> = Vec::new();
    if user_units {
        r.push(String::from_str("--user"));
    }
    let ghost head = views(r@);
    r.push(String::from_str("status"));
    r.push(String::from_str("--no-pager"));
    r.push(String::from_str("-l"));
    r.push(String::from_str(unit));
    proof {
        assert(views(r@) =~= head + seq!["status"@, "--no-pager"@, "-l"@, unit@]);
        if user_units {
            assert(head =~= seq!["--user"@]);
        } else {
            assert(head =~= Seq::<Seq<char>>::empty());
        }
    }
    r
}

} // verus!
