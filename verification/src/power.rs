//! Power management: the idle timeouts that `swayidle` enforces, and the
//! battery as `upower` describes it.

use crate::text::{
    chars_of, decimal, decimal_string, has_prefix, lines, lines_of, split_char, split_chars,
    starts_with, string_of, sub_vec, trim, trim_chars, views,
};
use vstd::prelude::*;

verus! {

#[derive(Debug, Clone)]
pub struct PowerSettings {
    /// Seconds until the screen turns off (0: never).
    pub screen_timeout: u64,
    /// Seconds until the system suspends (0: never).
    pub suspend_timeout: u64,
    /// Whether the system suspends at all.
    pub suspend_enabled: bool,
}

impl Default for PowerSettings {
    fn default() -> (s: Self)
        ensures
            s.screen_timeout == 300,
            s.suspend_timeout == 600,
            s.suspend_enabled,
    {
        PowerSettings { screen_timeout: 300, suspend_timeout: 600, suspend_enabled: true }
    }
}

/// The arguments of `swayidle`: the screen goes off after its timeout and
/// comes back on resume, the system suspends after its timeout where that is
/// enabled. Nothing to start where neither applies.
pub open spec fn swayidle_args_of(s: PowerSettings) -> Option<Seq<Seq<char>>> {
    if !s.suspend_enabled && s.screen_timeout == 0 {
        None
    } else {
        let screen = if s.screen_timeout > 0 {
            seq![
                "timeout"@,
                decimal(s.screen_timeout as nat),
                "hyprctl dispatch dpms off"@,
                "resume"@,
                "hyprctl dispatch dpms on"@,
            ]
        } else {
            Seq::empty()
        };
        let suspend = if s.suspend_enabled && s.suspend_timeout > 0 {
            seq!["timeout"@, decimal(s.suspend_timeout as nat), "systemctl suspend"@]
        } else {
            Seq::empty()
        };
        Some(seq!["-w"@] + screen + suspend)
    }
}

pub fn swayidle_args(settings: &PowerSettings) -> (r: Option<Vec<String>>)
    ensures
        match r {
            Some(v) => swayidle_args_of(*settings) == Some(views(v@)),
            None => swayidle_args_of(*settings) is None,
        },
{
    if !settings.suspend_enabled && settings.screen_timeout == 0 {
        return None;
    }
    let mut args: Vec<String> = Vec::new();
    args.push(String::from_str("-w"));
    let ghost head = views(args@);
    if settings.screen_timeout > 0 {
        args.push(String::from_str("timeout"));
        args.push(decimal_string(settings.screen_timeout));
        args.push(String::from_str("hyprctl dispatch dpms off"));
        args.push(String::from_str("resume"));
        args.push(String::from_str("hyprctl dispatch dpms on"));
    }
    let ghost mid = views(args@);
    if settings.suspend_enabled && settings.suspend_timeout > 0 {
        args.push(String::from_str("timeout"));
        args.push(decimal_string(settings.suspend_timeout));
        args.push(String::from_str("systemctl suspend"));
    }
    proof {
        let s = *settings;
        let screen = if s.screen_timeout > 0 {
            seq![
                "timeout"@,
                decimal(s.screen_timeout as nat),
                "hyprctl dispatch dpms off"@,
                "resume"@,
                "hyprctl dispatch dpms on"@,
            ]
        } else {
            Seq::empty()
        };
        let suspend = if s.suspend_enabled && s.suspend_timeout > 0 {
            seq!["timeout"@, decimal(s.suspend_timeout as nat), "systemctl suspend"@]
        } else {
            Seq::empty()
        };
        assert(head =~= seq!["-w"@]);
        assert(mid =~= seq!["-w"@] + screen);
        assert(views(args@) =~= seq!["-w"@] + screen + suspend);
    }
    Some(args)
}

/// What `upower -i` says of a battery; the percentage as the text of its
/// number.
#[derive(Debug, Clone)]
pub struct UpowerBattery {
    pub percentage: Option<String>,
    pub state: Option<String>,
    pub time_to_empty: Option<String>,
    pub time_to_full: Option<String>,
}

/// The value of a `key: value` line: the trimmed text between its first and
/// second `:`.
pub open spec fn field_value(line: Seq<char>) -> Option<Seq<char>> {
    let p = split_char(line, ':');
    if p.len() > 1 {
        Some(trim(p[1]))
    } else {
        None
    }
}

/// `s` without every `%` at its end.
pub open spec fn without_percent_signs(s: Seq<char>) -> Seq<char>
    decreases s.len(),
{
    if s.len() > 0 && s.last() == '%' {
        without_percent_signs(s.drop_last())
    } else {
        s
    }
}

/// The fields after reading `ls`; the last line of each kind decides it.
pub open spec fn upower_fields(ls: Seq<Seq<char>>) -> (Option<Seq<char>>, Option<Seq<char>>, Option<Seq<char>>, Option<Seq<char>>)
    decreases ls.len(),
{
    if ls.len() == 0 {
        (None, None, None, None)
    } else {
        let (p, s, e, f) = upower_fields(ls.drop_last());
        let l = trim(ls.last());
        if starts_with(l, "percentage:"@) {
            (
                match field_value(l) {
                    Some(v) => Some(without_percent_signs(v)),
                    None => None,
                },
                s,
                e,
                f,
            )
        } else if starts_with(l, "state:"@) {
            (p, field_value(l), e, f)
        } else if starts_with(l, "time to empty:"@) {
            (p, s, field_value(l), f)
        } else if starts_with(l, "time to full:"@) {
            (p, s, e, field_value(l))
        } else {
            (p, s, e, f)
        }
    }
}

pub open spec fn opt_view(o: Option<String>) -> Option<Seq<char>> {
    match o {
        Some(s) => Some(s@),
        None => None,
    }
}

fn field_value_of(line: &[char]) -> (r: Option<String>)
    ensures
        opt_view(r) == field_value(line@),
{
    let p = split_chars(line, ':');
    if p.len() > 1 {
        Some(string_of(trim_chars(p[1].as_slice()).as_slice()))
    } else {
        None
    }
}

fn strip_percent_signs(s: &[char]) -> (r: String)
    ensures
        r@ == without_percent_signs(s@),
{
    let mut n = s.len();
    proof {
        assert(s@.take(s@.len() as int) =~= s@);
    }
    while n > 0 && s[n - 1] == '%'
        invariant
            n <= s@.len(),
            without_percent_signs(s@.take(n as int)) == without_percent_signs(s@),
        decreases n,
    {
        proof {
            assert(s@.take(n as int).drop_last() =~= s@.take(n - 1));
        }
        n = n - 1;
    }
    let body = sub_vec(s, 0, n);
    proof {
        assert(body@ =~= s@.take(n as int));
    }
    string_of(body.as_slice())
}

/// The battery fields of what `upower -i <battery>` printed.
pub fn upower_battery(text: &str) -> (r: UpowerBattery)
    ensures
        upower_fields(lines_of(text@)) == (
            opt_view(r.percentage),
            opt_view(r.state),
            opt_view(r.time_to_empty),
            opt_view(r.time_to_full),
        ),
{
    let cs = chars_of(text);
    let ls = lines(cs.as_slice());
    let ghost all = lines_of(text@);
    let mut r = UpowerBattery { percentage: None, state: None, time_to_empty: None, time_to_full: None };
    let mut i: usize = 0;
    while i < ls.len()
        invariant
            all == lines_of(text@),
            ls@.len() == all.len(),
            forall|k: int| 0 <= k < ls@.len() ==> #[trigger] ls@[k]@ == all[k],
            i <= ls@.len(),
            upower_fields(all.take(i as int)) == (
                opt_view(r.percentage),
                opt_view(r.state),
                opt_view(r.time_to_empty),
                opt_view(r.time_to_full),
            ),
        decreases ls@.len() - i,
    {
        proof {
            assert(all.take(i + 1).drop_last() =~= all.take(i as int));
            assert(all.take(i + 1).last() == all[i as int]);
        }
        let l = trim_chars(ls[i].as_slice());
        if has_prefix(l.as_slice(), "percentage:") {
            r.percentage = match field_value_of(l.as_slice()) {
                Some(v) => Some(strip_percent_signs(chars_of(v.as_str()).as_slice())),
                None => None,
            };
        } else if has_prefix(l.as_slice(), "state:") {
            r.state = field_value_of(l.as_slice());
        } else if has_prefix(l.as_slice(), "time to empty:") {
            r.time_to_empty = field_value_of(l.as_slice());
        } else if has_prefix(l.as_slice(), "time to full:") {
            r.time_to_full = field_value_of(l.as_slice());
        }
        i = i + 1;
    }
    proof {
        assert(all.take(ls@.len() as int) =~= all);
    }
    r
}

} // verus!
