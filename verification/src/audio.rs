//! Audio output as PulseAudio's `pactl` and PipeWire's `wpctl` report it: the
//! sinks, the master volume and the mute state.

use crate::text::{
    chars_of, contains_seq, contains_str, decimal, decimal_string, ends_with, has_suffix,
    parse_u32, parse_u32_spec, split_char, split_chars, string_of, sub_vec, to_lowercase, trim,
    trim_chars, unicode_lowercase,
};
use vstd::prelude::*;

verus! {

#[derive(Debug, Clone)]
pub struct AudioSink {
    pub index: u32,
    pub name: String,
    pub description: String,
    pub volume_percent: u32,
    pub muted: bool,
    pub is_default: bool,
}

/// The answer of a `pactl` call: its trimmed output when it succeeded, else
/// its trimmed error output, or `pactl command failed` where that is empty.
pub fn pactl_outcome(success: bool, stdout: &str, stderr: &str) -> (r: Result<String, String>)
    ensures
        success ==> (r matches Ok(s) && s@ == trim(stdout@)),
        !success ==> (r matches Err(e) && e@ == if trim(stderr@).len() == 0 {
            "pactl command failed"@
        } else {
            trim(stderr@)
        }),
{
    if success {
        Ok(string_of(trim_chars(chars_of(stdout).as_slice()).as_slice()))
    } else {
        let e = trim_chars(chars_of(stderr).as_slice());
        if e.len() == 0 {
            Err(String::from_str("pactl command failed"))
        } else {
            Err(string_of(e.as_slice()))
        }
    }
}

/// `s` without every `c` at its end.
pub open spec fn trim_end_char(s: Seq<char>, c: char) -> Seq<char>
    decreases s.len(),
{
    if s.len() > 0 && s.last() == c {
        trim_end_char(s.drop_last(), c)
    } else {
        s
    }
}

/// A percentage such as `75%`: trimmed, without its trailing `%` signs, read
/// as a `u32`.
pub open spec fn percent_of(token: Seq<char>) -> Option<u32> {
    parse_u32_spec(trim_end_char(trim(token), '%'))
}

pub fn parse_percent_token(token: &str) -> (r: Option<u32>)
    ensures
        r == percent_of(token@),
{
    let t = trim_chars(chars_of(token).as_slice());
    let mut n = t.len();
    proof {
        assert(t@.take(t@.len() as int) =~= t@);
    }
    while n > 0 && t[n - 1] == '%'
        invariant
            n <= t@.len(),
            trim_end_char(t@.take(n as int), '%') == trim_end_char(t@, '%'),
        decreases n,
    {
        proof {
            assert(t@.take(n as int).drop_last() =~= t@.take(n - 1));
        }
        n = n - 1;
    }
    proof {
        assert(t@.take(t@.len() as int) =~= t@);
    }
    let body = sub_vec(t.as_slice(), 0, n);
    proof {
        assert(body@ =~= t@.take(n as int));
    }
    parse_u32(body.as_slice())
}

/// Whether `pactl get-sink-mute` said yes, in any case.
pub open spec fn says_muted(out: Seq<char>) -> bool {
    contains_seq(unicode_lowercase(out), "yes"@)
}

/// The mute state from the answer of `pactl get-sink-mute @DEFAULT_SINK@`.
pub fn get_current_mute_state(pactl: Result<String, String>) -> (r: Result<bool, String>)
    ensures
        match pactl {
            Ok(out) => r == Ok::<bool, String>(says_muted(out@)),
            Err(e) => r matches Err(e2) && e2@ == e@,
        },
{
    match pactl {
        Ok(out) => {
            let low = to_lowercase(out.as_str());
            Ok(contains_str(chars_of(low.as_str()).as_slice(), "yes"))
        },
        Err(e) => Err(e),
    }
}

/// Whether `wpctl get-volume` reports the sink muted.
pub fn wpctl_muted(stdout: &str) -> (r: bool)
    ensures
        r == contains_seq(stdout@, "[MUTED]"@),
{
    contains_str(chars_of(stdout).as_slice(), "[MUTED]")
}

/// The percentages that read as numbers, in order.
pub open spec fn percents(tokens: Seq<Seq<char>>) -> Seq<u32>
    decreases tokens.len(),
{
    if tokens.len() == 0 {
        Seq::empty()
    } else {
        let rest = percents(tokens.drop_last());
        match percent_of(tokens.last()) {
            Some(v) => rest.push(v),
            None => rest,
        }
    }
}

pub open spec fn total(s: Seq<u32>) -> nat
    decreases s.len(),
{
    if s.len() == 0 {
        0
    } else {
        total(s.drop_last()) + s.last() as nat
    }
}

/// A sink's volume: the mean of its channels' percentages, rounded down, or
/// 100 where none reads as a number.
pub open spec fn mean_volume(tokens: Seq<Seq<char>>) -> nat {
    let v = percents(tokens);
    if v.len() == 0 {
        100
    } else {
        total(v) / v.len()
    }
}

proof fn lemma_total_prefix(a: Seq<u32>, b: Seq<u32>)
    requires
        a.len() <= b.len(),
        a == b.take(a.len() as int),
    ensures
        total(a) <= total(b),
    decreases b.len() - a.len(),
{
    if a.len() < b.len() {
        let c = b.take(a.len() + 1int);
        assert(c.drop_last() =~= a);
        lemma_total_prefix(c, b);
        assert(c =~= b.take(c.len() as int));
    } else {
        assert(a =~= b);
    }
}

/// The volume of a sink from its channels' `value_percent` texts. The channels'
/// sum must fit in a `u32`, as it does for any real sink.
pub fn sink_volume(channel_percents: &Vec<String>) -> (r: u32)
    requires
        total(percents(channel_percents@.map_values(|s: String| s@))) <= u32::MAX,
        channel_percents@.len() <= u32::MAX,
    ensures
        r == mean_volume(channel_percents@.map_values(|s: String| s@)),
{
    let ghost toks = channel_percents@.map_values(|s: String| s@);
    let mut sum: u32 = 0;
    let mut count: u32 = 0;
    let mut i: usize = 0;
    while i < channel_percents.len()
        invariant
            i <= channel_percents@.len(),
            toks == channel_percents@.map_values(|s: String| s@),
            total(percents(toks)) <= u32::MAX,
            channel_percents@.len() <= u32::MAX,
            sum == total(percents(toks.take(i as int))),
            count == percents(toks.take(i as int)).len(),
            count <= i,
        decreases channel_percents@.len() - i,
    {
        proof {
            assert(toks.take(i + 1).drop_last() =~= toks.take(i as int));
            assert(toks.take(i + 1).last() == channel_percents@[i as int]@);
        }
        let pv = parse_percent_token(channel_percents[i].as_str());
        proof {
            let pre = toks.take(i as int);
            let nxt = toks.take(i + 1);
            assert(nxt.last() == toks[i as int]);
            assert(percent_of(nxt.last()) == pv);
            match pv {
                Some(v) => {
                    assert(percents(nxt) == percents(pre).push(v));
                    assert(percents(pre).push(v).drop_last() =~= percents(pre));
                    assert(total(percents(nxt)) == total(percents(pre)) + v);
                },
                None => {
                    assert(percents(nxt) == percents(pre));
                },
            }
        }
        match pv {
            Some(v) => {
                proof {
                    lemma_percents_prefix(toks, i + 1);
                    lemma_total_prefix(percents(toks.take(i + 1)), percents(toks));
                }
                sum = sum + v;
                count = count + 1;
            },
            None => {},
        }
        i = i + 1;
    }
    proof {
        assert(toks.take(channel_percents@.len() as int) =~= toks);
    }
    if count == 0 {
        100
    } else {
        sum / count
    }
}

proof fn lemma_percents_prefix(toks: Seq<Seq<char>>, n: int)
    requires
        0 <= n <= toks.len(),
    ensures
        percents(toks.take(n)).len() <= percents(toks).len(),
        percents(toks.take(n)) == percents(toks).take(percents(toks.take(n)).len() as int),
    decreases toks.len() - n,
{
    if n < toks.len() {
        lemma_percents_prefix(toks, n + 1);
        assert(toks.take(n + 1).drop_last() =~= toks.take(n));
        let a = percents(toks.take(n));
        let b = percents(toks.take(n + 1));
        let all = percents(toks);
        assert(b.len() <= all.len());
        assert(b == all.take(b.len() as int));
        assert(a =~= b.take(a.len() as int) || a =~= b);
        if a.len() < b.len() {
            assert(a =~= all.take(a.len() as int));
        } else {
            assert(a =~= all.take(a.len() as int));
        }
    } else {
        assert(toks.take(n) =~= toks);
        assert(percents(toks).take(percents(toks).len() as int) =~= percents(toks));
    }
}

/// A sink as `pactl --format=json list sinks` describes it: the fields that
/// were present, and the `value_percent` texts of its volume's channels
/// (`None` where the volume is not an object).
#[derive(Debug, Clone)]
pub struct RawSink {
    pub index: Option<u64>,
    pub name: Option<String>,
    pub description: Option<String>,
    pub mute: Option<bool>,
    pub volume: Option<Vec<String>>,
}

/// The volume of a described sink: its channels' mean, 100 without a volume.
pub open spec fn raw_volume(s: RawSink) -> nat {
    match s.volume {
        Some(v) => mean_volume(v@.map_values(|x: String| x@)),
        None => 100,
    }
}

pub open spec fn raw_volume_fits(s: RawSink) -> bool {
    match s.volume {
        Some(v) => total(percents(v@.map_values(|x: String| x@))) <= u32::MAX && v@.len() <= u32::MAX,
        None => true,
    }
}

/// `a` is the sink described by `s`: its description falls back to its name,
/// its mute flag to `false`; it is the default sink where its name is the
/// default sink's name.
pub open spec fn sink_matches(s: RawSink, a: AudioSink, default_sink: Seq<char>) -> bool {
    &&& a.index == s.index->0 as u32
    &&& a.name@ == s.name->0@
    &&& a.description@ == match s.description {
        Some(d) => d@,
        None => s.name->0@,
    }
    &&& a.muted == match s.mute {
        Some(b) => b,
        None => false,
    }
    &&& a.volume_percent == raw_volume(s)
    &&& a.is_default == (s.name->0@ == default_sink)
}

pub open spec fn is_listed_sink(s: RawSink) -> bool {
    s.index is Some && s.name is Some
}

/// The described sinks that have an index and a name, in order.
pub open spec fn listed_sinks(sinks: Seq<RawSink>) -> Seq<RawSink> {
    sinks.filter(|s: RawSink| is_listed_sink(s))
}

/// The sink of a description that has an index and a name.
pub fn sink_from_raw(s: RawSink, default_sink: &str) -> (r: Option<AudioSink>)
    requires
        raw_volume_fits(s),
    ensures
        !is_listed_sink(s) <==> r is None,
        r matches Some(a) ==> sink_matches(s, a, default_sink@),
{
    let ghost s0 = s;
    let index = match s.index {
        Some(i) => i,
        None => return None,
    };
    let name = match s.name {
        Some(n) => n,
        None => return None,
    };
    let volume_percent = match &s.volume {
        Some(v) => sink_volume(v),
        None => 100,
    };
    let description = match s.description {
        Some(d) => d,
        None => name.clone(),
    };
    let muted = match s.mute {
        Some(b) => b,
        None => false,
    };
    let is_default = crate::text::chars_eq(chars_of(name.as_str()).as_slice(), chars_of(default_sink).as_slice());
    Some(
        AudioSink {
            index: index as u32,
            name,
            description,
            volume_percent,
            muted,
            is_default,
        },
    )
}

/// The sinks among the described ones that have an index and a name, in order.
pub fn list_audio_sinks(sinks: Vec<RawSink>, default_sink: &str) -> (r: Vec<AudioSink>)
    requires
        forall|k: int| 0 <= k < sinks@.len() ==> raw_volume_fits(#[trigger] sinks@[k]),
    ensures
        r@.len() == listed_sinks(sinks@).len(),
        forall|k: int| 0 <= k < r@.len() ==> sink_matches(listed_sinks(sinks@)[k], #[trigger] r@[k], default_sink@),
{
    let ghost all = sinks@;
    let mut rest = sinks;
    let mut r: Vec<AudioSink> = Vec::new();
    let ghost mut i: int = 0;
    while rest.len() > 0
        invariant
            0 <= i <= all.len(),
            rest@ == all.skip(i),
            forall|k: int| 0 <= k < all.len() ==> raw_volume_fits(#[trigger] all[k]),
            r@.len() == listed_sinks(all.take(i)).len(),
            forall|k: int| 0 <= k < r@.len() ==> sink_matches(listed_sinks(all.take(i))[k], #[trigger] r@[k], default_sink@),
        decreases rest@.len(),
    {
        let s = rest.remove(0);
        proof {
            assert(s == all[i]);
            assert(rest@ =~= all.skip(i + 1));
            assert(all.take(i + 1).drop_last() =~= all.take(i));
            reveal_with_fuel(Seq::filter, 1);
        }
        let ghost before = r@;
        match sink_from_raw(s, default_sink) {
            Some(a) => {
                r.push(a);
            },
            None => {},
        }
        proof {
            let f = listed_sinks(all.take(i + 1));
            let g = listed_sinks(all.take(i));
            if is_listed_sink(all[i]) {
                assert(f =~= g.push(all[i]));
            } else {
                assert(f =~= g);
            }
            i = i + 1;
        }
    }
    proof {
        assert(all.take(i) =~= all);
    }
    r
}

/// The master volume from `pactl get-sink-volume`: the first `/`-separated
/// part that ends in `%` and reads as a percentage, else 100.
pub open spec fn pactl_volume(parts: Seq<Seq<char>>) -> u32
    decreases parts.len(),
{
    if parts.len() == 0 {
        100
    } else if ends_with(trim(parts[0]), "%"@) && percent_of(trim(parts[0])) is Some {
        percent_of(trim(parts[0]))->0
    } else {
        pactl_volume(parts.drop_first())
    }
}

pub fn volume_from_pactl(out: &str) -> (r: u32)
    ensures
        r == pactl_volume(split_char(out@, '/')),
{
    let parts = split_chars(chars_of(out).as_slice(), '/');
    let ghost ps = split_char(out@, '/');
    let mut i: usize = 0;
    proof {
        assert(ps.skip(0) =~= ps);
    }
    while i < parts.len()
        invariant
            i <= parts@.len(),
            parts@.len() == ps.len(),
            ps == split_char(out@, '/'),
            forall|k: int| 0 <= k < parts@.len() ==> #[trigger] parts@[k]@ == ps[k],
            pactl_volume(ps.skip(i as int)) == pactl_volume(ps),
        decreases parts@.len() - i,
    {
        proof {
            assert(ps.skip(i as int).drop_first() =~= ps.skip(i + 1));
            assert(ps.skip(i as int)[0] == ps[i as int]);
        }
        let t = trim_chars(parts[i].as_slice());
        if has_suffix(t.as_slice(), "%") {
            let s = string_of(t.as_slice());
            match parse_percent_token(s.as_str()) {
                Some(v) => {
                    proof {
                        assert(ps.skip(i as int).len() > 0);
                        assert(t@ == trim(ps[i as int]));
                        assert(pactl_volume(ps.skip(i as int)) == v);
                    }
                    return v;
                },
                None => {},
            }
        }
        i = i + 1;
    }
    proof {
        assert(ps.skip(ps.len() as int) =~= Seq::<Seq<char>>::empty());
    }
    100
}

/// The volume that may be set: at most 150 percent.
pub fn clamp_volume(percent: u32) -> (r: u32)
    ensures
        r == if percent <= 150 {
            percent
        } else {
            150
        },
{
    if percent <= 150 {
        percent
    } else {
        150
    }
}

/// The volume argument `<percent>%` for a requested percentage, clamped.
pub fn volume_arg(percent: u32) -> (r: String)
    ensures
        r@ == decimal(
            (if percent <= 150 {
                percent
            } else {
                150
            }) as nat,
        ) + "%"@,
{
    let p = clamp_volume(percent);
    let mut s = decimal_string(p as u64);
    s.append("%");
    s
}

} // verus!
