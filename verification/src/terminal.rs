//! The terminal bridge: what a text message from the terminal view asks of
//! the pseudo-terminal, and the environment its shell starts with.

use vstd::prelude::*;
use vstd::utf8::{encode_utf8, is_char_boundary};

verus! {

/// What to do with a text message from the terminal view.
#[derive(Debug, Clone, PartialEq, Eq)]
pub enum PtyTextAction {
    /// Resize the terminal.
    Resize { cols: u16, rows: u16 },
    /// A resize request whose numbers do not read: nothing to do.
    Ignore,
    /// Type the text into the terminal.
    Write,
}

/// The bytes of `Resize`.
pub open spec fn resize_tag() -> Seq<u8> {
    seq![82u8, 101u8, 115u8, 105u8, 122u8, 101u8]
}

pub open spec fn is_digit_byte(b: u8) -> bool {
    48 <= b <= 57
}

/// The value of a run of ASCII digits.
pub open spec fn digits_value(b: Seq<u8>) -> nat
    decreases b.len(),
{
    if b.len() == 0 {
        0
    } else {
        digits_value(b.drop_last()) * 10 + (b.last() - 48) as nat
    }
}

/// `u16::from_str` on bytes: an optional `+`, then one or more digits, the
/// value at most 65535.
pub open spec fn unsigned_part(b: Seq<u8>) -> Seq<u8> {
    if b.len() > 0 && b[0] == 43 {
        b.drop_first()
    } else {
        b
    }
}

pub open spec fn all_digits(d: Seq<u8>) -> bool {
    forall|i: int| 0 <= i < d.len() ==> is_digit_byte(#[trigger] d[i])
}

pub open spec fn parse_u16_bytes(b: Seq<u8>) -> Option<u16> {
    let d = unsigned_part(b);
    if d.len() > 0 && all_digits(d) && digits_value(d) <= 65535 {
        Some(digits_value(d) as u16)
    } else {
        None
    }
}

/// A message is a resize request where it is twelve bytes that begin with
/// `Resize`; then bytes 6 to 9 give the columns and 9 to 12 the rows.
pub open spec fn pty_action_of(bytes: Seq<u8>) -> PtyTextAction {
    if bytes.len() == 12 && bytes.take(6) == resize_tag() {
        match (parse_u16_bytes(bytes.subrange(6, 9)), parse_u16_bytes(bytes.subrange(9, 12))) {
            (Some(cols), Some(rows)) => PtyTextAction::Resize { cols, rows },
            _ => PtyTextAction::Ignore,
        }
    } else {
        PtyTextAction::Write
    }
}

/// A resize request can be cut at byte 9.
pub open spec fn pty_text_cuttable(text: Seq<char>) -> bool {
    let b = encode_utf8(text);
    (b.len() == 12 && b.take(6) == resize_tag()) ==> is_char_boundary(b, 9)
}

fn parse_u16_of(b: &[u8], from: usize, to: usize) -> (r: Option<u16>)
    requires
        from + 3 == to,
        to <= b@.len(),
    ensures
        r == parse_u16_bytes(b@.subrange(from as int, to as int)),
{
    let ghost s = b@.subrange(from as int, to as int);
    let start = if b[from] == 43 {
        from + 1
    } else {
        from
    };
    let ghost d = s.skip(start - from);
    proof {
        if b[from as int] == 43 {
            assert(d =~= s.drop_first());
        } else {
            assert(d =~= s);
        }
    }
    if start >= to {
        return None;
    }
    proof {
        assert(s[0] == b@[from as int]);
    }
    let mut v: u32 = 0;
    let mut i = start;
    while i < to
        invariant
            from <= start <= i <= to,
            to <= b@.len(),
            to - from == 3,
            start < to,
            s == b@.subrange(from as int, to as int),
            d == s.skip(start - from),
            d == unsigned_part(s),
            forall|j: int| 0 <= j < i - start ==> is_digit_byte(#[trigger] d[j]),
            v == digits_value(d.take(i - start)),
            v <= 999,
        decreases to - i,
    {
        let c = b[i];
        proof {
            assert(d[i - start] == c);
        }
        if !(48 <= c && c <= 57) {
            proof {
                assert(d.len() == to - start);
                assert(!is_digit_byte(d[i - start]));
            }
            return None;
        }
        proof {
            assert(d.take(i - start + 1).drop_last() =~= d.take(i - start));
            assert(i - start < 3);
            if i - start == 0 {
                assert(d.take(0) =~= Seq::<u8>::empty());
            }
            assert(v < 100) by {
                assert(i - start <= 2);
                lemma_small_digits(d, i - start);
            }
        }
        v = v * 10 + (c - 48) as u32;
        i = i + 1;
    }
    proof {
        assert(d.take(to - start) =~= d);
    }
    if v <= 65535 {
        Some(v as u16)
    } else {
        None
    }
}

proof fn lemma_small_digits(d: Seq<u8>, n: int)
    requires
        0 <= n <= 2,
        n <= d.len(),
        forall|j: int| 0 <= j < n ==> is_digit_byte(#[trigger] d[j]),
    ensures
        digits_value(d.take(n)) < 100,
    decreases n,
{
    if n > 0 {
        lemma_small_digits(d, n - 1);
        assert(d.take(n).drop_last() =~= d.take(n - 1));
        assert(d.take(n).last() == d[n - 1]);
        if n == 1 {
            assert(d.take(0) =~= Seq::<u8>::empty());
        }
        assert(digits_value(d.take(n - 1)) < 10) by {
            if n == 2 {
                lemma_small_digits(d, 0);
                assert(d.take(0) =~= Seq::<u8>::empty());
                assert(d.take(1).drop_last() =~= d.take(0));
            }
        }
    }
}

/// What to do with a text message from the terminal view.
pub fn pty_text_action(text: &str) -> (r: PtyTextAction)
    requires
        pty_text_cuttable(text@),
    ensures
        r == pty_action_of(encode_utf8(text@)),
{
    let b = text.as_bytes();
    if text.len() == 12 && b[0] == 82 && b[1] == 101 && b[2] == 115 && b[3] == 105 && b[4] == 122
        && b[5] == 101 {
        proof {
            assert(b@.take(6) =~= resize_tag());
        }
        let cols = parse_u16_of(b, 6, 9);
        let rows = parse_u16_of(b, 9, 12);
        match (cols, rows) {
            (Some(c), Some(r)) => PtyTextAction::Resize { cols: c, rows: r },
            _ => PtyTextAction::Ignore,
        }
    } else {
        proof {
            if b@.len() == 12 && b@.take(6) == resize_tag() {
                assert(b@.take(6)[0] == b@[0]);
                assert(b@.take(6)[1] == b@[1]);
                assert(b@.take(6)[2] == b@[2]);
                assert(b@.take(6)[3] == b@[3]);
                assert(b@.take(6)[4] == b@[4]);
                assert(b@.take(6)[5] == b@[5]);
            }
        }
        PtyTextAction::Write
    }
}

/// Whether the desktop runs as the login session: `XDG_SESSION_DESKTOP` is
/// `eDEX-DE` or `edex-de`.
pub fn is_session_mode(session_desktop: Option<String>) -> (r: bool)
    ensures
        r == match session_desktop {
            Some(s) => s@ == "eDEX-DE"@ || s@ == "edex-de"@,
            None => false,
        },
{
    match session_desktop {
        Some(s) => {
            let c = crate::text::chars_of(s.as_str());
            crate::text::chars_eq_str(c.as_slice(), "eDEX-DE") || crate::text::chars_eq_str(c.as_slice(), "edex-de")
        },
        None => false,
    }
}

/// The environment of a terminal's shell: the variables asked for, in order,
/// then the terminal's own type, colour support and program name.
pub fn shell_environment(env: Vec<(String, String)>) -> (r: Vec<(String, String)>)
    ensures
        r@.len() == env@.len() + 3,
        r@.take(env@.len() as int) == env@,
        r@[env@.len() as int].0@ == "TERM"@ && r@[env@.len() as int].1@ == "xterm-256color"@,
        r@[env@.len() + 1int].0@ == "COLORTERM"@ && r@[env@.len() + 1int].1@ == "truecolor"@,
        r@[env@.len() + 2int].0@ == "TERM_PROGRAM"@ && r@[env@.len() + 2int].1@ == "eDEX-UI"@,
{
    let ghost e0 = env@;
    let mut r = env;
    r.push((String::from_str("TERM"), String::from_str("xterm-256color")));
    r.push((String::from_str("COLORTERM"), String::from_str("truecolor")));
    r.push((String::from_str("TERM_PROGRAM"), String::from_str("eDEX-UI")));
    proof {
        assert(r@.take(e0.len() as int) =~= e0);
    }
    r
}

} // verus!
