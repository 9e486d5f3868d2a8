//! The fingerprint reader as `fprintd-list` and `fprintd-verify` report it.

use crate::text::{
    chars_of, contains_seq, contains_str, lines, lines_of, string_of, to_lowercase, trim,
    trim_chars, unicode_lowercase,
};
use vstd::prelude::*;

verus! {

#[derive(Debug, Clone)]
pub struct FprintdStatus {
    pub available: bool,
    pub has_enrolled_fingers: bool,
    pub device_name: Option<String>,
}

/// The first line that is not blank, trimmed.
pub open spec fn first_nonblank(ls: Seq<Seq<char>>) -> Option<Seq<char>>
    decreases ls.len(),
{
    if ls.len() == 0 {
        None
    } else if trim(ls[0]).len() > 0 {
        Some(trim(ls[0]))
    } else {
        first_nonblank(ls.drop_first())
    }
}

/// Whether `fprintd-list` named enrolled fingers: it printed something, and
/// not, in any case, `no fingers enrolled`.
pub open spec fn lists_fingers(text: Seq<char>) -> bool {
    trim(text).len() > 0 && !contains_seq(unicode_lowercase(text), "no fingers enrolled"@)
}

fn first_nonblank_line(text: &[char]) -> (r: Option<String>)
    ensures
        match first_nonblank(lines_of(text@)) {
            Some(n) => r matches Some(d) && d@ == n,
            None => r is None,
        },
{
    let ls = lines(text);
    let ghost all = lines_of(text@);
    let mut i: usize = 0;
    proof {
        assert(all.skip(0) =~= all);
    }
    while i < ls.len()
        invariant
            all == lines_of(text@),
            ls@.len() == all.len(),
            forall|k: int| 0 <= k < ls@.len() ==> #[trigger] ls@[k]@ == all[k],
            i <= ls@.len(),
            first_nonblank(all.skip(i as int)) == first_nonblank(all),
        decreases ls@.len() - i,
    {
        proof {
            assert(all.skip(i as int).drop_first() =~= all.skip(i + 1));
            assert(all.skip(i as int)[0] == all[i as int]);
        }
        let t = trim_chars(ls[i].as_slice());
        if t.len() > 0 {
            return Some(string_of(t.as_slice()));
        }
        i = i + 1;
    }
    proof {
        assert(all.skip(i as int) =~= Seq::<Seq<char>>::empty());
    }
    None
}

/// The status from a run of `fprintd-list <user>`: `None` where it could not
/// be started; otherwise whether it succeeded and what it printed. The reader
/// is available where it succeeded; its name is the first non-blank line.
pub fn fprintd_status_of(run: Option<(bool, String)>) -> (r: FprintdStatus)
    ensures
        match run {
            Some((true, text)) => {
                &&& r.available
                &&& r.has_enrolled_fingers == lists_fingers(text@)
                &&& match first_nonblank(lines_of(text@)) {
                    Some(n) => r.device_name matches Some(d) && d@ == n,
                    None => r.device_name is None,
                }
            },
            _ => !r.available && !r.has_enrolled_fingers && r.device_name is None,
        },
{
    let text = match run {
        Some((true, t)) => t,
        _ => {
            return FprintdStatus { available: false, has_enrolled_fingers: false, device_name: None };
        },
    };
    let cs = chars_of(text.as_str());
    let low = to_lowercase(text.as_str());
    let has_enrolled_fingers = trim_chars(cs.as_slice()).len() > 0 && !contains_str(
        chars_of(low.as_str()).as_slice(),
        "no fingers enrolled",
    );
    let device_name = first_nonblank_line(cs.as_slice());
    FprintdStatus { available: true, has_enrolled_fingers, device_name }
}

#[derive(Debug, Clone)]
pub struct VerifyResult {
    pub success: bool,
    pub message: String,
}

/// Whether `fprintd-verify` reported a match, in any case.
pub open spec fn reports_match(stdout: Seq<char>) -> bool {
    contains_seq(unicode_lowercase(stdout), "verify-match"@) || contains_seq(
        unicode_lowercase(stdout),
        "verify matched"@,
    )
}

/// The result of a verification from what `fprintd-verify` printed.
pub fn verify_result_of(stdout: &str) -> (r: VerifyResult)
    ensures
        r.success == reports_match(stdout@),
        r.message@ == if r.success {
            "Fingerprint verified"@
        } else {
            "Fingerprint did not match"@
        },
{
    let low = to_lowercase(stdout);
    let l = chars_of(low.as_str());
    let success = contains_str(l.as_slice(), "verify-match") || contains_str(l.as_slice(), "verify matched");
    let message = if success {
        String::from_str("Fingerprint verified")
    } else {
        String::from_str("Fingerprint did not match")
    };
    VerifyResult { success, message }
}

/// The status event sent once a verification has ended.
pub fn verify_event(success: bool) -> (r: &'static str)
    ensures
        r@ == if success {
            "match"@
        } else {
            "no-match"@
        },
{
    if success {
        "match"
    } else {
        "no-match"
    }
}

} // verus!
