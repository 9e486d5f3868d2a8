//! Whether a newer release of the desktop is out.

use crate::text::{chars_eq, chars_of, string_of, sub_vec};
use vstd::prelude::*;

verus! {

#[derive(Debug, Clone)]
pub struct UpdateInfo {
    pub has_update: bool,
    pub latest_version: String,
    pub current_version: String,
    pub release_url: String,
}

/// A version without every `v` at its start.
pub open spec fn without_v(s: Seq<char>) -> Seq<char>
    decreases s.len(),
{
    if s.len() > 0 && s[0] == 'v' {
        without_v(s.drop_first())
    } else {
        s
    }
}

fn strip_v(s: &[char]) -> (r: Vec<char>)
    ensures
        r@ == without_v(s@),
{
    let mut i: usize = 0;
    proof {
        assert(s@.skip(0) =~= s@);
    }
    while i < s.len() && s[i] == 'v'
        invariant
            i <= s@.len(),
            without_v(s@.skip(i as int)) == without_v(s@),
        decreases s@.len() - i,
    {
        proof {
            assert(s@.skip(i as int).drop_first() =~= s@.skip(i + 1));
        }
        i = i + 1;
    }
    let r = sub_vec(s, i, s.len());
    proof {
        assert(r@ =~= s@.skip(i as int));
    }
    r
}

/// The answer about the latest release, from its tag and page (empty where
/// the release document has none): there is an update where the tag names a
/// version, `v`s aside, other than the current one.
pub fn update_info(tag_name: Option<String>, html_url: Option<String>, current_version: String) -> (r: UpdateInfo)
    ensures
        ({
            let latest = without_v(
                match tag_name {
                    Some(t) => t@,
                    None => Seq::empty(),
                },
            );
            &&& r.latest_version@ == latest
            &&& r.has_update == (latest.len() > 0 && latest != without_v(current_version@))
            &&& r.current_version == current_version
            &&& r.release_url@ == match html_url {
                Some(u) => u@,
                None => Seq::empty(),
            }
        }),
{
    let tag = match tag_name {
        Some(t) => chars_of(t.as_str()),
        None => Vec::new(),
    };
    let latest = strip_v(tag.as_slice());
    let current = strip_v(chars_of(current_version.as_str()).as_slice());
    let has_update = latest.len() > 0 && !chars_eq(latest.as_slice(), current.as_slice());
    let release_url = match html_url {
        Some(u) => u,
        None => String::new(),
    };
    UpdateInfo { has_update, latest_version: string_of(latest.as_slice()), current_version, release_url }
}

} // verus!
