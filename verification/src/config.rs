//! Where the desktop keeps its configuration.

use vstd::prelude::*;

verus! {

/// `PathBuf::push` of a relative path: `rel` after `base`, with a `/` between
/// them where `base` is not empty and does not already end with one.
pub open spec fn path_join(base: Seq<char>, rel: Seq<char>) -> Seq<char> {
    if base.len() == 0 || base.last() == '/' {
        base + rel
    } else {
        base + "/"@ + rel
    }
}

fn join_path(base: &str, rel: &str) -> (r: String)
    requires
        rel@.len() > 0 && rel@[0] != '/',
    ensures
        r@ == path_join(base@, rel@),
{
    let b = crate::text::chars_of(base);
    let mut s = String::from_str(base);
    if b.len() > 0 && b[b.len() - 1] != '/' {
        s.append("/");
    }
    s.append(rel);
    s
}

/// The home directory to use: `$HOME`, or `/tmp` where it is not set.
pub open spec fn home_or_tmp(home: Option<String>) -> Seq<char> {
    match home {
        Some(h) => h@,
        None => "/tmp"@,
    }
}

/// The configuration directory `~/.config/edex-de`.
pub fn config_dir(home: Option<String>) -> (r: String)
    ensures
        r@ == path_join(home_or_tmp(home), ".config/edex-de"@),
{
    let h = match home {
        Some(h) => h,
        None => String::from_str("/tmp"),
    };
    proof {
        reveal_strlit(".config/edex-de");
    }
    join_path(h.as_str(), ".config/edex-de")
}

/// The main configuration file `~/.config/edex-de/config.toml`.
pub fn config_path(home: Option<String>) -> (r: String)
    ensures
        r@ == path_join(path_join(home_or_tmp(home), ".config/edex-de"@), "config.toml"@),
{
    let d = config_dir(home);
    proof {
        reveal_strlit("config.toml");
    }
    join_path(d.as_str(), "config.toml")
}

} // verus!
