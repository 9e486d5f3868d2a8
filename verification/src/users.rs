//! The users of the machine as `/etc/passwd` and `groups` describe them.

use crate::text::{char_views, chars_of, lines, lines_of, parse_u32, parse_u32_spec, split_char, split_chars, split_whitespace, splitn, splitn_chars, string_of, strings_of, views, words};
use vstd::prelude::*;

verus! {

#[derive(Debug, Clone)]
pub struct UserInfo {
    pub username: String,
    pub uid: u32,
    pub gid: u32,
    pub home: String,
    pub shell: String,
    pub groups: Vec<String>,
}

/// An account of `/etc/passwd` that belongs to a person.
#[derive(Debug, Clone)]
pub struct PasswdUser {
    pub username: String,
    pub uid: u32,
    pub gid: u32,
    pub home: String,
    pub shell: String,
}

pub type PasswdView = (Seq<char>, u32, u32, Seq<char>, Seq<char>);

pub open spec fn passwd_view(u: PasswdUser) -> PasswdView {
    (u.username@, u.uid, u.gid, u.home@, u.shell@)
}

/// A number of `/etc/passwd`, 0 where it does not read as one.
pub open spec fn id_or_zero(s: Seq<char>) -> u32 {
    match parse_u32_spec(s) {
        Some(v) => v,
        None => 0,
    }
}

/// A line of at least seven `:`-separated fields whose user id is at least
/// 1000 and not that of `nobody` (65534).
pub open spec fn passwd_line(line: Seq<char>) -> Option<PasswdView> {
    let f = split_char(line, ':');
    if f.len() < 7 {
        None
    } else {
        let uid = id_or_zero(f[2]);
        if uid < 1000 || uid == 65534 {
            None
        } else {
            Some((f[0], uid, id_or_zero(f[3]), f[5], f[6]))
        }
    }
}

pub open spec fn passwd_users_of(ls: Seq<Seq<char>>) -> Seq<PasswdView>
    decreases ls.len(),
{
    if ls.len() == 0 {
        Seq::empty()
    } else {
        let rest = passwd_users_of(ls.drop_last());
        match passwd_line(ls.last()) {
            Some(u) => rest.push(u),
            None => rest,
        }
    }
}

fn id_of(s: &[char]) -> (r: u32)
    ensures
        r == id_or_zero(s@),
{
    match parse_u32(s) {
        Some(v) => v,
        None => 0,
    }
}

fn parse_passwd_line(line: &[char]) -> (r: Option<PasswdUser>)
    ensures
        match r {
            Some(u) => passwd_line(line@) == Some(passwd_view(u)),
            None => passwd_line(line@) is None,
        },
{
    let f = split_chars(line, ':');
    if f.len() < 7 {
        return None;
    }
    let uid = id_of(f[2].as_slice());
    if uid < 1000 || uid == 65534 {
        return None;
    }
    Some(
        PasswdUser {
            username: string_of(f[0].as_slice()),
            uid,
            gid: id_of(f[3].as_slice()),
            home: string_of(f[5].as_slice()),
            shell: string_of(f[6].as_slice()),
        },
    )
}

/// The people's accounts in `/etc/passwd`, in order.
pub fn passwd_users(passwd: &str) -> (r: Vec<PasswdUser>)
    ensures
        r@.map_values(|u: PasswdUser| passwd_view(u)) == passwd_users_of(lines_of(passwd@)),
{
    let text = chars_of(passwd);
    let ls = lines(text.as_slice());
    let ghost all = lines_of(passwd@);
    let mut r: Vec<PasswdUser> = Vec::new();
    let mut i: usize = 0;
    while i < ls.len()
        invariant
            text@ == passwd@,
            all == lines_of(passwd@),
            ls@.len() == all.len(),
            forall|k: int| 0 <= k < ls@.len() ==> #[trigger] ls@[k]@ == all[k],
            i <= ls@.len(),
            r@.map_values(|u: PasswdUser| passwd_view(u)) == passwd_users_of(all.take(i as int)),
        decreases ls@.len() - i,
    {
        proof {
            assert(all.take(i + 1).drop_last() =~= all.take(i as int));
            assert(all.take(i + 1).last() == all[i as int]);
        }
        match parse_passwd_line(ls[i].as_slice()) {
            Some(u) => {
                let ghost before = r@;
                r.push(u);
                proof {
                    assert(r@.map_values(|u: PasswdUser| passwd_view(u)) =~= before.map_values(
                        |u: PasswdUser| passwd_view(u),
                    ).push(passwd_view(u)));
                }
            },
            None => {},
        }
        i = i + 1;
    }
    proof {
        assert(all.take(ls@.len() as int) =~= all);
    }
    r
}

/// The groups in the answer `user : group1 group2 ...` of `groups <user>`:
/// the words after the first `:`, none where there is no `:`.
pub open spec fn groups_in(out: Seq<char>) -> Seq<Seq<char>> {
    let p = splitn(out, 2, ':');
    if p.len() > 1 {
        words(p[1])
    } else {
        Seq::empty()
    }
}

pub fn groups_of(out: &str) -> (r: Vec<String>)
    ensures
        views(r@) == groups_in(out@),
{
    let p = splitn_chars(chars_of(out).as_slice(), 2, ':');
    if p.len() > 1 {
        let w = split_whitespace(p[1].as_slice());
        proof {
            assert(char_views(w@) =~= words(p@[1]@));
        }
        strings_of(&w)
    } else {
        proof {
            assert(char_views(p@) == splitn(out@, 2, ':'));
        }
        let r: Vec<String> = Vec::new();
        proof {
            assert(views(r@) =~= Seq::<Seq<char>>::empty());
        }
        r
    }
}

/// The users, each with the groups of its `groups` answer (one answer for
/// each account, in order).
pub fn list_users(accounts: Vec<PasswdUser>, groups_answers: &Vec<String>) -> (r: Vec<UserInfo>)
    requires
        groups_answers@.len() == accounts@.len(),
    ensures
        r@.len() == accounts@.len(),
        forall|k: int| 0 <= k < r@.len() ==> {
            let u = #[trigger] r@[k];
            &&& passwd_view(accounts@[k]) == (u.username@, u.uid, u.gid, u.home@, u.shell@)
            &&& views(u.groups@) == groups_in(groups_answers@[k]@)
        },
{
    let ghost all = accounts@;
    let mut rest = accounts;
    let mut r: Vec<UserInfo> = Vec::new();
    let n = groups_answers.len();
    let mut i: usize = 0;
    while rest.len() > 0
        invariant
            n == all.len(),
            i <= all.len(),
            groups_answers@.len() == all.len(),
            rest@ == all.skip(i as int),
            r@.len() == i,
            forall|k: int| 0 <= k < i ==> {
                let u = #[trigger] r@[k];
                &&& passwd_view(all[k]) == (u.username@, u.uid, u.gid, u.home@, u.shell@)
                &&& views(u.groups@) == groups_in(groups_answers@[k]@)
            },
        decreases rest@.len(),
    {
        let a = rest.remove(0);
        proof {
            assert(a == all[i as int]);
            assert(rest@ =~= all.skip(i + 1));
        }
        let groups = groups_of(groups_answers[i].as_str());
        r.push(UserInfo { username: a.username, uid: a.uid, gid: a.gid, home: a.home, shell: a.shell, groups });
        i = i + 1;
    }
    r
}

/// What `passwd` is fed: the old password, then the new one twice, each on
/// a line of its own.
pub fn password_input(old_password: &str, new_password: &str) -> (r: String)
    ensures
        r@ == old_password@ + "\n"@ + new_password@ + "\n"@ + new_password@ + "\n"@,
{
    let mut s = String::from_str(old_password);
    s.append("\n");
    s.append(new_password);
    s.append("\n");
    s.append(new_password);
    s.append("\n");
    s
}

} // verus!
