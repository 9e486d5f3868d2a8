//! The application index of the desktop shell: desktop files read into
//! entries, and ranked search over names, comments, keywords and categories.

use crate::order::{is_stable_desc_order, stable_order_desc};
use crate::search::{skim_fuzzy_match, skim_score};
use crate::text::unicode_lowercase;
use crate::text::{
    chars_eq, chars_eq_ignore_ascii_case, chars_eq_str, chars_of, clean_exec, clean_exec_spec,
    eq_ignore_ascii_case, lines, lines_of, split_nonempty, split_nonempty_spec, split_once,
    split_once_chars, string_of, trim, trim_chars, views,
};
use vstd::prelude::*;

verus! {

/// An application of the index.
#[derive(Debug, Clone)]
pub struct AppEntry {
    pub name: String,
    /// The command line, cleaned of field codes (the `exec` field of the file).
    pub command: String,
    pub icon: Option<String>,
    pub categories: Vec<String>,
    pub comment: Option<String>,
    pub desktop_file: String,
    pub keywords: Vec<String>,
}

/// The `key=value` pairs of a desktop entry section, in file order; a key
/// that occurs again overrides the earlier value.
pub struct FieldMap {
    pub pairs: Vec<(Vec<char>, Vec<char>)>,
}

pub open spec fn pairs_view(p: Seq<(Vec<char>, Vec<char>)>) -> Seq<(Seq<char>, Seq<char>)> {
    p.map_values(|kv: (Vec<char>, Vec<char>)| (kv.0@, kv.1@))
}

/// The value of `key`: that of its last pair.
pub open spec fn field_get(pairs: Seq<(Seq<char>, Seq<char>)>, key: Seq<char>) -> Option<Seq<char>>
    decreases pairs.len(),
{
    if pairs.len() == 0 {
        None
    } else if pairs.last().0 == key {
        Some(pairs.last().1)
    } else {
        field_get(pairs.drop_last(), key)
    }
}

impl FieldMap {
    pub fn get(&self, key: &str) -> (r: Option<Vec<char>>)
        ensures
            match r {
                Some(v) => field_get(pairs_view(self.pairs@), key@) == Some(v@),
                None => field_get(pairs_view(self.pairs@), key@) is None,
            },
    {
        let k = chars_of(key);
        let mut i = self.pairs.len();
        proof {
            assert(self.pairs@.take(i as int) =~= self.pairs@);
        }
        while i > 0
            invariant
                i <= self.pairs@.len(),
                k@ == key@,
                field_get(pairs_view(self.pairs@), key@) == field_get(
                    pairs_view(self.pairs@.take(i as int)),
                    key@,
                ),
            decreases i,
        {
            proof {
                assert(pairs_view(self.pairs@.take(i as int)).drop_last() =~= pairs_view(
                    self.pairs@.take(i - 1),
                ));
            }
            if chars_eq(self.pairs[i - 1].0.as_slice(), k.as_slice()) {
                let v = crate::text::sub_vec(
                    self.pairs[i - 1].1.as_slice(),
                    0,
                    self.pairs[i - 1].1.len(),
                );
                proof {
                    assert(v@ =~= self.pairs@[i - 1].1@);
                }
                return Some(v);
            }
            i = i - 1;
        }
        None
    }
}

/// A boolean field: `true` in any ASCII case, or `1`.
pub open spec fn bool_field(pairs: Seq<(Seq<char>, Seq<char>)>, key: Seq<char>) -> bool {
    match field_get(pairs, key) {
        Some(v) => eq_ignore_ascii_case(v, "true"@) || v == "1"@,
        None => false,
    }
}

pub fn parse_bool_field(fields: &FieldMap, key: &str) -> (r: bool)
    ensures
        r == bool_field(pairs_view(fields.pairs@), key@),
{
    match fields.get(key) {
        Some(v) => chars_eq_ignore_ascii_case(v.as_slice(), "true") || chars_eq_str(
            v.as_slice(),
            "1",
        ),
        None => false,
    }
}

/// The fields and section state after some lines of a desktop file.
pub open spec fn field_step(
    st: (bool, Seq<(Seq<char>, Seq<char>)>),
    raw: Seq<char>,
) -> (bool, Seq<(Seq<char>, Seq<char>)>) {
    let line = trim(raw);
    if line == "[Desktop Entry]"@ {
        (true, st.1)
    } else if line.len() > 0 && line[0] == '[' {
        (false, st.1)
    } else if !st.0 || (line.len() > 0 && line[0] == '#') || line.len() == 0 {
        st
    } else {
        match split_once(line, '=') {
            Some((k, v)) => (st.0, st.1.push((trim(k), trim(v)))),
            None => st,
        }
    }
}

pub open spec fn fields_of(ls: Seq<Seq<char>>) -> (bool, Seq<(Seq<char>, Seq<char>)>)
    decreases ls.len(),
{
    if ls.len() == 0 {
        (false, Seq::empty())
    } else {
        field_step(fields_of(ls.drop_last()), ls.last())
    }
}

/// Read the `key=value` pairs of the `[Desktop Entry]` section of a file.
pub fn read_fields(content: &str) -> (r: FieldMap)
    ensures
        pairs_view(r.pairs@) == fields_of(lines_of(content@)).1,
{
    let text = chars_of(content);
    let ls = lines(text.as_slice());
    let ghost all = lines_of(content@);
    let mut in_entry = false;
    let mut pairs: Vec<(Vec<char>, Vec<char>)> = Vec::new();
    let mut i: usize = 0;
    while i < ls.len()
        invariant
            text@ == content@,
            all == lines_of(content@),
            ls@.len() == all.len(),
            forall|k: int| 0 <= k < ls@.len() ==> #[trigger] ls@[k]@ == all[k],
            i <= ls@.len(),
            fields_of(all.take(i as int)) == (in_entry, pairs_view(pairs@)),
        decreases ls@.len() - i,
    {
        proof {
            assert(all.take(i + 1).drop_last() =~= all.take(i as int));
            assert(all.take(i + 1).last() == all[i as int]);
        }
        let line = trim_chars(ls[i].as_slice());
        if chars_eq_str(line.as_slice(), "[Desktop Entry]") {
            in_entry = true;
        } else if line.len() > 0 && line[0] == '[' {
            in_entry = false;
        } else if !in_entry || (line.len() > 0 && line[0] == '#') || line.len() == 0 {
        } else {
            match split_once_chars(line.as_slice(), '=') {
                Some((k, v)) => {
                    let key = trim_chars(k.as_slice());
                    let val = trim_chars(v.as_slice());
                    let ghost before = pairs@;
                    pairs.push((key, val));
                    proof {
                        assert(pairs_view(pairs@) =~= pairs_view(before).push((key@, val@)));
                    }
                },
                None => {},
            }
        }
        i = i + 1;
    }
    proof {
        assert(all.take(ls@.len() as int) =~= all);
    }
    FieldMap { pairs }
}

pub open spec fn opt_view(o: Option<String>) -> Option<Seq<char>> {
    match o {
        Some(s) => Some(s@),
        None => None,
    }
}

/// The view of an entry: name, command, icon, categories, comment, desktop
/// file, keywords.
pub open spec fn app_view(e: AppEntry) -> (
    Seq<char>,
    Seq<char>,
    Option<Seq<char>>,
    Seq<Seq<char>>,
    Option<Seq<char>>,
    Seq<char>,
    Seq<Seq<char>>,
) {
    (
        e.name@,
        e.command@,
        opt_view(e.icon),
        views(e.categories@),
        opt_view(e.comment),
        e.desktop_file@,
        views(e.keywords@),
    )
}

pub open spec fn list_field(f: Seq<(Seq<char>, Seq<char>)>, key: Seq<char>) -> Seq<Seq<char>> {
    match field_get(f, key) {
        Some(v) => split_nonempty_spec(v, ';'),
        None => Seq::empty(),
    }
}

/// The application that a desktop file at `path` describes: `None` where it is
/// hidden (`NoDisplay` or `Hidden`), is not of type `Application`, or lacks a
/// name or a command.
pub open spec fn app_entry_spec(content: Seq<char>, path: Seq<char>) -> Option<
    (
        Seq<char>,
        Seq<char>,
        Option<Seq<char>>,
        Seq<Seq<char>>,
        Option<Seq<char>>,
        Seq<char>,
        Seq<Seq<char>>,
    ),
> {
    let f = fields_of(lines_of(content)).1;
    if bool_field(f, "NoDisplay"@) {
        None
    } else if field_get(f, "Type"@) != Some("Application"@) {
        None
    } else if bool_field(f, "Hidden"@) {
        None
    } else if field_get(f, "Name"@) is None || field_get(f, "Exec"@) is None {
        None
    } else {
        Some(
            (
                field_get(f, "Name"@)->0,
                clean_exec_spec(field_get(f, "Exec"@)->0),
                field_get(f, "Icon"@),
                list_field(f, "Categories"@),
                field_get(f, "Comment"@),
                path,
                list_field(f, "Keywords"@),
            ),
        )
    }
}

fn list_of(v: &Option<Vec<char>>) -> (r: Vec<String>)
    ensures
        views(r@) == match v {
            Some(x) => split_nonempty_spec(x@, ';'),
            None => Seq::empty(),
        },
{
    match v {
        Some(x) => split_nonempty(x.as_slice(), ';'),
        None => {
            let r: Vec<String> = Vec::new();
            proof {
                assert(views(r@) =~= Seq::<Seq<char>>::empty());
            }
            r
        },
    }
}

fn string_opt(v: &Option<Vec<char>>) -> (r: Option<String>)
    ensures
        opt_view(r) == match v {
            Some(x) => Some(x@),
            None => None::<Seq<char>>,
        },
{
    match v {
        Some(x) => Some(string_of(x.as_slice())),
        None => None,
    }
}

/// Read the application that the text of the desktop file at `path` describes.
pub fn parse_desktop_file(content: &str, path: &str) -> (r: Option<AppEntry>)
    ensures
        match r {
            Some(e) => app_entry_spec(content@, path@) == Some(app_view(e)),
            None => app_entry_spec(content@, path@) is None,
        },
{
    let fields = read_fields(content);
    if parse_bool_field(&fields, "NoDisplay") {
        return None;
    }
    let is_app = match fields.get("Type") {
        Some(t) => chars_eq_str(t.as_slice(), "Application"),
        None => false,
    };
    if !is_app {
        return None;
    }
    if parse_bool_field(&fields, "Hidden") {
        return None;
    }
    let name = match fields.get("Name") {
        Some(n) => n,
        None => return None,
    };
    let exec_raw = match fields.get("Exec") {
        Some(e) => e,
        None => return None,
    };
    let raw = string_of(exec_raw.as_slice());
    let command = clean_exec(raw.as_str());
    let categories = list_of(&fields.get("Categories"));
    let keywords = list_of(&fields.get("Keywords"));
    let icon = string_opt(&fields.get("Icon"));
    let comment = string_opt(&fields.get("Comment"));
    let e = AppEntry {
        name: string_of(name.as_slice()),
        command,
        icon,
        categories,
        comment,
        desktop_file: String::from_str(path),
        keywords,
    };
    Some(e)
}

/// An application with its search score.
#[derive(Debug)]
pub struct AppSearchResult {
    pub app: AppEntry,
    pub score: i64,
}

pub open spec fn opt_max(a: Option<i64>, b: Option<i64>) -> Option<i64> {
    match (a, b) {
        (Some(x), Some(y)) => Some(if x >= y {
            x
        } else {
            y
        }),
        (Some(x), None) => Some(x),
        (None, y) => y,
    }
}

/// The best score of the query against any of `texts`.
pub open spec fn best_score(texts: Seq<Seq<char>>, q: Seq<char>) -> Option<i64>
    decreases texts.len(),
{
    if texts.len() == 0 {
        None
    } else {
        opt_max(best_score(texts.drop_last(), q), skim_score(texts.last(), q))
    }
}

/// The score of an application: the best of three times its name's score, its
/// comment's score, and the best keyword and category scores; `None` where
/// none of them matches.
pub open spec fn app_score(a: AppEntry, q: Seq<char>) -> Option<i64> {
    let name = match skim_score(a.name@, q) {
        Some(s) => Some((s * 3) as i64),
        None => None,
    };
    let comment = match a.comment {
        Some(c) => skim_score(c@, q),
        None => None,
    };
    opt_max(
        opt_max(opt_max(name, comment), best_score(views(a.keywords@), q)),
        best_score(views(a.categories@), q),
    )
}

fn max_opt(a: Option<i64>, b: Option<i64>) -> (r: Option<i64>)
    ensures
        r == opt_max(a, b),
{
    match (a, b) {
        (Some(x), Some(y)) => Some(if x >= y {
            x
        } else {
            y
        }),
        (Some(x), None) => Some(x),
        (None, y) => y,
    }
}

fn best_of(texts: &Vec<String>, query: &str) -> (r: Option<i64>)
    ensures
        r == best_score(views(texts@), query@),
        r matches Some(s) ==> i32::MIN <= s <= i32::MAX,
{
    let mut best: Option<i64> = None;
    let mut i: usize = 0;
    while i < texts.len()
        invariant
            i <= texts@.len(),
            best == best_score(views(texts@.take(i as int)), query@),
            best matches Some(s) ==> i32::MIN <= s <= i32::MAX,
        decreases texts@.len() - i,
    {
        proof {
            assert(views(texts@.take(i + 1)).drop_last() =~= views(texts@.take(i as int)));
            assert(views(texts@.take(i + 1)).last() == texts@[i as int]@);
        }
        let s = skim_fuzzy_match(texts[i].as_str(), query);
        best = max_opt(best, s);
        i = i + 1;
    }
    proof {
        assert(texts@.take(texts@.len() as int) =~= texts@);
    }
    best
}

fn score_app(a: &AppEntry, query: &str) -> (r: Option<i64>)
    ensures
        r == app_score(*a, query@),
{
    let name = match skim_fuzzy_match(a.name.as_str(), query) {
        Some(s) => Some(s * 3),
        None => None,
    };
    let comment = match &a.comment {
        Some(c) => skim_fuzzy_match(c.as_str(), query),
        None => None,
    };
    let k = best_of(&a.keywords, query);
    let c = best_of(&a.categories, query);
    max_opt(max_opt(max_opt(name, comment), k), c)
}

/// The number of results that a non-empty query returns at most.
pub const MAX_RANKED: usize = 20;

/// The number of applications that an empty query lists.
pub const MAX_LISTED: usize = 12;

/// The ranking of applications for a query, as positions in `apps` with their
/// scores: for a blank query the first twelve with score 0; else the matching
/// ones by descending score, ties in list order, at most twenty.
pub open spec fn ranking(apps: Seq<AppEntry>, q: Seq<char>, perm: Seq<usize>) -> Seq<(usize, i64)> {
    if trim(q).len() == 0 {
        Seq::new(
            if apps.len() < MAX_LISTED {
                apps.len()
            } else {
                MAX_LISTED as nat
            },
            |i: int| (i as usize, 0i64),
        )
    } else {
        let pos = scored_positions(apps, q, apps.len() as int);
        let ranked = perm.map_values(|j: usize| (pos[j as int], app_score(apps[pos[j as int] as int], q)->0));
        ranked.take(
            if ranked.len() < MAX_RANKED {
                ranked.len() as int
            } else {
                MAX_RANKED as int
            },
        )
    }
}

/// The positions below `k` of the applications that match `q`.
pub open spec fn scored_positions(apps: Seq<AppEntry>, q: Seq<char>, k: int) -> Seq<usize>
    decreases k,
{
    if k <= 0 {
        Seq::empty()
    } else {
        let p = scored_positions(apps, q, k - 1);
        if app_score(apps[k - 1], q) is Some {
            p.push((k - 1) as usize)
        } else {
            p
        }
    }
}

pub open spec fn position_scores(apps: Seq<AppEntry>, q: Seq<char>, pos: Seq<usize>) -> Seq<i64> {
    pos.map_values(|i: usize| app_score(apps[i as int], q)->0)
}

/// `r` is the ranked search answer over `apps`.
pub open spec fn rank_answer(apps: Seq<AppEntry>, q: Seq<char>, perm: Seq<usize>, r: Seq<AppSearchResult>) -> bool {
    &&& (trim(q).len() > 0 ==> is_stable_desc_order(
        position_scores(apps, q, scored_positions(apps, q, apps.len() as int)),
        perm,
    ))
    &&& r.len() == ranking(apps, q, perm).len()
    &&& forall|k: int|
        0 <= k < r.len() ==> #[trigger] r[k].app == apps[ranking(apps, q, perm)[k].0 as int]
            && r[k].score == ranking(apps, q, perm)[k].1
}

/// Rank the applications for a search query.
pub fn rank_apps(apps: Vec<AppEntry>, query: &str) -> (r: Vec<AppSearchResult>)
    ensures
        ranked_answer(apps@, query@, r@),
{
    let n0 = apps.len();
    let ghost orig = apps@;
    let q = chars_of(query);
    let tq = trim_chars(q.as_slice());
    let mut slots: Vec<Option<AppEntry>> = Vec::new();
    let mut rest = apps;
    let mut z: usize = 0;
    while rest.len() > 0
        invariant
            z <= orig.len(),
            orig.len() == n0,
            rest@ == orig.skip(z as int),
            slots@.len() == z,
            forall|t: int| 0 <= t < z ==> #[trigger] slots@[t] == Some(orig[t]),
        decreases rest@.len(),
    {
        let a = rest.remove(0);
        proof {
            assert(rest@ =~= orig.skip(z + 1));
        }
        slots.push(Some(a));
        z = z + 1;
    }
    let mut out: Vec<AppSearchResult> = Vec::new();
    if tq.len() == 0 {
        let n = if n0 < MAX_LISTED {
            n0
        } else {
            MAX_LISTED
        };
        let mut i: usize = 0;
        while i < n
            invariant
                n <= n0,
                orig.len() == n0,
                slots@.len() == n0,
                forall|t: int| i <= t < n0 ==> #[trigger] slots@[t] == Some(orig[t]),
                i <= n,
                out@.len() == i,
                forall|t: int| 0 <= t < i ==> #[trigger] out@[t].app == orig[t] && out@[t].score == 0,
            decreases n - i,
        {
            let s = slots.remove(i);
            slots.insert(i, None);
            match s {
                Some(a) => out.push(AppSearchResult { app: a, score: 0 }),
                None => {
                    proof {
                        assert(false);
                    }
                },
            }
            i = i + 1;
        }
        proof {
            let perm = Seq::<usize>::empty();
            assert(rank_answer(orig, query@, perm, out@));
        }
        return out;
    }
    let mut pos: Vec<usize> = Vec::new();
    let mut scores: Vec<i64> = Vec::new();
    let mut i: usize = 0;
    while i < n0
        invariant
            i <= n0,
            orig.len() == n0,
            slots@.len() == n0,
            forall|t: int| 0 <= t < n0 ==> #[trigger] slots@[t] == Some(orig[t]),
            pos@ == scored_positions(orig, query@, i as int),
            scores@ == position_scores(orig, query@, pos@),
            forall|k: int| 0 <= k < pos@.len() ==> #[trigger] pos@[k] < i,
            forall|a: int, b: int| 0 <= a < b < pos@.len() ==> pos@[a] < pos@[b],
        decreases n0 - i,
    {
        let sc = match &slots[i] {
            Some(a) => score_app(a, query),
            None => {
                proof {
                    assert(false);
                }
                None
            },
        };
        match sc {
            Some(s) => {
                let ghost old_pos = pos@;
                pos.push(i);
                scores.push(s);
                proof {
                    assert(position_scores(orig, query@, pos@) =~= position_scores(
                        orig,
                        query@,
                        old_pos,
                    ).push(s));
                }
            },
            None => {},
        }
        i = i + 1;
    }
    let perm = stable_order_desc(&scores);
    let ghost ranked = perm@.map_values(
        |j: usize| (pos@[j as int], app_score(orig[pos@[j as int] as int], query@)->0),
    );
    let n = if perm.len() < MAX_RANKED {
        perm.len()
    } else {
        MAX_RANKED
    };
    let mut k: usize = 0;
    while k < n
        invariant
            n <= perm@.len(),
            perm@.len() == pos@.len(),
            scores@ == position_scores(orig, query@, pos@),
            is_stable_desc_order(scores@, perm@),
            forall|q: int| 0 <= q < pos@.len() ==> #[trigger] pos@[q] < n0,
            forall|a: int, b: int| 0 <= a < b < pos@.len() ==> pos@[a] < pos@[b],
            orig.len() == n0,
            slots@.len() == n0,
            forall|t: int|
                k <= t < perm@.len() ==> #[trigger] slots@[pos@[perm@[t] as int] as int] == Some(
                    orig[pos@[perm@[t] as int] as int],
                ),
            ranked == perm@.map_values(
                |j: usize| (pos@[j as int], app_score(orig[pos@[j as int] as int], query@)->0),
            ),
            k <= n,
            out@.len() == k,
            forall|t: int|
                0 <= t < k ==> #[trigger] out@[t].app == orig[ranked[t].0 as int] && out@[t].score
                    == ranked[t].1,
        decreases n - k,
    {
        let j = perm[k];
        let idx = pos[j];
        let s = slots.remove(idx);
        slots.insert(idx, None);
        proof {
            assert forall|t: int| k + 1 <= t < perm@.len() implies #[trigger] slots@[pos@[perm@[t] as int] as int] == Some(
                orig[pos@[perm@[t] as int] as int],
            ) by {
                assert(perm@[t] != perm@[k as int]);
                if pos@[perm@[t] as int] == pos@[perm@[k as int] as int] {
                    if perm@[t] < perm@[k as int] {
                        assert(pos@[perm@[t] as int] < pos@[perm@[k as int] as int]);
                    } else {
                        assert(pos@[perm@[k as int] as int] < pos@[perm@[t] as int]);
                    }
                }
            }
            assert(scores@[j as int] == app_score(orig[idx as int], query@)->0);
        }
        match s {
            Some(a) => out.push(AppSearchResult { app: a, score: scores[j] }),
            None => {
                proof {
                    assert(false);
                }
            },
        }
        k = k + 1;
    }
    proof {
        assert(rank_answer(orig, query@, perm@, out@));
    }
    out
}

pub type AppView = (
    Seq<char>,
    Seq<char>,
    Option<Seq<char>>,
    Seq<Seq<char>>,
    Option<Seq<char>>,
    Seq<char>,
    Seq<Seq<char>>,
);

/// A file found in one of the application directories.
#[derive(Debug, Clone)]
pub struct DesktopFile {
    pub file_name: String,
    pub path: String,
    pub content: String,
}

/// Whether a file name has the extension `desktop`.
pub open spec fn is_desktop_name(name: Seq<char>) -> bool {
    crate::filesystem::extension_of(name) == Some("desktop"@)
}

/// The applications of the files, in the order found: each desktop file name
/// is read once, the first time it is found.
pub open spec fn found_apps(files: Seq<DesktopFile>) -> Seq<AppView>
    decreases files.len(),
{
    found_apps_after(files, Seq::empty())
}

/// The applications of `files` when the names in `seen` were read already.
pub open spec fn found_apps_after(files: Seq<DesktopFile>, seen: Seq<Seq<char>>) -> Seq<AppView>
    decreases files.len(),
{
    if files.len() == 0 {
        Seq::empty()
    } else {
        let f = files[0];
        if !is_desktop_name(f.file_name@) || seen.contains(f.file_name@) {
            found_apps_after(files.drop_first(), seen)
        } else {
            let rest = found_apps_after(files.drop_first(), seen.push(f.file_name@));
            match app_entry_spec(f.content@, f.path@) {
                Some(a) => seq![a] + rest,
                None => rest,
            }
        }
    }
}

pub open spec fn view_keys(v: Seq<AppView>) -> Seq<(bool, Seq<char>)> {
    v.map_values(|a: AppView| (false, unicode_lowercase(a.0)))
}

pub(crate) fn is_desktop_file_name(name: &str) -> (r: bool)
    ensures
        r == is_desktop_name(name@),
{
    let n = chars_of(name);
    proof {
        reveal_strlit("desktop");
    }
    if n.len() == 2 && n[0] == '.' && n[1] == '.' {
        proof {
            assert(n@ =~= seq!['.', '.']);
        }
        return false;
    }
    proof {
        if n@ == seq!['.', '.'] {
            assert(n@.len() == 2 && n@[0] == '.' && n@[1] == '.');
        }
    }
    match crate::text::rsplit_once_chars(n.as_slice(), '.') {
        Some((head, ext)) => {
            proof {
                n@.index_of_last_ensures('.');
            }
            if head.len() == 0 {
                false
            } else {
                chars_eq_str(ext.as_slice(), "desktop")
            }
        },
        None => {
            proof {
                n@.index_of_last_ensures('.');
            }
            false
        },
    }
}

fn seen_contains(seen: &Vec<String>, name: &str) -> (r: bool)
    ensures
        r == views(seen@).contains(name@),
{
    let n = chars_of(name);
    let mut i: usize = 0;
    while i < seen.len()
        invariant
            i <= seen@.len(),
            n@ == name@,
            forall|k: int| 0 <= k < i ==> #[trigger] seen@[k]@ != name@,
        decreases seen@.len() - i,
    {
        if chars_eq(chars_of(seen[i].as_str()).as_slice(), n.as_slice()) {
            proof {
                assert(views(seen@)[i as int] == name@);
            }
            return true;
        }
        i = i + 1;
    }
    proof {
        if views(seen@).contains(name@) {
            let k = choose|k: int| 0 <= k < views(seen@).len() && views(seen@)[k] == name@;
            assert(seen@[k]@ == name@);
        }
    }
    false
}

/// The application list: the applications of the desktop files in the
/// order found, each file name read once, sorted by lower-cased name with
/// equal names in the order found.
pub fn list_apps(files: Vec<DesktopFile>) -> (r: Vec<AppEntry>)
    ensures
        listing_answer(files@, r@),
{
    let ghost all = files@;
    let mut seen: Vec<String> = Vec::new();
    let mut apps: Vec<AppEntry> = Vec::new();
    let mut i: usize = 0;
    proof {
        assert(all.skip(0) =~= all);
        assert(views(seen@) =~= Seq::<Seq<char>>::empty());
        assert(apps@.map_values(|e: AppEntry| app_view(e)) =~= Seq::<AppView>::empty());
        assert(Seq::<AppView>::empty() + found_apps(all) =~= found_apps(all));
    }
    while i < files.len()
        invariant
            i <= all.len(),
            all == files@,
            apps@.map_values(|e: AppEntry| app_view(e)) + found_apps_after(all.skip(i as int), views(seen@))
                == found_apps(all),
        decreases all.len() - i,
    {
        let f = &files[i];
        proof {
            assert(all.skip(i as int).drop_first() =~= all.skip(i + 1));
            assert(all.skip(i as int)[0] == all[i as int]);
        }
        let ghost before = apps@.map_values(|e: AppEntry| app_view(e));
        if is_desktop_file_name(f.file_name.as_str()) && !seen_contains(&seen, f.file_name.as_str()) {
            let ghost seen0 = views(seen@);
            seen.push(f.file_name.clone());
            proof {
                assert(views(seen@) =~= seen0.push(all[i as int].file_name@));
            }
            match parse_desktop_file(f.content.as_str(), f.path.as_str()) {
                Some(a) => {
                    apps.push(a);
                    proof {
                        assert(apps@.map_values(|e: AppEntry| app_view(e)) =~= before.push(app_view(a)));
                        assert(before.push(app_view(a)) + found_apps_after(all.skip(i + 1), views(seen@))
                            =~= before + (seq![app_view(a)] + found_apps_after(all.skip(i + 1), views(seen@))));
                    }
                },
                None => {},
            }
        }
        i = i + 1;
    }
    proof {
        assert(all.skip(all.len() as int) =~= Seq::<DesktopFile>::empty());
        assert(apps@.map_values(|e: AppEntry| app_view(e)) =~= found_apps(all));
    }
    let ghost found = apps@.map_values(|e: AppEntry| app_view(e));
    let mut keys: Vec<crate::order::SortKey> = Vec::new();
    let mut j: usize = 0;
    while j < apps.len()
        invariant
            j <= apps@.len(),
            keys@.len() == j,
            forall|k: int| 0 <= k < j ==> #[trigger] crate::order::key_view(keys@[k]) == (false, unicode_lowercase(apps@[k].name@)),
        decreases apps@.len() - j,
    {
        let lower = crate::text::to_lowercase(apps[j].name.as_str());
        keys.push(crate::order::SortKey { first: false, name: chars_of(lower.as_str()) });
        j = j + 1;
    }
    let perm = crate::order::stable_order(&keys);
    proof {
        assert(keys@.map_values(|k: crate::order::SortKey| crate::order::key_view(k)) =~= view_keys(found));
    }
    let ghost av = apps@;
    let r = crate::order::apply_order(apps, &perm);
    proof {
        assert(r@.map_values(|e: AppEntry| app_view(e)) =~= perm@.map_values(|i: usize| found[i as int]));
    }
    r
}

/// Whether `apps` is the application list of the desktop files `files`, as
/// [`list_apps`] makes it.
pub open spec fn listing_answer(files: Seq<DesktopFile>, apps: Seq<AppEntry>) -> bool {
    exists|perm: Seq<usize>|
        #[trigger] crate::order::is_stable_order(view_keys(found_apps(files)), perm)
            && apps.map_values(|e: AppEntry| app_view(e)) == perm.map_values(
            |i: usize| found_apps(files)[i as int],
        )
}

/// Whether `r` is the search answer over `apps` for the query `q`, as
/// [`rank_apps`] makes it.
pub open spec fn ranked_answer(apps: Seq<AppEntry>, q: Seq<char>, r: Seq<AppSearchResult>) -> bool {
    exists|perm: Seq<usize>| #[trigger] rank_answer(apps, q, perm, r)
}

/// Search the applications of the desktop files: the application list, then
/// its ranking for the query.
pub fn search_apps(files: Vec<DesktopFile>, query: &str) -> (r: Vec<AppSearchResult>)
    ensures
        exists|apps: Seq<AppEntry>|
            #[trigger] listing_answer(files@, apps) && ranked_answer(apps, query@, r@),
{
    let ghost fs = files@;
    let apps = list_apps(files);
    let ghost listed = apps@;
    let r = rank_apps(apps, query);
    proof {
        assert(listing_answer(fs, listed));
    }
    r
}

/// The Hyprland key bindings that open the launcher.
pub const LAUNCHER_BIND: &'static str = "# Add to ~/.config/hypr/hyprland.conf:\nbind = SUPER, SUPER, exec, edex-de --launcher\nbind = , catchall, exec, edex-de --launcher";

/// The Hyprland configuration lines that bind the launcher.
pub fn get_hyprland_launcher_bind() -> (r: String)
    ensures
        r@ == LAUNCHER_BIND@,
{
    String::from_str(LAUNCHER_BIND)
}

proof fn lemma_best_score_covers(texts: Seq<Seq<char>>, q: Seq<char>, i: int)
    requires
        0 <= i < texts.len(),
        skim_score(texts[i], q) is Some,
    ensures
        best_score(texts, q) is Some,
        best_score(texts, q)->0 >= skim_score(texts[i], q)->0,
    decreases texts.len(),
{
    if i < texts.len() - 1 {
        assert(texts.drop_last()[i] == texts[i]);
        lemma_best_score_covers(texts.drop_last(), q, i);
    }
}

proof fn lemma_best_score_none(texts: Seq<Seq<char>>, q: Seq<char>)
    requires
        forall|i: int| 0 <= i < texts.len() ==> (#[trigger] skim_score(texts[i], q)) is None,
    ensures
        best_score(texts, q) is None,
    decreases texts.len(),
{
    if texts.len() > 0 {
        let init = texts.drop_last();
        assert forall|i: int| 0 <= i < init.len() implies (#[trigger] skim_score(init[i], q)) is None by {
            assert(init[i] == texts[i]);
        }
        lemma_best_score_none(init, q);
        assert(skim_score(texts[texts.len() - 1], q) is None);
    }
}

/// An application's score is at least every score it could get: three times
/// its name's (a fuzzy score fits in 32 bits), its comment's, each keyword's
/// and each category's. Where none of them matches the query, the
/// application does not match.
pub proof fn law_app_score_covers_fields(a: AppEntry, q: Seq<char>)
    ensures
        forall|i: int|
            0 <= i < a.keywords@.len() && (#[trigger] skim_score(a.keywords@[i]@, q)) is Some
                ==> app_score(a, q) is Some && app_score(a, q)->0 >= skim_score(
                a.keywords@[i]@,
                q,
            )->0,
        forall|i: int|
            0 <= i < a.categories@.len() && (#[trigger] skim_score(a.categories@[i]@, q)) is Some
                ==> app_score(a, q) is Some && app_score(a, q)->0 >= skim_score(
                a.categories@[i]@,
                q,
            )->0,
        a.comment is Some && skim_score(a.comment->0@, q) is Some ==> app_score(a, q) is Some
            && app_score(a, q)->0 >= skim_score(a.comment->0@, q)->0,
        skim_score(a.name@, q) is Some && i32::MIN <= skim_score(a.name@, q)->0 <= i32::MAX
            ==> app_score(a, q) is Some && app_score(a, q)->0 >= skim_score(a.name@, q)->0 * 3,
        (skim_score(a.name@, q) is None && (a.comment is Some ==> skim_score(a.comment->0@, q) is None)
            && (forall|i: int| 0 <= i < a.keywords@.len() ==> (#[trigger] skim_score(a.keywords@[i]@, q)) is None)
            && (forall|i: int| 0 <= i < a.categories@.len() ==> (#[trigger] skim_score(a.categories@[i]@, q)) is None))
            ==> app_score(a, q) is None,
{
    assert forall|i: int|
        0 <= i < a.keywords@.len() && (#[trigger] skim_score(a.keywords@[i]@, q)) is Some implies app_score(a, q) is Some
            && app_score(a, q)->0 >= skim_score(a.keywords@[i]@, q)->0 by {
        assert(views(a.keywords@)[i] == a.keywords@[i]@);
        lemma_best_score_covers(views(a.keywords@), q, i);
    }
    assert forall|i: int|
        0 <= i < a.categories@.len() && (#[trigger] skim_score(a.categories@[i]@, q)) is Some implies app_score(a, q) is Some
            && app_score(a, q)->0 >= skim_score(a.categories@[i]@, q)->0 by {
        assert(views(a.categories@)[i] == a.categories@[i]@);
        lemma_best_score_covers(views(a.categories@), q, i);
    }
    if (forall|i: int| 0 <= i < a.keywords@.len() ==> (#[trigger] skim_score(a.keywords@[i]@, q)) is None) {
        assert forall|i: int| 0 <= i < views(a.keywords@).len() implies (#[trigger] skim_score(
            views(a.keywords@)[i],
            q,
        )) is None by {
            assert(views(a.keywords@)[i] == a.keywords@[i]@);
        }
        lemma_best_score_none(views(a.keywords@), q);
    }
    if (forall|i: int| 0 <= i < a.categories@.len() ==> (#[trigger] skim_score(a.categories@[i]@, q)) is None) {
        assert forall|i: int| 0 <= i < views(a.categories@).len() implies (#[trigger] skim_score(
            views(a.categories@)[i],
            q,
        )) is None by {
            assert(views(a.categories@)[i] == a.categories@[i]@);
        }
        lemma_best_score_none(views(a.categories@), q);
    }
}

proof fn lemma_scored_positions(apps: Seq<AppEntry>, q: Seq<char>, k: int, j: int)
    requires
        0 <= j < k <= apps.len(),
        apps.len() <= usize::MAX,
        app_score(apps[j], q) is Some,
    ensures
        exists|m: int|
            0 <= m < scored_positions(apps, q, k).len() && scored_positions(apps, q, k)[m] == j,
    decreases k,
{
    let p = scored_positions(apps, q, k - 1);
    if j < k - 1 {
        lemma_scored_positions(apps, q, k - 1, j);
        let m = choose|m: int| 0 <= m < p.len() && p[m] == j;
        assert(scored_positions(apps, q, k)[m] == j);
    } else {
        assert(scored_positions(apps, q, k)[p.len() as int] == j);
    }
}

/// For a query that is not blank, an application that matches it (by name,
/// comment, keyword or category) is in the ranking with its score, as long as
/// no more than twenty applications match.
pub proof fn law_matching_app_is_ranked(
    apps: Seq<AppEntry>,
    q: Seq<char>,
    perm: Seq<usize>,
    r: Seq<AppSearchResult>,
    j: int,
)
    requires
        apps.len() <= usize::MAX,
        rank_answer(apps, q, perm, r),
        trim(q).len() > 0,
        0 <= j < apps.len(),
        app_score(apps[j], q) is Some,
        scored_positions(apps, q, apps.len() as int).len() <= MAX_RANKED,
    ensures
        exists|k: int|
            0 <= k < r.len() && r[k].app == apps[j] && r[k].score == app_score(apps[j], q)->0,
{
    let pos = scored_positions(apps, q, apps.len() as int);
    lemma_scored_positions(apps, q, apps.len() as int, j);
    let m = choose|m: int| 0 <= m < pos.len() && pos[m] == j;
    assert(crate::order::is_permutation(perm, pos.len()));
    crate::order::lemma_permutation_onto(perm, pos.len(), m);
    let i = choose|i: int| 0 <= i < perm.len() && perm[i] == m;
    let rk = ranking(apps, q, perm);
    assert(rk[i] == (j as usize, app_score(apps[j], q)->0));
    assert(r[i].app == apps[j]);
}

} // verus!
