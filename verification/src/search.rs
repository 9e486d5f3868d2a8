//! The launcher's application list: the entries kept after scanning, and the
//! fuzzy search over their names.

use crate::app_index::{is_desktop_file_name, is_desktop_name, DesktopFile};
use crate::desktop::{desktop_entry_spec, entry_view, parse_desktop_entry, AppEntry, EntryView};
use crate::order::{is_stable_desc_order, is_stable_order, key_view, stable_order, stable_order_desc, stably_sorted_by, SortKey};
use crate::text::{chars_eq, chars_of, to_lowercase, unicode_lowercase};
use fuzzy_matcher::skim::SkimMatcherV2;
use fuzzy_matcher::FuzzyMatcher;
use vstd::prelude::*;

verus! {

/// The score that the default skim matcher gives `choice` for `pattern`, or
/// `None` where the pattern does not match. Named, not written out here.
pub uninterp spec fn skim_score(choice: Seq<char>, pattern: Seq<char>) -> Option<i64>;

/// `FuzzyMatcher::fuzzy_match` of `SkimMatcherV2::default()`. The result is the
/// named [`skim_score`]; the crate's source shows that an empty pattern scores
/// 0 and that every score is computed as an `i32`.
#[verifier::external_body]
pub(crate) fn skim_fuzzy_match(choice: &str, pattern: &str) -> (r: Option<i64>)
    ensures
        r == skim_score(choice@, pattern@),
        pattern@.len() == 0 ==> r == Some(0i64),
        r matches Some(s) ==> i32::MIN <= s <= i32::MAX,
{
    SkimMatcherV2::default().fuzzy_match(choice, pattern)
}

/// The number of results the launcher shows.
pub const MAX_RESULTS: usize = 8;

/// Whether the launcher lists an application: it is not hidden and has a command.
pub open spec fn listed(a: AppEntry) -> bool {
    !a.no_display && a.command@.len() > 0
}

/// The sort key of an application: its lower-cased name.
pub open spec fn app_key(a: AppEntry) -> (bool, Seq<char>) {
    (false, unicode_lowercase(a.name@))
}

pub open spec fn app_keys(s: Seq<AppEntry>) -> Seq<(bool, Seq<char>)> {
    s.map_values(|a: AppEntry| app_key(a))
}

/// The applications without those whose name equals the name of the one kept
/// just before them.
pub open spec fn dedup_names(s: Seq<AppEntry>) -> Seq<AppEntry>
    decreases s.len(),
{
    if s.len() == 0 {
        s
    } else {
        let d = dedup_names(s.drop_last());
        if d.len() > 0 && d.last().name@ == s.last().name@ {
            d
        } else {
            d.push(s.last())
        }
    }
}

/// The listed applications of `apps`, in their order.
pub open spec fn listed_apps(apps: Seq<AppEntry>) -> Seq<AppEntry> {
    apps.filter(|a: AppEntry| listed(a))
}

/// Whether `r` is the application list made of the entries `apps`: the listed
/// ones, stably sorted by lower-cased name, each name kept once.
pub open spec fn scan_answer(apps: Seq<AppEntry>, r: Seq<AppEntry>) -> bool {
    exists|sorted: Seq<AppEntry>|
        stably_sorted_by(listed_apps(apps), app_keys(listed_apps(apps)), sorted) && r
            == dedup_names(sorted)
}

/// The application list from the entries of all desktop files: the listed
/// ones, sorted by lower-cased name, each name kept once.
pub fn finish_scan(apps: Vec<AppEntry>) -> (r: Vec<AppEntry>)
    ensures
        scan_answer(apps@, r@),
{
    let ghost pred = |a: AppEntry| listed(a);
    let n0 = apps.len();
    let ghost orig = apps@;
    assert(orig.len() == n0);
    let mut rest = apps;
    let mut kept: Vec<AppEntry> = Vec::new();
    let mut i: usize = 0;
    while rest.len() > 0
        invariant
            i <= orig.len(),
            orig.len() <= usize::MAX,
            rest@ == orig.skip(i as int),
            pred == (|a: AppEntry| listed(a)),
            kept@ == orig.take(i as int).filter(pred),
        decreases rest@.len(),
    {
        let ghost before = kept@;
        let a = rest.remove(0);
        proof {
            assert(a == orig[i as int]);
            assert(rest@ =~= orig.skip(i + 1));
        }
        if !a.no_display && !a.command.as_str().is_empty() {
            kept.push(a);
        }
        proof {
            let t = orig.take(i + 1);
            assert(t.drop_last() =~= orig.take(i as int));
            assert(t.last() == orig[i as int]);
            reveal_with_fuel(Seq::filter, 1);
            assert(t.filter(pred) == if pred(t.last()) {
                t.drop_last().filter(pred).push(t.last())
            } else {
                t.drop_last().filter(pred)
            });
            assert(kept@ =~= t.filter(pred));
        }
        i = i + 1;
    }
    proof {
        assert(orig.take(orig.len() as int) =~= orig);
    }
    let mut keys: Vec<SortKey> = Vec::new();
    let mut j: usize = 0;
    while j < kept.len()
        invariant
            j <= kept@.len(),
            keys@.len() == j,
            forall|k: int| 0 <= k < j ==> #[trigger] key_view(keys@[k]) == app_key(kept@[k]),
        decreases kept@.len() - j,
    {
        let lower = to_lowercase(kept[j].name.as_str());
        keys.push(SortKey { first: false, name: chars_of(lower.as_str()) });
        j = j + 1;
    }
    let perm = stable_order(&keys);
    proof {
        assert(keys@.map_values(|k: SortKey| key_view(k)) =~= app_keys(kept@));
        assert(is_stable_order(app_keys(kept@), perm@));
    }
    let ghost kept_v = kept@;
    let mut slots: Vec<Option<AppEntry>> = Vec::new();
    let mut z: usize = 0;
    while kept.len() > 0
        invariant
            z <= kept_v.len(),
            kept_v.len() <= usize::MAX,
            kept@ == kept_v.skip(z as int),
            slots@.len() == z,
            forall|q: int| 0 <= q < z ==> #[trigger] slots@[q] == Some(kept_v[q]),
        decreases kept@.len(),
    {
        let a = kept.remove(0);
        proof {
            assert(kept@ =~= kept_v.skip(z + 1));
        }
        slots.push(Some(a));
        z = z + 1;
    }
    let mut sorted: Vec<AppEntry> = Vec::new();
    let mut k: usize = 0;
    while k < perm.len()
        invariant
            k <= perm@.len(),
            perm@.len() == kept_v.len(),
            slots@.len() == kept_v.len(),
            is_stable_order(app_keys(kept_v), perm@),
            forall|q: int| 0 <= q < perm@.len() ==> #[trigger] perm@[q] < kept_v.len(),
            forall|q: int|
                0 <= q < slots@.len() ==> (#[trigger] slots@[q] == Some(kept_v[q]) || (exists|t: int|
                    0 <= t < k && perm@[t] == q)),
            forall|t: int| k <= t < perm@.len() ==> slots@[#[trigger] perm@[t] as int] == Some(
                kept_v[perm@[t] as int],
            ),
            sorted@ == perm@.take(k as int).map_values(|x: usize| kept_v[x as int]),
        decreases perm@.len() - k,
    {
        let idx = perm[k];
        let slot = slots.remove(idx);
        slots.insert(idx, None);
        proof {
            assert(slot == Some(kept_v[idx as int]));
            assert forall|t: int| k + 1 <= t < perm@.len() implies slots@[#[trigger] perm@[t] as int] == Some(
                kept_v[perm@[t] as int],
            ) by {
                assert(perm@[t] != perm@[k as int]);
            }
            assert forall|q: int|
                0 <= q < slots@.len() implies (#[trigger] slots@[q] == Some(kept_v[q]) || (exists|t: int|
                    0 <= t < k + 1 && perm@[t] == q)) by {
                if q == idx {
                    assert(perm@[k as int] == q);
                }
            }
        }
        let a = match slot {
            Some(x) => x,
            None => {
                proof {
                    assert(false);
                }
                return Vec::new();
            },
        };
        sorted.push(a);
        proof {
            assert(perm@.take(k + 1).map_values(|x: usize| kept_v[x as int]) =~= perm@.take(
                k as int,
            ).map_values(|x: usize| kept_v[x as int]).push(kept_v[perm@[k as int] as int]));
        }
        k = k + 1;
    }
    proof {
        assert(perm@.take(perm@.len() as int) =~= perm@);
        assert(is_stable_order(app_keys(kept_v), perm@));
        assert(stably_sorted_by(kept_v, app_keys(kept_v), sorted@));
    }
    let ghost sorted_v = sorted@;
    let mut out: Vec<AppEntry> = Vec::new();
    let mut m: usize = 0;
    while sorted.len() > 0
        invariant
            m <= sorted_v.len(),
            sorted_v.len() <= usize::MAX,
            sorted@ == sorted_v.skip(m as int),
            out@ == dedup_names(sorted_v.take(m as int)),
        decreases sorted@.len(),
    {
        proof {
            assert(sorted_v.take(m + 1).drop_last() =~= sorted_v.take(m as int));
        }
        let a = sorted.remove(0);
        proof {
            assert(a == sorted_v[m as int]);
            assert(sorted@ =~= sorted_v.skip(m + 1));
        }
        let dup = out.len() > 0 && {
            let x = chars_of(out[out.len() - 1].name.as_str());
            let y = chars_of(a.name.as_str());
            chars_eq(x.as_slice(), y.as_slice())
        };
        if !dup {
            out.push(a);
        }
        m = m + 1;
    }
    proof {
        assert(sorted_v.take(sorted_v.len() as int) =~= sorted_v);
    }
    out
}

/// The entries of the desktop files, in the order found: each file whose name
/// has the extension `desktop` and whose desktop entry names the application
/// and its command.
pub open spec fn parsed_entries(files: Seq<DesktopFile>) -> Seq<EntryView>
    decreases files.len(),
{
    if files.len() == 0 {
        Seq::empty()
    } else {
        let rest = parsed_entries(files.drop_last());
        let f = files.last();
        if is_desktop_name(f.file_name@) {
            match desktop_entry_spec(f.content@) {
                Some(v) => rest.push(v),
                None => rest,
            }
        } else {
            rest
        }
    }
}

/// The launcher's application list from the files of the application
/// directories: their entries, the listed ones sorted by lower-cased name,
/// each name kept once.
pub fn scan_applications(files: &Vec<DesktopFile>) -> (r: Vec<AppEntry>)
    ensures
        exists|apps: Seq<AppEntry>|
            apps.map_values(|e: AppEntry| entry_view(e)) == parsed_entries(files@)
                && #[trigger] scan_answer(apps, r@),
{
    let mut apps: Vec<AppEntry> = Vec::new();
    let mut i: usize = 0;
    proof {
        assert(files@.take(0) =~= Seq::<DesktopFile>::empty());
        assert(apps@.map_values(|e: AppEntry| entry_view(e)) =~= Seq::<EntryView>::empty());
    }
    while i < files.len()
        invariant
            i <= files@.len(),
            apps@.map_values(|e: AppEntry| entry_view(e)) == parsed_entries(files@.take(i as int)),
        decreases files@.len() - i,
    {
        proof {
            assert(files@.take(i + 1).drop_last() =~= files@.take(i as int));
            assert(files@.take(i + 1).last() == files@[i as int]);
        }
        let ghost before = apps@;
        if is_desktop_file_name(files[i].file_name.as_str()) {
            match parse_desktop_entry(files[i].content.as_str()) {
                Some(a) => {
                    apps.push(a);
                    proof {
                        assert(apps@.map_values(|e: AppEntry| entry_view(e)) =~= before.map_values(
                            |e: AppEntry| entry_view(e),
                        ).push(entry_view(a)));
                    }
                },
                None => {},
            }
        }
        i = i + 1;
    }
    proof {
        assert(files@.take(files@.len() as int) =~= files@);
    }
    let ghost found = apps@;
    let r = finish_scan(apps);
    proof {
        assert(scan_answer(found, r@));
    }
    r
}

/// The positions below `k` of the applications whose name matches `query`.
pub open spec fn matched_positions(apps: Seq<AppEntry>, query: Seq<char>, k: int) -> Seq<usize>
    decreases k,
{
    if k <= 0 {
        Seq::empty()
    } else {
        let p = matched_positions(apps, query, k - 1);
        if skim_score(apps[k - 1].name@, query) is Some {
            p.push((k - 1) as usize)
        } else {
            p
        }
    }
}

pub open spec fn position_scores(apps: Seq<AppEntry>, query: Seq<char>, pos: Seq<usize>) -> Seq<i64> {
    pos.map_values(|i: usize| skim_score(apps[i as int].name@, query)->0)
}

/// The positions of the applications that the search shows, best first: for an
/// empty query the first eight; else the eight best matches by score, ties in
/// list order.
/// `r` is the search's answer: the applications at [`search_positions`].
pub open spec fn search_answer<'a>(apps: Seq<AppEntry>, query: Seq<char>, perm: Seq<usize>, r: Seq<&'a AppEntry>) -> bool {
    &&& (query.len() > 0 ==> is_stable_desc_order(
        position_scores(apps, query, matched_positions(apps, query, apps.len() as int)),
        perm,
    ))
    &&& r.len() == search_positions(apps, query, perm).len()
    &&& forall|k: int|
        0 <= k < r.len() ==> *r[k] == apps[#[trigger] search_positions(apps, query, perm)[k] as int]
}

pub open spec fn search_positions(apps: Seq<AppEntry>, query: Seq<char>, perm: Seq<usize>) -> Seq<usize> {
    if query.len() == 0 {
        Seq::new(
            if apps.len() < MAX_RESULTS {
                apps.len()
            } else {
                MAX_RESULTS as nat
            },
            |i: int| i as usize,
        )
    } else {
        let pos = matched_positions(apps, query, apps.len() as int);
        let ranked = perm.map_values(|j: usize| pos[j as int]);
        ranked.take(
            if ranked.len() < MAX_RESULTS {
                ranked.len() as int
            } else {
                MAX_RESULTS as int
            },
        )
    }
}

/// Fuzzy search over application names.
pub struct AppSearch {}

impl AppSearch {
    pub fn new() -> Self {
        AppSearch {  }
    }

    /// The applications that match `query`, best first, at most eight.
    pub fn search<'a>(&self, query: &str, apps: &'a [AppEntry]) -> (r: Vec<&'a AppEntry>)
        ensures
            exists|perm: Seq<usize>| #[trigger] search_answer(apps@, query@, perm, r@),
    {
        let mut r: Vec<&'a AppEntry> = Vec::new();
        let q = chars_of(query);
        if q.len() == 0 {
            let n = if apps.len() < MAX_RESULTS {
                apps.len()
            } else {
                MAX_RESULTS
            };
            let mut i: usize = 0;
            while i < n
                invariant
                    n <= apps@.len(),
                    i <= n,
                    r@.len() == i,
                    forall|k: int| 0 <= k < i ==> *r@[k] == apps@[k],
                decreases n - i,
            {
                r.push(&apps[i]);
                i = i + 1;
            }
            proof {
                let perm = Seq::<usize>::empty();
                assert(forall|k: int|
                    0 <= k < r@.len() ==> *r@[k] == apps@[search_positions(apps@, query@, perm)[k] as int]);
                assert(search_answer(apps@, query@, perm, r@));
            }
            return r;
        }
        let mut pos: Vec<usize> = Vec::new();
        let mut scores: Vec<i64> = Vec::new();
        let mut i: usize = 0;
        while i < apps.len()
            invariant
                i <= apps@.len(),
                q@ == query@,
                pos@ == matched_positions(apps@, query@, i as int),
                scores@ == position_scores(apps@, query@, pos@),
                forall|k: int| 0 <= k < pos@.len() ==> #[trigger] pos@[k] < i,
            decreases apps@.len() - i,
        {
            match skim_fuzzy_match(apps[i].name.as_str(), query) {
                Some(s) => {
                    let ghost old_pos = pos@;
                    pos.push(i);
                    scores.push(s);
                    proof {
                        assert(position_scores(apps@, query@, pos@) =~= position_scores(
                            apps@,
                            query@,
                            old_pos,
                        ).push(s));
                    }
                },
                None => {},
            }
            i = i + 1;
        }
        let perm = stable_order_desc(&scores);
        let ghost ranked = perm@.map_values(|j: usize| pos@[j as int]);
        let n = if perm.len() < MAX_RESULTS {
            perm.len()
        } else {
            MAX_RESULTS
        };
        let mut k: usize = 0;
        while k < n
            invariant
                n <= perm@.len(),
                perm@.len() == pos@.len(),
                is_stable_desc_order(scores@, perm@),
                forall|q: int| 0 <= q < pos@.len() ==> #[trigger] pos@[q] < apps@.len(),
                ranked == perm@.map_values(|j: usize| pos@[j as int]),
                k <= n,
                r@.len() == k,
                forall|t: int| 0 <= t < k ==> *r@[t] == apps@[ranked[t] as int],
            decreases n - k,
        {
            let idx = pos[perm[k]];
            r.push(&apps[idx]);
            k = k + 1;
        }
        proof {
            assert(is_stable_desc_order(
                position_scores(apps@, query@, matched_positions(apps@, query@, apps@.len() as int)),
                perm@,
            ));
            assert forall|t: int| 0 <= t < r@.len() implies *r@[t] == apps@[#[trigger] search_positions(
                apps@,
                query@,
                perm@,
            )[t] as int] by {
                assert(search_positions(apps@, query@, perm@)[t] == ranked[t]);
            }
            assert(search_answer(apps@, query@, perm@, r@));
        }
        r
    }
}

/// With an empty query the search shows the list's first applications, in
/// list order: the first eight, or all of them where there are fewer.
pub proof fn law_empty_query_shows_first<'a>(apps: Seq<AppEntry>, perm: Seq<usize>, r: Seq<&'a AppEntry>)
    requires
        search_answer(apps, Seq::empty(), perm, r),
    ensures
        r.len() == if apps.len() < MAX_RESULTS {
            apps.len()
        } else {
            MAX_RESULTS as nat
        },
        forall|k: int| 0 <= k < r.len() ==> *r[k] == apps[k],
{
    assert forall|k: int| 0 <= k < r.len() implies *r[k] == apps[k] by {
        assert(search_positions(apps, Seq::empty(), perm)[k] == k);
    }
}

/// With a query, every application shown has a name that matches it, at most
/// eight are shown, and they come from the best score down.
pub proof fn law_query_shows_matches<'a>(apps: Seq<AppEntry>, query: Seq<char>, perm: Seq<usize>, r: Seq<&'a AppEntry>)
    requires
        query.len() > 0,
        apps.len() <= usize::MAX,
        search_answer(apps, query, perm, r),
    ensures
        r.len() <= MAX_RESULTS,
        forall|k: int| 0 <= k < r.len() ==> (#[trigger] skim_score(r[k].name@, query)) is Some,
        forall|k: int, l: int|
            0 <= k < l < r.len() ==> skim_score(r[k].name@, query)->0 >= skim_score(
                r[l].name@,
                query,
            )->0,
{
    let pos = matched_positions(apps, query, apps.len() as int);
    lemma_matched_positions(apps, query, apps.len() as int);
    let sp = search_positions(apps, query, perm);
    assert forall|k: int| 0 <= k < r.len() implies (#[trigger] skim_score(r[k].name@, query)) is Some by {
        assert(sp[k] == pos[perm[k] as int]);
        assert(*r[k] == apps[sp[k] as int]);
    }
    assert forall|k: int, l: int|
        0 <= k < l < r.len() implies skim_score(r[k].name@, query)->0 >= skim_score(
            r[l].name@,
            query,
        )->0 by {
        assert(sp[k] == pos[perm[k] as int]);
        assert(sp[l] == pos[perm[l] as int]);
        assert(*r[k] == apps[sp[k] as int]);
        assert(*r[l] == apps[sp[l] as int]);
        let sc = position_scores(apps, query, pos);
        assert(sc[perm[k] as int] >= sc[perm[l] as int]);
    }
}

proof fn lemma_matched_positions(apps: Seq<AppEntry>, query: Seq<char>, k: int)
    requires
        k <= apps.len(),
        apps.len() <= usize::MAX,
    ensures
        forall|m: int|
            0 <= m < matched_positions(apps, query, k).len() ==> {
                &&& 0 <= #[trigger] matched_positions(apps, query, k)[m] < apps.len()
                &&& skim_score(apps[matched_positions(apps, query, k)[m] as int].name@, query) is Some
            },
    decreases k,
{
    if k > 0 {
        lemma_matched_positions(apps, query, k - 1);
        let p = matched_positions(apps, query, k - 1);
        assert forall|m: int| 0 <= m < matched_positions(apps, query, k).len() implies {
            &&& 0 <= #[trigger] matched_positions(apps, query, k)[m] < apps.len()
            &&& skim_score(apps[matched_positions(apps, query, k)[m] as int].name@, query) is Some
        } by {
            if m < p.len() {
                assert(matched_positions(apps, query, k)[m] == p[m]);
            } else {
                assert(matched_positions(apps, query, k)[m] == (k - 1) as usize);
            }
        }
    }
}

} // verus!
