//! The file browser's listings and its fuzzy file search.

use crate::order::{apply_order, is_stable_desc_order, is_stable_order, key_view, stable_order, stable_order_desc, SortKey};
use crate::search::{skim_fuzzy_match, skim_score};
use crate::text::{chars_of, has_prefix, starts_with, to_lowercase, unicode_lowercase};
use vstd::prelude::*;

verus! {

#[derive(Debug)]
pub struct FileEntry {
    pub name: String,
    pub path: String,
    pub is_dir: bool,
    pub size: u64,
    pub mime: Option<String>,
    pub modified: Option<u64>,
}

/// The MIME type that `mime_guess` gives a path by its extension, with
/// `application/octet-stream` where it knows none. Named, not written out here.
pub uninterp spec fn guessed_mime(path: Seq<char>) -> Seq<char>;

/// `mime_guess::from_path(path).first_or_octet_stream()`, as text. The result
/// is the named [`guessed_mime`]; the crate's source shows that a path without
/// an extension gets `application/octet-stream`, and a path without a dot has
/// no extension.
#[verifier::external_body]
fn mime_for_path(path: &str) -> (r: String)
    ensures
        r@ == guessed_mime(path@),
        !path@.contains('.') ==> r@ == "application/octet-stream"@,
{
    mime_guess::from_path(path).first_or_octet_stream().to_string()
}

/// The MIME type recorded for an entry: a file's guessed type, none for a
/// directory.
pub fn entry_mime(path: &str, is_dir: bool) -> (r: Option<String>)
    ensures
        is_dir ==> r is None,
        !is_dir ==> (r matches Some(m) && m@ == guessed_mime(path@)),
{
    if is_dir {
        None
    } else {
        Some(mime_for_path(path))
    }
}

/// The error of a listing asked for a path that does not exist.
pub fn missing_path_error(path: &str) -> (r: String)
    ensures
        r@ == "Path does not exist: "@ + path@,
{
    let mut e = String::from_str("Path does not exist: ");
    e.append(path);
    e
}

/// Whether a listing shows an entry: always where dotfiles are shown, else
/// where its name does not begin with a dot.
pub open spec fn shows_file(e: FileEntry, show_dotfiles: bool) -> bool {
    show_dotfiles || !starts_with(e.name@, "."@)
}

/// The sort key of an entry: directories first, then by lower-cased name.
pub open spec fn file_key(e: FileEntry) -> (bool, Seq<char>) {
    (e.is_dir, unicode_lowercase(e.name@))
}

pub open spec fn file_keys(entries: Seq<FileEntry>) -> Seq<(bool, Seq<char>)> {
    entries.map_values(|e: FileEntry| file_key(e))
}

pub open spec fn shown_files(entries: Seq<FileEntry>, show_dotfiles: bool) -> Seq<FileEntry> {
    entries.filter(|e: FileEntry| shows_file(e, show_dotfiles))
}

/// A listing as the browser shows it: the shown entries, directories first
/// and then by lower-cased name, entries that compare equal in their order.
pub fn arrange_entries(entries: Vec<FileEntry>, show_dotfiles: bool) -> (r: Vec<FileEntry>)
    ensures
        exists|perm: Seq<usize>|
            #[trigger] is_stable_order(file_keys(shown_files(entries@, show_dotfiles)), perm)
                && r@ == perm.map_values(|i: usize| shown_files(entries@, show_dotfiles)[i as int]),
{
    let ghost pred = |e: FileEntry| shows_file(e, show_dotfiles);
    let ghost all = entries@;
    let mut rest = entries;
    let mut shown: Vec<FileEntry> = Vec::new();
    let ghost mut i: int = 0;
    while rest.len() > 0
        invariant
            0 <= i <= all.len(),
            rest@ == all.skip(i),
            pred == (|e: FileEntry| shows_file(e, show_dotfiles)),
            shown@ == all.take(i).filter(pred),
        decreases rest@.len(),
    {
        let e = rest.remove(0);
        proof {
            assert(e == all[i]);
            assert(rest@ =~= all.skip(i + 1));
        }
        let keep = show_dotfiles || !has_prefix(chars_of(e.name.as_str()).as_slice(), ".");
        if keep {
            shown.push(e);
        }
        proof {
            let t = all.take(i + 1);
            assert(t.drop_last() =~= all.take(i));
            assert(t.last() == all[i]);
            reveal_with_fuel(Seq::filter, 1);
            assert(shown@ =~= t.filter(pred));
            i = i + 1;
        }
    }
    proof {
        assert(all.take(i) =~= all);
    }
    let mut keys: Vec<SortKey> = Vec::new();
    let mut j: usize = 0;
    while j < shown.len()
        invariant
            j <= shown@.len(),
            keys@.len() == j,
            forall|k: int| 0 <= k < j ==> #[trigger] key_view(keys@[k]) == file_key(shown@[k]),
        decreases shown@.len() - j,
    {
        let lower = to_lowercase(shown[j].name.as_str());
        keys.push(SortKey { first: shown[j].is_dir, name: chars_of(lower.as_str()) });
        j = j + 1;
    }
    let perm = stable_order(&keys);
    proof {
        assert(keys@.map_values(|k: SortKey| key_view(k)) =~= shown@.map_values(|e: FileEntry| file_key(e)));
    }
    let ghost sv = shown@;
    let r = apply_order(shown, &perm);
    proof {
        assert(sv == shown_files(all, show_dotfiles));
        assert(is_stable_order(file_keys(sv), perm@));
    }
    r
}

#[derive(Debug)]
pub struct FuzzyMatch {
    pub path: String,
    pub name: String,
    pub score: i64,
}

/// A file that the search walked past: its path and name.
#[derive(Debug)]
pub struct FileCandidate {
    pub path: String,
    pub name: String,
}

/// The number of matches the search returns.
pub const MAX_FILE_MATCHES: usize = 50;

/// The candidates whose name matches the query, in the order walked.
pub open spec fn matching_files(cands: Seq<FileCandidate>, query: Seq<char>) -> Seq<FileCandidate> {
    cands.filter(|c: FileCandidate| skim_score(c.name@, query) is Some)
}

/// The scores of the matching candidates.
pub open spec fn match_scores(m: Seq<FileCandidate>, query: Seq<char>) -> Seq<i64> {
    m.map_values(|c: FileCandidate| skim_score(c.name@, query)->0)
}

/// The best matches of the query among the files walked: the matching ones
/// by descending score, ties in the order walked, at most fifty.
pub fn rank_file_matches(cands: Vec<FileCandidate>, query: &str) -> (r: Vec<FuzzyMatch>)
    ensures
        exists|perm: Seq<usize>|
            #[trigger] is_stable_desc_order(match_scores(matching_files(cands@, query@), query@), perm)
                && r@.len() == (if perm.len() <= 50 {
                perm.len()
            } else {
                50
            }) && forall|k: int|
                0 <= k < r@.len() ==> {
                    &&& (#[trigger] r@[k]).path@ == matching_files(cands@, query@)[perm[k] as int].path@
                    &&& r@[k].name@ == matching_files(cands@, query@)[perm[k] as int].name@
                    &&& r@[k].score == match_scores(matching_files(cands@, query@), query@)[perm[k] as int]
                },
{
    let ghost pred = |c: FileCandidate| skim_score(c.name@, query@) is Some;
    let ghost all = cands@;
    let mut rest = cands;
    let mut found: Vec<FuzzyMatch> = Vec::new();
    let mut scores: Vec<i64> = Vec::new();
    let ghost mut i: int = 0;
    while rest.len() > 0
        invariant
            0 <= i <= all.len(),
            rest@ == all.skip(i),
            pred == (|c: FileCandidate| skim_score(c.name@, query@) is Some),
            found@.len() == all.take(i).filter(pred).len(),
            scores@ == all.take(i).filter(pred).map_values(|c: FileCandidate| skim_score(c.name@, query@)->0),
            forall|k: int|
                0 <= k < found@.len() ==> {
                    &&& (#[trigger] found@[k]).path@ == all.take(i).filter(pred)[k].path@
                    &&& found@[k].name@ == all.take(i).filter(pred)[k].name@
                    &&& found@[k].score == scores@[k]
                },
        decreases rest@.len(),
    {
        let c = rest.remove(0);
        proof {
            assert(c == all[i]);
            assert(rest@ =~= all.skip(i + 1));
        }
        let ghost before = all.take(i).filter(pred);
        let s = skim_fuzzy_match(c.name.as_str(), query);
        match s {
            Some(score) => {
                scores.push(score);
                found.push(FuzzyMatch { path: c.path, name: c.name, score });
            },
            None => {},
        }
        proof {
            let t = all.take(i + 1);
            assert(t.drop_last() =~= all.take(i));
            assert(t.last() == all[i]);
            reveal_with_fuel(Seq::filter, 1);
            if s is Some {
                assert(t.filter(pred) =~= before.push(all[i]));
            } else {
                assert(t.filter(pred) =~= before);
            }
            assert(scores@ =~= t.filter(pred).map_values(|c: FileCandidate| skim_score(c.name@, query@)->0));
            i = i + 1;
        }
    }
    proof {
        assert(all.take(i) =~= all);
    }
    let perm = stable_order_desc(&scores);
    let ghost fv = found@;
    let mut ordered = apply_order(found, &perm);
    ordered.truncate(MAX_FILE_MATCHES);
    proof {
        let m = matching_files(all, query@);
        assert(all.filter(pred) == m);
        assert forall|k: int| 0 <= k < ordered@.len() implies {
            &&& (#[trigger] ordered@[k]).path@ == m[perm@[k] as int].path@
            &&& ordered@[k].name@ == m[perm@[k] as int].name@
            &&& ordered@[k].score == scores@[perm@[k] as int]
        } by {
            assert(ordered@[k] == fv[perm@[k] as int]);
        }
        assert(scores@ == match_scores(m, query@));
        assert(is_stable_desc_order(match_scores(m, query@), perm@));
    }
    ordered
}

} // verus!
