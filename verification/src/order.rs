//! Ordering of names: the lexicographic order of `str`, and a stable sort by
//! a key made of a rank flag and a name.

use vstd::prelude::*;

verus! {

/// `str`'s `Ord`: lexicographic comparison by code point.
pub open spec fn lex_le(a: Seq<char>, b: Seq<char>) -> bool
    decreases a.len(),
{
    if a.len() == 0 {
        true
    } else if b.len() == 0 {
        false
    } else if a[0] != b[0] {
        a[0] < b[0]
    } else {
        lex_le(a.drop_first(), b.drop_first())
    }
}

pub proof fn lemma_lex_total(a: Seq<char>, b: Seq<char>)
    ensures
        lex_le(a, b) || lex_le(b, a),
    decreases a.len(),
{
    if a.len() > 0 && b.len() > 0 {
        if a[0] == b[0] {
            lemma_lex_total(a.drop_first(), b.drop_first());
        }
    }
}

pub proof fn lemma_lex_trans(a: Seq<char>, b: Seq<char>, c: Seq<char>)
    requires
        lex_le(a, b),
        lex_le(b, c),
    ensures
        lex_le(a, c),
    decreases a.len(),
{
    if a.len() > 0 && b.len() > 0 && c.len() > 0 && a[0] == b[0] && b[0] == c[0] {
        lemma_lex_trans(a.drop_first(), b.drop_first(), c.drop_first());
    }
}

pub proof fn lemma_lex_antisym(a: Seq<char>, b: Seq<char>)
    requires
        lex_le(a, b),
        lex_le(b, a),
    ensures
        a == b,
    decreases a.len(),
{
    if a.len() > 0 && b.len() > 0 {
        lemma_lex_antisym(a.drop_first(), b.drop_first());
        assert(a =~= seq![a[0]] + a.drop_first());
        assert(b =~= seq![b[0]] + b.drop_first());
    } else {
        assert(a =~= b);
    }
}

proof fn lemma_lex_skip(a: Seq<char>, b: Seq<char>, i: int)
    requires
        0 <= i <= a.len(),
        i <= b.len(),
        a.take(i) == b.take(i),
    ensures
        lex_le(a, b) == lex_le(a.skip(i), b.skip(i)),
    decreases i,
{
    if i > 0 {
        assert(a[0] == a.take(i)[0]);
        assert(b[0] == b.take(i)[0]);
        assert(a.drop_first().take(i - 1) =~= a.take(i).drop_first());
        assert(b.drop_first().take(i - 1) =~= b.take(i).drop_first());
        lemma_lex_skip(a.drop_first(), b.drop_first(), i - 1);
        assert(a.drop_first().skip(i - 1) =~= a.skip(i));
        assert(b.drop_first().skip(i - 1) =~= b.skip(i));
    } else {
        assert(a.skip(0) =~= a);
        assert(b.skip(0) =~= b);
    }
}

pub fn lex_le_chars(a: &[char], b: &[char]) -> (r: bool)
    ensures
        r == lex_le(a@, b@),
{
    let mut i: usize = 0;
    while i < a.len() && i < b.len() && a[i] == b[i]
        invariant
            i <= a@.len(),
            i <= b@.len(),
            a@.take(i as int) == b@.take(i as int),
        decreases a@.len() - i,
    {
        proof {
            assert(a@.take(i + 1) =~= a@.take(i as int).push(a@[i as int]));
            assert(b@.take(i + 1) =~= b@.take(i as int).push(b@[i as int]));
        }
        i = i + 1;
    }
    proof {
        lemma_lex_skip(a@, b@, i as int);
    }
    if i == a.len() {
        true
    } else if i == b.len() {
        false
    } else {
        a[i] < b[i]
    }
}

/// A sort key: a rank flag (`true` sorts first) and a name.
pub struct SortKey {
    pub first: bool,
    pub name: Vec<char>,
}

pub open spec fn key_view(k: SortKey) -> (bool, Seq<char>) {
    (k.first, k.name@)
}

/// The order of sort keys: keys whose flag is set come first, then by name.
pub open spec fn key_le(a: (bool, Seq<char>), b: (bool, Seq<char>)) -> bool {
    (a.0 && !b.0) || (a.0 == b.0 && lex_le(a.1, b.1))
}

pub proof fn lemma_key_total(a: (bool, Seq<char>), b: (bool, Seq<char>))
    ensures
        key_le(a, b) || key_le(b, a),
{
    lemma_lex_total(a.1, b.1);
}

pub proof fn lemma_key_trans(a: (bool, Seq<char>), b: (bool, Seq<char>), c: (bool, Seq<char>))
    requires
        key_le(a, b),
        key_le(b, c),
    ensures
        key_le(a, c),
{
    if a.0 == b.0 && b.0 == c.0 {
        lemma_lex_trans(a.1, b.1, c.1);
    }
}

fn key_le_exec(a: &SortKey, b: &SortKey) -> (r: bool)
    ensures
        r == key_le(key_view(*a), key_view(*b)),
{
    if a.first && !b.first {
        true
    } else if a.first == b.first {
        lex_le_chars(a.name.as_slice(), b.name.as_slice())
    } else {
        false
    }
}

/// `perm` lists the positions `0..keys.len()` once each, in the order of a
/// stable sort of `keys`: by key, and keys that compare equal keep their order.
pub open spec fn is_stable_order(keys: Seq<(bool, Seq<char>)>, perm: Seq<usize>) -> bool {
    &&& perm.len() == keys.len()
    &&& forall|i: int| 0 <= i < perm.len() ==> #[trigger] perm[i] < keys.len()
    &&& forall|i: int, j: int| 0 <= i < j < perm.len() ==> perm[i] != perm[j]
    &&& forall|i: int, j: int|
        0 <= i < j < perm.len() ==> key_le(keys[#[trigger] perm[i] as int], keys[#[trigger] perm[j] as int])
    &&& forall|i: int, j: int|
        0 <= i < j < perm.len() && key_le(keys[#[trigger] perm[j] as int], keys[#[trigger] perm[i] as int]) ==> perm[i] < perm[j]
}

/// The positions of `keys` in stably sorted order (insertion sort).
pub fn stable_order(keys: &Vec<SortKey>) -> (perm: Vec<usize>)
    ensures
        is_stable_order(keys@.map_values(|k: SortKey| key_view(k)), perm@),
{
    let ghost kv = keys@.map_values(|k: SortKey| key_view(k));
    let mut perm: Vec<usize> = Vec::new();
    let n = keys.len();
    let mut m: usize = 0;
    while m < n
        invariant
            n == keys@.len(),
            kv == keys@.map_values(|k: SortKey| key_view(k)),
            m <= n,
            is_stable_order(kv.take(m as int), perm@),
        decreases n - m,
    {
        let mut p: usize = 0;
        while p < perm.len() && key_le_exec(&keys[perm[p]], &keys[m])
            invariant
                n == keys@.len(),
                kv == keys@.map_values(|k: SortKey| key_view(k)),
                m < n,
                is_stable_order(kv.take(m as int), perm@),
                p <= perm@.len(),
                forall|k: int| 0 <= k < p ==> key_le(kv[#[trigger] perm@[k] as int], kv[m as int]),
            decreases perm@.len() - p,
        {
            proof {
                assert(kv[perm@[p as int] as int] == key_view(keys@[perm@[p as int] as int]));
            }
            p = p + 1;
        }
        let ghost old_perm = perm@;
        proof {
            assert(kv.take(m as int).len() == m);
            assert forall|k: int| 0 <= k < old_perm.len() implies #[trigger] kv.take(m as int)[old_perm[k] as int] == kv[old_perm[k] as int] by {
                assert(old_perm[k] < m);
            }
            if p < old_perm.len() {
                assert(!key_le(kv[old_perm[p as int] as int], kv[m as int]));
                lemma_key_total(kv[old_perm[p as int] as int], kv[m as int]);
            }
        }
        perm.insert(p, m);
        proof {
            let np = perm@;
            let kt = kv.take(m + 1);
            assert(np.len() == m + 1);
            assert forall|i: int| 0 <= i < np.len() implies #[trigger] np[i] < kt.len() by {
                if i < p {
                    assert(np[i] == old_perm[i]);
                } else if i > p {
                    assert(np[i] == old_perm[i - 1]);
                }
            }
            assert forall|k: int| 0 <= k < np.len() implies #[trigger] kt[np[k] as int] == kv[np[k] as int] by {
                assert(np[k] < m + 1);
            }
            assert forall|i: int, j: int| 0 <= i < j < np.len() implies np[i] != np[j] by {
                if i < p && j < p {
                } else if i < p && j == p {
                    assert(old_perm[i] < m);
                } else if i < p && j > p {
                    assert(np[j] == old_perm[j - 1]);
                } else if i == p {
                    assert(np[j] == old_perm[j - 1]);
                    assert(old_perm[j - 1] < m);
                } else {
                    assert(np[i] == old_perm[i - 1]);
                    assert(np[j] == old_perm[j - 1]);
                }
            }
            assert forall|i: int, j: int| 0 <= i < j < np.len() implies key_le(kt[#[trigger] np[i] as int], kt[#[trigger] np[j] as int]) by {
                assert(kt[np[i] as int] == kv[np[i] as int]);
                assert(kt[np[j] as int] == kv[np[j] as int]);
                if i < p && j < p {
                    assert(kv.take(m as int)[old_perm[i] as int] == kv[old_perm[i] as int]);
                    assert(kv.take(m as int)[old_perm[j] as int] == kv[old_perm[j] as int]);
                } else if i < p && j == p {
                } else if i < p && j > p {
                    assert(np[j] == old_perm[j - 1]);
                    assert(kv.take(m as int)[old_perm[i] as int] == kv[old_perm[i] as int]);
                    assert(kv.take(m as int)[old_perm[j - 1] as int] == kv[old_perm[j - 1] as int]);
                } else if i == p {
                    assert(np[j] == old_perm[j - 1]);
                    if j - 1 > p {
                        assert(kv.take(m as int)[old_perm[p as int] as int] == kv[old_perm[p as int] as int]);
                        assert(kv.take(m as int)[old_perm[j - 1] as int] == kv[old_perm[j - 1] as int]);
                        lemma_key_trans(kv[m as int], kv[old_perm[p as int] as int], kv[old_perm[j - 1] as int]);
                    }
                } else {
                    assert(np[i] == old_perm[i - 1]);
                    assert(np[j] == old_perm[j - 1]);
                    assert(kv.take(m as int)[old_perm[i - 1] as int] == kv[old_perm[i - 1] as int]);
                    assert(kv.take(m as int)[old_perm[j - 1] as int] == kv[old_perm[j - 1] as int]);
                }
            }
            assert forall|i: int, j: int| 0 <= i < j < np.len() && key_le(kt[#[trigger] np[j] as int], kt[#[trigger] np[i] as int]) implies np[i] < np[j] by {
                assert(kt[np[i] as int] == kv[np[i] as int]);
                assert(kt[np[j] as int] == kv[np[j] as int]);
                if i < p && j < p {
                    assert(kv.take(m as int)[old_perm[i] as int] == kv[old_perm[i] as int]);
                    assert(kv.take(m as int)[old_perm[j] as int] == kv[old_perm[j] as int]);
                } else if i < p && j == p {
                    assert(old_perm[i] < m);
                } else if i < p && j > p {
                    assert(np[j] == old_perm[j - 1]);
                    assert(kv.take(m as int)[old_perm[i] as int] == kv[old_perm[i] as int]);
                    assert(kv.take(m as int)[old_perm[j - 1] as int] == kv[old_perm[j - 1] as int]);
                } else if i == p {
                    assert(np[j] == old_perm[j - 1]);
                    assert(kv.take(m as int)[old_perm[p as int] as int] == kv[old_perm[p as int] as int]);
                    assert(kv.take(m as int)[old_perm[j - 1] as int] == kv[old_perm[j - 1] as int]);
                    if j - 1 > p {
                        lemma_key_trans(kv[old_perm[p as int] as int], kv[old_perm[j - 1] as int], kv[m as int]);
                    }
                } else {
                    assert(np[i] == old_perm[i - 1]);
                    assert(np[j] == old_perm[j - 1]);
                    assert(kv.take(m as int)[old_perm[i - 1] as int] == kv[old_perm[i - 1] as int]);
                    assert(kv.take(m as int)[old_perm[j - 1] as int] == kv[old_perm[j - 1] as int]);
                }
            }
        }
        m = m + 1;
    }
    proof {
        assert(kv.take(n as int) =~= kv);
    }
    perm
}

/// `perm` lists the positions `0..scores.len()` once each, highest score
/// first, and positions with equal scores in the order given: the order
/// of a stable sort by descending score.
pub open spec fn is_stable_desc_order(scores: Seq<i64>, perm: Seq<usize>) -> bool {
    &&& perm.len() == scores.len()
    &&& forall|i: int| 0 <= i < perm.len() ==> #[trigger] perm[i] < scores.len()
    &&& forall|i: int, j: int| 0 <= i < j < perm.len() ==> perm[i] != perm[j]
    &&& forall|i: int, j: int|
        0 <= i < j < perm.len() ==> scores[#[trigger] perm[i] as int] >= scores[#[trigger] perm[j] as int]
    &&& forall|i: int, j: int|
        0 <= i < j < perm.len() && scores[#[trigger] perm[i] as int] == scores[#[trigger] perm[j] as int] ==> perm[i] < perm[j]
}

/// The positions of `scores` from the highest score to the lowest, ties in
/// the order given (insertion sort).
pub fn stable_order_desc(scores: &Vec<i64>) -> (perm: Vec<usize>)
    ensures
        is_stable_desc_order(scores@, perm@),
{
    let mut perm: Vec<usize> = Vec::new();
    let n = scores.len();
    let mut m: usize = 0;
    while m < n
        invariant
            n == scores@.len(),
            m <= n,
            is_stable_desc_order(scores@.take(m as int), perm@),
        decreases n - m,
    {
        let mut p: usize = 0;
        while p < perm.len() && scores[perm[p]] >= scores[m]
            invariant
                n == scores@.len(),
                m < n,
                is_stable_desc_order(scores@.take(m as int), perm@),
                p <= perm@.len(),
                forall|k: int| 0 <= k < p ==> scores@[#[trigger] perm@[k] as int] >= scores@[m as int],
            decreases perm@.len() - p,
        {
            proof {
                assert(scores@.take(m as int)[perm@[p as int] as int] == scores@[perm@[p as int] as int]);
            }
            p = p + 1;
        }
        let ghost old_perm = perm@;
        let ghost st = scores@.take(m as int);
        proof {
            assert forall|k: int| 0 <= k < old_perm.len() implies #[trigger] st[old_perm[k] as int] == scores@[old_perm[k] as int] by {
                assert(old_perm[k] < m);
            }
        }
        perm.insert(p, m);
        proof {
            let np = perm@;
            let kt = scores@.take(m + 1);
            assert forall|k: int| 0 <= k < np.len() implies #[trigger] np[k] < kt.len() by {
                if k < p {
                    assert(np[k] == old_perm[k]);
                } else if k > p {
                    assert(np[k] == old_perm[k - 1]);
                }
            }
            assert forall|k: int| 0 <= k < np.len() implies #[trigger] kt[np[k] as int] == scores@[np[k] as int] by {
                assert(np[k] < m + 1);
            }
            assert forall|i: int, j: int| 0 <= i < j < np.len() implies np[i] != np[j] by {
                if i < p && j < p {
                } else if i < p && j == p {
                    assert(old_perm[i] < m);
                } else if i < p && j > p {
                    assert(np[j] == old_perm[j - 1]);
                } else if i == p {
                    assert(np[j] == old_perm[j - 1]);
                    assert(old_perm[j - 1] < m);
                } else {
                    assert(np[i] == old_perm[i - 1]);
                    assert(np[j] == old_perm[j - 1]);
                }
            }
            assert forall|i: int, j: int| 0 <= i < j < np.len() implies kt[#[trigger] np[i] as int] >= kt[#[trigger] np[j] as int] by {
                assert(kt[np[i] as int] == scores@[np[i] as int]);
                assert(kt[np[j] as int] == scores@[np[j] as int]);
                if i < p && j < p {
                    assert(st[old_perm[i] as int] == scores@[old_perm[i] as int]);
                    assert(st[old_perm[j] as int] == scores@[old_perm[j] as int]);
                } else if i < p && j == p {
                } else if i < p && j > p {
                    assert(np[j] == old_perm[j - 1]);
                    assert(st[old_perm[i] as int] == scores@[old_perm[i] as int]);
                    assert(st[old_perm[j - 1] as int] == scores@[old_perm[j - 1] as int]);
                } else if i == p {
                    assert(np[j] == old_perm[j - 1]);
                    assert(st[old_perm[p as int] as int] == scores@[old_perm[p as int] as int]);
                    assert(st[old_perm[j - 1] as int] == scores@[old_perm[j - 1] as int]);
                } else {
                    assert(np[i] == old_perm[i - 1]);
                    assert(np[j] == old_perm[j - 1]);
                    assert(st[old_perm[i - 1] as int] == scores@[old_perm[i - 1] as int]);
                    assert(st[old_perm[j - 1] as int] == scores@[old_perm[j - 1] as int]);
                }
            }
            assert forall|i: int, j: int| 0 <= i < j < np.len() && kt[#[trigger] np[i] as int] == kt[#[trigger] np[j] as int] implies np[i] < np[j] by {
                assert(kt[np[i] as int] == scores@[np[i] as int]);
                assert(kt[np[j] as int] == scores@[np[j] as int]);
                if i < p && j < p {
                    assert(st[old_perm[i] as int] == scores@[old_perm[i] as int]);
                    assert(st[old_perm[j] as int] == scores@[old_perm[j] as int]);
                } else if i < p && j == p {
                    assert(old_perm[i] < m);
                } else if i < p && j > p {
                    assert(np[j] == old_perm[j - 1]);
                    assert(st[old_perm[i] as int] == scores@[old_perm[i] as int]);
                    assert(st[old_perm[j - 1] as int] == scores@[old_perm[j - 1] as int]);
                } else if i == p {
                    assert(np[j] == old_perm[j - 1]);
                    assert(st[old_perm[p as int] as int] == scores@[old_perm[p as int] as int]);
                    assert(st[old_perm[j - 1] as int] == scores@[old_perm[j - 1] as int]);
                } else {
                    assert(np[i] == old_perm[i - 1]);
                    assert(np[j] == old_perm[j - 1]);
                    assert(st[old_perm[i - 1] as int] == scores@[old_perm[i - 1] as int]);
                    assert(st[old_perm[j - 1] as int] == scores@[old_perm[j - 1] as int]);
                }
            }
        }
        m = m + 1;
    }
    proof {
        assert(scores@.take(n as int) =~= scores@);
    }
    perm
}

/// `sorted` is `items` stably sorted by their `keys`.
pub open spec fn stably_sorted_by<T>(items: Seq<T>, keys: Seq<(bool, Seq<char>)>, sorted: Seq<T>) -> bool {
    exists|perm: Seq<usize>|
        #[trigger] is_stable_order(keys, perm) && sorted == perm.map_values(|i: usize| items[i as int])
}

/// `perm` lists the positions `0..n` once each.
pub open spec fn is_permutation(perm: Seq<usize>, n: nat) -> bool {
    &&& perm.len() == n
    &&& forall|i: int| 0 <= i < perm.len() ==> #[trigger] perm[i] < n
    &&& forall|i: int, j: int| 0 <= i < j < perm.len() ==> perm[i] != perm[j]
}

/// The items rearranged: the item at position `perm[k]` goes to position `k`.
pub fn apply_order<T>(items: Vec<T>, perm: &Vec<usize>) -> (r: Vec<T>)
    requires
        is_permutation(perm@, items@.len()),
    ensures
        r@ == perm@.map_values(|i: usize| items@[i as int]),
{
    let n = items.len();
    let ghost orig = items@;
    let mut rest = items;
    let mut slots: Vec<Option<T>> = Vec::new();
    let mut z: usize = 0;
    while rest.len() > 0
        invariant
            z <= orig.len(),
            orig.len() == n,
            rest@ == orig.skip(z as int),
            slots@.len() == z,
            forall|q: int| 0 <= q < z ==> #[trigger] slots@[q] == Some(orig[q]),
        decreases rest@.len(),
    {
        let a = rest.remove(0);
        proof {
            assert(rest@ =~= orig.skip(z + 1));
        }
        slots.push(Some(a));
        z = z + 1;
    }
    let mut out: Vec<T> = Vec::new();
    let mut k: usize = 0;
    while k < perm.len()
        invariant
            k <= perm@.len(),
            is_permutation(perm@, n as nat),
            orig.len() == n,
            slots@.len() == n,
            forall|t: int| k <= t < perm@.len() ==> slots@[#[trigger] perm@[t] as int] == Some(orig[perm@[t] as int]),
            out@ == perm@.take(k as int).map_values(|x: usize| orig[x as int]),
        decreases perm@.len() - k,
    {
        let idx = perm[k];
        let s = slots.remove(idx);
        slots.insert(idx, None);
        proof {
            assert forall|t: int| k + 1 <= t < perm@.len() implies slots@[#[trigger] perm@[t] as int] == Some(orig[perm@[t] as int]) by {
                assert(perm@[t] != perm@[k as int]);
            }
        }
        match s {
            Some(a) => out.push(a),
            None => {
                proof {
                    assert(false);
                }
            },
        }
        proof {
            assert(perm@.take(k + 1).map_values(|x: usize| orig[x as int]) =~= perm@.take(k as int).map_values(|x: usize| orig[x as int]).push(orig[perm@[k as int] as int]));
        }
        k = k + 1;
    }
    proof {
        assert(perm@.take(perm@.len() as int) =~= perm@);
    }
    out
}

/// Rearranging a sequence by a permutation keeps each item as often as it was.
pub proof fn lemma_permuted_multiset<A>(s: Seq<A>, perm: Seq<usize>)
    requires
        is_permutation(perm, s.len()),
    ensures
        perm.map_values(|i: usize| s[i as int]).to_multiset() == s.to_multiset(),
    decreases s.len(),
{
    broadcast use vstd::seq_lib::group_seq_properties;
    broadcast use vstd::multiset::group_multiset_axioms;

    if s.len() == 0 {
        assert(perm.map_values(|i: usize| s[i as int]) =~= Seq::<A>::empty());
        assert(s =~= Seq::<A>::empty());
    } else {
        let n = s.len();
        let j = perm.last();
        let rest = perm.drop_last();
        let smaller = rest.map_values(|i: usize| if i > j {
            (i - 1) as usize
        } else {
            i
        });
        let s2 = s.remove(j as int);
        assert forall|a: int| 0 <= a < smaller.len() implies #[trigger] smaller[a] < n - 1 by {
            assert(rest[a] == perm[a]);
            assert(perm[a] != perm[perm.len() - 1]);
        }
        assert forall|a: int, b: int| 0 <= a < b < smaller.len() implies smaller[a] != smaller[b] by {
            assert(rest[a] == perm[a]);
            assert(rest[b] == perm[b]);
            assert(perm[a] != perm[b]);
            assert(perm[a] != perm[perm.len() - 1]);
            assert(perm[b] != perm[perm.len() - 1]);
        }
        lemma_permuted_multiset(s2, smaller);
        let m1 = smaller.map_values(|i: usize| s2[i as int]);
        let m2 = rest.map_values(|i: usize| s[i as int]);
        assert forall|a: int| 0 <= a < rest.len() implies #[trigger] m1[a] == m2[a] by {
            assert(rest[a] == perm[a]);
            assert(perm[a] != perm[perm.len() - 1]);
        }
        assert(m1 =~= m2);
        let whole = perm.map_values(|i: usize| s[i as int]);
        assert(whole =~= rest.map_values(|i: usize| s[i as int]).push(s[j as int]));
        assert(s2.to_multiset() == s.to_multiset().remove(s[j as int]));
        assert(s.contains(s[j as int]));
        assert(s.to_multiset().count(s[j as int]) > 0);
        assert(s.to_multiset().remove(s[j as int]).insert(s[j as int]) =~= s.to_multiset());
    }
}

/// A stable order is a permutation of the positions.
pub proof fn lemma_stable_order_permutes(keys: Seq<(bool, Seq<char>)>, perm: Seq<usize>)
    requires
        is_stable_order(keys, perm),
    ensures
        is_permutation(perm, keys.len()),
{
}

/// A permutation of the positions below `n` reaches every one of them.
pub proof fn lemma_permutation_onto(perm: Seq<usize>, n: nat, m: int)
    requires
        is_permutation(perm, n),
        0 <= m < n,
    ensures
        exists|i: int| 0 <= i < perm.len() && perm[i] == m,
{
    broadcast use vstd::seq_lib::group_to_multiset_ensures;

    let s = Seq::new(n, |i: int| i);
    lemma_permuted_multiset(s, perm);
    let mapped = perm.map_values(|i: usize| s[i as int]);
    assert(s[m] == m);
    assert(s.contains(m));
    assert(mapped.to_multiset().count(m) > 0);
    assert(mapped.contains(m));
    let i = choose|i: int| 0 <= i < mapped.len() && mapped[i] == m;
    assert(perm[i] == m);
}

} // verus!
