//! Deterministic first-match lookup over sequences of keyed entries.
//!
//! Every store of the ledger is a sequence of entries carrying a string key.
//! `first_idx` is the position of the first entry with a given key; all
//! contracts of the ledger are phrased over it, so that lookups are
//! deterministic even before uniqueness of the keys is brought to bear.

use vstd::prelude::*;
use vstd::string::StrSliceExecFns;

verus! {

/// An entry image that carries a string key.
pub trait KeyedView {
    /// The key under which this entry is stored.
    spec fn key(self) -> Seq<char>;
}

/// The position of the first entry of `s` whose key is `k`, or `-1` when no
/// entry has that key.
pub open spec fn first_idx<T: KeyedView>(s: Seq<T>, k: Seq<char>) -> int
    decreases s.len(),
{
    if s.len() == 0 {
        -1
    } else if s[0].key() == k {
        0
    } else {
        let rest = first_idx(s.skip(1), k);
        if rest < 0 {
            -1
        } else {
            rest + 1
        }
    }
}

/// Whether some entry of `s` is stored under key `k`.
pub open spec fn has_key<T: KeyedView>(s: Seq<T>, k: Seq<char>) -> bool {
    first_idx(s, k) >= 0
}

/// The first entry of `s` stored under key `k`; meaningful only when
/// `has_key(s, k)` holds.
pub open spec fn entry_for<T: KeyedView>(s: Seq<T>, k: Seq<char>) -> T {
    s[first_idx(s, k)]
}

/// Whether the keys of `s` are pairwise distinct.
pub open spec fn unique_keys<T: KeyedView>(s: Seq<T>) -> bool {
    forall|i: int, j: int| 0 <= i < j < s.len() ==> s[i].key() != s[j].key()
}

/// `first_idx` finds the first match: it stays in bounds, lands on an entry
/// with the key it was asked for, is preceded by no such entry, and is `-1`
/// exactly when the key is absent.
pub proof fn lemma_first_idx<T: KeyedView>(s: Seq<T>, k: Seq<char>)
    ensures
        -1 <= first_idx(s, k) < s.len(),
        first_idx(s, k) >= 0 ==> s[first_idx(s, k)].key() == k,
        forall|j: int| 0 <= j < first_idx(s, k) ==> s[j].key() != k,
        first_idx(s, k) == -1 <==> (forall|j: int| 0 <= j < s.len() ==> s[j].key() != k),
    decreases s.len(),
{
    if s.len() == 0 {
    } else if s[0].key() == k {
    } else {
        lemma_first_idx(s.skip(1), k);
        assert forall|j: int| 0 <= j < first_idx(s, k) implies s[j].key() != k by {
            if j > 0 {
                assert(s.skip(1)[j - 1] == s[j]);
            }
        }
        if first_idx(s, k) == -1 {
            assert forall|j: int| 0 <= j < s.len() implies s[j].key() != k by {
                if j > 0 {
                    assert(s.skip(1)[j - 1] == s[j]);
                }
            }
        }
    }
}

/// A scan that has ruled the key out of the first `i` entries and then meets
/// it at `i` has found the first match.
pub proof fn lemma_first_idx_at<T: KeyedView>(s: Seq<T>, k: Seq<char>, i: int)
    requires
        0 <= i < s.len(),
        s[i].key() == k,
        forall|j: int| 0 <= j < i ==> s[j].key() != k,
    ensures
        first_idx(s, k) == i,
{
    lemma_first_idx(s, k);
    let f = first_idx(s, k);
    if f < i {
        assert(s[f].key() == k);
    } else if f > i {
        assert(s[i].key() != k);
    }
}

/// Two sequences whose entries carry the same keys position every key at the
/// same first index.
pub proof fn lemma_first_idx_same_keys<T: KeyedView>(s1: Seq<T>, s2: Seq<T>, k: Seq<char>)
    requires
        s1.len() == s2.len(),
        forall|i: int| 0 <= i < s1.len() ==> s1[i].key() == s2[i].key(),
    ensures
        first_idx(s1, k) == first_idx(s2, k),
    decreases s1.len(),
{
    if s1.len() > 0 {
        lemma_first_idx_same_keys(s1.skip(1), s2.skip(1), k);
        assert(forall|j: int| 0 <= j < s1.skip(1).len() ==> s1.skip(1)[j] == s1[j + 1]);
        assert(forall|j: int| 0 <= j < s2.skip(1).len() ==> s2.skip(1)[j] == s2[j + 1]);
    }
}

/// Appending an entry whose key is fresh keeps the keys pairwise distinct.
pub proof fn lemma_unique_keys_push<T: KeyedView>(s: Seq<T>, x: T)
    requires
        unique_keys(s),
        !has_key(s, x.key()),
    ensures
        unique_keys(s.push(x)),
{
    lemma_first_idx(s, x.key());
    assert forall|i: int, j: int|
        0 <= i < j < s.push(x).len() implies s.push(x)[i].key() != s.push(x)[j].key() by {
        if j < s.len() {
            assert(s.push(x)[i] == s[i] && s.push(x)[j] == s[j]);
        } else {
            assert(s.push(x)[j] == x);
            assert(s.push(x)[i] == s[i]);
            assert(s[i].key() != x.key());
        }
    }
}

/// Replacing an entry by one with the same key keeps the keys pairwise
/// distinct.
pub proof fn lemma_unique_keys_update<T: KeyedView>(s: Seq<T>, i: int, x: T)
    requires
        unique_keys(s),
        0 <= i < s.len(),
        x.key() == s[i].key(),
    ensures
        unique_keys(s.update(i, x)),
{
    assert forall|p: int, q: int|
        0 <= p < q < s.update(i, x).len() implies s.update(i, x)[p].key() != s.update(
        i,
        x,
    )[q].key() by {
        assert(s[p].key() != s[q].key());
    }
}

/// Character-for-character string equality, verified down to the view of
/// each argument.
pub fn str_eq(a: &str, b: &str) -> (res: bool)
    ensures
        res == (a@ == b@),
{
    let alen = a.unicode_len();
    let blen = b.unicode_len();
    if alen != blen {
        return false;
    }
    let mut i: usize = 0;
    while i < alen
        invariant
            i <= alen,
            alen == a@.len(),
            blen == b@.len(),
            alen == blen,
            forall|j: int| 0 <= j < i ==> a@[j] == b@[j],
        decreases alen - i,
    {
        if a.get_char(i) != b.get_char(i) {
            return false;
        }
        i = i + 1;
    }
    proof {
        assert(a@ =~= b@);
    }
    true
}

} // verus!
