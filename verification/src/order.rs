//! Sorted materialization of unordered row sets.
//!
//! The ledger keeps rows in admission order, while the read-side queries
//! return them ordered by a query-specific key. The target order is specified
//! by a first-principles stable insertion sort over key/payload pairs; the
//! executable queries grow their result with [`insert_sorted`], whose
//! postcondition ties every step back to the specification.

use vstd::prelude::*;

verus! {

/// A sort key together with an opaque payload word.
pub type Keyed = (u64, u64);

/// Where `p` lands in `s`: after every element whose key is less than or
/// equal to `p`'s, before the first strictly greater one. Equal keys keep the
/// earlier element first, so insertion is stable.
pub open spec fn insert_by_key(s: Seq<Keyed>, p: Keyed) -> Seq<Keyed>
    decreases s.len(),
{
    if s.len() == 0 {
        seq![p]
    } else if s[0].0 <= p.0 {
        seq![s[0]] + insert_by_key(s.skip(1), p)
    } else {
        seq![p] + s
    }
}

/// Insertion sort of `s`: rows are inserted in stream order, so the result
/// is stable with respect to it.
pub open spec fn sort_by_key(s: Seq<Keyed>) -> Seq<Keyed>
    decreases s.len(),
{
    if s.len() == 0 {
        Seq::empty()
    } else {
        insert_by_key(sort_by_key(s.drop_last()), s.last())
    }
}

/// Keys never decrease along the sequence.
pub open spec fn sorted_by_key(s: Seq<Keyed>) -> bool {
    forall|i: int, j: int| 0 <= i < j < s.len() ==> s[i].0 <= s[j].0
}

/// No two elements share a key.
pub open spec fn distinct_keys(s: Seq<Keyed>) -> bool {
    forall|i: int, j: int| 0 <= i < j < s.len() ==> s[i].0 != s[j].0
}

/// Some element of `s` carries the key `k`.
pub open spec fn contains_key(s: Seq<Keyed>, k: u64) -> bool {
    exists|i: int| 0 <= i < s.len() && s[i].0 == k
}

/// Insertion adds exactly the new pair, keeps order, and preserves key
/// distinctness when the new key is fresh.
pub proof fn lemma_insert_by_key_props(s: Seq<Keyed>, p: Keyed)
    ensures
        insert_by_key(s, p).len() == s.len() + 1,
        forall|q: Keyed| #[trigger] insert_by_key(s, p).contains(q) <==> (s.contains(q) || q == p),
        sorted_by_key(s) ==> sorted_by_key(insert_by_key(s, p)),
        distinct_keys(s) && (forall|i: int| 0 <= i < s.len() ==> s[i].0 != p.0)
            ==> distinct_keys(insert_by_key(s, p)),
    decreases s.len(),
{
    let out = insert_by_key(s, p);
    if s.len() == 0 {
        assert(out =~= seq![p]);
        assert forall|q: Keyed| #[trigger] out.contains(q) <==> (s.contains(q) || q == p) by {
            if q == p {
                assert(out[0] == p);
            }
        }
    } else if s[0].0 <= p.0 {
        let rest = insert_by_key(s.skip(1), p);
        lemma_insert_by_key_props(s.skip(1), p);
        assert(out =~= seq![s[0]] + rest);
        assert forall|q: Keyed| #[trigger] out.contains(q) implies (s.contains(q) || q == p) by {
            let i = choose|i: int| 0 <= i < out.len() && out[i] == q;
            if i == 0 {
                assert(s[0] == q);
            } else {
                assert(rest.contains(q)) by { assert(rest[i - 1] == q); }
                if s.skip(1).contains(q) {
                    let j = choose|j: int| 0 <= j < s.skip(1).len() && s.skip(1)[j] == q;
                    assert(s[j + 1] == q);
                }
            }
        }
        assert forall|q: Keyed| s.contains(q) || q == p implies #[trigger] out.contains(q) by {
            if s.contains(q) {
                let i = choose|i: int| 0 <= i < s.len() && s[i] == q;
                if i == 0 {
                    assert(out[0] == q);
                } else {
                    assert(s.skip(1)[i - 1] == q);
                    assert(s.skip(1).contains(q));
                    assert(rest.contains(q));
                    let j = choose|j: int| 0 <= j < rest.len() && rest[j] == q;
                    assert(out[j + 1] == q);
                }
            } else {
                assert(rest.contains(p));
                let j = choose|j: int| 0 <= j < rest.len() && rest[j] == p;
                assert(out[j + 1] == p);
            }
        }
        // every element of the inserted tail is an old element or `p`,
        // so its key is bounded below by `s[0]`'s under sortedness
        assert forall|k: int| 0 <= k < rest.len() implies
            (s.skip(1).contains(rest[k]) || rest[k] == p) by {
            assert(rest.contains(rest[k]));
        }
        if sorted_by_key(s) {
            assert forall|i: int, j: int| 0 <= i < j < out.len() implies out[i].0 <= out[j].0 by {
                if i == 0 {
                    let q = out[j];
                    assert(rest[j - 1] == q);
                    if s.skip(1).contains(q) {
                        let m = choose|m: int| 0 <= m < s.skip(1).len() && s.skip(1)[m] == q;
                        assert(s[m + 1] == q);
                        assert(s[0].0 <= s[m + 1].0);
                    }
                } else {
                    assert(out[i] == rest[i - 1] && out[j] == rest[j - 1]);
                }
            }
        }
        if distinct_keys(s) && (forall|i: int| 0 <= i < s.len() ==> s[i].0 != p.0) {
            assert forall|i: int| 0 <= i < s.skip(1).len() implies s.skip(1)[i].0 != p.0 by {
                assert(s.skip(1)[i] == s[i + 1]);
            }
            assert forall|i: int, j: int| 0 <= i < j < out.len() implies out[i].0 != out[j].0 by {
                if i == 0 {
                    let q = out[j];
                    assert(rest[j - 1] == q);
                    if s.skip(1).contains(q) {
                        let m = choose|m: int| 0 <= m < s.skip(1).len() && s.skip(1)[m] == q;
                        assert(s[m + 1] == q);
                        assert(s[0].0 != s[m + 1].0);
                    }
                } else {
                    assert(out[i] == rest[i - 1] && out[j] == rest[j - 1]);
                }
            }
        }
    } else {
        assert(out =~= seq![p] + s);
        assert forall|q: Keyed| #[trigger] out.contains(q) implies (s.contains(q) || q == p) by {
            let i = choose|i: int| 0 <= i < out.len() && out[i] == q;
            if i > 0 {
                assert(s[i - 1] == q);
            }
        }
        assert forall|q: Keyed| s.contains(q) || q == p implies #[trigger] out.contains(q) by {
            if q == p {
                assert(out[0] == p);
            } else {
                let i = choose|i: int| 0 <= i < s.len() && s[i] == q;
                assert(out[i + 1] == q);
            }
        }
        if sorted_by_key(s) {
            assert forall|i: int, j: int| 0 <= i < j < out.len() implies out[i].0 <= out[j].0 by {
                if i == 0 {
                    assert(out[j] == s[j - 1]);
                    if j - 1 > 0 {
                        assert(s[0].0 <= s[j - 1].0);
                    }
                } else {
                    assert(out[i] == s[i - 1] && out[j] == s[j - 1]);
                }
            }
        }
        if distinct_keys(s) && (forall|i: int| 0 <= i < s.len() ==> s[i].0 != p.0) {
            assert forall|i: int, j: int| 0 <= i < j < out.len() implies out[i].0 != out[j].0 by {
                if i == 0 {
                    assert(out[j] == s[j - 1]);
                } else {
                    assert(out[i] == s[i - 1] && out[j] == s[j - 1]);
                }
            }
        }
    }
}

/// The sort is a permutation in the membership sense, orders its result,
/// and preserves key distinctness.
pub proof fn lemma_sort_by_key_props(s: Seq<Keyed>)
    ensures
        sort_by_key(s).len() == s.len(),
        forall|q: Keyed| #[trigger] sort_by_key(s).contains(q) <==> s.contains(q),
        sorted_by_key(sort_by_key(s)),
        distinct_keys(s) ==> distinct_keys(sort_by_key(s)),
    decreases s.len(),
{
    if s.len() > 0 {
        let d = s.drop_last();
        let sd = sort_by_key(d);
        lemma_sort_by_key_props(d);
        lemma_insert_by_key_props(sd, s.last());
        assert forall|q: Keyed| #[trigger] sort_by_key(s).contains(q) implies s.contains(q) by {
            if sd.contains(q) {
                let i = choose|i: int| 0 <= i < d.len() && d[i] == q;
                assert(s[i] == q);
            } else {
                assert(s[s.len() - 1] == q);
            }
        }
        assert forall|q: Keyed| s.contains(q) implies #[trigger] sort_by_key(s).contains(q) by {
            let i = choose|i: int| 0 <= i < s.len() && s[i] == q;
            if i < s.len() - 1 {
                assert(d[i] == q);
                assert(d.contains(q));
            }
        }
        if distinct_keys(s) {
            assert forall|i: int, j: int| 0 <= i < j < d.len() implies d[i].0 != d[j].0 by {
                assert(d[i] == s[i] && d[j] == s[j]);
            }
            assert forall|i: int| 0 <= i < sd.len() implies sd[i].0 != s.last().0 by {
                assert(sd.contains(sd[i]));
                let m = choose|m: int| 0 <= m < d.len() && d[m] == sd[i];
                assert(s[m] == sd[i]);
                assert(s[m].0 != s[s.len() - 1].0);
            }
        }
    }
}

/// A sorted sequence with pairwise distinct keys is strictly increasing.
pub proof fn lemma_sorted_distinct_strict(s: Seq<Keyed>)
    requires
        sorted_by_key(s),
        distinct_keys(s),
    ensures
        forall|i: int, j: int| 0 <= i < j < s.len() ==> s[i].0 < s[j].0,
{
}

/// Appending a row and sorting is inserting it into the sorted prefix; this
/// is what lets the executable queries grow their result row by row.
pub proof fn lemma_sort_by_key_push(s: Seq<Keyed>, p: Keyed)
    ensures
        sort_by_key(s.push(p)) == insert_by_key(sort_by_key(s), p),
{
    assert(s.push(p).drop_last() =~= s);
    assert(s.push(p).last() == p);
}

/// Scanning for the first strictly greater key finds exactly the insertion
/// point of the specification.
proof fn lemma_insert_by_key_at(s: Seq<Keyed>, p: Keyed, j: int)
    requires
        0 <= j <= s.len(),
        forall|k: int| 0 <= k < j ==> s[k].0 <= p.0,
        j < s.len() ==> s[j].0 > p.0,
    ensures
        insert_by_key(s, p) == s.insert(j, p),
    decreases j,
{
    if j == 0 {
        if s.len() == 0 {
            assert(insert_by_key(s, p) =~= s.insert(0, p));
        } else {
            assert(insert_by_key(s, p) =~= s.insert(0, p));
        }
    } else {
        assert(s[0].0 <= p.0);
        assert forall|k: int| 0 <= k < j - 1 implies s.skip(1)[k].0 <= p.0 by {
            assert(s.skip(1)[k] == s[k + 1]);
        }
        assert(j - 1 < s.skip(1).len() ==> s.skip(1)[j - 1].0 > p.0);
        lemma_insert_by_key_at(s.skip(1), p, j - 1);
        assert(seq![s[0]] + s.skip(1).insert(j - 1, p) =~= s.insert(j, p));
    }
}

/// Inserts `p` into the sorted vector `v`; the new contents are exactly the
/// specification-level insertion.
pub fn insert_sorted(v: &mut Vec<Keyed>, p: Keyed)
    ensures
        final(v)@ == insert_by_key(old(v)@, p),
{
    let mut j: usize = 0;
    while j < v.len() && v[j].0 <= p.0
        invariant
            j <= v.len(),
            forall|k: int| 0 <= k < j ==> v@[k].0 <= p.0,
            v@ == old(v)@,
        decreases v.len() - j,
    {
        j = j + 1;
    }
    proof {
        lemma_insert_by_key_at(v@, p, j as int);
    }
    v.insert(j, p);
}

} // verus!
