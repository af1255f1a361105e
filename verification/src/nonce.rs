//! The nonce gap resolver: the smallest usable nonce of an account.
//!
//! Starting from the authoritative settled nonce — below which the ledger is
//! guaranteed gap-free — the resolver walks the account's outstanding
//! (non-priority, non-rejected) nonces in ascending order and stops at the
//! first gap. [`lemma_next_nonce_properties`] states the correctness of the
//! whole pipeline: the result is the smallest nonce at or above the settled
//! one that no outstanding transaction consumes.

use vstd::prelude::*;
use crate::model::{TransactionRecord, record_rejected};
use crate::order::{
    Keyed, contains_key, distinct_keys, insert_sorted, lemma_sort_by_key_props,
    lemma_sort_by_key_push, lemma_sorted_distinct_strict, sort_by_key,
};
use crate::resolve::Address;
use crate::store::{LedgerStore, spec_find_settled_nonce};

verus! {

/// An outstanding transaction of `account` at or above `min`: submitted by
/// the account, non-priority, and not rejected.
pub open spec fn outstanding(r: TransactionRecord, account: Address, min: u64) -> bool {
    &&& r.initiator == account
    &&& r.nonce >= min
    &&& !r.is_priority
    &&& !record_rejected(r)
}

/// The nonce of every outstanding row, paired with a zero payload, in stream
/// order.
pub open spec fn spec_outstanding_pairs(records: Seq<TransactionRecord>, account: Address, min: u64) -> Seq<Keyed>
    decreases records.len(),
{
    if records.len() == 0 {
        Seq::empty()
    } else {
        let rest = spec_outstanding_pairs(records.drop_last(), account, min);
        if outstanding(records.last(), account, min) {
            rest.push((records.last().nonce, 0u64))
        } else {
            rest
        }
    }
}

/// The cursor walk over an ordered nonce list: each element equal to the
/// cursor consumes it and advances; the first other element stops the walk.
pub open spec fn spec_walk(s: Seq<Keyed>, c: u64) -> u64
    decreases s.len(),
{
    if s.len() == 0 {
        c
    } else if s[0].0 == c && c < u64::MAX {
        spec_walk(s.skip(1), (c + 1) as u64)
    } else {
        c
    }
}

/// Some outstanding transaction of `account` (at or above `min`) carries the
/// nonce `m`.
pub open spec fn nonce_consumed(records: Seq<TransactionRecord>, account: Address, min: u64, m: u64) -> bool {
    exists|i: int| 0 <= i < records.len()
        && outstanding(#[trigger] records[i], account, min) && records[i].nonce == m
}

/// The next usable nonce of `account`: the walk from its settled nonce over
/// its ordered outstanding nonces. Meaningful when a settled nonce is
/// recorded for the account.
pub open spec fn spec_next_nonce(store: LedgerStore, account: Address) -> u64 {
    let c = spec_find_settled_nonce(store.settled_nonces@, account)->0;
    spec_walk(sort_by_key(spec_outstanding_pairs(store.records@, account, c)), c)
}

/// The outstanding pairs are exactly the outstanding nonces, are no more
/// numerous than the rows, sit at or above `min`, and — when the ledger
/// keeps outstanding nonces of one account distinct — carry distinct keys.
pub proof fn lemma_outstanding_pairs_props(records: Seq<TransactionRecord>, account: Address, min: u64)
    requires
        forall|i: int, j: int| 0 <= i < j < records.len()
            && !(#[trigger] records[i]).is_priority
            && !(#[trigger] records[j]).is_priority
            && !record_rejected(records[i]) && !record_rejected(records[j])
            && records[i].initiator == records[j].initiator
            ==> records[i].nonce != records[j].nonce,
    ensures
        spec_outstanding_pairs(records, account, min).len() <= records.len(),
        forall|q: Keyed| #[trigger] spec_outstanding_pairs(records, account, min).contains(q)
            <==> (q.1 == 0 && exists|i: int| 0 <= i < records.len()
                && outstanding(#[trigger] records[i], account, min) && records[i].nonce == q.0),
        distinct_keys(spec_outstanding_pairs(records, account, min)),
    decreases records.len(),
{
    let out = spec_outstanding_pairs(records, account, min);
    if records.len() > 0 {
        let d = records.drop_last();
        let rest = spec_outstanding_pairs(d, account, min);
        assert forall|i: int, j: int| 0 <= i < j < d.len()
            && !(#[trigger] d[i]).is_priority && !(#[trigger] d[j]).is_priority
            && !record_rejected(d[i]) && !record_rejected(d[j])
            && d[i].initiator == d[j].initiator
            implies d[i].nonce != d[j].nonce by {
            assert(d[i] == records[i] && d[j] == records[j]);
        }
        lemma_outstanding_pairs_props(d, account, min);
        let last = records.last();
        assert forall|q: Keyed| #[trigger] out.contains(q) implies
            (q.1 == 0 && exists|i: int| 0 <= i < records.len()
                && outstanding(#[trigger] records[i], account, min) && records[i].nonce == q.0) by {
            let k = choose|k: int| 0 <= k < out.len() && out[k] == q;
            if outstanding(last, account, min) && k == out.len() - 1 {
                assert(q == (last.nonce, 0u64));
                assert(records[records.len() - 1] == last);
                assert(outstanding(records[records.len() - 1], account, min));
            } else {
                assert(rest[k] == q);
                assert(rest.contains(q));
                let i = choose|i: int| 0 <= i < d.len()
                    && outstanding(#[trigger] d[i], account, min) && d[i].nonce == q.0;
                assert(records[i] == d[i]);
                assert(outstanding(records[i], account, min));
            }
        }
        assert forall|q: Keyed| (q.1 == 0 && exists|i: int| 0 <= i < records.len()
                && outstanding(#[trigger] records[i], account, min) && records[i].nonce == q.0)
            implies #[trigger] out.contains(q) by {
            let i = choose|i: int| 0 <= i < records.len()
                && outstanding(#[trigger] records[i], account, min) && records[i].nonce == q.0;
            if i == records.len() - 1 {
                assert(out[out.len() - 1] == q);
            } else {
                assert(d[i] == records[i]);
                assert(outstanding(d[i], account, min) && d[i].nonce == q.0);
                assert(rest.contains(q));
                let k = choose|k: int| 0 <= k < rest.len() && rest[k] == q;
                assert(out[k] == q);
            }
        }
        if outstanding(last, account, min) {
            assert forall|i: int, j: int| 0 <= i < j < out.len() implies out[i].0 != out[j].0 by {
                if j == out.len() - 1 {
                    assert(out[i] == rest[i]);
                    assert(rest.contains(rest[i]));
                    let m = choose|m: int| 0 <= m < d.len()
                        && outstanding(#[trigger] d[m], account, min) && d[m].nonce == rest[i].0;
                    assert(records[m] == d[m]);
                    assert(records[m].nonce != records[records.len() - 1].nonce);
                } else {
                    assert(out[i] == rest[i] && out[j] == rest[j]);
                }
            }
        }
    }
}

/// The walk over a strictly ascending list of nonces at or above `c` finds
/// the first gap: the result is not consumed by any listed nonce, and every
/// nonce from `c` up to it is listed.
pub proof fn lemma_walk_first_gap(s: Seq<Keyed>, c: u64)
    requires
        forall|i: int, j: int| 0 <= i < j < s.len() ==> s[i].0 < s[j].0,
        forall|i: int| 0 <= i < s.len() ==> (#[trigger] s[i]).0 >= c,
        c + s.len() <= u64::MAX,
    ensures
        c <= spec_walk(s, c) <= c + s.len(),
        !contains_key(s, spec_walk(s, c)),
        forall|m: u64| c <= m < spec_walk(s, c) ==> #[trigger] contains_key(s, m),
    decreases s.len(),
{
    let w = spec_walk(s, c);
    if s.len() == 0 {
    } else if s[0].0 == c {
        assert(c < u64::MAX);
        let t = s.skip(1);
        assert forall|i: int, j: int| 0 <= i < j < t.len() implies t[i].0 < t[j].0 by {
            assert(t[i] == s[i + 1] && t[j] == s[j + 1]);
        }
        assert forall|i: int| 0 <= i < t.len() implies (#[trigger] t[i]).0 >= c + 1 by {
            assert(t[i] == s[i + 1]);
            assert(s[0].0 < s[i + 1].0);
        }
        lemma_walk_first_gap(t, (c + 1) as u64);
        assert(w == spec_walk(t, (c + 1) as u64));
        if contains_key(s, w) {
            let i = choose|i: int| 0 <= i < s.len() && s[i].0 == w;
            if i == 0 {
                assert(c == w);
                assert(w >= c + 1);
            } else {
                assert(t[i - 1] == s[i]);
                assert(contains_key(t, w));
            }
        }
        assert forall|m: u64| c <= m < w implies #[trigger] contains_key(s, m) by {
            if m == c {
                assert(s[0].0 == m);
            } else {
                assert(contains_key(t, m));
                let j = choose|j: int| 0 <= j < t.len() && t[j].0 == m;
                assert(s[j + 1] == t[j]);
            }
        }
    } else {
        assert(w == c);
        if contains_key(s, c) {
            let i = choose|i: int| 0 <= i < s.len() && s[i].0 == c;
            if i > 0 {
                assert(s[0].0 < s[i].0);
                assert(s[0].0 >= c);
            }
        }
    }
}

impl LedgerStore {
    /// The outstanding nonces of `account` at or above `min`, ordered
    /// ascending.
    pub fn outstanding_nonces(&self, account: Address, min: u64) -> (r: Vec<Keyed>)
        ensures
            r@ == sort_by_key(spec_outstanding_pairs(self.records@, account, min)),
    {
        let len = self.records.len();
        let mut out: Vec<Keyed> = Vec::new();
        let mut i: usize = 0;
        while i < len
            invariant
                i <= len,
                len == self.records@.len(),
                out@ == sort_by_key(spec_outstanding_pairs(
                    self.records@.subrange(0, i as int), account, min)),
            decreases len - i,
        {
            proof {
                assert(self.records@.subrange(0, i as int + 1).drop_last()
                    =~= self.records@.subrange(0, i as int));
                assert(self.records@.subrange(0, i as int + 1).last() == self.records@[i as int]);
            }
            let r = self.records[i];
            let rejected = r.error.is_some() && r.block_number.is_none();
            if r.initiator == account && r.nonce >= min && !r.is_priority && !rejected {
                let p = (r.nonce, 0u64);
                proof {
                    lemma_sort_by_key_push(
                        spec_outstanding_pairs(self.records@.subrange(0, i as int), account, min),
                        p,
                    );
                    assert(spec_outstanding_pairs(self.records@.subrange(0, i as int), account, min)
                        .push(p)
                        =~= spec_outstanding_pairs(
                            self.records@.subrange(0, i as int + 1), account, min));
                }
                insert_sorted(&mut out, p);
            }
            i = i + 1;
        }
        proof {
            assert(self.records@.subrange(0, len as int) =~= self.records@);
        }
        out
    }
}

/// Walks the ordered nonce list from `confirmed`, advancing past each
/// consumed nonce and stopping at the first gap.
pub fn walk_nonces(v: &Vec<Keyed>, confirmed: u64) -> (r: u64)
    ensures
        r == spec_walk(v@, confirmed),
{
    let n = v.len();
    let mut cursor = confirmed;
    let mut i: usize = 0;
    let mut done = false;
    proof {
        assert(v@.skip(0) =~= v@);
    }
    while i < n && !done
        invariant
            i <= n,
            n == v@.len(),
            !done ==> spec_walk(v@, confirmed) == spec_walk(v@.skip(i as int), cursor),
            done ==> spec_walk(v@, confirmed) == cursor,
        decreases n - i, (if done { 0int } else { 1int }),
    {
        if v[i].0 == cursor && cursor < u64::MAX {
            proof {
                assert(v@.skip(i as int)[0] == v@[i as int]);
                assert(v@.skip(i as int).skip(1) =~= v@.skip(i as int + 1));
            }
            cursor = cursor + 1;
            i = i + 1;
        } else {
            proof {
                assert(v@.skip(i as int)[0] == v@[i as int]);
            }
            done = true;
        }
    }
    proof {
        if !done {
            assert(v@.skip(n as int).len() == 0);
        }
    }
    cursor
}

/// Correctness of the whole resolver pipeline on a well-formed store with a
/// recorded settled nonce: the next nonce is at or above the settled one,
/// is consumed by no outstanding transaction of the account, and every nonce
/// between the settled one and it is consumed — it is the first gap.
pub proof fn lemma_next_nonce_properties(store: LedgerStore, account: Address)
    requires
        store.wf(),
        spec_find_settled_nonce(store.settled_nonces@, account) is Some,
        spec_find_settled_nonce(store.settled_nonces@, account)->0 + store.records@.len()
            <= u64::MAX,
    ensures
        ({
            let c = spec_find_settled_nonce(store.settled_nonces@, account)->0;
            let n = spec_next_nonce(store, account);
            &&& c <= n <= c + store.records@.len()
            &&& !nonce_consumed(store.records@, account, c, n)
            &&& forall|m: u64| c <= m < n
                ==> #[trigger] nonce_consumed(store.records@, account, c, m)
        }),
{
    let c = spec_find_settled_nonce(store.settled_nonces@, account)->0;
    let pairs = spec_outstanding_pairs(store.records@, account, c);
    let sorted = sort_by_key(pairs);
    let n = spec_next_nonce(store, account);
    lemma_outstanding_pairs_props(store.records@, account, c);
    lemma_sort_by_key_props(pairs);
    assert forall|i: int, j: int| 0 <= i < j < sorted.len() implies sorted[i].0 != sorted[j].0 by {
        assert(distinct_keys(sorted));
    }
    lemma_sorted_distinct_strict(sorted);
    assert forall|i: int| 0 <= i < sorted.len() implies (#[trigger] sorted[i]).0 >= c by {
        assert(sorted.contains(sorted[i]));
        assert(pairs.contains(sorted[i]));
        let m = choose|m: int| 0 <= m < store.records@.len()
            && outstanding(#[trigger] store.records@[m], account, c)
            && store.records@[m].nonce == sorted[i].0;
        assert(store.records@[m].nonce >= c);
    }
    lemma_walk_first_gap(sorted, c);
    assert(n == spec_walk(sorted, c));
    if nonce_consumed(store.records@, account, c, n) {
        let q = (n, 0u64);
        assert(pairs.contains(q));
        assert(sorted.contains(q));
        let k = choose|k: int| 0 <= k < sorted.len() && sorted[k] == q;
        assert(contains_key(sorted, n));
    }
    assert forall|m: u64| c <= m < n implies
        #[trigger] nonce_consumed(store.records@, account, c, m) by {
        assert(contains_key(sorted, m));
        let k = choose|k: int| 0 <= k < sorted.len() && sorted[k].0 == m;
        assert(sorted.contains(sorted[k]));
        assert(pairs.contains(sorted[k]));
    }
}

} // verus!
