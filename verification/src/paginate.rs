//! The pending-arrival paginator: hashes of transactions received after a
//! cursor timestamp, in arrival order, with a continuation cursor.
//!
//! The filter is strictly greater-than on the arrival timestamp; the page is
//! bounded by the limit when one is given; the new cursor is the timestamp
//! of the last returned row, or absent when the page is empty — absence
//! means "no progress, retry later with the same cursor".

use vstd::prelude::*;
use crate::model::TransactionRecord;
use crate::order::{Keyed, sort_by_key};

verus! {

/// The (arrival timestamp, hash) pairs of rows received strictly after `t`,
/// in stream order.
pub open spec fn spec_arrival_pairs(records: Seq<TransactionRecord>, t: u64) -> Seq<Keyed>
    decreases records.len(),
{
    if records.len() == 0 {
        Seq::empty()
    } else {
        let rest = spec_arrival_pairs(records.drop_last(), t);
        if records.last().received_at > t {
            rest.push((records.last().received_at, records.last().hash))
        } else {
            rest
        }
    }
}

/// The page itself: the matching arrivals ordered by timestamp (stream
/// position breaking ties), cut to the limit when one is given.
pub open spec fn spec_arrivals_page(records: Seq<TransactionRecord>, t: u64, limit: Option<usize>) -> Seq<Keyed> {
    let sorted = sort_by_key(spec_arrival_pairs(records, t));
    match limit {
        None => sorted,
        Some(l) => if l <= sorted.len() {
            sorted.subrange(0, l as int)
        } else {
            sorted
        },
    }
}

/// The page is ordered by arrival timestamp, and every entry on it is a
/// stored row that arrived strictly after the cursor.
pub proof fn lemma_arrivals_page_props(records: Seq<TransactionRecord>, t: u64, limit: Option<usize>)
    ensures
        forall|j1: int, j2: int|
            0 <= j1 < j2 < spec_arrivals_page(records, t, limit).len()
            ==> spec_arrivals_page(records, t, limit)[j1].0
                <= spec_arrivals_page(records, t, limit)[j2].0,
        forall|j: int| 0 <= j < spec_arrivals_page(records, t, limit).len()
            ==> exists|i: int| 0 <= i < records.len()
                && (#[trigger] records[i]).received_at
                    == (#[trigger] spec_arrivals_page(records, t, limit)[j]).0
                && records[i].hash == spec_arrivals_page(records, t, limit)[j].1
                && records[i].received_at > t,
{
    let pairs = spec_arrival_pairs(records, t);
    let sorted = sort_by_key(pairs);
    let page = spec_arrivals_page(records, t, limit);
    crate::order::lemma_sort_by_key_props(pairs);
    lemma_arrival_pairs_props(records, t);
    assert forall|j: int| 0 <= j < page.len() implies
        exists|i: int| 0 <= i < records.len()
            && (#[trigger] records[i]).received_at == (#[trigger] page[j]).0
            && records[i].hash == page[j].1
            && records[i].received_at > t by {
        assert(page[j] == sorted[j]);
        assert(sorted.contains(sorted[j]));
        assert(pairs.contains(sorted[j]));
    }
}

/// Every arrival pair is a row received after `t`, carrying that row's hash.
pub proof fn lemma_arrival_pairs_props(records: Seq<TransactionRecord>, t: u64)
    ensures
        forall|q: Keyed| #[trigger] spec_arrival_pairs(records, t).contains(q)
            <==> exists|i: int| 0 <= i < records.len()
                && (#[trigger] records[i]).received_at == q.0 && records[i].hash == q.1
                && records[i].received_at > t,
    decreases records.len(),
{
    let out = spec_arrival_pairs(records, t);
    if records.len() > 0 {
        let d = records.drop_last();
        let rest = spec_arrival_pairs(d, t);
        lemma_arrival_pairs_props(d, t);
        let last = records.last();
        assert forall|q: Keyed| #[trigger] out.contains(q) implies
            exists|i: int| 0 <= i < records.len()
                && (#[trigger] records[i]).received_at == q.0 && records[i].hash == q.1
                && records[i].received_at > t by {
            let k = choose|k: int| 0 <= k < out.len() && out[k] == q;
            if last.received_at > t && k == out.len() - 1 {
                assert(records[records.len() - 1] == last);
            } else {
                assert(rest[k] == q);
                assert(rest.contains(q));
                let i = choose|i: int| 0 <= i < d.len()
                    && (#[trigger] d[i]).received_at == q.0 && d[i].hash == q.1
                    && d[i].received_at > t;
                assert(records[i] == d[i]);
            }
        }
        assert forall|q: Keyed| (exists|i: int| 0 <= i < records.len()
                && (#[trigger] records[i]).received_at == q.0 && records[i].hash == q.1
                && records[i].received_at > t)
            implies #[trigger] out.contains(q) by {
            let i = choose|i: int| 0 <= i < records.len()
                && (#[trigger] records[i]).received_at == q.0 && records[i].hash == q.1
                && records[i].received_at > t;
            if i == records.len() - 1 {
                assert(out[out.len() - 1] == q);
            } else {
                assert(d[i] == records[i]);
                assert(rest.contains(q));
                let k = choose|k: int| 0 <= k < rest.len() && rest[k] == q;
                assert(out[k] == q);
            }
        }
    }
}

} // verus!
