//! The public face of the engine: the read-side queries over one ledger
//! store, mirroring the operations an API layer consumes.
//!
//! Every operation is a read-only function of the store value, so repeated
//! calls against an unchanged store return identical results; each
//! postcondition pins the result to a specification-level function of the
//! store alone.

use vstd::prelude::*;
use crate::model::{
    BlockMetadata, BlockSelector, Receipt, TransactionDetails, TransactionId, TransactionRecord,
};
use crate::nonce::{spec_next_nonce, walk_nonces};
use crate::order::{Keyed, sort_by_key};
use crate::paginate::{spec_arrival_pairs, spec_arrivals_page};
use crate::receipt::{receipt_matches, spec_receipt_block};
use crate::resolve::{
    Address, TxHash, gas_used, resolve_status, resolve_to_address, status_code,
};
use crate::store::{
    LedgerStore, spec_find_block_by_hash, spec_find_block_by_number, spec_find_record,
    spec_find_record_at, spec_find_settled_nonce, spec_find_settlement, spec_latest_block,
};
use crate::order::{insert_sorted, lemma_sort_by_key_push};

verus! {

/// The block row a selector names, if it names a stored one: by number, by
/// hash, or by tag. The pending block is still being built and has no
/// stored metadata, so the pending tag never resolves.
pub open spec fn spec_resolve_block_selector(store: LedgerStore, sel: BlockSelector) -> Option<BlockMetadata> {
    match sel {
        BlockSelector::Number(n) => spec_find_block_by_number(store.blocks@, n),
        BlockSelector::Hash(h) => spec_find_block_by_hash(store.blocks@, h),
        BlockSelector::Latest => spec_latest_block(store.blocks@),
        BlockSelector::Earliest => spec_find_block_by_number(store.blocks@, 0),
        BlockSelector::Pending => None,
    }
}

/// The record an identifier names: by hash directly; by position through
/// the named block. A position index wider than the storage's integer width
/// short-circuits to absence instead of overflowing.
pub open spec fn spec_transaction_of(store: LedgerStore, id: TransactionId) -> Option<TransactionRecord> {
    match id {
        TransactionId::Hash(h) => spec_find_record(store.records@, h),
        TransactionId::Position(sel, idx) => if idx > i32::MAX as u64 {
            None
        } else {
            match spec_resolve_block_selector(store, sel) {
                None => None,
                Some(b) => spec_find_record_at(store.records@, b.number, idx as u32),
            }
        },
    }
}

/// The detailed view of the record named by `h`: derived status, arrival
/// time, block identity, and the settlement hashes of its batch as far as
/// they exist.
pub open spec fn spec_details_of(store: LedgerStore, h: TxHash) -> Option<TransactionDetails> {
    match spec_find_record(store.records@, h) {
        None => None,
        Some(rec) => {
            let blk = spec_receipt_block(store, rec);
            let bh = match blk { Some(b) => Some(b.hash), None => None };
            let bn = match blk { Some(b) => b.batch_number, None => None };
            let stl = match bn {
                Some(b) => spec_find_settlement(store.settlements@, b),
                None => None,
            };
            Some(TransactionDetails {
                status: crate::resolve::spec_resolve_status(rec.block_number, rec.error is Some),
                received_at: rec.received_at,
                block_hash: bh,
                batch_number: bn,
                commit_tx_hash: match stl { Some(s) => s.commit_tx_hash, None => None },
                prove_tx_hash: match stl { Some(s) => s.prove_tx_hash, None => None },
                execute_tx_hash: match stl { Some(s) => s.execute_tx_hash, None => None },
            })
        },
    }
}

/// The (in-block index, row position) pairs of the rows included in block
/// `n`, in stream order: the payload names the row, the key orders the
/// result.
pub open spec fn spec_position_pairs(records: Seq<TransactionRecord>, n: u64) -> Seq<Keyed>
    decreases records.len(),
{
    if records.len() == 0 {
        Seq::empty()
    } else {
        let rest = spec_position_pairs(records.drop_last(), n);
        if records.last().block_number == Some(n) && records.last().index_in_block is Some {
            rest.push((records.last().index_in_block->0 as u64, (records.len() - 1) as u64))
        } else {
            rest
        }
    }
}

/// Each position pair names a stored row included in `n` under exactly that
/// in-block index.
pub proof fn lemma_position_pairs_props(records: Seq<TransactionRecord>, n: u64)
    requires
        records.len() <= u64::MAX,
    ensures
        forall|q: Keyed| #[trigger] spec_position_pairs(records, n).contains(q)
            <==> (q.1 < records.len()
                && records[q.1 as int].block_number == Some(n)
                && records[q.1 as int].index_in_block is Some
                && q.0 == records[q.1 as int].index_in_block->0 as u64),
    decreases records.len(),
{
    let out = spec_position_pairs(records, n);
    if records.len() > 0 {
        let d = records.drop_last();
        let rest = spec_position_pairs(d, n);
        lemma_position_pairs_props(d, n);
        let last = records.last();
        assert forall|q: Keyed| #[trigger] out.contains(q) implies
            (q.1 < records.len()
                && records[q.1 as int].block_number == Some(n)
                && records[q.1 as int].index_in_block is Some
                && q.0 == records[q.1 as int].index_in_block->0 as u64) by {
            let k = choose|k: int| 0 <= k < out.len() && out[k] == q;
            if last.block_number == Some(n) && last.index_in_block is Some && k == out.len() - 1 {
                assert(records[records.len() - 1] == last);
            } else {
                assert(rest[k] == q);
                assert(rest.contains(q));
                assert(records[q.1 as int] == d[q.1 as int]);
            }
        }
        assert forall|q: Keyed| (q.1 < records.len()
                && records[q.1 as int].block_number == Some(n)
                && records[q.1 as int].index_in_block is Some
                && q.0 == records[q.1 as int].index_in_block->0 as u64)
            implies #[trigger] out.contains(q) by {
            if q.1 == records.len() - 1 {
                assert(out[out.len() - 1] == q);
            } else {
                assert(d[q.1 as int] == records[q.1 as int]);
                assert(rest.contains(q));
                let k = choose|k: int| 0 <= k < rest.len() && rest[k] == q;
                assert(out[k] == q);
            }
        }
    }
}

/// The rows of block `n` ordered by their in-block index.
pub open spec fn spec_raw_miniblock_transactions(store: LedgerStore, n: u64) -> Seq<TransactionRecord> {
    sort_by_key(spec_position_pairs(store.records@, n)).map_values(
        |p: Keyed| store.records@[p.1 as int],
    )
}

impl LedgerStore {
    /// Resolves a block selector against the stored block rows.
    pub fn resolve_block_selector(&self, sel: BlockSelector) -> (r: Option<BlockMetadata>)
        ensures
            r == spec_resolve_block_selector(*self, sel),
    {
        match sel {
            BlockSelector::Number(n) => self.find_block_by_number(n),
            BlockSelector::Hash(h) => self.find_block_by_hash(h),
            BlockSelector::Latest => self.latest_block(),
            BlockSelector::Earliest => self.find_block_by_number(0),
            BlockSelector::Pending => None,
        }
    }
}

/// The read-side query interface over one ledger store.
pub struct TransactionsWeb3Dal {
    pub store: LedgerStore,
}

impl TransactionsWeb3Dal {
    /// Assembles the receipt of `hash`: core fields from the record joined
    /// with its block row, the best-effort contract hint, and both event
    /// streams filtered, ordered and stamped with the receipt's block
    /// identity. A missing hash is absence, not an error.
    pub fn get_transaction_receipt(&self, hash: TxHash) -> (r: Option<Receipt>)
        ensures
            match r {
                None => spec_find_record(self.store.records@, hash) is None,
                Some(rc) => spec_find_record(self.store.records@, hash) matches Some(rec)
                    && receipt_matches(self.store, rec, rc),
            },
    {
        let rec = match self.store.find_record_by_hash(hash) {
            None => { return None; },
            Some(rec) => rec,
        };
        let blk = match rec.block_number {
            Some(n) => self.store.find_block_by_number(n),
            None => None,
        };
        let block_hash = match blk { Some(b) => Some(b.hash), None => None };
        let batch_number = match blk { Some(b) => b.batch_number, None => None };
        let status = status_code(resolve_status(rec.block_number, rec.error));
        let to = resolve_to_address(rec.transfer_to, rec.deployed_contract);
        let gas = match rec.gas_limit {
            Some(l) => gas_used(l, rec.refunded_gas),
            None => None,
        };
        let price = match rec.effective_gas_price { Some(p) => p, None => 0 };
        let contract_address = self.store.contract_address_hint(rec.hash);
        let logs = self.store.stamped_logs(rec.hash, block_hash, batch_number);
        let messages = self.store.stamped_messages(rec.hash, block_hash, batch_number);
        Some(Receipt {
            transaction_hash: rec.hash,
            transaction_index: match rec.index_in_block { Some(i) => i as u64, None => 0 },
            block_hash,
            block_number: rec.block_number,
            batch_index: rec.index_in_batch,
            batch_number,
            from: rec.initiator,
            to,
            gas_used: gas,
            effective_gas_price: price,
            contract_address,
            logs,
            messages,
            status,
            root: block_hash,
            transaction_type: match rec.format { Some(t) => t as u64, None => 0 },
        })
    }

    /// Point lookup of a transaction by hash or by block position; an index
    /// beyond the storage's integer width yields absence.
    pub fn get_transaction(&self, transaction_id: TransactionId) -> (r: Option<TransactionRecord>)
        ensures
            r == spec_transaction_of(self.store, transaction_id),
    {
        match transaction_id {
            TransactionId::Hash(h) => self.store.find_record_by_hash(h),
            TransactionId::Position(sel, idx) => {
                if idx > i32::MAX as u64 {
                    None
                } else {
                    match self.store.resolve_block_selector(sel) {
                        None => None,
                        Some(b) => self.store.find_record_by_position(b.number, idx as u32),
                    }
                }
            },
        }
    }

    /// The detailed view of `hash`: status, arrival time, block identity and
    /// settlement progress.
    pub fn get_transaction_details(&self, hash: TxHash) -> (r: Option<TransactionDetails>)
        ensures
            r == spec_details_of(self.store, hash),
    {
        let rec = match self.store.find_record_by_hash(hash) {
            None => { return None; },
            Some(rec) => rec,
        };
        let blk = match rec.block_number {
            Some(n) => self.store.find_block_by_number(n),
            None => None,
        };
        let block_hash = match blk { Some(b) => Some(b.hash), None => None };
        let batch_number = match blk { Some(b) => b.batch_number, None => None };
        let stl = match batch_number {
            Some(b) => self.store.find_settlement(b),
            None => None,
        };
        Some(TransactionDetails {
            status: resolve_status(rec.block_number, rec.error),
            received_at: rec.received_at,
            block_hash,
            batch_number,
            commit_tx_hash: match stl { Some(s) => s.commit_tx_hash, None => None },
            prove_tx_hash: match stl { Some(s) => s.prove_tx_hash, None => None },
            execute_tx_hash: match stl { Some(s) => s.execute_tx_hash, None => None },
        })
    }

    /// Hashes of transactions received strictly after `from_timestamp`, in
    /// arrival order, at most `limit` of them, together with the arrival
    /// time of the last returned row as the continuation cursor. An empty
    /// page carries no cursor: no progress, retry later with the same one.
    pub fn get_pending_txs_hashes_after(&self, from_timestamp: u64, limit: Option<usize>) -> (r: (Vec<TxHash>, Option<u64>))
        ensures
            ({
                let page = spec_arrivals_page(self.store.records@, from_timestamp, limit);
                &&& r.0@.len() == page.len()
                &&& forall|j: int| 0 <= j < page.len() ==> r.0@[j] == (#[trigger] page[j]).1
                &&& r.1 == (if page.len() == 0 { None::<u64> } else { Some(page.last().0) })
            }),
    {
        let len = self.store.records.len();
        let mut sorted: Vec<Keyed> = Vec::new();
        let mut i: usize = 0;
        while i < len
            invariant
                i <= len,
                len == self.store.records@.len(),
                sorted@ == sort_by_key(spec_arrival_pairs(
                    self.store.records@.subrange(0, i as int), from_timestamp)),
            decreases len - i,
        {
            proof {
                assert(self.store.records@.subrange(0, i as int + 1).drop_last()
                    =~= self.store.records@.subrange(0, i as int));
                assert(self.store.records@.subrange(0, i as int + 1).last()
                    == self.store.records@[i as int]);
            }
            let rec = self.store.records[i];
            if rec.received_at > from_timestamp {
                let p = (rec.received_at, rec.hash);
                proof {
                    lemma_sort_by_key_push(
                        spec_arrival_pairs(
                            self.store.records@.subrange(0, i as int), from_timestamp),
                        p,
                    );
                    assert(spec_arrival_pairs(
                            self.store.records@.subrange(0, i as int), from_timestamp).push(p)
                        =~= spec_arrival_pairs(
                            self.store.records@.subrange(0, i as int + 1), from_timestamp));
                }
                insert_sorted(&mut sorted, p);
            }
            i = i + 1;
        }
        proof {
            assert(self.store.records@.subrange(0, len as int) =~= self.store.records@);
        }
        match limit {
            Some(l) => { sorted.truncate(l); },
            None => {},
        }
        let last = if sorted.len() == 0 {
            None
        } else {
            Some(sorted[sorted.len() - 1].0)
        };
        let mut hashes: Vec<TxHash> = Vec::new();
        let mut k: usize = 0;
        while k < sorted.len()
            invariant
                k <= sorted@.len(),
                hashes@.len() == k,
                forall|j: int| 0 <= j < k ==> hashes@[j] == (#[trigger] sorted@[j]).1,
            decreases sorted@.len() - k,
        {
            hashes.push(sorted[k].1);
            k = k + 1;
        }
        (hashes, last)
    }

    /// The next usable nonce of the account: the walk from its settled
    /// nonce over its ordered outstanding nonces. The caller names an
    /// account whose settled nonce is recorded.
    pub fn next_nonce_by_initiator_account(&self, initiator_address: Address) -> (r: u64)
        requires
            spec_find_settled_nonce(self.store.settled_nonces@, initiator_address) is Some,
        ensures
            r == spec_next_nonce(self.store, initiator_address),
    {
        let confirmed = match self.store.find_settled_nonce(initiator_address) {
            Some(c) => c,
            None => {
                proof { assert(false); }
                0
            },
        };
        let sorted = self.store.outstanding_nonces(initiator_address, confirmed);
        walk_nonces(&sorted, confirmed)
    }

    /// The rows included in block `miniblock`, ordered by their in-block
    /// index; empty when the block is unknown.
    pub fn get_raw_miniblock_transactions(&self, miniblock: u64) -> (r: Vec<TransactionRecord>)
        ensures
            r@ == spec_raw_miniblock_transactions(self.store, miniblock),
    {
        let len = self.store.records.len();
        let mut sorted: Vec<Keyed> = Vec::new();
        let mut i: usize = 0;
        while i < len
            invariant
                i <= len,
                len == self.store.records@.len(),
                sorted@ == sort_by_key(spec_position_pairs(
                    self.store.records@.subrange(0, i as int), miniblock)),
            decreases len - i,
        {
            proof {
                assert(self.store.records@.subrange(0, i as int + 1).drop_last()
                    =~= self.store.records@.subrange(0, i as int));
                assert(self.store.records@.subrange(0, i as int + 1).last()
                    == self.store.records@[i as int]);
            }
            let rec = self.store.records[i];
            let included = match rec.block_number { Some(b) => b == miniblock, None => false };
            match rec.index_in_block {
                Some(idx) if included => {
                    let p = (idx as u64, i as u64);
                    proof {
                        lemma_sort_by_key_push(
                            spec_position_pairs(
                                self.store.records@.subrange(0, i as int), miniblock),
                            p,
                        );
                        assert(spec_position_pairs(
                                self.store.records@.subrange(0, i as int), miniblock).push(p)
                            =~= spec_position_pairs(
                                self.store.records@.subrange(0, i as int + 1), miniblock));
                    }
                    insert_sorted(&mut sorted, p);
                },
                _ => {},
            }
            i = i + 1;
        }
        proof {
            assert(self.store.records@.subrange(0, len as int) =~= self.store.records@);
            assert(self.store.records@.len() <= u64::MAX);
            lemma_position_pairs_props(self.store.records@, miniblock);
            crate::order::lemma_sort_by_key_props(
                spec_position_pairs(self.store.records@, miniblock));
        }
        let mut out: Vec<TransactionRecord> = Vec::new();
        let mut k: usize = 0;
        while k < sorted.len()
            invariant
                k <= sorted@.len(),
                out@.len() == k,
                self.store.records@.len() <= usize::MAX,
                sorted@ == sort_by_key(spec_position_pairs(self.store.records@, miniblock)),
                forall|q: Keyed| #[trigger] spec_position_pairs(self.store.records@, miniblock)
                    .contains(q) ==> q.1 < self.store.records@.len(),
                forall|q: Keyed| #[trigger] sorted@.contains(q)
                    <==> spec_position_pairs(self.store.records@, miniblock).contains(q),
                forall|j: int| 0 <= j < k
                    ==> out@[j] == self.store.records@[(#[trigger] sorted@[j]).1 as int],
            decreases sorted@.len() - k,
        {
            proof {
                assert(sorted@.contains(sorted@[k as int]));
                assert(sorted@[k as int].1 < self.store.records@.len());
            }
            let idx = sorted[k].1 as usize;
            proof {
                assert(idx as int == sorted@[k as int].1 as int);
            }
            out.push(self.store.records[idx]);
            k = k + 1;
        }
        proof {
            assert(out@ =~= spec_raw_miniblock_transactions(self.store, miniblock));
        }
        out
    }
}

} // verus!
