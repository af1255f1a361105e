//! Receipt assembly: the specification of every assembled field, the
//! executable fetch helpers, and the stamping guarantees.
//!
//! A receipt is derived from one transaction row joined with its block row
//! (if any), a best-effort contract hint from the storage-write stream, and
//! the two event streams filtered by the transaction hash. Logs and messages
//! are block-agnostic at rest; the block identity they carry on the wire is
//! stamped on from the receipt context.

use vstd::prelude::*;
use crate::model::{
    ACCOUNT_CODE_STORAGE_ADDRESS, BlockHash, BlockMetadata, CrossDomainMessage,
    FAILED_CONTRACT_DEPLOYMENT_MARKER, LogEntry, Receipt, StampedLog, StampedMessage,
    StorageWrite, TransactionRecord,
};
use crate::resolve::{
    Address, TxHash, spec_gas_used, spec_resolve_status, spec_resolve_to_address,
    spec_status_code,
};
use crate::store::{
    LedgerStore, log_stream_ordered, message_streams_ordered, spec_find_block_by_number,
    spec_find_record, lemma_spec_find_record_props,
};

verus! {

/// A storage write that may name the contract touched by `h`: a write to the
/// reserved code-storage account, produced by `h`, not carrying the
/// failed-deployment sentinel.
pub open spec fn deployment_candidate(w: StorageWrite, h: TxHash) -> bool {
    &&& w.account == ACCOUNT_CODE_STORAGE_ADDRESS
    &&& w.tx_hash == h
    &&& w.value != FAILED_CONTRACT_DEPLOYMENT_MARKER
}

/// Strict "earlier in write order": by block, then by in-block position.
pub open spec fn write_order_lt(a: StorageWrite, b: StorageWrite) -> bool {
    a.block_number < b.block_number
        || (a.block_number == b.block_number && a.write_index < b.write_index)
}

/// The candidate write the hint selects: maximal in write order among the
/// candidates for `h`. The underlying design fixes no tie-break among writes
/// with an equal ordering key; this model resolves such ties by stream
/// position, keeping the earlier row — a choice callers must not rely on.
pub open spec fn spec_best_write(writes: Seq<StorageWrite>, h: TxHash) -> Option<StorageWrite>
    decreases writes.len(),
{
    if writes.len() == 0 {
        None
    } else {
        let prev = spec_best_write(writes.drop_last(), h);
        let w = writes.last();
        if deployment_candidate(w, h) && (prev is None || write_order_lt(prev->0, w)) {
            Some(w)
        } else {
            prev
        }
    }
}

/// The log rows of `h` in stream order, each stamped with the receipt's
/// block hash and batch number.
pub open spec fn spec_stamped_logs(
    logs: Seq<LogEntry>,
    h: TxHash,
    bh: Option<BlockHash>,
    bn: Option<u64>,
) -> Seq<StampedLog>
    decreases logs.len(),
{
    if logs.len() == 0 {
        Seq::empty()
    } else {
        let rest = spec_stamped_logs(logs.drop_last(), h, bh, bn);
        if logs.last().tx_hash == h {
            rest.push(StampedLog { log: logs.last(), block_hash: bh, batch_number: bn })
        } else {
            rest
        }
    }
}

/// The message rows of `h` in stream order, stamped identically.
pub open spec fn spec_stamped_messages(
    msgs: Seq<CrossDomainMessage>,
    h: TxHash,
    bh: Option<BlockHash>,
    bn: Option<u64>,
) -> Seq<StampedMessage>
    decreases msgs.len(),
{
    if msgs.len() == 0 {
        Seq::empty()
    } else {
        let rest = spec_stamped_messages(msgs.drop_last(), h, bh, bn);
        if msgs.last().tx_hash == h {
            rest.push(StampedMessage { message: msgs.last(), block_hash: bh, batch_number: bn })
        } else {
            rest
        }
    }
}

/// The block row a record's inclusion field points at, if it is stored.
pub open spec fn spec_receipt_block(store: LedgerStore, rec: TransactionRecord) -> Option<BlockMetadata> {
    match rec.block_number {
        None => None,
        Some(n) => spec_find_block_by_number(store.blocks@, n),
    }
}

/// Field-by-field characterization of the receipt assembled for the row
/// `rec` of `store`: every wire field is a function of the store value alone,
/// so assembly is deterministic.
pub open spec fn receipt_matches(store: LedgerStore, rec: TransactionRecord, r: Receipt) -> bool {
    let blk = spec_receipt_block(store, rec);
    let bh = match blk { Some(b) => Some(b.hash), None => None };
    let bn = match blk { Some(b) => b.batch_number, None => None };
    &&& r.transaction_hash == rec.hash
    &&& r.transaction_index == (match rec.index_in_block { Some(i) => i as u64, None => 0u64 })
    &&& r.block_hash == bh
    &&& r.block_number == rec.block_number
    &&& r.batch_index == rec.index_in_batch
    &&& r.batch_number == bn
    &&& r.from == rec.initiator
    &&& r.to == spec_resolve_to_address(rec.transfer_to, rec.deployed_contract)
    &&& r.gas_used == (match rec.gas_limit {
        Some(l) => spec_gas_used(l, rec.refunded_gas),
        None => None,
    })
    &&& r.effective_gas_price == (match rec.effective_gas_price { Some(p) => p, None => 0u64 })
    &&& r.contract_address == (match spec_best_write(store.storage_writes@, rec.hash) {
        Some(w) => Some(w.key),
        None => None,
    })
    &&& r.logs@ == spec_stamped_logs(store.logs@, rec.hash, bh, bn)
    &&& r.messages@ == spec_stamped_messages(store.messages@, rec.hash, bh, bn)
    &&& r.status == spec_status_code(spec_resolve_status(rec.block_number, rec.error is Some))
    &&& r.root == bh
    &&& r.transaction_type == (match rec.format { Some(t) => t as u64, None => 0u64 })
}

/// Every stamped log belongs to `h`, carries exactly the stamped block
/// identity, and is a row of the stream.
pub proof fn lemma_spec_stamped_logs_props(
    logs: Seq<LogEntry>,
    h: TxHash,
    bh: Option<BlockHash>,
    bn: Option<u64>,
)
    ensures
        forall|i: int| 0 <= i < spec_stamped_logs(logs, h, bh, bn).len()
            ==> {
                let sl = #[trigger] spec_stamped_logs(logs, h, bh, bn)[i];
                sl.block_hash == bh && sl.batch_number == bn && sl.log.tx_hash == h
                    && logs.contains(sl.log)
            },
    decreases logs.len(),
{
    if logs.len() > 0 {
        let d = logs.drop_last();
        lemma_spec_stamped_logs_props(d, h, bh, bn);
        assert forall|i: int| 0 <= i < d.len() implies logs.contains(d[i]) by {
            assert(logs[i] == d[i]);
        }
        assert(logs.contains(logs.last())) by {
            assert(logs[logs.len() - 1] == logs.last());
        }
    }
}

/// The message counterpart of [`lemma_spec_stamped_logs_props`].
pub proof fn lemma_spec_stamped_messages_props(
    msgs: Seq<CrossDomainMessage>,
    h: TxHash,
    bh: Option<BlockHash>,
    bn: Option<u64>,
)
    ensures
        forall|i: int| 0 <= i < spec_stamped_messages(msgs, h, bh, bn).len()
            ==> {
                let sm = #[trigger] spec_stamped_messages(msgs, h, bh, bn)[i];
                sm.block_hash == bh && sm.batch_number == bn && sm.message.tx_hash == h
                    && msgs.contains(sm.message)
            },
    decreases msgs.len(),
{
    if msgs.len() > 0 {
        let d = msgs.drop_last();
        lemma_spec_stamped_messages_props(d, h, bh, bn);
        assert forall|i: int| 0 <= i < d.len() implies msgs.contains(d[i]) by {
            assert(msgs[i] == d[i]);
        }
        assert(msgs.contains(msgs.last())) by {
            assert(msgs[msgs.len() - 1] == msgs.last());
        }
    }
}

/// An ordered log stream yields ordered attachments: the assembled logs
/// keep the stream's ordering key, ascending.
pub proof fn lemma_stamped_logs_ordered(
    logs: Seq<LogEntry>,
    h: TxHash,
    bh: Option<BlockHash>,
    bn: Option<u64>,
)
    requires
        log_stream_ordered(logs),
    ensures
        forall|i: int, j: int| 0 <= i < j < spec_stamped_logs(logs, h, bh, bn).len()
            ==> {
                let a = #[trigger] spec_stamped_logs(logs, h, bh, bn)[i].log;
                let b = #[trigger] spec_stamped_logs(logs, h, bh, bn)[j].log;
                a.block_number < b.block_number
                    || (a.block_number == b.block_number && a.index_in_block <= b.index_in_block)
            },
    decreases logs.len(),
{
    let out = spec_stamped_logs(logs, h, bh, bn);
    if logs.len() > 0 {
        let d = logs.drop_last();
        let rest = spec_stamped_logs(d, h, bh, bn);
        assert forall|i: int, j: int| 0 <= i < j < d.len() implies
            ((#[trigger] d[i]).block_number < (#[trigger] d[j]).block_number
                || (d[i].block_number == d[j].block_number
                    && d[i].index_in_block <= d[j].index_in_block)) by {
            assert(d[i] == logs[i] && d[j] == logs[j]);
        }
        lemma_stamped_logs_ordered(d, h, bh, bn);
        lemma_spec_stamped_logs_props(d, h, bh, bn);
        if logs.last().tx_hash == h {
            let last = logs.last();
            assert forall|i: int, j: int| #![trigger out[i], out[j]]
                0 <= i < j < out.len() implies {
                let a = out[i].log;
                let b = out[j].log;
                a.block_number < b.block_number
                    || (a.block_number == b.block_number && a.index_in_block <= b.index_in_block)
            } by {
                if j == out.len() - 1 {
                    assert(out[i] == rest[i]);
                    assert(d.contains(rest[i].log));
                    let m = choose|m: int| 0 <= m < d.len() && d[m] == rest[i].log;
                    assert(logs[m] == d[m]);
                    assert(logs[logs.len() - 1] == last);
                } else {
                    assert(out[i] == rest[i] && out[j] == rest[j]);
                }
            }
        }
    }
}

/// An in-transaction-ordered message stream yields ordered attachments:
/// all assembled messages belong to one transaction, so their in-transaction
/// indices ascend.
pub proof fn lemma_stamped_messages_ordered(
    msgs: Seq<CrossDomainMessage>,
    h: TxHash,
    bh: Option<BlockHash>,
    bn: Option<u64>,
)
    requires
        message_streams_ordered(msgs),
    ensures
        forall|i: int, j: int| 0 <= i < j < spec_stamped_messages(msgs, h, bh, bn).len()
            ==> (#[trigger] spec_stamped_messages(msgs, h, bh, bn)[i]).message.index_in_tx
                <= (#[trigger] spec_stamped_messages(msgs, h, bh, bn)[j]).message.index_in_tx,
    decreases msgs.len(),
{
    let out = spec_stamped_messages(msgs, h, bh, bn);
    if msgs.len() > 0 {
        let d = msgs.drop_last();
        let rest = spec_stamped_messages(d, h, bh, bn);
        assert forall|i: int, j: int| 0 <= i < j < d.len()
            && (#[trigger] d[i]).tx_hash == (#[trigger] d[j]).tx_hash
            implies d[i].index_in_tx <= d[j].index_in_tx by {
            assert(d[i] == msgs[i] && d[j] == msgs[j]);
        }
        lemma_stamped_messages_ordered(d, h, bh, bn);
        lemma_spec_stamped_messages_props(d, h, bh, bn);
        if msgs.last().tx_hash == h {
            let last = msgs.last();
            assert forall|i: int, j: int| 0 <= i < j < out.len() implies
                out[i].message.index_in_tx <= out[j].message.index_in_tx by {
                if j == out.len() - 1 {
                    assert(out[i] == rest[i]);
                    assert(d.contains(rest[i].message));
                    let m = choose|m: int| 0 <= m < d.len() && d[m] == rest[i].message;
                    assert(msgs[m] == d[m]);
                    assert(msgs[msgs.len() - 1] == last);
                    assert(msgs[m].tx_hash == msgs[msgs.len() - 1].tx_hash);
                } else {
                    assert(out[i] == rest[i] && out[j] == rest[j]);
                }
            }
        }
    }
}

/// Attached rows carry the assembled receipt's block identity: every log and
/// message of a receipt is stamped with the receipt's own block hash and
/// batch number, even though the raw rows carry none.
pub proof fn lemma_receipt_stamping(store: LedgerStore, rec: TransactionRecord, r: Receipt)
    requires
        receipt_matches(store, rec, r),
    ensures
        forall|i: int| 0 <= i < r.logs@.len()
            ==> (#[trigger] r.logs@[i]).block_hash == r.block_hash
                && r.logs@[i].batch_number == r.batch_number,
        forall|i: int| 0 <= i < r.messages@.len()
            ==> (#[trigger] r.messages@[i]).block_hash == r.block_hash
                && r.messages@[i].batch_number == r.batch_number,
{
    let blk = spec_receipt_block(store, rec);
    let bh = match blk { Some(b) => Some(b.hash), None => None };
    let bn = match blk { Some(b) => b.batch_number, None => None };
    lemma_spec_stamped_logs_props(store.logs@, rec.hash, bh, bn);
    lemma_spec_stamped_messages_props(store.messages@, rec.hash, bh, bn);
}

/// On a well-formed store the assembled attachments come out ordered: logs
/// by (block number, in-block index) ascending, messages by in-transaction
/// index ascending.
pub proof fn lemma_receipt_attachments_ordered(
    store: LedgerStore,
    rec: TransactionRecord,
    r: Receipt,
)
    requires
        store.logs_wf(),
        store.messages_wf(),
        receipt_matches(store, rec, r),
    ensures
        forall|i: int, j: int| #![trigger r.logs@[i], r.logs@[j]]
            0 <= i < j < r.logs@.len() ==> {
                let a = r.logs@[i].log;
                let b = r.logs@[j].log;
                a.block_number < b.block_number
                    || (a.block_number == b.block_number && a.index_in_block <= b.index_in_block)
            },
        forall|i: int, j: int| #![trigger r.messages@[i], r.messages@[j]]
            0 <= i < j < r.messages@.len()
            ==> r.messages@[i].message.index_in_tx <= r.messages@[j].message.index_in_tx,
{
    let blk = spec_receipt_block(store, rec);
    let bh = match blk { Some(b) => Some(b.hash), None => None };
    let bn = match blk { Some(b) => b.batch_number, None => None };
    lemma_stamped_logs_ordered(store.logs@, rec.hash, bh, bn);
    lemma_stamped_messages_ordered(store.messages@, rec.hash, bh, bn);
}

/// Receipt assembly is deterministic: any two receipts assembled for the
/// same record of the same store agree on every wire field, so repeated
/// calls against an unchanged store return identical results.
pub proof fn lemma_receipt_deterministic(
    store: LedgerStore,
    rec: TransactionRecord,
    r1: Receipt,
    r2: Receipt,
)
    requires
        receipt_matches(store, rec, r1),
        receipt_matches(store, rec, r2),
    ensures
        r1.transaction_hash == r2.transaction_hash,
        r1.transaction_index == r2.transaction_index,
        r1.block_hash == r2.block_hash,
        r1.block_number == r2.block_number,
        r1.batch_index == r2.batch_index,
        r1.batch_number == r2.batch_number,
        r1.from == r2.from,
        r1.to == r2.to,
        r1.gas_used == r2.gas_used,
        r1.effective_gas_price == r2.effective_gas_price,
        r1.contract_address == r2.contract_address,
        r1.logs@ == r2.logs@,
        r1.messages@ == r2.messages@,
        r1.status == r2.status,
        r1.root == r2.root,
        r1.transaction_type == r2.transaction_type,
{
}

/// The assembler never faces both address sources at once: in a well-formed
/// store the record found for any hash keeps the two mutually exclusive.
pub proof fn lemma_assembled_address_sources_exclusive(store: LedgerStore, h: TxHash)
    requires
        store.wf(),
        spec_find_record(store.records@, h) is Some,
    ensures
        !(spec_find_record(store.records@, h)->0.transfer_to is Some
            && spec_find_record(store.records@, h)->0.deployed_contract is Some),
{
    lemma_spec_find_record_props(store.records@, h);
    let rec = spec_find_record(store.records@, h)->0;
    let i = choose|i: int| 0 <= i < store.records@.len() && store.records@[i] == rec;
    assert(crate::model::record_wf(store.records@[i]));
}

impl LedgerStore {
    /// Best-effort contract touched by `h`, from the storage-write stream.
    /// Among candidate writes the most recent in write order wins; an equal
    /// ordering key keeps the earlier row, a tie-break callers must not rely
    /// on.
    pub fn contract_address_hint(&self, h: TxHash) -> (r: Option<Address>)
        ensures
            r == (match spec_best_write(self.storage_writes@, h) {
                Some(w) => Some(w.key),
                None => None,
            }),
    {
        let len = self.storage_writes.len();
        let mut best: Option<StorageWrite> = None;
        let mut i: usize = 0;
        while i < len
            invariant
                i <= len,
                len == self.storage_writes@.len(),
                best == spec_best_write(self.storage_writes@.subrange(0, i as int), h),
            decreases len - i,
        {
            proof {
                assert(self.storage_writes@.subrange(0, i as int + 1).drop_last()
                    =~= self.storage_writes@.subrange(0, i as int));
                assert(self.storage_writes@.subrange(0, i as int + 1).last()
                    == self.storage_writes@[i as int]);
            }
            let w = self.storage_writes[i];
            let candidate = w.account == ACCOUNT_CODE_STORAGE_ADDRESS && w.tx_hash == h
                && w.value != FAILED_CONTRACT_DEPLOYMENT_MARKER;
            let newer = match best {
                None => true,
                Some(b) => b.block_number < w.block_number
                    || (b.block_number == w.block_number && b.write_index < w.write_index),
            };
            if candidate && newer {
                best = Some(w);
            }
            i = i + 1;
        }
        proof {
            assert(self.storage_writes@.subrange(0, len as int) =~= self.storage_writes@);
        }
        match best {
            Some(w) => Some(w.key),
            None => None,
        }
    }

    /// The log rows of `h`, in stream order, stamped with the given block
    /// identity.
    pub fn stamped_logs(&self, h: TxHash, bh: Option<BlockHash>, bn: Option<u64>) -> (r: Vec<StampedLog>)
        ensures
            r@ == spec_stamped_logs(self.logs@, h, bh, bn),
    {
        let len = self.logs.len();
        let mut out: Vec<StampedLog> = Vec::new();
        let mut i: usize = 0;
        while i < len
            invariant
                i <= len,
                len == self.logs@.len(),
                out@ == spec_stamped_logs(self.logs@.subrange(0, i as int), h, bh, bn),
            decreases len - i,
        {
            proof {
                assert(self.logs@.subrange(0, i as int + 1).drop_last()
                    =~= self.logs@.subrange(0, i as int));
                assert(self.logs@.subrange(0, i as int + 1).last() == self.logs@[i as int]);
            }
            let l = self.logs[i];
            if l.tx_hash == h {
                out.push(StampedLog { log: l, block_hash: bh, batch_number: bn });
            }
            i = i + 1;
        }
        proof {
            assert(self.logs@.subrange(0, len as int) =~= self.logs@);
        }
        out
    }

    /// The message rows of `h`, in stream order, stamped identically.
    pub fn stamped_messages(&self, h: TxHash, bh: Option<BlockHash>, bn: Option<u64>) -> (r: Vec<StampedMessage>)
        ensures
            r@ == spec_stamped_messages(self.messages@, h, bh, bn),
    {
        let len = self.messages.len();
        let mut out: Vec<StampedMessage> = Vec::new();
        let mut i: usize = 0;
        while i < len
            invariant
                i <= len,
                len == self.messages@.len(),
                out@ == spec_stamped_messages(self.messages@.subrange(0, i as int), h, bh, bn),
            decreases len - i,
        {
            proof {
                assert(self.messages@.subrange(0, i as int + 1).drop_last()
                    =~= self.messages@.subrange(0, i as int));
                assert(self.messages@.subrange(0, i as int + 1).last() == self.messages@[i as int]);
            }
            let m = self.messages[i];
            if m.tx_hash == h {
                out.push(StampedMessage { message: m, block_hash: bh, batch_number: bn });
            }
            i = i + 1;
        }
        proof {
            assert(self.messages@.subrange(0, len as int) =~= self.messages@);
        }
        out
    }
}

} // verus!
