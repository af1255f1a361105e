//! The in-memory model of the ledger: row collections plus the invariants
//! the writer side maintains, and the point lookups the queries compose.
//!
//! Rows live in admission order. Lookups return the first match; under
//! well-formedness the match is unique wherever the queries rely on it.

use vstd::prelude::*;
use crate::model::{
    AccountNonce, BlockMetadata, CrossDomainMessage, LogEntry, SettlementRecord, StorageWrite,
    TransactionRecord, record_rejected, record_wf,
};
use crate::resolve::{Address, TxHash};

verus! {

/// The ledger as this engine reads it: append-only row collections. The
/// engine itself holds no other state, and never writes.
pub struct LedgerStore {
    /// One row per submitted transaction.
    pub records: Vec<TransactionRecord>,
    /// One row per produced block.
    pub blocks: Vec<BlockMetadata>,
    /// The storage-mutation stream, in write order.
    pub storage_writes: Vec<StorageWrite>,
    /// The application-log stream, ordered by its ordering key.
    pub logs: Vec<LogEntry>,
    /// The cross-domain message stream.
    pub messages: Vec<CrossDomainMessage>,
    /// Settlement progress per batch.
    pub settlements: Vec<SettlementRecord>,
    /// Authoritative per-account nonces at the last settled state.
    pub settled_nonces: Vec<AccountNonce>,
}

impl LedgerStore {
    /// Transaction rows: well-formed, uniquely hashed, at most one row per
    /// block position, and no duplicate nonce among one account's
    /// outstanding (non-priority, non-rejected) transactions.
    pub open spec fn records_wf(self) -> bool {
        &&& forall|i: int| 0 <= i < self.records@.len() ==> record_wf(#[trigger] self.records@[i])
        &&& forall|i: int, j: int| 0 <= i < j < self.records@.len()
            ==> (#[trigger] self.records@[i]).hash != (#[trigger] self.records@[j]).hash
        &&& forall|i: int, j: int| 0 <= i < j < self.records@.len()
            && (#[trigger] self.records@[i]).block_number is Some
            && self.records@[i].block_number == (#[trigger] self.records@[j]).block_number
            ==> self.records@[i].index_in_block != self.records@[j].index_in_block
        &&& forall|i: int, j: int| 0 <= i < j < self.records@.len()
            && !(#[trigger] self.records@[i]).is_priority
            && !(#[trigger] self.records@[j]).is_priority
            && !record_rejected(self.records@[i]) && !record_rejected(self.records@[j])
            && self.records@[i].initiator == self.records@[j].initiator
            ==> self.records@[i].nonce != self.records@[j].nonce
    }

    /// Block rows: numbers and hashes are unique.
    pub open spec fn blocks_wf(self) -> bool {
        &&& forall|i: int, j: int| 0 <= i < j < self.blocks@.len()
            ==> (#[trigger] self.blocks@[i]).number != (#[trigger] self.blocks@[j]).number
        &&& forall|i: int, j: int| 0 <= i < j < self.blocks@.len()
            ==> (#[trigger] self.blocks@[i]).hash != (#[trigger] self.blocks@[j]).hash
    }

    /// The log stream rests ordered by its ordering key (block number, then
    /// in-block index): rows are appended as blocks are produced.
    pub open spec fn logs_wf(self) -> bool {
        log_stream_ordered(self.logs@)
    }

    /// Messages of one transaction rest in in-transaction order.
    pub open spec fn messages_wf(self) -> bool {
        message_streams_ordered(self.messages@)
    }

    /// Settlement rows: one per batch; settled nonces: one per account.
    pub open spec fn settlement_wf(self) -> bool {
        &&& forall|i: int, j: int| 0 <= i < j < self.settlements@.len()
            ==> (#[trigger] self.settlements@[i]).batch_number
                != (#[trigger] self.settlements@[j]).batch_number
        &&& forall|i: int, j: int| 0 <= i < j < self.settled_nonces@.len()
            ==> (#[trigger] self.settled_nonces@[i]).account
                != (#[trigger] self.settled_nonces@[j]).account
    }

    /// Everything the writer side guarantees of a store this engine reads.
    pub open spec fn wf(self) -> bool {
        &&& self.records_wf()
        &&& self.blocks_wf()
        &&& self.logs_wf()
        &&& self.messages_wf()
        &&& self.settlement_wf()
    }
}

/// The log stream's ordering key never decreases along the stream: block
/// number first, in-block index second.
pub open spec fn log_stream_ordered(logs: Seq<LogEntry>) -> bool {
    forall|i: int, j: int| 0 <= i < j < logs.len()
        ==> ((#[trigger] logs[i]).block_number < (#[trigger] logs[j]).block_number
            || (logs[i].block_number == logs[j].block_number
                && logs[i].index_in_block <= logs[j].index_in_block))
}

/// Within each transaction, the message stream rests in in-transaction
/// order.
pub open spec fn message_streams_ordered(msgs: Seq<CrossDomainMessage>) -> bool {
    forall|i: int, j: int| 0 <= i < j < msgs.len()
        && (#[trigger] msgs[i]).tx_hash == (#[trigger] msgs[j]).tx_hash
        ==> msgs[i].index_in_tx <= msgs[j].index_in_tx
}

/// First transaction row carrying `h`; under well-formedness, the only one.
pub open spec fn spec_find_record(records: Seq<TransactionRecord>, h: TxHash) -> Option<TransactionRecord>
    decreases records.len(),
{
    if records.len() == 0 {
        None
    } else if records[0].hash == h {
        Some(records[0])
    } else {
        spec_find_record(records.skip(1), h)
    }
}

/// First transaction row included in block `n` at position `idx`.
pub open spec fn spec_find_record_at(records: Seq<TransactionRecord>, n: u64, idx: u32) -> Option<TransactionRecord>
    decreases records.len(),
{
    if records.len() == 0 {
        None
    } else if records[0].block_number == Some(n) && records[0].index_in_block == Some(idx) {
        Some(records[0])
    } else {
        spec_find_record_at(records.skip(1), n, idx)
    }
}

/// First block row numbered `n`.
pub open spec fn spec_find_block_by_number(blocks: Seq<BlockMetadata>, n: u64) -> Option<BlockMetadata>
    decreases blocks.len(),
{
    if blocks.len() == 0 {
        None
    } else if blocks[0].number == n {
        Some(blocks[0])
    } else {
        spec_find_block_by_number(blocks.skip(1), n)
    }
}

/// First block row hashed `h`.
pub open spec fn spec_find_block_by_hash(blocks: Seq<BlockMetadata>, h: u64) -> Option<BlockMetadata>
    decreases blocks.len(),
{
    if blocks.len() == 0 {
        None
    } else if blocks[0].hash == h {
        Some(blocks[0])
    } else {
        spec_find_block_by_hash(blocks.skip(1), h)
    }
}

/// The highest-numbered block row, if any.
pub open spec fn spec_latest_block(blocks: Seq<BlockMetadata>) -> Option<BlockMetadata>
    decreases blocks.len(),
{
    if blocks.len() == 0 {
        None
    } else {
        let prev = spec_latest_block(blocks.drop_last());
        match prev {
            None => Some(blocks.last()),
            Some(pb) => if blocks.last().number > pb.number {
                Some(blocks.last())
            } else {
                Some(pb)
            },
        }
    }
}

/// First settlement row of batch `bn`.
pub open spec fn spec_find_settlement(rows: Seq<SettlementRecord>, bn: u64) -> Option<SettlementRecord>
    decreases rows.len(),
{
    if rows.len() == 0 {
        None
    } else if rows[0].batch_number == bn {
        Some(rows[0])
    } else {
        spec_find_settlement(rows.skip(1), bn)
    }
}

/// The settled nonce recorded for `a`, if any.
pub open spec fn spec_find_settled_nonce(rows: Seq<AccountNonce>, a: Address) -> Option<u64>
    decreases rows.len(),
{
    if rows.len() == 0 {
        None
    } else if rows[0].account == a {
        Some(rows[0].nonce)
    } else {
        spec_find_settled_nonce(rows.skip(1), a)
    }
}

/// A found record is a row of the ledger with the looked-up hash; a miss
/// means no row carries it.
pub proof fn lemma_spec_find_record_props(records: Seq<TransactionRecord>, h: TxHash)
    ensures
        match spec_find_record(records, h) {
            Some(r) => records.contains(r) && r.hash == h,
            None => forall|i: int| 0 <= i < records.len() ==> records[i].hash != h,
        },
    decreases records.len(),
{
    if records.len() > 0 {
        if records[0].hash == h {
            assert(records.contains(records[0]));
        } else {
            lemma_spec_find_record_props(records.skip(1), h);
            match spec_find_record(records.skip(1), h) {
                Some(r) => {
                    let i = choose|i: int| 0 <= i < records.skip(1).len() && records.skip(1)[i] == r;
                    assert(records[i + 1] == r);
                    assert(records.contains(r));
                }
                None => {
                    assert forall|i: int| 0 <= i < records.len() implies records[i].hash != h by {
                        if i > 0 {
                            assert(records.skip(1)[i - 1] == records[i]);
                        }
                    }
                }
            }
        }
    }
}

impl LedgerStore {
    /// Point lookup of a transaction row by hash.
    pub fn find_record_by_hash(&self, h: TxHash) -> (r: Option<TransactionRecord>)
        ensures
            r == spec_find_record(self.records@, h),
    {
        let n = self.records.len();
        let mut i: usize = 0;
        proof {
            assert(self.records@.skip(0) =~= self.records@);
        }
        while i < n
            invariant
                i <= n,
                n == self.records@.len(),
                spec_find_record(self.records@, h)
                    == spec_find_record(self.records@.skip(i as int), h),
            decreases n - i,
        {
            if self.records[i].hash == h {
                return Some(self.records[i]);
            }
            proof {
                assert(self.records@.skip(i as int).skip(1) =~= self.records@.skip(i as int + 1));
            }
            i = i + 1;
        }
        None
    }

    /// Point lookup of a transaction row by block number and position.
    pub fn find_record_by_position(&self, n: u64, idx: u32) -> (r: Option<TransactionRecord>)
        ensures
            r == spec_find_record_at(self.records@, n, idx),
    {
        let len = self.records.len();
        let mut i: usize = 0;
        proof {
            assert(self.records@.skip(0) =~= self.records@);
        }
        while i < len
            invariant
                i <= len,
                len == self.records@.len(),
                spec_find_record_at(self.records@, n, idx)
                    == spec_find_record_at(self.records@.skip(i as int), n, idx),
            decreases len - i,
        {
            let included = match self.records[i].block_number {
                Some(b) => b == n,
                None => false,
            };
            let positioned = match self.records[i].index_in_block {
                Some(k) => k == idx,
                None => false,
            };
            if included && positioned {
                return Some(self.records[i]);
            }
            proof {
                assert(self.records@.skip(i as int).skip(1) =~= self.records@.skip(i as int + 1));
            }
            i = i + 1;
        }
        None
    }

    /// Point lookup of a block row by number.
    pub fn find_block_by_number(&self, n: u64) -> (r: Option<BlockMetadata>)
        ensures
            r == spec_find_block_by_number(self.blocks@, n),
    {
        let len = self.blocks.len();
        let mut i: usize = 0;
        proof {
            assert(self.blocks@.skip(0) =~= self.blocks@);
        }
        while i < len
            invariant
                i <= len,
                len == self.blocks@.len(),
                spec_find_block_by_number(self.blocks@, n)
                    == spec_find_block_by_number(self.blocks@.skip(i as int), n),
            decreases len - i,
        {
            if self.blocks[i].number == n {
                return Some(self.blocks[i]);
            }
            proof {
                assert(self.blocks@.skip(i as int).skip(1) =~= self.blocks@.skip(i as int + 1));
            }
            i = i + 1;
        }
        None
    }

    /// Point lookup of a block row by hash.
    pub fn find_block_by_hash(&self, h: u64) -> (r: Option<BlockMetadata>)
        ensures
            r == spec_find_block_by_hash(self.blocks@, h),
    {
        let len = self.blocks.len();
        let mut i: usize = 0;
        proof {
            assert(self.blocks@.skip(0) =~= self.blocks@);
        }
        while i < len
            invariant
                i <= len,
                len == self.blocks@.len(),
                spec_find_block_by_hash(self.blocks@, h)
                    == spec_find_block_by_hash(self.blocks@.skip(i as int), h),
            decreases len - i,
        {
            if self.blocks[i].hash == h {
                return Some(self.blocks[i]);
            }
            proof {
                assert(self.blocks@.skip(i as int).skip(1) =~= self.blocks@.skip(i as int + 1));
            }
            i = i + 1;
        }
        None
    }

    /// The highest-numbered block row.
    pub fn latest_block(&self) -> (r: Option<BlockMetadata>)
        ensures
            r == spec_latest_block(self.blocks@),
    {
        let len = self.blocks.len();
        let mut best: Option<BlockMetadata> = None;
        let mut i: usize = 0;
        while i < len
            invariant
                i <= len,
                len == self.blocks@.len(),
                best == spec_latest_block(self.blocks@.subrange(0, i as int)),
            decreases len - i,
        {
            proof {
                assert(self.blocks@.subrange(0, i as int + 1).drop_last()
                    =~= self.blocks@.subrange(0, i as int));
                assert(self.blocks@.subrange(0, i as int + 1).last() == self.blocks@[i as int]);
            }
            best = match best {
                None => Some(self.blocks[i]),
                Some(pb) => if self.blocks[i].number > pb.number {
                    Some(self.blocks[i])
                } else {
                    Some(pb)
                },
            };
            i = i + 1;
        }
        proof {
            assert(self.blocks@.subrange(0, len as int) =~= self.blocks@);
        }
        best
    }

    /// Point lookup of the settlement row of a batch.
    pub fn find_settlement(&self, bn: u64) -> (r: Option<SettlementRecord>)
        ensures
            r == spec_find_settlement(self.settlements@, bn),
    {
        let len = self.settlements.len();
        let mut i: usize = 0;
        proof {
            assert(self.settlements@.skip(0) =~= self.settlements@);
        }
        while i < len
            invariant
                i <= len,
                len == self.settlements@.len(),
                spec_find_settlement(self.settlements@, bn)
                    == spec_find_settlement(self.settlements@.skip(i as int), bn),
            decreases len - i,
        {
            if self.settlements[i].batch_number == bn {
                return Some(self.settlements[i]);
            }
            proof {
                assert(self.settlements@.skip(i as int).skip(1)
                    =~= self.settlements@.skip(i as int + 1));
            }
            i = i + 1;
        }
        None
    }

    /// The authoritative settled nonce of an account, if one is recorded.
    pub fn find_settled_nonce(&self, a: Address) -> (r: Option<u64>)
        ensures
            r == spec_find_settled_nonce(self.settled_nonces@, a),
    {
        let len = self.settled_nonces.len();
        let mut i: usize = 0;
        proof {
            assert(self.settled_nonces@.skip(0) =~= self.settled_nonces@);
        }
        while i < len
            invariant
                i <= len,
                len == self.settled_nonces@.len(),
                spec_find_settled_nonce(self.settled_nonces@, a)
                    == spec_find_settled_nonce(self.settled_nonces@.skip(i as int), a),
            decreases len - i,
        {
            if self.settled_nonces[i].account == a {
                return Some(self.settled_nonces[i].nonce);
            }
            proof {
                assert(self.settled_nonces@.skip(i as int).skip(1)
                    =~= self.settled_nonces@.skip(i as int + 1));
            }
            i = i + 1;
        }
        None
    }
}

} // verus!
