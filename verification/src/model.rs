//! The data model of the ledger read-side: stored rows and assembled views.
//!
//! Hashes, addresses and money-like quantities are modelled as machine words;
//! the reconciliation logic only ever compares them or does bounded
//! arithmetic on them, so a word-sized stand-in carries everything the logic
//! reads.

use vstd::prelude::*;
use crate::resolve::{Address, TxHash};

verus! {

/// A block hash, modelled as its low machine word.
pub type BlockHash = u64;

/// The reserved system account whose storage writes record code deployment.
pub const ACCOUNT_CODE_STORAGE_ADDRESS: Address = 0x8002;

/// The sentinel value a failed deployment leaves in the code-storage account;
/// writes carrying it never name a live contract.
pub const FAILED_CONTRACT_DEPLOYMENT_MARKER: u64 = 0;

/// One row of the append-only transaction ledger. Created at submission with
/// the identity fields fixed; the inclusion fields are attached once when a
/// block is produced, or an error is attached on rejection.
#[derive(Clone, Copy, PartialEq, Eq, Debug)]
pub struct TransactionRecord {
    /// Identifying hash, unique across the ledger.
    pub hash: TxHash,
    /// The submitting account.
    pub initiator: Address,
    /// Account sequence number, fixed at creation.
    pub nonce: u64,
    /// Priority (system-originated) transactions are outside nonce accounting.
    pub is_priority: bool,
    /// Kind-specific transfer target; never populated together with
    /// `deployed_contract`.
    pub transfer_to: Option<Address>,
    /// Kind-specific deployed-contract address; never populated together with
    /// `transfer_to`.
    pub deployed_contract: Option<Address>,
    /// Number of the including block; absent while the transaction is pending.
    pub block_number: Option<u64>,
    /// Position inside the including block; present exactly when included.
    pub index_in_block: Option<u32>,
    /// Position inside the settlement batch, when already assigned.
    pub index_in_batch: Option<u32>,
    /// Execution error, modelled by an opaque code; its presence alone drives
    /// status derivation, and together with an absent inclusion block it marks
    /// a rejected transaction.
    pub error: Option<u64>,
    /// Gas limit of the submission, when recorded.
    pub gas_limit: Option<u64>,
    /// Gas refunded by execution; a well-formed row never refunds more than
    /// the limit.
    pub refunded_gas: u64,
    /// Effective gas price, when already known.
    pub effective_gas_price: Option<u64>,
    /// Wall-clock arrival timestamp; admission order need not follow it.
    pub received_at: u64,
    /// Transaction-format tag; absent for legacy submissions.
    pub format: Option<u32>,
}

/// Per-block metadata, created atomically with block production.
#[derive(Clone, Copy, PartialEq, Eq, Debug)]
pub struct BlockMetadata {
    pub number: u64,
    pub hash: BlockHash,
    /// The settlement batch the block belongs to, once assigned.
    pub batch_number: Option<u64>,
}

/// One row of the application-log event stream. The stream is block-agnostic
/// at rest: rows carry their ordering key but no block hash or batch linkage.
#[derive(Clone, Copy, PartialEq, Eq, Debug)]
pub struct LogEntry {
    /// Originating transaction.
    pub tx_hash: TxHash,
    /// First component of the stream ordering key.
    pub block_number: u64,
    /// Second component of the stream ordering key.
    pub index_in_block: u32,
    /// Position among the logs of the originating transaction.
    pub index_in_tx: u32,
    /// Emitting contract.
    pub address: Address,
    /// Opaque event payload.
    pub payload: u64,
}

/// One row of the cross-domain message stream: an event leaving the local
/// execution domain. Like logs, rows carry no block linkage at rest.
#[derive(Clone, Copy, PartialEq, Eq, Debug)]
pub struct CrossDomainMessage {
    /// Originating transaction.
    pub tx_hash: TxHash,
    /// Position among the messages of the originating transaction.
    pub index_in_tx: u32,
    /// Emitting contract.
    pub sender: Address,
    /// Opaque message payload.
    pub payload: u64,
}

/// One storage mutation, as the receipt assembler sees it: which account was
/// written, under which key, with what value, and where in write order.
#[derive(Clone, Copy, PartialEq, Eq, Debug)]
pub struct StorageWrite {
    /// Transaction that produced the write.
    pub tx_hash: TxHash,
    /// The account whose storage was written.
    pub account: Address,
    /// Block of the write; first component of write ordering.
    pub block_number: u64,
    /// Position within the block; second component of write ordering.
    pub write_index: u32,
    /// Storage key; for code-storage writes this names the touched contract.
    pub key: Address,
    /// Stored value; equal to the failed-deployment sentinel when a
    /// deployment did not go through.
    pub value: u64,
}

/// Settlement-side facts of one batch: the hashes of its confirmed commit,
/// proof and execution transactions, as far as they exist yet.
#[derive(Clone, Copy, PartialEq, Eq, Debug)]
pub struct SettlementRecord {
    pub batch_number: u64,
    pub commit_tx_hash: Option<TxHash>,
    pub prove_tx_hash: Option<TxHash>,
    pub execute_tx_hash: Option<TxHash>,
}

/// The authoritative nonce of an account at the most recent fully settled
/// state; guaranteed gap-free up to that point.
#[derive(Clone, Copy, PartialEq, Eq, Debug)]
pub struct AccountNonce {
    pub account: Address,
    pub nonce: u64,
}

/// A log row as the assembled receipt returns it: the raw row plus the block
/// identity stamped on from the receipt context.
#[derive(Clone, Copy, PartialEq, Eq, Debug)]
pub struct StampedLog {
    pub log: LogEntry,
    pub block_hash: Option<BlockHash>,
    pub batch_number: Option<u64>,
}

/// A cross-domain message as the assembled receipt returns it.
#[derive(Clone, Copy, PartialEq, Eq, Debug)]
pub struct StampedMessage {
    pub message: CrossDomainMessage,
    pub block_hash: Option<BlockHash>,
    pub batch_number: Option<u64>,
}

/// The assembled, wire-shaped receipt of a transaction.
#[derive(Clone, PartialEq, Eq, Debug)]
pub struct Receipt {
    pub transaction_hash: TxHash,
    /// Position in the including block, defaulted to `0` when pending.
    pub transaction_index: u64,
    pub block_hash: Option<BlockHash>,
    pub block_number: Option<u64>,
    /// Position in the settlement batch, when assigned.
    pub batch_index: Option<u32>,
    pub batch_number: Option<u64>,
    pub from: Address,
    /// Canonical "to" address; never absent on the wire.
    pub to: Address,
    /// Gas limit minus refunded gas; absent when no limit was recorded.
    pub gas_used: Option<u64>,
    /// Defaulted to `0` when not yet known.
    pub effective_gas_price: u64,
    /// Best-effort contract touched by code storage, from the write hint.
    pub contract_address: Option<Address>,
    pub logs: Vec<StampedLog>,
    pub messages: Vec<StampedMessage>,
    /// Wire status: absent while pending, `0` failed, `1` successful.
    pub status: Option<u64>,
    /// Mirrors the block hash, as the wire schema asks.
    pub root: Option<BlockHash>,
    /// Transaction-format tag, defaulted to `0` for legacy submissions.
    pub transaction_type: u64,
}

/// The detailed view of one transaction: status plus settlement progress.
#[derive(Clone, Copy, PartialEq, Eq, Debug)]
pub struct TransactionDetails {
    pub status: crate::resolve::ExecutionStatus,
    pub received_at: u64,
    pub block_hash: Option<BlockHash>,
    pub batch_number: Option<u64>,
    pub commit_tx_hash: Option<TxHash>,
    pub prove_tx_hash: Option<TxHash>,
    pub execute_tx_hash: Option<TxHash>,
}

/// The binary outcome the sequencer reports for one executed transaction;
/// unlike the derived tri-state status, this never covers pending rows.
#[derive(Clone, Copy, PartialEq, Eq, Debug)]
pub enum TxExecutionStatus {
    Success,
    Failure,
}

/// The execution result of one transaction, with its refund accounting.
#[derive(Clone, Copy, PartialEq, Eq, Debug)]
pub struct TransactionExecutionResult {
    pub hash: TxHash,
    pub execution_status: TxExecutionStatus,
    pub refunded_gas: u32,
    pub operator_suggested_refund: u32,
}

/// Where an included transaction sits, and who submitted it.
#[derive(Clone, Copy, PartialEq, Eq, Debug)]
pub struct IncludedTxLocation {
    pub tx_hash: TxHash,
    pub tx_index_in_miniblock: u32,
    pub tx_initiator_address: Address,
}

/// How a caller names a block: by number, by hash, or by tag.
#[derive(Clone, Copy, PartialEq, Eq, Debug)]
pub enum BlockSelector {
    Number(u64),
    Hash(BlockHash),
    /// The highest produced block.
    Latest,
    /// The genesis block.
    Earliest,
    /// The block still being built; it has no stored metadata.
    Pending,
}

/// How a caller names a transaction: by hash, or by block and position.
#[derive(Clone, Copy, PartialEq, Eq, Debug)]
pub enum TransactionId {
    Hash(TxHash),
    Position(BlockSelector, u64),
}

/// Row-level well-formedness: the two address sources are mutually exclusive,
/// the refund never exceeds a recorded limit, and inclusion always carries a
/// position.
pub open spec fn record_wf(r: TransactionRecord) -> bool {
    &&& !(r.transfer_to is Some && r.deployed_contract is Some)
    &&& r.gas_limit is Some ==> r.refunded_gas <= r.gas_limit->0
    &&& r.block_number is Some <==> r.index_in_block is Some
}

/// A rejected transaction: it failed validation or execution and was never
/// included, yet its row is retained.
pub open spec fn record_rejected(r: TransactionRecord) -> bool {
    r.error is Some && r.block_number is None
}

} // verus!
