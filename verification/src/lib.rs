//! A transaction read-model reconciliation engine.
//!
//! The engine reconstructs externally facing transaction views (receipts,
//! details, the next usable nonce, pending-arrival pages) from an append-only,
//! partially populated ledger of submitted transactions plus auxiliary block
//! and batch metadata. Every query is a pure, read-only function of a
//! [`store::LedgerStore`] value.

pub mod circuits;
pub mod dal;
pub mod model;
pub mod nonce;
pub mod order;
pub mod paginate;
pub mod receipt;
pub mod resolve;
pub mod store;
