//! Pure resolvers: execution status, canonical "to" address, gas accounting.
//!
//! These are total functions over the nullable fields of a stored transaction
//! record; they are applied once, at the assembler boundary, and their results
//! are what the wire-level views carry.

use vstd::prelude::*;

verus! {

/// An account or contract address, modelled as its low machine word.
pub type Address = u64;

/// A transaction or block hash, modelled as its low machine word.
pub type TxHash = u64;

/// The canonical default used when neither address source is populated:
/// wire-protocol clients must never receive an absent "to" field.
pub const ZERO_ADDRESS: Address = 0;

/// Tri-state execution status of a stored transaction.
#[derive(Clone, Copy, PartialEq, Eq, Structural, Debug)]
pub enum ExecutionStatus {
    /// Accepted but not yet included in a block, and not rejected.
    NotExecuted,
    /// An execution error is recorded, whether or not the transaction was included.
    Failed,
    /// Included in a block with no recorded error.
    Successful,
}

/// Status is a pure function of the two nullable fields of a record:
/// a present error means `Failed` regardless of inclusion; a present
/// inclusion block without an error means `Successful`; otherwise the
/// transaction is still pending.
pub open spec fn spec_resolve_status(inclusion_block: Option<u64>, has_error: bool) -> ExecutionStatus {
    if has_error {
        ExecutionStatus::Failed
    } else if inclusion_block is Some {
        ExecutionStatus::Successful
    } else {
        ExecutionStatus::NotExecuted
    }
}

/// Derives the tri-state status from the inclusion block and execution error
/// fields of a record. Total: no input is rejected.
pub fn resolve_status(inclusion_block: Option<u64>, error: Option<u64>) -> (r: ExecutionStatus)
    ensures
        r == spec_resolve_status(inclusion_block, error is Some),
{
    if error.is_some() {
        ExecutionStatus::Failed
    } else if inclusion_block.is_some() {
        ExecutionStatus::Successful
    } else {
        ExecutionStatus::NotExecuted
    }
}

/// The wire-level convention for the tri-state status: pending transactions
/// carry no status value, failed ones `0`, successful ones `1`.
pub open spec fn spec_status_code(s: ExecutionStatus) -> Option<u64> {
    match s {
        ExecutionStatus::NotExecuted => None,
        ExecutionStatus::Failed => Some(0u64),
        ExecutionStatus::Successful => Some(1u64),
    }
}

/// Maps the tri-state status to its wire-level encoding.
pub fn status_code(s: ExecutionStatus) -> (r: Option<u64>)
    ensures
        r == spec_status_code(s),
{
    match s {
        ExecutionStatus::NotExecuted => None,
        ExecutionStatus::Failed => Some(0u64),
        ExecutionStatus::Successful => Some(1u64),
    }
}

/// The canonical "to" address of a record: the transfer target if present,
/// else the deployed contract address if present, else the all-zero address.
/// The fallback is a deliberate lossy normalization kept for client
/// compatibility: the resolved address is never absent.
pub open spec fn spec_resolve_to_address(transfer_to: Option<Address>, deployed_contract: Option<Address>) -> Address {
    if transfer_to is Some {
        transfer_to->0
    } else if deployed_contract is Some {
        deployed_contract->0
    } else {
        ZERO_ADDRESS
    }
}

/// Picks the canonical "to" address from the two kind-specific sources.
/// Total over its domain; well-formed stores never populate both sources at
/// once, but the resolver does not depend on that invariant.
pub fn resolve_to_address(transfer_to: Option<Address>, deployed_contract: Option<Address>) -> (r: Address)
    ensures
        r == spec_resolve_to_address(transfer_to, deployed_contract),
{
    match transfer_to {
        Some(a) => a,
        None => match deployed_contract {
            Some(b) => b,
            None => ZERO_ADDRESS,
        },
    }
}

/// Gas consumed by a transaction: the gas limit minus the refunded part.
/// Defined only when `refunded_gas <= gas_limit`; a stored refund exceeding
/// the limit is malformed data and is rejected, never wrapped.
pub open spec fn spec_gas_used(gas_limit: u64, refunded_gas: u64) -> Option<u64> {
    if refunded_gas <= gas_limit {
        Some((gas_limit - refunded_gas) as u64)
    } else {
        None
    }
}

/// Computes the gas used from the gas limit and the refunded gas. The
/// subtraction never underflows: inputs with `refunded_gas > gas_limit` are
/// rejected with `None` instead of wrapping.
pub fn gas_used(gas_limit: u64, refunded_gas: u64) -> (r: Option<u64>)
    ensures
        r == spec_gas_used(gas_limit, refunded_gas),
        refunded_gas <= gas_limit ==> (r is Some && r->0 == gas_limit - refunded_gas),
        refunded_gas > gas_limit ==> r is None,
{
    if refunded_gas <= gas_limit {
        Some(gas_limit - refunded_gas)
    } else {
        None
    }
}

} // verus!
