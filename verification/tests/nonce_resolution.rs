use tx_read_model::dal::TransactionsWeb3Dal;
use tx_read_model::model::{AccountNonce, TransactionRecord};
use tx_read_model::store::LedgerStore;

const ACCOUNT: u64 = 0xA11CE;

fn outstanding_record(hash: u64, nonce: u64) -> TransactionRecord {
    TransactionRecord {
        hash,
        initiator: ACCOUNT,
        nonce,
        is_priority: false,
        transfer_to: None,
        deployed_contract: None,
        block_number: None,
        index_in_block: None,
        index_in_batch: None,
        error: None,
        gas_limit: None,
        refunded_gas: 0,
        effective_gas_price: None,
        received_at: 0,
        format: None,
    }
}

fn dal_with(records: Vec<TransactionRecord>, confirmed: u64) -> TransactionsWeb3Dal {
    TransactionsWeb3Dal {
        store: LedgerStore {
            records,
            blocks: vec![],
            storage_writes: vec![],
            logs: vec![],
            messages: vec![],
            settlements: vec![],
            settled_nonces: vec![AccountNonce { account: ACCOUNT, nonce: confirmed }],
        },
    }
}

#[test]
fn gap_after_two_consumed_nonces() {
    // confirmed = 5, outstanding {5, 6, 8}: 7 is the first gap
    let dal = dal_with(
        vec![
            outstanding_record(1, 8),
            outstanding_record(2, 5),
            outstanding_record(3, 6),
        ],
        5,
    );
    assert_eq!(dal.next_nonce_by_initiator_account(ACCOUNT), 7);
}

#[test]
fn no_outstanding_returns_confirmed() {
    let dal = dal_with(vec![], 5);
    assert_eq!(dal.next_nonce_by_initiator_account(ACCOUNT), 5);
}

#[test]
fn contiguous_outstanding_returns_confirmed_plus_count() {
    let dal = dal_with(
        vec![
            outstanding_record(1, 7),
            outstanding_record(2, 5),
            outstanding_record(3, 6),
        ],
        5,
    );
    assert_eq!(dal.next_nonce_by_initiator_account(ACCOUNT), 8);
}

#[test]
fn rejected_transactions_leave_their_nonce_free() {
    // nonce 6 was rejected (error, never included): it stays usable
    let mut rejected = outstanding_record(2, 6);
    rejected.error = Some(17);
    let dal = dal_with(vec![outstanding_record(1, 5), rejected], 5);
    assert_eq!(dal.next_nonce_by_initiator_account(ACCOUNT), 6);
}

#[test]
fn failed_but_included_transactions_consume_their_nonce() {
    // an error plus an inclusion block is a failed transaction, not a
    // rejected one: its nonce stays consumed
    let mut failed = outstanding_record(2, 5);
    failed.error = Some(17);
    failed.block_number = Some(3);
    failed.index_in_block = Some(0);
    let dal = dal_with(vec![failed], 5);
    assert_eq!(dal.next_nonce_by_initiator_account(ACCOUNT), 6);
}

#[test]
fn priority_transactions_are_ignored() {
    let mut priority = outstanding_record(2, 5);
    priority.is_priority = true;
    let dal = dal_with(vec![priority], 5);
    assert_eq!(dal.next_nonce_by_initiator_account(ACCOUNT), 5);
}

#[test]
fn nonces_below_confirmed_are_ignored() {
    let dal = dal_with(vec![outstanding_record(1, 3), outstanding_record(2, 5)], 5);
    assert_eq!(dal.next_nonce_by_initiator_account(ACCOUNT), 6);
}

#[test]
fn other_accounts_do_not_interfere() {
    let mut other = outstanding_record(2, 5);
    other.initiator = 0xB0B;
    let dal = dal_with(vec![other], 5);
    assert_eq!(dal.next_nonce_by_initiator_account(ACCOUNT), 5);
}
