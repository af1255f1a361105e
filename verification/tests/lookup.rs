use tx_read_model::dal::TransactionsWeb3Dal;
use tx_read_model::model::{
    BlockMetadata, BlockSelector, SettlementRecord, TransactionId, TransactionRecord,
};
use tx_read_model::resolve::ExecutionStatus;
use tx_read_model::store::LedgerStore;

fn included(hash: u64, block: u64, index: u32) -> TransactionRecord {
    TransactionRecord {
        hash,
        initiator: 0xA11CE,
        nonce: 0,
        is_priority: false,
        transfer_to: None,
        deployed_contract: None,
        block_number: Some(block),
        index_in_block: Some(index),
        index_in_batch: None,
        error: None,
        gas_limit: None,
        refunded_gas: 0,
        effective_gas_price: None,
        received_at: 50,
        format: None,
    }
}

fn lookup_store() -> LedgerStore {
    LedgerStore {
        records: vec![included(0xAAA, 10, 0), included(0xBBB, 10, 1), included(0xCCC, 11, 0)],
        blocks: vec![
            BlockMetadata { number: 10, hash: 0xB10, batch_number: Some(4) },
            BlockMetadata { number: 11, hash: 0xB11, batch_number: None },
        ],
        storage_writes: vec![],
        logs: vec![],
        messages: vec![],
        settlements: vec![SettlementRecord {
            batch_number: 4,
            commit_tx_hash: Some(0xE1),
            prove_tx_hash: Some(0xE2),
            execute_tx_hash: None,
        }],
        settled_nonces: vec![],
    }
}

#[test]
fn transaction_by_hash() {
    let dal = TransactionsWeb3Dal { store: lookup_store() };
    let tx = dal.get_transaction(TransactionId::Hash(0xBBB)).unwrap();
    assert_eq!(tx.hash, 0xBBB);
    assert!(dal.get_transaction(TransactionId::Hash(0xD00D)).is_none());
}

#[test]
fn transaction_by_block_number_and_index() {
    let dal = TransactionsWeb3Dal { store: lookup_store() };
    let tx = dal.get_transaction(TransactionId::Position(BlockSelector::Number(10), 1)).unwrap();
    assert_eq!(tx.hash, 0xBBB);
    assert!(dal.get_transaction(TransactionId::Position(BlockSelector::Number(10), 2)).is_none());
}

#[test]
fn transaction_by_latest_and_earliest_tags() {
    let dal = TransactionsWeb3Dal { store: lookup_store() };
    let tx = dal.get_transaction(TransactionId::Position(BlockSelector::Latest, 0)).unwrap();
    assert_eq!(tx.hash, 0xCCC);
    // no block numbered zero is stored, so the earliest tag resolves nothing
    assert!(dal.get_transaction(TransactionId::Position(BlockSelector::Earliest, 0)).is_none());
}

#[test]
fn transaction_by_block_hash() {
    let dal = TransactionsWeb3Dal { store: lookup_store() };
    let tx = dal.get_transaction(TransactionId::Position(BlockSelector::Hash(0xB11), 0)).unwrap();
    assert_eq!(tx.hash, 0xCCC);
}

#[test]
fn pending_tag_resolves_nothing() {
    let dal = TransactionsWeb3Dal { store: lookup_store() };
    assert!(dal.get_transaction(TransactionId::Position(BlockSelector::Pending, 0)).is_none());
}

#[test]
fn oversized_index_short_circuits_to_absence() {
    let dal = TransactionsWeb3Dal { store: lookup_store() };
    let idx = i32::MAX as u64 + 1;
    assert!(dal.get_transaction(TransactionId::Position(BlockSelector::Number(10), idx)).is_none());
}

#[test]
fn details_join_status_block_and_settlement() {
    let dal = TransactionsWeb3Dal { store: lookup_store() };
    let d = dal.get_transaction_details(0xAAA).unwrap();
    assert_eq!(d.status, ExecutionStatus::Successful);
    assert_eq!(d.received_at, 50);
    assert_eq!(d.block_hash, Some(0xB10));
    assert_eq!(d.batch_number, Some(4));
    assert_eq!(d.commit_tx_hash, Some(0xE1));
    assert_eq!(d.prove_tx_hash, Some(0xE2));
    assert_eq!(d.execute_tx_hash, None);
}

#[test]
fn details_of_block_without_batch() {
    let dal = TransactionsWeb3Dal { store: lookup_store() };
    let d = dal.get_transaction_details(0xCCC).unwrap();
    assert_eq!(d.batch_number, None);
    assert_eq!(d.commit_tx_hash, None);
    assert!(dal.get_transaction_details(0xD00D).is_none());
}

#[test]
fn raw_miniblock_transactions_ordered_by_index() {
    // stream order puts index 1 before index 0; the query reorders
    let mut store = lookup_store();
    store.records = vec![included(0xBBB, 10, 1), included(0xAAA, 10, 0), included(0xCCC, 11, 0)];
    let dal = TransactionsWeb3Dal { store };
    let txs = dal.get_raw_miniblock_transactions(10);
    assert_eq!(txs.len(), 2);
    assert_eq!(txs[0].hash, 0xAAA);
    assert_eq!(txs[1].hash, 0xBBB);
}

#[test]
fn raw_miniblock_transactions_of_unknown_block_are_empty() {
    let dal = TransactionsWeb3Dal { store: lookup_store() };
    assert!(dal.get_raw_miniblock_transactions(99).is_empty());
}
