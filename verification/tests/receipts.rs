use tx_read_model::dal::TransactionsWeb3Dal;
use tx_read_model::model::{
    ACCOUNT_CODE_STORAGE_ADDRESS, BlockMetadata, CrossDomainMessage,
    FAILED_CONTRACT_DEPLOYMENT_MARKER, LogEntry, StorageWrite, TransactionRecord,
};
use tx_read_model::store::LedgerStore;

const HASH: u64 = 0xFEED;

fn included_record() -> TransactionRecord {
    TransactionRecord {
        hash: HASH,
        initiator: 0xA11CE,
        nonce: 4,
        is_priority: false,
        transfer_to: Some(0xBB),
        deployed_contract: None,
        block_number: Some(10),
        index_in_block: Some(2),
        index_in_batch: Some(1),
        error: None,
        gas_limit: Some(1_000),
        refunded_gas: 250,
        effective_gas_price: Some(7),
        received_at: 99,
        format: Some(2),
    }
}

fn log_row(block: u64, index: u32, tx: u64) -> LogEntry {
    LogEntry {
        tx_hash: tx,
        block_number: block,
        index_in_block: index,
        index_in_tx: index,
        address: 0xC0,
        payload: 5,
    }
}

fn store_with_block() -> LedgerStore {
    LedgerStore {
        records: vec![included_record()],
        blocks: vec![
            BlockMetadata { number: 10, hash: 0xB10C, batch_number: Some(3) },
            BlockMetadata { number: 11, hash: 0xB11C, batch_number: None },
        ],
        storage_writes: vec![],
        logs: vec![
            log_row(9, 0, 0x777),
            log_row(10, 1, HASH),
            log_row(10, 4, HASH),
        ],
        messages: vec![
            CrossDomainMessage { tx_hash: HASH, index_in_tx: 0, sender: 0xC0, payload: 1 },
            CrossDomainMessage { tx_hash: 0x777, index_in_tx: 0, sender: 0xC1, payload: 2 },
            CrossDomainMessage { tx_hash: HASH, index_in_tx: 1, sender: 0xC0, payload: 3 },
        ],
        settlements: vec![],
        settled_nonces: vec![],
    }
}

#[test]
fn missing_hash_yields_absence() {
    let dal = TransactionsWeb3Dal { store: store_with_block() };
    assert!(dal.get_transaction_receipt(0xD00D).is_none());
}

#[test]
fn successful_receipt_core_fields() {
    let dal = TransactionsWeb3Dal { store: store_with_block() };
    let r = dal.get_transaction_receipt(HASH).unwrap();
    assert_eq!(r.transaction_hash, HASH);
    assert_eq!(r.transaction_index, 2);
    assert_eq!(r.block_hash, Some(0xB10C));
    assert_eq!(r.block_number, Some(10));
    assert_eq!(r.batch_index, Some(1));
    assert_eq!(r.batch_number, Some(3));
    assert_eq!(r.from, 0xA11CE);
    assert_eq!(r.to, 0xBB);
    assert_eq!(r.gas_used, Some(750));
    assert_eq!(r.effective_gas_price, 7);
    assert_eq!(r.status, Some(1));
    assert_eq!(r.root, Some(0xB10C));
    assert_eq!(r.transaction_type, 2);
}

#[test]
fn receipt_logs_and_messages_carry_receipt_block_identity() {
    // raw log and message rows carry no block hash or batch number; the
    // assembled ones carry the receipt's
    let dal = TransactionsWeb3Dal { store: store_with_block() };
    let r = dal.get_transaction_receipt(HASH).unwrap();
    assert_eq!(r.logs.len(), 2);
    assert_eq!(r.messages.len(), 2);
    for l in &r.logs {
        assert_eq!(l.block_hash, r.block_hash);
        assert_eq!(l.batch_number, r.batch_number);
        assert_eq!(l.log.tx_hash, HASH);
    }
    for m in &r.messages {
        assert_eq!(m.block_hash, r.block_hash);
        assert_eq!(m.batch_number, r.batch_number);
        assert_eq!(m.message.tx_hash, HASH);
    }
    // ordered by the stream keys
    assert_eq!(r.logs[0].log.index_in_block, 1);
    assert_eq!(r.logs[1].log.index_in_block, 4);
    assert_eq!(r.messages[0].message.index_in_tx, 0);
    assert_eq!(r.messages[1].message.index_in_tx, 1);
}

#[test]
fn failed_receipt_status_zero_regardless_of_inclusion() {
    let mut store = store_with_block();
    store.records[0].error = Some(9);
    let dal = TransactionsWeb3Dal { store };
    let r = dal.get_transaction_receipt(HASH).unwrap();
    assert_eq!(r.status, Some(0));
}

#[test]
fn pending_receipt_has_no_status_and_wire_defaults() {
    let mut rec = included_record();
    rec.block_number = None;
    rec.index_in_block = None;
    rec.index_in_batch = None;
    rec.transfer_to = None;
    rec.effective_gas_price = None;
    rec.gas_limit = None;
    rec.format = None;
    let mut store = store_with_block();
    store.records = vec![rec];
    store.logs = vec![];
    store.messages = vec![];
    let dal = TransactionsWeb3Dal { store };
    let r = dal.get_transaction_receipt(HASH).unwrap();
    assert_eq!(r.status, None);
    assert_eq!(r.block_hash, None);
    assert_eq!(r.transaction_index, 0);
    // the wire never carries an absent "to": it defaults to the zero address
    assert_eq!(r.to, 0);
    assert_eq!(r.effective_gas_price, 0);
    assert_eq!(r.gas_used, None);
    assert_eq!(r.transaction_type, 0);
}

#[test]
fn contract_hint_takes_most_recent_non_sentinel_write() {
    let mut store = store_with_block();
    store.storage_writes = vec![
        StorageWrite {
            tx_hash: HASH,
            account: ACCOUNT_CODE_STORAGE_ADDRESS,
            block_number: 10,
            write_index: 1,
            key: 0xD1,
            value: 42,
        },
        StorageWrite {
            tx_hash: HASH,
            account: ACCOUNT_CODE_STORAGE_ADDRESS,
            block_number: 10,
            write_index: 5,
            key: 0xD2,
            value: 43,
        },
        // later in write order but a failed deployment: excluded
        StorageWrite {
            tx_hash: HASH,
            account: ACCOUNT_CODE_STORAGE_ADDRESS,
            block_number: 11,
            write_index: 0,
            key: 0xD3,
            value: FAILED_CONTRACT_DEPLOYMENT_MARKER,
        },
        // another transaction's write: excluded
        StorageWrite {
            tx_hash: 0x777,
            account: ACCOUNT_CODE_STORAGE_ADDRESS,
            block_number: 12,
            write_index: 0,
            key: 0xD4,
            value: 44,
        },
    ];
    let dal = TransactionsWeb3Dal { store };
    let r = dal.get_transaction_receipt(HASH).unwrap();
    assert_eq!(r.contract_address, Some(0xD2));
}

#[test]
fn no_candidate_write_leaves_hint_absent() {
    let dal = TransactionsWeb3Dal { store: store_with_block() };
    let r = dal.get_transaction_receipt(HASH).unwrap();
    assert_eq!(r.contract_address, None);
}

#[test]
fn repeated_receipt_calls_are_bit_identical() {
    let dal = TransactionsWeb3Dal { store: store_with_block() };
    let r1 = dal.get_transaction_receipt(HASH);
    let r2 = dal.get_transaction_receipt(HASH);
    assert_eq!(r1, r2);
}
