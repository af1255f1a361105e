use tx_read_model::dal::TransactionsWeb3Dal;
use tx_read_model::model::TransactionRecord;
use tx_read_model::store::LedgerStore;

fn arrival(hash: u64, received_at: u64) -> TransactionRecord {
    TransactionRecord {
        hash,
        initiator: 0xA11CE,
        nonce: 0,
        is_priority: false,
        transfer_to: None,
        deployed_contract: None,
        block_number: None,
        index_in_block: None,
        index_in_batch: None,
        error: None,
        gas_limit: None,
        refunded_gas: 0,
        effective_gas_price: None,
        received_at,
        format: None,
    }
}

fn dal_with_arrivals(records: Vec<TransactionRecord>) -> TransactionsWeb3Dal {
    TransactionsWeb3Dal {
        store: LedgerStore {
            records,
            blocks: vec![],
            storage_writes: vec![],
            logs: vec![],
            messages: vec![],
            settlements: vec![],
            settled_nonces: vec![],
        },
    }
}

const T: u64 = 1_000;

fn five_arrivals() -> Vec<TransactionRecord> {
    // admission order deliberately differs from timestamp order
    vec![
        arrival(0x3, T + 3),
        arrival(0x1, T + 1),
        arrival(0x5, T + 5),
        arrival(0x2, T + 2),
        arrival(0x4, T + 4),
    ]
}

#[test]
fn first_page_of_two_and_its_cursor() {
    let dal = dal_with_arrivals(five_arrivals());
    let (hashes, cursor) = dal.get_pending_txs_hashes_after(T, Some(2));
    assert_eq!(hashes, vec![0x1, 0x2]);
    assert_eq!(cursor, Some(T + 2));
}

#[test]
fn second_page_continues_from_cursor() {
    let dal = dal_with_arrivals(five_arrivals());
    let (_, cursor) = dal.get_pending_txs_hashes_after(T, Some(2));
    let (hashes, cursor) = dal.get_pending_txs_hashes_after(cursor.unwrap(), Some(2));
    assert_eq!(hashes, vec![0x3, 0x4]);
    assert_eq!(cursor, Some(T + 4));
}

#[test]
fn unbounded_page_returns_everything_in_order() {
    let dal = dal_with_arrivals(five_arrivals());
    let (hashes, cursor) = dal.get_pending_txs_hashes_after(T, None);
    assert_eq!(hashes, vec![0x1, 0x2, 0x3, 0x4, 0x5]);
    assert_eq!(cursor, Some(T + 5));
}

#[test]
fn filter_is_strictly_greater_than() {
    let dal = dal_with_arrivals(five_arrivals());
    let (hashes, _) = dal.get_pending_txs_hashes_after(T + 1, None);
    assert_eq!(hashes, vec![0x2, 0x3, 0x4, 0x5]);
}

#[test]
fn empty_page_has_no_cursor() {
    let dal = dal_with_arrivals(five_arrivals());
    let (hashes, cursor) = dal.get_pending_txs_hashes_after(T + 5, Some(2));
    assert!(hashes.is_empty());
    assert_eq!(cursor, None);
}

#[test]
fn limit_beyond_matches_returns_everything() {
    let dal = dal_with_arrivals(five_arrivals());
    let (hashes, cursor) = dal.get_pending_txs_hashes_after(T, Some(100));
    assert_eq!(hashes, vec![0x1, 0x2, 0x3, 0x4, 0x5]);
    assert_eq!(cursor, Some(T + 5));
}

#[test]
fn limit_zero_returns_empty_page() {
    let dal = dal_with_arrivals(five_arrivals());
    let (hashes, cursor) = dal.get_pending_txs_hashes_after(T, Some(0));
    assert!(hashes.is_empty());
    assert_eq!(cursor, None);
}
