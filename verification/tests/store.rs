//! Tests of the storage accessor layer.

use kazi_escrow::EscrowData;
use kazi_escrow::EscrowStore;
use kazi_escrow::RETENTION_WINDOW;

const J1: u64 = 4;
const J2: u64 = 9;

fn record(employer: u64) -> EscrowData {
    EscrowData { employer, beneficiary: None, asset: 3 }
}

#[test]
fn fresh_store_is_empty() {
    let store = EscrowStore::new();
    assert_eq!(store.get_record(J1), None);
    assert_eq!(store.get_balance(J1), 0);
    assert_eq!(store.get_retention(J1), 0);
}

#[test]
fn put_record_overwrites() {
    let mut store = EscrowStore::new();
    store.put_record(J1, record(1));
    store.put_record(J2, record(2));
    assert_eq!(store.get_record(J1), Some(record(1)));
    store.put_record(J1, record(5));
    assert_eq!(store.get_record(J1), Some(record(5)));
    assert_eq!(store.get_record(J2), Some(record(2)));
}

#[test]
fn balance_defaults_to_zero_and_overwrites() {
    let mut store = EscrowStore::new();
    assert_eq!(store.get_balance(J1), 0);
    store.put_balance(J1, 120);
    assert_eq!(store.get_balance(J1), 120);
    store.put_balance(J1, 0);
    assert_eq!(store.get_balance(J1), 0);
    assert_eq!(store.get_balance(J2), 0);
}

#[test]
fn extend_retention_refreshes_one_job() {
    let mut store = EscrowStore::new();
    store.extend_retention(J1);
    assert_eq!(store.get_retention(J1), RETENTION_WINDOW);
    assert_eq!(store.get_retention(J2), 0);
}
