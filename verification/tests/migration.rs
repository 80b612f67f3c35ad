use tft_bridge_migration::migration::{
    migrate_scalar, migrate_scalars, rename_burn_to_withdraw, OperationCount, ScalarTriple,
};
use tft_bridge_migration::names::{
    burn_fee_key, burn_transaction_id_key, burn_transactions_key, executed_burn_transactions_key,
    executed_withdraw_transactions_key, withdraw_fee_key, withdraw_transaction_id_key,
    withdraw_transactions_key,
};
use tft_bridge_migration::store::Store;
use tft_bridge_migration::version::StorageVersion;

#[test]
fn fresh_store_defaults() {
    let store = Store::new();
    assert_eq!(store.current_version(), StorageVersion::V1);
    assert_eq!(store.count_entries(&burn_transactions_key()), 0);
    assert_eq!(store.read_scalar(&burn_fee_key()), 0);
    assert_eq!(store.get_entry(&burn_transactions_key(), &vec![1u8]), None);
}

#[test]
fn insert_and_get_entry() {
    let mut store = Store::new();
    let ns = burn_transactions_key();
    store.insert_entry(&ns, vec![1u8], vec![10u8, 11u8]);
    store.insert_entry(&ns, vec![2u8], vec![20u8]);
    assert_eq!(store.count_entries(&ns), 2);
    assert_eq!(store.get_entry(&ns, &vec![1u8]), Some(vec![10u8, 11u8]));
    assert_eq!(store.get_entry(&ns, &vec![2u8]), Some(vec![20u8]));
    assert_eq!(store.get_entry(&ns, &vec![3u8]), None);
    assert_eq!(store.count_entries(&withdraw_transactions_key()), 0);
}

#[test]
fn move_all_relocates_entries_byte_for_byte() {
    let mut store = Store::new();
    let source = burn_transactions_key();
    let target = withdraw_transactions_key();
    let other = executed_burn_transactions_key();
    store.insert_entry(&source, vec![1u8], vec![100u8, 101u8]);
    store.insert_entry(&source, vec![2u8, 2u8], vec![200u8]);
    store.insert_entry(&other, vec![9u8], vec![90u8]);
    let moved = store.move_all(&source, &target);
    assert_eq!(moved, 2);
    assert_eq!(store.count_entries(&source), 0);
    assert_eq!(store.count_entries(&target), 2);
    assert_eq!(store.get_entry(&target, &vec![1u8]), Some(vec![100u8, 101u8]));
    assert_eq!(store.get_entry(&target, &vec![2u8, 2u8]), Some(vec![200u8]));
    // A namespace the move does not name is untouched.
    assert_eq!(store.count_entries(&other), 1);
    assert_eq!(store.get_entry(&other, &vec![9u8]), Some(vec![90u8]));
}

#[test]
fn move_all_of_empty_source_moves_nothing() {
    let mut store = Store::new();
    let moved = store.move_all(&burn_transactions_key(), &withdraw_transactions_key());
    assert_eq!(moved, 0);
    assert_eq!(store.count_entries(&withdraw_transactions_key()), 0);
}

#[test]
fn write_and_read_scalar() {
    let mut store = Store::new();
    let cell = burn_transaction_id_key();
    store.write_scalar(&cell, 42);
    assert_eq!(store.read_scalar(&cell), 42);
    store.write_scalar(&cell, 43);
    assert_eq!(store.read_scalar(&cell), 43);
    // Another cell still reads as zero.
    assert_eq!(store.read_scalar(&burn_fee_key()), 0);
}

#[test]
fn migrate_scalar_copies_and_resets() {
    let mut store = Store::new();
    let old_name = vec![1u8];
    let new_name = vec![2u8];
    let unrelated = vec![5u8];
    store.write_scalar(&old_name, 10);
    store.write_scalar(&unrelated, 50);
    migrate_scalar(&mut store, &old_name, &new_name, 0);
    assert_eq!(store.read_scalar(&new_name), 10);
    assert_eq!(store.read_scalar(&old_name), 0);
    assert_eq!(store.read_scalar(&unrelated), 50);
}

#[test]
fn migrate_scalars_applies_each_triple_independently() {
    let mut store = Store::new();
    store.write_scalar(&vec![1u8], 10);
    store.write_scalar(&vec![3u8], 33);
    store.write_scalar(&vec![5u8], 50);
    let triples = vec![
        ScalarTriple { old_name: vec![1u8], new_name: vec![2u8], baseline: 0 },
        ScalarTriple { old_name: vec![3u8], new_name: vec![4u8], baseline: 9 },
    ];
    migrate_scalars(&mut store, &triples);
    assert_eq!(store.read_scalar(&vec![2u8]), 10);
    assert_eq!(store.read_scalar(&vec![1u8]), 0);
    assert_eq!(store.read_scalar(&vec![4u8]), 33);
    assert_eq!(store.read_scalar(&vec![3u8]), 9);
    // A cell no triple names keeps its value.
    assert_eq!(store.read_scalar(&vec![5u8]), 50);
}

#[test]
fn iterate_keys_lists_suffixes_in_storage_order() {
    let mut store = Store::new();
    let ns = burn_transactions_key();
    store.insert_entry(&ns, vec![2u8], vec![22u8]);
    store.insert_entry(&ns, vec![1u8], vec![11u8]);
    assert_eq!(store.iterate_keys(&ns), vec![vec![2u8], vec![1u8]]);
    assert_eq!(
        store.iterate_keys(&withdraw_transactions_key()),
        Vec::<Vec<u8>>::new()
    );
}

#[test]
fn scenario_full_migration() {
    // Three entries under the burn-transaction namespace, one under the
    // executed namespace, and both scalar cells set.
    let mut store = Store::new();
    let burn_ns = burn_transactions_key();
    let executed_burn_ns = executed_burn_transactions_key();
    store.insert_entry(&burn_ns, vec![1u8], vec![11u8]);
    store.insert_entry(&burn_ns, vec![2u8], vec![22u8]);
    store.insert_entry(&burn_ns, vec![3u8], vec![33u8]);
    store.insert_entry(&executed_burn_ns, vec![7u8], vec![77u8]);
    store.write_scalar(&burn_transaction_id_key(), 42);
    store.write_scalar(&burn_fee_key(), 7);

    let w = rename_burn_to_withdraw(&mut store);

    // The withdraw namespace holds exactly the three moved entries.
    let withdraw_ns = withdraw_transactions_key();
    assert_eq!(store.count_entries(&withdraw_ns), 3);
    assert_eq!(store.get_entry(&withdraw_ns, &vec![1u8]), Some(vec![11u8]));
    assert_eq!(store.get_entry(&withdraw_ns, &vec![2u8]), Some(vec![22u8]));
    assert_eq!(store.get_entry(&withdraw_ns, &vec![3u8]), Some(vec![33u8]));
    assert_eq!(store.count_entries(&burn_ns), 0);
    // The executed pair moved as well.
    let executed_withdraw_ns = executed_withdraw_transactions_key();
    assert_eq!(store.count_entries(&executed_withdraw_ns), 1);
    assert_eq!(
        store.get_entry(&executed_withdraw_ns, &vec![7u8]),
        Some(vec![77u8])
    );
    assert_eq!(store.count_entries(&executed_burn_ns), 0);
    // Scalars copied forward, old cells reset to the zero baseline.
    assert_eq!(store.read_scalar(&withdraw_transaction_id_key()), 42);
    assert_eq!(store.read_scalar(&burn_transaction_id_key()), 0);
    assert_eq!(store.read_scalar(&withdraw_fee_key()), 7);
    assert_eq!(store.read_scalar(&burn_fee_key()), 0);
    // Version advanced.
    assert_eq!(store.current_version(), StorageVersion::V2);
    // Four moved entries, plus two scalar reads / five fixed writes.
    assert_eq!(w, OperationCount { reads: 6, writes: 9 });
}

#[test]
fn scenario_empty_store_still_advances_version() {
    let mut store = Store::new();
    let w = rename_burn_to_withdraw(&mut store);
    assert_eq!(store.current_version(), StorageVersion::V2);
    // Only the fixed scalar and version-marker operations are billed.
    assert_eq!(w, OperationCount { reads: 2, writes: 5 });
    assert_eq!(store.read_scalar(&withdraw_transaction_id_key()), 0);
    assert_eq!(store.read_scalar(&withdraw_fee_key()), 0);
    assert_eq!(store.count_entries(&withdraw_transactions_key()), 0);
}
