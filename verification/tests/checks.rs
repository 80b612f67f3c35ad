use tft_bridge_migration::checks::{CheckError, RenameBurnToWithdraw};
use tft_bridge_migration::names::{
    burn_fee_key, burn_transaction_id_key, burn_transactions_key, withdraw_transaction_id_key,
};
use tft_bridge_migration::store::Store;

#[test]
fn lifecycle_pre_apply_post_passes() {
    let mut store = Store::new();
    let burn_ns = burn_transactions_key();
    store.insert_entry(&burn_ns, vec![1u8], vec![11u8]);
    store.insert_entry(&burn_ns, vec![2u8], vec![22u8]);
    store.write_scalar(&burn_transaction_id_key(), 42);
    store.write_scalar(&burn_fee_key(), 7);

    let mut checker = RenameBurnToWithdraw::new();
    assert_eq!(checker.pre_upgrade(&store), Ok(()));
    let _w = RenameBurnToWithdraw::on_runtime_upgrade(&mut store);
    assert_eq!(checker.post_upgrade(&store), Ok(()));
}

#[test]
fn post_check_without_snapshot_fails_fast() {
    let mut store = Store::new();
    let _w = RenameBurnToWithdraw::on_runtime_upgrade(&mut store);
    let checker = RenameBurnToWithdraw::new();
    assert_eq!(
        checker.post_upgrade(&store),
        Err(CheckError::MissingSnapshot)
    );
}

#[test]
fn post_check_before_migration_reports_gate_violation() {
    let store = Store::new();
    let mut checker = RenameBurnToWithdraw::new();
    assert_eq!(checker.pre_upgrade(&store), Ok(()));
    assert_eq!(checker.post_upgrade(&store), Err(CheckError::GateViolation));
}

#[test]
fn tampered_observable_reports_verification_mismatch() {
    let mut store = Store::new();
    store.write_scalar(&burn_transaction_id_key(), 42);
    let mut checker = RenameBurnToWithdraw::new();
    assert_eq!(checker.pre_upgrade(&store), Ok(()));
    let _w = RenameBurnToWithdraw::on_runtime_upgrade(&mut store);
    // Damage one migrated observable before the audit.
    store.write_scalar(&withdraw_transaction_id_key(), 41);
    assert_eq!(
        checker.post_upgrade(&store),
        Err(CheckError::VerificationMismatch)
    );
}

#[test]
fn post_check_is_read_only_and_repeatable() {
    let mut store = Store::new();
    store.write_scalar(&burn_fee_key(), 5);
    let mut checker = RenameBurnToWithdraw::new();
    assert_eq!(checker.pre_upgrade(&store), Ok(()));
    let _w = RenameBurnToWithdraw::on_runtime_upgrade(&mut store);
    let first = checker.post_upgrade(&store);
    let second = checker.post_upgrade(&store);
    assert_eq!(first, Ok(()));
    assert_eq!(first, second);

    // The same holds on a failing audit.
    let fresh = RenameBurnToWithdraw::new();
    let e1 = fresh.post_upgrade(&store);
    let e2 = fresh.post_upgrade(&store);
    assert_eq!(e1, Err(CheckError::MissingSnapshot));
    assert_eq!(e1, e2);
}
