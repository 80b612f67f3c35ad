//! The pre/post verifier around the migration: a diagnostic, simulation-only
//! path that snapshots the observables before the run and audits the
//! migrated store against that snapshot afterwards, failing loudly on any
//! mismatch.

use vstd::prelude::*;

use crate::migration::{
    migrated, migration_due, rename_burn_to_withdraw, run_tally, OperationCount,
};
use crate::names::{
    burn_fee_cell, burn_fee_key, burn_transaction_id_cell, burn_transaction_id_key,
    burn_transactions_key, burn_transactions_ns, executed_burn_transactions_key,
    executed_burn_transactions_ns, executed_withdraw_transactions_key,
    executed_withdraw_transactions_ns, withdraw_fee_cell, withdraw_fee_key,
    withdraw_transaction_id_cell, withdraw_transaction_id_key, withdraw_transactions_key,
    withdraw_transactions_ns,
};
use crate::store::Store;
use crate::version::StorageVersion;

verus! {

/// The four observables the verifier audits across the migration: the two
/// namespace entry counts, the transaction-id counter and the fee.  Kept in
/// an in-memory scratch structure owned by the caller, never in the
/// persistent store.
#[derive(Clone, Copy, Debug, PartialEq, Eq, Structural)]
pub struct MigrationSnapshot {
    pub tx_count: u64,
    pub executed_tx_count: u64,
    pub transaction_id: u64,
    pub fee: u64,
}

/// Why a diagnostic check failed.  Every variant is fatal: the deployment
/// must not proceed past it.
#[derive(Clone, Copy, Debug, PartialEq, Eq, Structural)]
pub enum CheckError {
    /// The post-check ran without a snapshot from the pre-check.
    MissingSnapshot,
    /// The stored schema version did not read `V2` after the run.
    GateViolation,
    /// A post-migration observable differs from its pre-migration snapshot.
    VerificationMismatch,
}

/// The observables as the pre-check reads them, from the burn locations.
pub open spec fn pre_observables(store: Store) -> MigrationSnapshot {
    MigrationSnapshot {
        tx_count: store.count_of(burn_transactions_ns()) as u64,
        executed_tx_count: store.count_of(executed_burn_transactions_ns()) as u64,
        transaction_id: store.scalar_of(burn_transaction_id_cell()),
        fee: store.scalar_of(burn_fee_cell()),
    }
}

/// The observables as the post-check reads them, from the withdraw
/// locations.
pub open spec fn post_observables(store: Store) -> MigrationSnapshot {
    MigrationSnapshot {
        tx_count: store.count_of(withdraw_transactions_ns()) as u64,
        executed_tx_count: store.count_of(executed_withdraw_transactions_ns()) as u64,
        transaction_id: store.scalar_of(withdraw_transaction_id_cell()),
        fee: store.scalar_of(withdraw_fee_cell()),
    }
}

/// The burn-to-withdraw rename migration with its upgrade lifecycle:
/// `pre_upgrade` snapshots the observables, `on_runtime_upgrade` performs
/// the migration, `post_upgrade` audits the migrated store against the
/// snapshot.
pub struct RenameBurnToWithdraw {
    pub snapshot: Option<MigrationSnapshot>,
}

impl RenameBurnToWithdraw {
    /// What the post-check returns, as a function of the checker and the
    /// store alone: it reads nothing else and changes nothing.
    pub open spec fn post_check_spec(self, store: Store) -> Result<(), CheckError> {
        match self.snapshot {
            None => Err(CheckError::MissingSnapshot),
            Some(snap) => if store.version_of() != StorageVersion::V2 {
                Err(CheckError::GateViolation)
            } else if snap != post_observables(store) {
                Err(CheckError::VerificationMismatch)
            } else {
                Ok(())
            },
        }
    }

    /// A checker that has captured nothing yet.
    pub fn new() -> (r: RenameBurnToWithdraw)
        ensures
            r.snapshot is None,
    {
        RenameBurnToWithdraw { snapshot: None }
    }

    /// Diagnostic pre-check: capture the entry counts of both burn
    /// namespaces and the two burn scalar values.  Always succeeds.
    pub fn pre_upgrade(&mut self, store: &Store) -> (r: Result<(), CheckError>)
        ensures
            r is Ok,
            final(self).snapshot == Some(pre_observables(*store)),
    {
        let burn_ns = burn_transactions_key();
        let executed_burn_ns = executed_burn_transactions_key();
        let id_cell = burn_transaction_id_key();
        let fee_cell = burn_fee_key();
        let snap = MigrationSnapshot {
            tx_count: store.count_entries(&burn_ns) as u64,
            executed_tx_count: store.count_entries(&executed_burn_ns) as u64,
            transaction_id: store.read_scalar(&id_cell),
            fee: store.read_scalar(&fee_cell),
        };
        self.snapshot = Some(snap);
        Ok(())
    }

    /// The production mutation: run the migration.  Exactly the contract of
    /// [`rename_burn_to_withdraw`]; the checker plays no part in it.
    pub fn on_runtime_upgrade(store: &mut Store) -> (w: OperationCount)
        requires
            migration_due(*old(store)),
        ensures
            migrated(*old(store), *final(store)),
            run_tally(*old(store), w),
    {
        rename_burn_to_withdraw(store)
    }

    /// Diagnostic post-check: the version marker must now read `V2`, and the
    /// four observables, re-read from their withdraw locations, must equal
    /// the snapshot the pre-check captured.  Read-only; fails fast when no
    /// snapshot was captured.
    pub fn post_upgrade(&self, store: &Store) -> (r: Result<(), CheckError>)
        ensures
            r == self.post_check_spec(*store),
    {
        match &self.snapshot {
            None => Err(CheckError::MissingSnapshot),
            Some(snap) => {
                let v = store.current_version();
                if !(v == StorageVersion::V2) {
                    Err(CheckError::GateViolation)
                } else {
                    let withdraw_ns = withdraw_transactions_key();
                    let executed_withdraw_ns = executed_withdraw_transactions_key();
                    let id_cell = withdraw_transaction_id_key();
                    let fee_cell = withdraw_fee_key();
                    let post = MigrationSnapshot {
                        tx_count: store.count_entries(&withdraw_ns) as u64,
                        executed_tx_count: store.count_entries(&executed_withdraw_ns) as u64,
                        transaction_id: store.read_scalar(&id_cell),
                        fee: store.read_scalar(&fee_cell),
                    };
                    if snap.tx_count != post.tx_count || snap.executed_tx_count
                        != post.executed_tx_count || snap.transaction_id != post.transaction_id
                        || snap.fee != post.fee {
                        Err(CheckError::VerificationMismatch)
                    } else {
                        Ok(())
                    }
                }
            },
        }
    }
}

/// The post-check is read-only and deterministic: two invocations on the
/// same checker and the same store, with no migration run between them,
/// return identical results.
pub proof fn lemma_post_upgrade_idempotent(
    checker: RenameBurnToWithdraw,
    store: Store,
    r1: Result<(), CheckError>,
    r2: Result<(), CheckError>,
)
    requires
        r1 == checker.post_check_spec(store),
        r2 == checker.post_check_spec(store),
    ensures
        r1 == r2,
{
}

/// A migration run never fails its own audit: when the pre-check captured
/// its snapshot from the store the run found, and the run migrated that
/// store, the post-check passes on the migrated store.
pub proof fn lemma_migration_passes_audit(
    checker: RenameBurnToWithdraw,
    pre: Store,
    post: Store,
)
    requires
        checker.snapshot == Some(pre_observables(pre)),
        migration_due(pre),
        migrated(pre, post),
    ensures
        checker.post_check_spec(post) == Ok::<(), CheckError>(()),
{
    assert(post.count_of(withdraw_transactions_ns()) == pre.count_of(burn_transactions_ns()));
    assert(post.count_of(executed_withdraw_transactions_ns()) == pre.count_of(
        executed_burn_transactions_ns(),
    ));
    assert(pre_observables(pre) == post_observables(post));
}

} // verus!
