//! The migration itself: the scalar migrator, the version-gate advance, and
//! the orchestrator that renames the burn namespaces and counters to their
//! withdraw successors.

use vstd::prelude::*;

use crate::names::{
    burn_fee_cell, burn_fee_key, burn_transaction_id_cell, burn_transaction_id_key,
    burn_transactions_key, burn_transactions_ns, executed_burn_transactions_key,
    executed_burn_transactions_ns, executed_withdraw_transactions_key,
    executed_withdraw_transactions_ns, lemma_names_distinct, withdraw_fee_cell, withdraw_fee_key,
    withdraw_transaction_id_cell, withdraw_transaction_id_key, withdraw_transactions_key,
    withdraw_transactions_ns,
};
use crate::store::Store;
use crate::version::{version_index, StorageVersion};

verus! {

/// The storage reads and writes one migration run performed, reported to the
/// caller so it can bill the run through its own cost table.  The tally is
/// ephemeral; it is never persisted.
#[derive(Clone, Copy, Debug, PartialEq, Eq, Structural)]
pub struct OperationCount {
    pub reads: u64,
    pub writes: u64,
}

/// Migrate one scalar cell: copy the old cell's value to the new cell, then
/// reset the old cell to `baseline`.  Contributes one read and two writes to
/// the operation tally kept by the caller.
pub fn migrate_scalar(store: &mut Store, old_name: &Vec<u8>, new_name: &Vec<u8>, baseline: u64)
    requires
        old(store).wf(),
        old_name@ != new_name@,
    ensures
        final(store).wf(),
        final(store).scalar_of(new_name@) == old(store).scalar_of(old_name@),
        final(store).scalar_of(old_name@) == baseline,
        forall|k: Seq<u8>|
            k != old_name@ && k != new_name@
                ==> #[trigger] final(store).scalar_of(k) == old(store).scalar_of(k),
        forall|n: Seq<u8>| #[trigger] final(store).entries_of(n) == old(store).entries_of(n),
        final(store).version_of() == old(store).version_of(),
{
    let v = store.read_scalar(old_name);
    store.write_scalar(new_name, v);
    store.write_scalar(old_name, baseline);
}

/// One scalar migration order: copy the cell named `old_name` to the cell
/// named `new_name`, then reset `old_name` to `baseline`.
pub struct ScalarTriple {
    pub old_name: Vec<u8>,
    pub new_name: Vec<u8>,
    pub baseline: u64,
}

/// The cell names of the triples are pairwise disjoint: no name occurs
/// twice, neither within one triple nor across two.
pub open spec fn triples_disjoint(ts: Seq<ScalarTriple>) -> bool {
    &&& forall|i: int| 0 <= i < ts.len() ==> (#[trigger] ts[i].old_name@) != ts[i].new_name@
    &&& forall|i: int, j: int|
        0 <= i < ts.len() && 0 <= j < ts.len() && i != j ==> {
            &&& (#[trigger] ts[i].old_name@) != (#[trigger] ts[j].old_name@)
            &&& ts[i].old_name@ != ts[j].new_name@
            &&& ts[i].new_name@ != ts[j].new_name@
        }
}

/// Whether `k` names a cell some triple reads or writes.
pub open spec fn triples_mention(ts: Seq<ScalarTriple>, k: Seq<u8>) -> bool {
    exists|i: int|
        0 <= i < ts.len() && ((#[trigger] ts[i].old_name@) == k || ts[i].new_name@ == k)
}

/// Migrate an ordered list of scalar cells, each triple independently: the
/// new cell receives the old cell's prior value, the old cell is reset to
/// the triple's baseline, and every cell no triple names keeps its value.
pub fn migrate_scalars(store: &mut Store, triples: &Vec<ScalarTriple>)
    requires
        old(store).wf(),
        triples_disjoint(triples@),
    ensures
        final(store).wf(),
        forall|i: int|
            0 <= i < triples@.len() ==> {
                &&& final(store).scalar_of((#[trigger] triples@[i]).new_name@) == old(
                    store,
                ).scalar_of(triples@[i].old_name@)
                &&& final(store).scalar_of(triples@[i].old_name@) == triples@[i].baseline
            },
        forall|k: Seq<u8>|
            !triples_mention(triples@, k)
                ==> #[trigger] final(store).scalar_of(k) == old(store).scalar_of(k),
        forall|n: Seq<u8>| #[trigger] final(store).entries_of(n) == old(store).entries_of(n),
        final(store).version_of() == old(store).version_of(),
{
    let ghost pre = *store;
    let mut p: usize = 0;
    while p < triples.len()
        invariant
            p <= triples@.len(),
            store.wf(),
            pre.wf(),
            triples_disjoint(triples@),
            forall|i: int|
                0 <= i < p ==> {
                    &&& store.scalar_of((#[trigger] triples@[i]).new_name@) == pre.scalar_of(
                        triples@[i].old_name@,
                    )
                    &&& store.scalar_of(triples@[i].old_name@) == triples@[i].baseline
                },
            forall|i: int|
                p <= i < triples@.len() ==> {
                    &&& store.scalar_of((#[trigger] triples@[i]).old_name@) == pre.scalar_of(
                        triples@[i].old_name@,
                    )
                    &&& store.scalar_of(triples@[i].new_name@) == pre.scalar_of(
                        triples@[i].new_name@,
                    )
                },
            forall|k: Seq<u8>|
                !triples_mention(triples@, k)
                    ==> #[trigger] store.scalar_of(k) == pre.scalar_of(k),
            forall|n: Seq<u8>| #[trigger] store.entries_of(n) == pre.entries_of(n),
            store.version_of() == pre.version_of(),
        decreases triples@.len() - p,
    {
        let t = &triples[p];
        migrate_scalar(store, &t.old_name, &t.new_name, t.baseline);
        p = p + 1;
    }
}

/// Advance the schema-version marker to `V2`.  The marker only moves
/// forward: from any version below `V2` this is a strict increase.
pub fn advance_version(store: &mut Store)
    ensures
        final(store).version_of() == StorageVersion::V2,
        final(store).wf() == old(store).wf(),
        forall|n: Seq<u8>| #[trigger] final(store).entries_of(n) == old(store).entries_of(n),
        forall|k: Seq<u8>| #[trigger] final(store).scalar_of(k) == old(store).scalar_of(k),
{
    store.set_version(StorageVersion::V2);
}

/// The migration may still run: the version gate is below `V2`, the caller
/// kept the withdraw namespaces empty as it must, and the operation tally
/// cannot overflow its counter.
pub open spec fn migration_due(store: Store) -> bool {
    &&& store.wf()
    &&& version_index(store.version_of()) < version_index(StorageVersion::V2)
    &&& store.count_of(withdraw_transactions_ns()) == 0
    &&& store.count_of(executed_withdraw_transactions_ns()) == 0
    &&& store.count_of(burn_transactions_ns()) + store.count_of(executed_burn_transactions_ns())
        + 5 <= u64::MAX
}

/// Everything one migration run promises of the store it leaves behind
/// (`post`), relative to the store it found (`pre`): both namespaces moved
/// with every (key-suffix, value) pair preserved byte for byte and the
/// sources left empty, the two scalar cells copied forward and reset to the
/// zero baseline, everything else untouched, and the version marker strictly
/// advanced to `V2`.
pub open spec fn migrated(pre: Store, post: Store) -> bool {
    &&& post.wf()
    &&& post.entries_of(withdraw_transactions_ns()) == pre.entries_of(burn_transactions_ns())
    &&& post.entries_of(burn_transactions_ns()) == Seq::<(Seq<u8>, Seq<u8>)>::empty()
    &&& post.entries_of(executed_withdraw_transactions_ns()) == pre.entries_of(
        executed_burn_transactions_ns(),
    )
    &&& post.entries_of(executed_burn_transactions_ns()) == Seq::<(Seq<u8>, Seq<u8>)>::empty()
    &&& forall|n: Seq<u8>|
        n != burn_transactions_ns() && n != withdraw_transactions_ns() && n
            != executed_burn_transactions_ns() && n != executed_withdraw_transactions_ns()
            ==> #[trigger] post.entries_of(n) == pre.entries_of(n)
    &&& post.scalar_of(withdraw_transaction_id_cell()) == pre.scalar_of(
        burn_transaction_id_cell(),
    )
    &&& post.scalar_of(burn_transaction_id_cell()) == 0
    &&& post.scalar_of(withdraw_fee_cell()) == pre.scalar_of(burn_fee_cell())
    &&& post.scalar_of(burn_fee_cell()) == 0
    &&& forall|k: Seq<u8>|
        k != burn_transaction_id_cell() && k != withdraw_transaction_id_cell() && k
            != burn_fee_cell() && k != withdraw_fee_cell()
            ==> #[trigger] post.scalar_of(k) == pre.scalar_of(k)
    &&& post.version_of() == StorageVersion::V2
    &&& version_index(post.version_of()) > version_index(pre.version_of())
}

/// The read/write tally one run reports for the store it found: one read and
/// one write per moved entry, one read and two writes per scalar pair, and
/// one write for the version marker.
pub open spec fn run_tally(pre: Store, w: OperationCount) -> bool {
    &&& w.reads == pre.count_of(burn_transactions_ns()) + pre.count_of(
        executed_burn_transactions_ns(),
    ) + 2
    &&& w.writes == pre.count_of(burn_transactions_ns()) + pre.count_of(
        executed_burn_transactions_ns(),
    ) + 5
}

/// Byte-level entry preservation across a run: the entry at each position of
/// a target namespace is, key suffix and value byte for byte, the entry that
/// stood at the same position of its source namespace before the run.
pub proof fn lemma_migrated_entry_bytes(pre: Store, post: Store, i: int)
    requires
        migrated(pre, post),
    ensures
        0 <= i < pre.count_of(burn_transactions_ns()) ==> post.entries_of(
            withdraw_transactions_ns(),
        )[i] == pre.entries_of(burn_transactions_ns())[i],
        0 <= i < pre.count_of(executed_burn_transactions_ns()) ==> post.entries_of(
            executed_withdraw_transactions_ns(),
        )[i] == pre.entries_of(executed_burn_transactions_ns())[i],
{
}

/// Count preservation across a run: each target namespace holds exactly as
/// many entries as its source held before, and both sources hold none.
pub proof fn lemma_migrated_counts(pre: Store, post: Store)
    requires
        migrated(pre, post),
    ensures
        post.count_of(withdraw_transactions_ns()) == pre.count_of(burn_transactions_ns()),
        post.count_of(burn_transactions_ns()) == 0,
        post.count_of(executed_withdraw_transactions_ns()) == pre.count_of(
            executed_burn_transactions_ns(),
        ),
        post.count_of(executed_burn_transactions_ns()) == 0,
{
}

/// The migration orchestrator.  Moves every pending burn transaction to the
/// withdraw-transaction namespace and every executed burn transaction to the
/// executed-withdraw namespace, copies the transaction-id counter and the fee
/// to their withdraw cells while resetting the burn cells to zero, advances
/// the schema version to `V2`, and returns the read/write tally.
///
/// The caller must invoke this at most once, while the migration is due.
pub fn rename_burn_to_withdraw(store: &mut Store) -> (w: OperationCount)
    requires
        migration_due(*old(store)),
    ensures
        migrated(*old(store), *final(store)),
        run_tally(*old(store), w),
{
    proof {
        lemma_names_distinct();
    }
    let burn_ns = burn_transactions_key();
    let withdraw_ns = withdraw_transactions_key();
    let executed_burn_ns = executed_burn_transactions_key();
    let executed_withdraw_ns = executed_withdraw_transactions_key();

    // Move the two namespaces: each moved entry is one read of the old entry
    // and one write of the new one.
    let moved_tx = store.move_all(&burn_ns, &withdraw_ns);
    let moved_executed = store.move_all(&executed_burn_ns, &executed_withdraw_ns);

    // Copy the scalar counters forward and reset the burn cells to zero:
    // one read and two writes per pair.
    let triples = vec![
        ScalarTriple {
            old_name: burn_transaction_id_key(),
            new_name: withdraw_transaction_id_key(),
            baseline: 0,
        },
        ScalarTriple { old_name: burn_fee_key(), new_name: withdraw_fee_key(), baseline: 0 },
    ];
    proof {
        assert(triples@[0].old_name@ == burn_transaction_id_cell());
        assert(triples@[0].new_name@ == withdraw_transaction_id_cell());
        assert(triples@[1].old_name@ == burn_fee_cell());
        assert(triples@[1].new_name@ == withdraw_fee_cell());
        assert forall|i: int, j: int|
            0 <= i < triples@.len() && 0 <= j < triples@.len() && i != j implies {
            &&& (#[trigger] triples@[i].old_name@) != (#[trigger] triples@[j].old_name@)
            &&& triples@[i].old_name@ != triples@[j].new_name@
            &&& triples@[i].new_name@ != triples@[j].new_name@
        } by {
            lemma_names_distinct();
        }
    }
    let ghost mid = *store;
    migrate_scalars(store, &triples);
    proof {
        assert forall|k: Seq<u8>|
            k != burn_transaction_id_cell() && k != withdraw_transaction_id_cell() && k
                != burn_fee_cell() && k != withdraw_fee_cell() implies #[trigger] store.scalar_of(
            k,
        ) == mid.scalar_of(k) by {
            assert(!triples_mention(triples@, k));
        }
    }

    // The version advance is the last mutation: one write.
    advance_version(store);

    let reads = moved_tx as u64 + moved_executed as u64 + 2;
    let writes = moved_tx as u64 + moved_executed as u64 + 5;
    OperationCount { reads, writes }
}

} // verus!
