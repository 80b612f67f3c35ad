//! The distinguished namespace and scalar-cell names that the bridge
//! migration touches, as ASCII byte strings.  Each name exists twice: as a
//! spec-level byte sequence that the contracts speak of, and as an executable
//! constructor returning the same bytes as a `Vec<u8>`.

use vstd::prelude::*;

verus! {

/// Namespace of the pending burn transactions (the old location).  The bytes spell `BurnTransactions`.
pub open spec fn burn_transactions_ns() -> Seq<u8> {
    seq![66u8, 117u8, 114u8, 110u8, 84u8, 114u8, 97u8, 110u8, 115u8, 97u8, 99u8, 116u8, 105u8, 111u8, 110u8, 115u8]
}

/// Namespace of the pending withdraw transactions (the new location).  The bytes spell `WithdrawTransactions`.
pub open spec fn withdraw_transactions_ns() -> Seq<u8> {
    seq![87u8, 105u8, 116u8, 104u8, 100u8, 114u8, 97u8, 119u8, 84u8, 114u8, 97u8, 110u8, 115u8, 97u8, 99u8, 116u8, 105u8, 111u8, 110u8, 115u8]
}

/// Namespace of the executed burn transactions (the old location).  The bytes spell `ExecutedBurnTransactions`.
pub open spec fn executed_burn_transactions_ns() -> Seq<u8> {
    seq![69u8, 120u8, 101u8, 99u8, 117u8, 116u8, 101u8, 100u8, 66u8, 117u8, 114u8, 110u8, 84u8, 114u8, 97u8, 110u8, 115u8, 97u8, 99u8, 116u8, 105u8, 111u8, 110u8, 115u8]
}

/// Namespace of the executed withdraw transactions (the new location).  The bytes spell `ExecutedWithdrawTransactions`.
pub open spec fn executed_withdraw_transactions_ns() -> Seq<u8> {
    seq![69u8, 120u8, 101u8, 99u8, 117u8, 116u8, 101u8, 100u8, 87u8, 105u8, 116u8, 104u8, 100u8, 114u8, 97u8, 119u8, 84u8, 114u8, 97u8, 110u8, 115u8, 97u8, 99u8, 116u8, 105u8, 111u8, 110u8, 115u8]
}

/// Scalar cell holding the burn transaction-id counter (the old cell).  The bytes spell `BurnTransactionID`.
pub open spec fn burn_transaction_id_cell() -> Seq<u8> {
    seq![66u8, 117u8, 114u8, 110u8, 84u8, 114u8, 97u8, 110u8, 115u8, 97u8, 99u8, 116u8, 105u8, 111u8, 110u8, 73u8, 68u8]
}

/// Scalar cell holding the withdraw transaction-id counter (the new cell).  The bytes spell `WithdrawTransactionID`.
pub open spec fn withdraw_transaction_id_cell() -> Seq<u8> {
    seq![87u8, 105u8, 116u8, 104u8, 100u8, 114u8, 97u8, 119u8, 84u8, 114u8, 97u8, 110u8, 115u8, 97u8, 99u8, 116u8, 105u8, 111u8, 110u8, 73u8, 68u8]
}

/// Scalar cell holding the burn fee (the old cell).  The bytes spell `BurnFee`.
pub open spec fn burn_fee_cell() -> Seq<u8> {
    seq![66u8, 117u8, 114u8, 110u8, 70u8, 101u8, 101u8]
}

/// Scalar cell holding the withdraw fee (the new cell).  The bytes spell `WithdrawFee`.
pub open spec fn withdraw_fee_cell() -> Seq<u8> {
    seq![87u8, 105u8, 116u8, 104u8, 100u8, 114u8, 97u8, 119u8, 70u8, 101u8, 101u8]
}

/// The four namespace names are pairwise distinct, and so are the four
/// scalar-cell names: every pair differs already in length.
pub proof fn lemma_names_distinct()
    ensures
        burn_transactions_ns() != withdraw_transactions_ns(),
        burn_transactions_ns() != executed_burn_transactions_ns(),
        burn_transactions_ns() != executed_withdraw_transactions_ns(),
        withdraw_transactions_ns() != executed_burn_transactions_ns(),
        withdraw_transactions_ns() != executed_withdraw_transactions_ns(),
        executed_burn_transactions_ns() != executed_withdraw_transactions_ns(),
        burn_transaction_id_cell() != withdraw_transaction_id_cell(),
        burn_transaction_id_cell() != burn_fee_cell(),
        burn_transaction_id_cell() != withdraw_fee_cell(),
        withdraw_transaction_id_cell() != burn_fee_cell(),
        withdraw_transaction_id_cell() != withdraw_fee_cell(),
        burn_fee_cell() != withdraw_fee_cell(),
{
    assert(burn_transactions_ns().len() == 16);
    assert(withdraw_transactions_ns().len() == 20);
    assert(executed_burn_transactions_ns().len() == 24);
    assert(executed_withdraw_transactions_ns().len() == 28);
    assert(burn_transaction_id_cell().len() == 17);
    assert(withdraw_transaction_id_cell().len() == 21);
    assert(burn_fee_cell().len() == 7);
    assert(withdraw_fee_cell().len() == 11);
}

/// Executable form of [`burn_transactions_ns`].
pub fn burn_transactions_key() -> (r: Vec<u8>)
    ensures
        r@ == burn_transactions_ns(),
{
    let r = vec![66u8, 117u8, 114u8, 110u8, 84u8, 114u8, 97u8, 110u8, 115u8, 97u8, 99u8, 116u8, 105u8, 111u8, 110u8, 115u8];
    proof {
        assert(r@ =~= burn_transactions_ns());
    }
    r
}

/// Executable form of [`withdraw_transactions_ns`].
pub fn withdraw_transactions_key() -> (r: Vec<u8>)
    ensures
        r@ == withdraw_transactions_ns(),
{
    let r = vec![87u8, 105u8, 116u8, 104u8, 100u8, 114u8, 97u8, 119u8, 84u8, 114u8, 97u8, 110u8, 115u8, 97u8, 99u8, 116u8, 105u8, 111u8, 110u8, 115u8];
    proof {
        assert(r@ =~= withdraw_transactions_ns());
    }
    r
}

/// Executable form of [`executed_burn_transactions_ns`].
pub fn executed_burn_transactions_key() -> (r: Vec<u8>)
    ensures
        r@ == executed_burn_transactions_ns(),
{
    let r = vec![69u8, 120u8, 101u8, 99u8, 117u8, 116u8, 101u8, 100u8, 66u8, 117u8, 114u8, 110u8, 84u8, 114u8, 97u8, 110u8, 115u8, 97u8, 99u8, 116u8, 105u8, 111u8, 110u8, 115u8];
    proof {
        assert(r@ =~= executed_burn_transactions_ns());
    }
    r
}

/// Executable form of [`executed_withdraw_transactions_ns`].
pub fn executed_withdraw_transactions_key() -> (r: Vec<u8>)
    ensures
        r@ == executed_withdraw_transactions_ns(),
{
    let r = vec![69u8, 120u8, 101u8, 99u8, 117u8, 116u8, 101u8, 100u8, 87u8, 105u8, 116u8, 104u8, 100u8, 114u8, 97u8, 119u8, 84u8, 114u8, 97u8, 110u8, 115u8, 97u8, 99u8, 116u8, 105u8, 111u8, 110u8, 115u8];
    proof {
        assert(r@ =~= executed_withdraw_transactions_ns());
    }
    r
}

/// Executable form of [`burn_transaction_id_cell`].
pub fn burn_transaction_id_key() -> (r: Vec<u8>)
    ensures
        r@ == burn_transaction_id_cell(),
{
    let r = vec![66u8, 117u8, 114u8, 110u8, 84u8, 114u8, 97u8, 110u8, 115u8, 97u8, 99u8, 116u8, 105u8, 111u8, 110u8, 73u8, 68u8];
    proof {
        assert(r@ =~= burn_transaction_id_cell());
    }
    r
}

/// Executable form of [`withdraw_transaction_id_cell`].
pub fn withdraw_transaction_id_key() -> (r: Vec<u8>)
    ensures
        r@ == withdraw_transaction_id_cell(),
{
    let r = vec![87u8, 105u8, 116u8, 104u8, 100u8, 114u8, 97u8, 119u8, 84u8, 114u8, 97u8, 110u8, 115u8, 97u8, 99u8, 116u8, 105u8, 111u8, 110u8, 73u8, 68u8];
    proof {
        assert(r@ =~= withdraw_transaction_id_cell());
    }
    r
}

/// Executable form of [`burn_fee_cell`].
pub fn burn_fee_key() -> (r: Vec<u8>)
    ensures
        r@ == burn_fee_cell(),
{
    let r = vec![66u8, 117u8, 114u8, 110u8, 70u8, 101u8, 101u8];
    proof {
        assert(r@ =~= burn_fee_cell());
    }
    r
}

/// Executable form of [`withdraw_fee_cell`].
pub fn withdraw_fee_key() -> (r: Vec<u8>)
    ensures
        r@ == withdraw_fee_cell(),
{
    let r = vec![87u8, 105u8, 116u8, 104u8, 100u8, 114u8, 97u8, 119u8, 70u8, 101u8, 101u8];
    proof {
        assert(r@ =~= withdraw_fee_cell());
    }
    r
}

} // verus!
