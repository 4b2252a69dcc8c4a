//! The rules of the balance table: which transfers an account can pay, and
//! what a transfer, a batch of transfers and a reward do to the table.

use crate::transaction::TransactionView;
use vstd::prelude::*;

verus! {

/// The balance of `address`: zero where the table does not hold it.
pub open spec fn balance_of(balances: Map<Seq<char>, u64>, address: Seq<char>) -> u64 {
    if balances.contains_key(address) {
        balances[address]
    } else {
        0
    }
}

/// The sender of `tx` holds at least its amount.
pub open spec fn funded(balances: Map<Seq<char>, u64>, tx: TransactionView) -> bool {
    balance_of(balances, tx.sender) >= tx.amount
}

/// The position of the first transaction of `batch` whose sender does not
/// hold its amount in `balances`, if there is one.
pub open spec fn first_unfunded(
    balances: Map<Seq<char>, u64>,
    batch: Seq<TransactionView>,
) -> Option<int>
    decreases batch.len(),
{
    if batch.len() == 0 {
        None
    } else {
        match first_unfunded(balances, batch.drop_last()) {
            Some(i) => Some(i),
            None => if funded(balances, batch.last()) {
                None
            } else {
                Some(batch.len() - 1)
            },
        }
    }
}

/// Adding `amount` to the balance of `address` stays within `u64`.
pub open spec fn credit_fits(balances: Map<Seq<char>, u64>, address: Seq<char>, amount: u64) -> bool {
    balance_of(balances, address) + amount <= u64::MAX
}

/// The table after `amount` was added to the balance of `address`.
pub open spec fn credit(balances: Map<Seq<char>, u64>, address: Seq<char>, amount: u64) -> Map<
    Seq<char>,
    u64,
> {
    balances.insert(address, (balance_of(balances, address) + amount) as u64)
}

/// The table after `amount` was taken from the balance of `address`.
pub open spec fn debit(balances: Map<Seq<char>, u64>, address: Seq<char>, amount: u64) -> Map<
    Seq<char>,
    u64,
> {
    balances.insert(address, (balance_of(balances, address) - amount) as u64)
}

/// `tx` can be applied to `balances`: the sender holds the amount, and the
/// receiver's balance stays within `u64`.
pub open spec fn transfer_fits(balances: Map<Seq<char>, u64>, tx: TransactionView) -> bool {
    &&& funded(balances, tx)
    &&& credit_fits(debit(balances, tx.sender, tx.amount), tx.receiver, tx.amount)
}

/// The table after `tx`: the amount leaves the sender, then reaches the
/// receiver.
pub open spec fn transfer(balances: Map<Seq<char>, u64>, tx: TransactionView) -> Map<
    Seq<char>,
    u64,
> {
    credit(debit(balances, tx.sender, tx.amount), tx.receiver, tx.amount)
}

/// The table after the transactions of `batch` were applied in order, or the
/// position of the first one that could not be applied to the table that the
/// ones before it left.
pub open spec fn settle(balances: Map<Seq<char>, u64>, batch: Seq<TransactionView>) -> Result<
    Map<Seq<char>, u64>,
    int,
>
    decreases batch.len(),
{
    if batch.len() == 0 {
        Ok(balances)
    } else {
        match settle(balances, batch.drop_last()) {
            Err(i) => Err(i),
            Ok(table) => if transfer_fits(table, batch.last()) {
                Ok(transfer(table, batch.last()))
            } else {
                Err(batch.len() - 1)
            },
        }
    }
}

/// No transaction of a batch is unfunded exactly when every one is funded.
pub proof fn first_unfunded_none(balances: Map<Seq<char>, u64>, batch: Seq<TransactionView>)
    ensures
        first_unfunded(balances, batch).is_none() <==> forall|i: int|
            0 <= i < batch.len() ==> funded(balances, #[trigger] batch[i]),
        match first_unfunded(balances, batch) {
            Some(i) => {
                &&& 0 <= i < batch.len()
                &&& !funded(balances, batch[i])
                &&& forall|j: int| 0 <= j < i ==> funded(balances, #[trigger] batch[j])
            },
            None => true,
        },
    decreases batch.len(),
{
    if batch.len() > 0 {
        let front = batch.drop_last();
        first_unfunded_none(balances, front);
        assert forall|i: int| 0 <= i < front.len() implies front[i] == batch[i] by {}
        match first_unfunded(balances, front) {
            Some(i) => {
                assert(front[i] == batch[i]);
                assert forall|j: int| 0 <= j < i implies funded(balances, #[trigger] batch[j]) by {
                    assert(front[j] == batch[j]);
                }
            },
            None => {
                assert forall|j: int| 0 <= j < batch.len() - 1 implies funded(
                    balances,
                    #[trigger] batch[j],
                ) by {
                    assert(front[j] == batch[j]);
                }
                if funded(balances, batch.last()) {
                    assert forall|j: int| 0 <= j < batch.len() implies funded(
                        balances,
                        #[trigger] batch[j],
                    ) by {
                        if j < batch.len() - 1 {
                            assert(front[j] == batch[j]);
                        }
                    }
                }
            },
        }
    }
}

/// The first unfunded transaction of a batch is the one that is unfunded
/// while all before it are funded.
pub proof fn first_unfunded_at(balances: Map<Seq<char>, u64>, batch: Seq<TransactionView>, i: int)
    requires
        0 <= i < batch.len(),
        !funded(balances, batch[i]),
        forall|j: int| 0 <= j < i ==> funded(balances, #[trigger] batch[j]),
    ensures
        first_unfunded(balances, batch) == Some(i),
{
    first_unfunded_none(balances, batch);
    match first_unfunded(balances, batch) {
        Some(found) => {
            if found < i {
                assert(funded(balances, batch[found]));
            }
            if i < found {
                assert(funded(balances, batch[i]));
            }
        },
        None => {
            assert(funded(balances, batch[i]));
        },
    }
}

/// A batch that settles leaves every address outside it as it was.
pub proof fn settle_keeps_others(
    balances: Map<Seq<char>, u64>,
    batch: Seq<TransactionView>,
    address: Seq<char>,
)
    requires
        settle(balances, batch).is_ok(),
        forall|i: int|
            0 <= i < batch.len() ==> (#[trigger] batch[i]).sender != address && batch[i].receiver
                != address,
    ensures
        match settle(balances, batch) {
            Ok(table) => balance_of(table, address) == balance_of(balances, address),
            Err(_) => false,
        },
    decreases batch.len(),
{
    if batch.len() > 0 {
        let front = batch.drop_last();
        assert forall|i: int| 0 <= i < front.len() implies (#[trigger] front[i]).sender != address
            && front[i].receiver != address by {
            assert(front[i] == batch[i]);
        }
        settle_keeps_others(balances, front, address);
        let last = batch[batch.len() - 1];
        assert(last.sender != address && last.receiver != address);
    }
}

/// A batch stops at the first transaction that cannot be applied to the
/// table that the ones before it left.
pub proof fn settle_stops_at(balances: Map<Seq<char>, u64>, batch: Seq<TransactionView>, k: int)
    requires
        0 <= k < batch.len(),
        match settle(balances, batch.take(k)) {
            Ok(table) => !transfer_fits(table, batch[k]),
            Err(_) => false,
        },
    ensures
        settle(balances, batch) == Err::<Map<Seq<char>, u64>, int>(k),
{
    assert(batch.take(k + 1).drop_last() =~= batch.take(k));
    assert(batch.take(k + 1).last() == batch[k]);
    settle_stays_stopped(balances, batch, k, batch.len() as int);
    assert(batch.take(batch.len() as int) =~= batch);
}

proof fn settle_stays_stopped(
    balances: Map<Seq<char>, u64>,
    batch: Seq<TransactionView>,
    k: int,
    n: int,
)
    requires
        0 <= k < n <= batch.len(),
        settle(balances, batch.take(k + 1)) == Err::<Map<Seq<char>, u64>, int>(k),
    ensures
        settle(balances, batch.take(n)) == Err::<Map<Seq<char>, u64>, int>(k),
    decreases n,
{
    if n > k + 1 {
        settle_stays_stopped(balances, batch, k, n - 1);
        assert(batch.take(n).drop_last() =~= batch.take(n - 1));
    }
}

} // verus!
