use vstd::prelude::*;

use crate::account::Account;
use crate::amounts::{
    account_balance, account_txns, category_average, category_total, category_txns, date_sorted,
    lemma_sort_by_date_ensures, sort_by_date, sum_txns,
};
use crate::category::Category;
use crate::database::{account_ids, category_ids, ids_ok, next_id};
use crate::transaction::Transaction;

verus! {

/// Law: after an account is inserted under the engine-assigned identity, that
/// identity names exactly the inserted value — a fetch by it yields a value
/// equal in every field, with the identity newly populated.
pub proof fn lemma_account_round_trip(accounts: Seq<Account>, a: Account)
    requires
        ids_ok(account_ids(accounts)),
        next_id(account_ids(accounts)) <= i64::MAX,
    ensures
        ({
            let id = next_id(account_ids(accounts)) as i64;
            let stored = Account { id, display_name: a.display_name };
            let after = accounts.push(stored);
            &&& exists|i: int| 0 <= i < after.len() && #[trigger] after[i].id == id
            &&& forall|i: int|
                0 <= i < after.len() && #[trigger] after[i].id == id ==> after[i] == stored
        }),
{
    let id = next_id(account_ids(accounts)) as i64;
    let stored = Account { id, display_name: a.display_name };
    let after = accounts.push(stored);
    assert(after[accounts.len() as int].id == id);
    assert forall|i: int| 0 <= i < after.len() && #[trigger] after[i].id == id implies after[i]
        == stored by {
        if i < accounts.len() {
            assert(account_ids(accounts)[i] == accounts[i].id);
            if i < accounts.len() - 1 {
                assert(account_ids(accounts)[i] < account_ids(accounts)[accounts.len() - 1]);
            }
            assert(accounts[i].id < id);
        }
    }
}

/// Law: after a category is inserted under the engine-assigned identity, that
/// identity names exactly the inserted value.
pub proof fn lemma_category_round_trip(categories: Seq<Category>, c: Category)
    requires
        ids_ok(category_ids(categories)),
        next_id(category_ids(categories)) <= i64::MAX,
    ensures
        ({
            let id = next_id(category_ids(categories)) as i64;
            let stored = Category { id, display_name: c.display_name };
            let after = categories.push(stored);
            &&& exists|i: int| 0 <= i < after.len() && #[trigger] after[i].id == id
            &&& forall|i: int|
                0 <= i < after.len() && #[trigger] after[i].id == id ==> after[i] == stored
        }),
{
    let id = next_id(category_ids(categories)) as i64;
    let stored = Category { id, display_name: c.display_name };
    let after = categories.push(stored);
    assert(after[categories.len() as int].id == id);
    assert forall|i: int| 0 <= i < after.len() && #[trigger] after[i].id == id implies after[i]
        == stored by {
        if i < categories.len() {
            assert(category_ids(categories)[i] == categories[i].id);
            if i < categories.len() - 1 {
                assert(category_ids(categories)[i] < category_ids(categories)[categories.len()
                    - 1]);
            }
            assert(categories[i].id < id);
        }
    }
}

/// Law: after a transaction is inserted, the engine-assigned identity (the new
/// length) names exactly the inserted value, unchanged.
pub proof fn lemma_transaction_round_trip(transactions: Seq<Transaction>, t: Transaction)
    ensures
        transactions.push(t).len() == transactions.len() + 1,
        transactions.push(t)[transactions.len() as int] == t,
{
}

/// Law: after a category transfer is inserted, the engine-assigned identity
/// (the new length) names exactly the inserted value, unchanged.
pub proof fn lemma_category_transfer_round_trip(
    transfers: Seq<crate::category_transfer::CategoryTransfer>,
    t: crate::category_transfer::CategoryTransfer,
)
    ensures
        transfers.push(t).len() == transfers.len() + 1,
        transfers.push(t)[transfers.len() as int] == t,
{
}

/// Law: an account no transaction references has a derived balance of zero —
/// it is reported with balance zero, not absent.
pub proof fn lemma_balance_zero_without_transactions(ts: Seq<Transaction>, account_id: i64)
    requires
        forall|i: int| 0 <= i < ts.len() ==> (#[trigger] ts[i]).account_id != account_id,
    ensures
        account_balance(ts, account_id) == 0,
{
    let pred = |t: Transaction| t.account_id == account_id;
    assert(ts.all(|t: Transaction| !pred(t)));
    ts.lemma_all_neg_filter_empty(pred);
    assert(account_txns(ts, account_id) =~= Seq::<Transaction>::empty());
}

/// Law: an account's history is non-decreasing in date, and its final running
/// balance — the inclusive prefix sum over all of its transactions — equals
/// the account's derived balance as the balance report states it.
pub proof fn lemma_history_matches_balance(ts: Seq<Transaction>, account_id: i64)
    ensures
        ({
            let sorted = sort_by_date(account_txns(ts, account_id));
            &&& date_sorted(sorted)
            &&& sorted.len() == account_txns(ts, account_id).len()
            &&& sorted.len() > 0 ==> sum_txns(sorted.take(sorted.len() as int)) == account_balance(
                ts,
                account_id,
            )
        }),
{
    let sorted = sort_by_date(account_txns(ts, account_id));
    lemma_sort_by_date_ensures(account_txns(ts, account_id));
    assert(sorted.take(sorted.len() as int) =~= sorted);
}

/// Law: a category with no transaction in the period reports a total of zero
/// and an average of zero — it still appears, never absent.
pub proof fn lemma_category_zero_outside_period(
    ts: Seq<Transaction>,
    category_id: i64,
    start: i64,
    end: i64,
)
    requires
        forall|i: int|
            0 <= i < ts.len() ==> !((#[trigger] ts[i]).category_id == category_id && start
                <= ts[i].date && ts[i].date <= end),
    ensures
        category_total(ts, category_id, start, end) == 0,
        category_average(ts, category_id, start, end) == 0,
{
    let pred = |t: Transaction| t.category_id == category_id && start <= t.date && t.date <= end;
    assert(ts.all(|t: Transaction| !pred(t)));
    ts.lemma_all_neg_filter_empty(pred);
    assert(category_txns(ts, category_id, start, end) =~= Seq::<Transaction>::empty());
}

} // verus!
