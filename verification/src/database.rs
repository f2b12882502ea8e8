use vstd::prelude::*;
use vstd::string::{StrSliceExecFns, StringExecFns};

use crate::account::{Account, AccountDisplay, AccountHistoryEntry};
use crate::category::{Category, CategoryDisplay};
use crate::category_transfer::CategoryTransfer;
use crate::error::RytError;
use crate::persist::DatabaseInfo;
use crate::amounts::{account_txns, account_balance, category_txns, category_total, date_sorted, prefix_sums_fit, sum_txns};
use crate::store;
use crate::transaction::{Transaction, TransactionDisplay, TransactionDisplayList};

verus! {

/// An ordering request for a whole-table fetch; `Date` is valid only for
/// entities that carry a date column.
#[derive(Debug, Clone, Copy, PartialEq, Eq)]
pub enum OrderBy {
    Unordered,
    Date,
}

/// The mathematical contents of the ledger: the four entity tables, each as a
/// sequence in identity order (for transactions and transfers the identity is
/// the position plus one).
#[verifier::ext_equal]
pub struct Ledger {
    pub accounts: Seq<Account>,
    pub categories: Seq<Category>,
    pub transactions: Seq<Transaction>,
    pub transfers: Seq<CategoryTransfer>,
}

pub open spec fn account_ids(s: Seq<Account>) -> Seq<i64> {
    s.map_values(|a: Account| a.id)
}

pub open spec fn category_ids(s: Seq<Category>) -> Seq<i64> {
    s.map_values(|c: Category| c.id)
}

/// Identities are strictly ascending and at least one.
pub open spec fn ids_ok(ids: Seq<i64>) -> bool {
    &&& forall|i: int, j: int| 0 <= i < j < ids.len() ==> #[trigger] ids[i] < #[trigger] ids[j]
    &&& forall|i: int| 0 <= i < ids.len() ==> #[trigger] ids[i] >= 1
}

/// The identity the engine assigns to the next inserted row.
pub open spec fn next_id(ids: Seq<i64>) -> int {
    if ids.len() == 0 {
        1
    } else {
        ids.last() + 1
    }
}

/// The display name of the category with the given identity, or the empty
/// string for a dangling or sentinel reference; resolves to the first match.
pub open spec fn category_name_or_empty(cats: Seq<Category>, id: i64) -> Seq<char>
    decreases cats.len(),
{
    if cats.len() == 0 {
        Seq::empty()
    } else if cats.first().id == id {
        cats.first().display_name@
    } else {
        category_name_or_empty(cats.drop_first(), id)
    }
}

/// The display name of the account with the given identity, or the empty
/// string for a dangling reference; resolves to the first match.
pub open spec fn account_name_or_empty(accounts: Seq<Account>, id: i64) -> Seq<char>
    decreases accounts.len(),
{
    if accounts.len() == 0 {
        Seq::empty()
    } else if accounts.first().id == id {
        accounts.first().display_name@
    } else {
        account_name_or_empty(accounts.drop_first(), id)
    }
}

/// The position of the last `/` in a path, if any.
pub open spec fn last_slash(s: Seq<char>) -> Option<int>
    decreases s.len(),
{
    if s.len() == 0 {
        None
    } else if s.last() == '/' {
        Some(s.len() - 1)
    } else {
        last_slash(s.drop_last())
    }
}

/// The ledger engine: the single connection to the backing store, beside an
/// in-memory mirror of its contents. Every report and every mutation is
/// specified and verified against the mirror; the store is kept in step
/// through the trusted wrappers, and a failed store call leaves the mirror
/// unchanged.
pub struct Database {
    conn: rusqlite::Connection,
    pub file_name: String,
    pub folder_dir: String,
    accounts: Vec<Account>,
    categories: Vec<Category>,
    transactions: Vec<Transaction>,
    transfers: Vec<CategoryTransfer>,
}

proof fn lemma_ids_ok_push(ids: Seq<i64>, x: i64)
    requires
        ids_ok(ids),
        x >= 1,
        ids.len() > 0 ==> x > ids.last(),
    ensures
        ids_ok(ids.push(x)),
{
    let w = ids.push(x);
    assert forall|i: int, j: int| 0 <= i < j < w.len() implies #[trigger] w[i] < #[trigger] w[j] by {
        if j < ids.len() {
        } else {
            if i < ids.len() - 1 {
                assert(ids[i] < ids[ids.len() - 1]);
            }
        }
    }
}

impl Database {
    /// The ledger's mathematical contents.
    pub closed spec fn model(self) -> Ledger {
        Ledger {
            accounts: self.accounts@,
            categories: self.categories@,
            transactions: self.transactions@,
            transfers: self.transfers@,
        }
    }

    /// The name of the backing file.
    pub closed spec fn spec_file_name(self) -> Seq<char> {
        self.file_name@
    }

    /// The directory that holds the backing file.
    pub closed spec fn spec_folder_dir(self) -> Seq<char> {
        self.folder_dir@
    }

    /// The engine's invariant: account and category identities are strictly
    /// ascending and at least one, so each identity names at most one row.
    pub open spec fn wf(self) -> bool {
        &&& ids_ok(account_ids(self.model().accounts))
        &&& ids_ok(category_ids(self.model().categories))
        &&& self.model().transactions.len() <= i64::MAX
        &&& self.model().transfers.len() <= i64::MAX
    }

    /// Opens or creates the backing file, creates any table that is missing,
    /// and loads the mirror from the store.
    pub fn new(path: &str) -> (r: Result<Database, RytError>)
        ensures
            r is Ok ==> r->Ok_0.wf(),
            r is Err ==> r->Err_0 == RytError::Rusqlite,
            r is Ok ==> {
                let parts = (match last_slash(path@) {
                    Some(i) => (path@.take(i), path@.skip(i + 1)),
                    None => (Seq::<char>::empty(), path@),
                });
                r->Ok_0.spec_folder_dir() == parts.0 && r->Ok_0.spec_file_name() == parts.1
            },
    {
        let conn = store::open_file_connection(path)?;
        let (folder_dir, file_name) = split_path(path);
        Self::from_connection(conn, file_name, folder_dir)
    }

    /// Opens a fresh private in-memory database with the full schema.
    pub fn open_in_memory() -> (r: Result<Database, RytError>)
        ensures
            r is Ok ==> r->Ok_0.wf(),
            r is Err ==> r->Err_0 == RytError::Rusqlite,
    {
        let conn = store::open_memory_connection()?;
        Self::from_connection(conn, String::new(), String::new())
    }

    /// Bootstraps the schema (creating each table only where it is absent) and
    /// loads and validates the mirror.
    fn from_connection(conn: rusqlite::Connection, file_name: String, folder_dir: String) -> (r:
        Result<Database, RytError>)
        ensures
            r is Ok ==> r->Ok_0.wf(),
            r is Ok ==> r->Ok_0.spec_file_name() == file_name@ && r->Ok_0.spec_folder_dir() == folder_dir@,
            r is Err ==> r->Err_0 == RytError::Rusqlite,
    {
        ensure_table(&conn, Category::table_name(), Category::sql_schema())?;
        ensure_table(&conn, Account::table_name(), Account::sql_schema())?;
        ensure_table(&conn, Transaction::table_name(), Transaction::sql_schema())?;
        ensure_table(&conn, CategoryTransfer::table_name(), CategoryTransfer::sql_schema())?;

        let account_rows = store::load_account_rows(&conn)?;
        let category_rows = store::load_category_rows(&conn)?;
        let transaction_rows = store::load_transaction_rows(&conn)?;
        let transfer_rows = store::load_transfer_rows(&conn)?;

        let accounts = rows_to_accounts(account_rows)?;
        let categories = rows_to_categories(category_rows)?;
        let transactions = rows_to_transactions(transaction_rows)?;
        let transfers = rows_to_transfers(transfer_rows)?;

        Ok(Database { conn, file_name, folder_dir, accounts, categories, transactions, transfers })
    }

    /// Borrows the mirror's transactions.
    pub(crate) fn transactions_vec(&self) -> (r: &Vec<Transaction>)
        ensures
            r@ == self.model().transactions,
    {
        &self.transactions
    }

    /// Borrows the mirror's accounts.
    pub(crate) fn accounts_vec(&self) -> (r: &Vec<Account>)
        ensures
            r@ == self.model().accounts,
    {
        &self.accounts
    }

    /// Borrows the mirror's categories.
    pub(crate) fn categories_vec(&self) -> (r: &Vec<Category>)
        ensures
            r@ == self.model().categories,
    {
        &self.categories
    }

    /// The open file's name and directory.
    pub fn db_info(&self) -> (r: DatabaseInfo)
        ensures
            r.file_name@ == self.spec_file_name(),
            r.file_path@ == self.spec_folder_dir(),
    {
        DatabaseInfo { file_name: self.file_name.clone(), file_path: self.folder_dir.clone() }
    }

    /// Inserts an account; the engine assigns and returns its identity. On any
    /// failure the ledger is unchanged.
    pub fn insert_account(&mut self, data: Account) -> (r: Result<i64, RytError>)
        requires
            old(self).wf(),
        ensures
            final(self).wf(),
            next_id(account_ids(old(self).model().accounts)) > i64::MAX ==> r is Err,
            r is Ok ==> r->Ok_0 as int == next_id(account_ids(old(self).model().accounts)),
            r is Ok ==> final(self).model() == (Ledger {
                accounts: old(self).model().accounts.push(
                    Account { id: r->Ok_0, display_name: data.display_name },
                ),
                ..old(self).model()
            }),
            r is Err ==> final(self).model() == old(self).model() && r->Err_0
                == RytError::Rusqlite,
    {
        let id: i64 = if self.accounts.len() == 0 {
            1
        } else {
            let last = self.accounts[self.accounts.len() - 1].id;
            if last == i64::MAX {
                return Err(RytError::Rusqlite);
            }
            last + 1
        };
        store::insert_account_row(&self.conn, id, data.display_name.as_str())?;
        let entry = Account { id, display_name: data.display_name };
        proof {
            if self.accounts@.len() > 0 {
                assert(account_ids(self.accounts@).last() == self.accounts@.last().id);
                assert(account_ids(self.accounts@).last() >= 1);
            }
            assert(account_ids(self.accounts@.push(entry)) =~= account_ids(self.accounts@).push(
                id,
            ));
            lemma_ids_ok_push(account_ids(self.accounts@), id);
        }
        self.accounts.push(entry);
        Ok(id)
    }

    /// Inserts a category; the engine assigns and returns its identity. On any
    /// failure the ledger is unchanged.
    pub fn insert_category(&mut self, data: Category) -> (r: Result<i64, RytError>)
        requires
            old(self).wf(),
        ensures
            final(self).wf(),
            next_id(category_ids(old(self).model().categories)) > i64::MAX ==> r is Err,
            r is Ok ==> r->Ok_0 as int == next_id(category_ids(old(self).model().categories)),
            r is Ok ==> final(self).model() == (Ledger {
                categories: old(self).model().categories.push(
                    Category { id: r->Ok_0, display_name: data.display_name },
                ),
                ..old(self).model()
            }),
            r is Err ==> final(self).model() == old(self).model() && r->Err_0
                == RytError::Rusqlite,
    {
        let id: i64 = if self.categories.len() == 0 {
            1
        } else {
            let last = self.categories[self.categories.len() - 1].id;
            if last == i64::MAX {
                return Err(RytError::Rusqlite);
            }
            last + 1
        };
        store::insert_category_row(&self.conn, id, data.display_name.as_str())?;
        let entry = Category { id, display_name: data.display_name };
        proof {
            if self.categories@.len() > 0 {
                assert(category_ids(self.categories@).last() == self.categories@.last().id);
                assert(category_ids(self.categories@).last() >= 1);
            }
            assert(category_ids(self.categories@.push(entry)) =~= category_ids(
                self.categories@,
            ).push(id));
            lemma_ids_ok_push(category_ids(self.categories@), id);
        }
        self.categories.push(entry);
        Ok(id)
    }

    /// Inserts a transaction exactly as given; its identity is its final
    /// position plus one. On any failure the ledger is unchanged.
    pub fn insert_transaction(&mut self, data: Transaction) -> (r: Result<i64, RytError>)
        requires
            old(self).wf(),
        ensures
            final(self).wf(),
            old(self).model().transactions.len() >= i64::MAX ==> r is Err,
            r is Ok ==> r->Ok_0 as int == old(self).model().transactions.len() + 1,
            r is Ok ==> final(self).model() == (Ledger {
                transactions: old(self).model().transactions.push(data),
                ..old(self).model()
            }),
            r is Err ==> final(self).model() == old(self).model() && r->Err_0
                == RytError::Rusqlite,
    {
        if (self.transactions.len() as u64) >= (i64::MAX as u64) {
            return Err(RytError::Rusqlite);
        }
        let id: i64 = (self.transactions.len() as u64 as i64) + 1;
        store::insert_transaction_row(&self.conn, id, &data)?;
        self.transactions.push(data);
        Ok(id)
    }

    /// Inserts a category transfer; its identity is its final position plus
    /// one. On any failure the ledger is unchanged.
    pub fn insert_category_transfer(&mut self, data: CategoryTransfer) -> (r: Result<i64, RytError>)
        requires
            old(self).wf(),
        ensures
            final(self).wf(),
            old(self).model().transfers.len() >= i64::MAX ==> r is Err,
            r is Ok ==> r->Ok_0 as int == old(self).model().transfers.len() + 1,
            r is Ok ==> final(self).model() == (Ledger {
                transfers: old(self).model().transfers.push(data),
                ..old(self).model()
            }),
            r is Err ==> final(self).model() == old(self).model() && r->Err_0
                == RytError::Rusqlite,
    {
        if (self.transfers.len() as u64) >= (i64::MAX as u64) {
            return Err(RytError::Rusqlite);
        }
        let id: i64 = (self.transfers.len() as u64 as i64) + 1;
        store::insert_transfer_row(&self.conn, id, &data)?;
        self.transfers.push(data);
        Ok(id)
    }

    /// Creates a category and inserts a transaction categorized under it, as
    /// one import step: where the transaction insert fails, the just created
    /// category is removed again — from the mirror exactly, and from the
    /// store as far as a delete can be issued — so the ledger gains both rows
    /// or neither.
    pub(crate) fn insert_category_with_transaction(&mut self, name: &str, data: Transaction) -> (r:
        Result<i64, RytError>)
        requires
            old(self).wf(),
        ensures
            final(self).wf(),
            r is Ok ==> r->Ok_0 as int == next_id(category_ids(old(self).model().categories)),
            r is Ok ==> crate::csv::cat_views(final(self).model().categories)
                == crate::csv::cat_views(old(self).model().categories).push(
                crate::csv::CatView { id: r->Ok_0, name: name@ },
            ),
            r is Ok ==> final(self).model().transactions == old(self).model().transactions.push(
                Transaction {
                    payee: data.payee,
                    notes: data.notes,
                    account_id: data.account_id,
                    category_id: r->Ok_0,
                    date: data.date,
                    amount: data.amount,
                },
            ),
            r is Ok ==> final(self).model().accounts == old(self).model().accounts,
            r is Ok ==> final(self).model().transfers == old(self).model().transfers,
            r is Err ==> final(self).model() == old(self).model() && r->Err_0
                == RytError::Rusqlite,
    {
        let cid: i64 = if self.categories.len() == 0 {
            1
        } else {
            let last = self.categories[self.categories.len() - 1].id;
            if last == i64::MAX {
                return Err(RytError::Rusqlite);
            }
            last + 1
        };
        store::insert_category_row(&self.conn, cid, name)?;
        let entry = Category { id: cid, display_name: name.to_owned() };
        proof {
            if self.categories@.len() > 0 {
                assert(category_ids(self.categories@).last() == self.categories@.last().id);
                assert(category_ids(self.categories@).last() >= 1);
            }
            assert(category_ids(self.categories@.push(entry)) =~= category_ids(
                self.categories@,
            ).push(cid));
            lemma_ids_ok_push(category_ids(self.categories@), cid);
        }
        self.categories.push(entry);
        if (self.transactions.len() as u64) >= (i64::MAX as u64) {
            let _ = self.categories.pop();
            let _ = store::delete_category_row(&self.conn, cid);
            proof {
                assert(self.categories@ =~= old(self).model().categories);
                assert(self.model() =~= old(self).model());
            }
            return Err(RytError::Rusqlite);
        }
        let tid: i64 = (self.transactions.len() as u64 as i64) + 1;
        let stored = Transaction {
            payee: data.payee,
            notes: data.notes,
            account_id: data.account_id,
            category_id: cid,
            date: data.date,
            amount: data.amount,
        };
        match store::insert_transaction_row(&self.conn, tid, &stored) {
            Ok(_) => {
                self.transactions.push(stored);
                proof {
                    assert(crate::csv::cat_views(self.model().categories)
                        =~= crate::csv::cat_views(old(self).model().categories).push(
                        crate::csv::CatView { id: cid, name: name@ },
                    ));
                }
                Ok(cid)
            },
            Err(_) => {
                let _ = self.categories.pop();
                let _ = store::delete_category_row(&self.conn, cid);
                proof {
                    assert(self.categories@ =~= old(self).model().categories);
                    assert(self.model() =~= old(self).model());
                }
                Err(RytError::Rusqlite)
            },
        }
    }

    /// Fetches the account with the given identity, or `NotFound`.
    pub fn get_account(&self, id: i64) -> (r: Result<Account, RytError>)
        ensures
            r is Ok <==> (exists|i: int|
                0 <= i < self.model().accounts.len() && #[trigger] self.model().accounts[i].id
                    == id),
            r is Ok ==> (exists|i: int|
                0 <= i < self.model().accounts.len() && #[trigger] self.model().accounts[i].id
                    == id && r->Ok_0 == self.model().accounts[i]),
            r is Err ==> r->Err_0 == RytError::NotFound,
    {
        let n = self.accounts.len();
        let mut i: usize = 0;
        while i < n
            invariant
                n == self.accounts.len(),
                0 <= i <= n,
                forall|k: int| 0 <= k < i ==> #[trigger] self.accounts@[k].id != id,
            decreases n - i,
        {
            if self.accounts[i].id == id {
                let a = &self.accounts[i];
                let out = Account { id: a.id, display_name: a.display_name.clone() };
                proof {
                    assert(self.model().accounts[i as int].id == id);
                    assert(out == self.model().accounts[i as int]);
                }
                return Ok(out);
            }
            i = i + 1;
        }
        Err(RytError::NotFound)
    }

    /// Fetches the category with the given identity, or `NotFound`.
    pub fn get_category(&self, id: i64) -> (r: Result<Category, RytError>)
        ensures
            r is Ok <==> (exists|i: int|
                0 <= i < self.model().categories.len() && #[trigger] self.model().categories[i].id
                    == id),
            r is Ok ==> (exists|i: int|
                0 <= i < self.model().categories.len() && #[trigger] self.model().categories[i].id
                    == id && r->Ok_0 == self.model().categories[i]),
            r is Err ==> r->Err_0 == RytError::NotFound,
    {
        let n = self.categories.len();
        let mut i: usize = 0;
        while i < n
            invariant
                n == self.categories.len(),
                0 <= i <= n,
                forall|k: int| 0 <= k < i ==> #[trigger] self.categories@[k].id != id,
            decreases n - i,
        {
            if self.categories[i].id == id {
                let c = &self.categories[i];
                let out = Category { id: c.id, display_name: c.display_name.clone() };
                proof {
                    assert(self.model().categories[i as int].id == id);
                    assert(out == self.model().categories[i as int]);
                }
                return Ok(out);
            }
            i = i + 1;
        }
        Err(RytError::NotFound)
    }

    /// Fetches the transaction with the given identity (its position plus
    /// one), or `NotFound`.
    pub fn get_transaction(&self, id: i64) -> (r: Result<Transaction, RytError>)
        ensures
            r is Ok <==> 1 <= id && id as int <= self.model().transactions.len(),
            r is Ok ==> r->Ok_0 == self.model().transactions[id - 1],
            r is Err ==> r->Err_0 == RytError::NotFound,
    {
        if id < 1 || (id as u64) > (self.transactions.len() as u64) {
            return Err(RytError::NotFound);
        }
        let idx: usize = ((id as u64) - 1) as usize;
        let t = &self.transactions[idx];
        Ok(clone_transaction(t))
    }

    /// Fetches the category transfer with the given identity (its position
    /// plus one), or `NotFound`.
    pub fn get_category_transfer(&self, id: i64) -> (r: Result<CategoryTransfer, RytError>)
        ensures
            r is Ok <==> 1 <= id && id as int <= self.model().transfers.len(),
            r is Ok ==> r->Ok_0 == self.model().transfers[id - 1],
            r is Err ==> r->Err_0 == RytError::NotFound,
    {
        if id < 1 || (id as u64) > (self.transfers.len() as u64) {
            return Err(RytError::NotFound);
        }
        let idx: usize = ((id as u64) - 1) as usize;
        let t = &self.transfers[idx];
        Ok(CategoryTransfer { source: t.source, dest: t.dest, amount: t.amount })
    }

    /// Fetches every account. Accounts carry no date column, so only the
    /// unordered fetch succeeds; they come back in identity order.
    pub fn get_all_accounts(&self, order_by: OrderBy) -> (r: Result<Vec<Account>, RytError>)
        ensures
            r is Ok <==> order_by == OrderBy::Unordered,
            r is Ok ==> r->Ok_0@ == self.model().accounts,
            r is Err ==> r->Err_0 == RytError::Rusqlite,
    {
        match order_by {
            OrderBy::Unordered => Ok(clone_accounts(&self.accounts)),
            OrderBy::Date => Err(RytError::Rusqlite),
        }
    }

    /// Fetches every category. Categories carry no date column, so only the
    /// unordered fetch succeeds; they come back in identity order.
    pub fn get_all_categories(&self, order_by: OrderBy) -> (r: Result<Vec<Category>, RytError>)
        ensures
            r is Ok <==> order_by == OrderBy::Unordered,
            r is Ok ==> r->Ok_0@ == self.model().categories,
            r is Err ==> r->Err_0 == RytError::Rusqlite,
    {
        match order_by {
            OrderBy::Unordered => Ok(clone_categories(&self.categories)),
            OrderBy::Date => Err(RytError::Rusqlite),
        }
    }

    /// Fetches every transaction, in insertion order or stably sorted by date.
    pub fn get_all_transactions(&self, order_by: OrderBy) -> (r: Result<Vec<Transaction>, RytError>)
        ensures
            r is Ok,
            r->Ok_0@ == (match order_by {
                OrderBy::Unordered => self.model().transactions,
                OrderBy::Date => crate::amounts::sort_by_date(self.model().transactions),
            }),
    {
        let all = clone_transactions(&self.transactions);
        match order_by {
            OrderBy::Unordered => Ok(all),
            OrderBy::Date => Ok(sort_transactions_by_date(all)),
        }
    }

    /// Fetches every category transfer. Transfers carry no date column, so
    /// only the unordered fetch succeeds; they come back in identity order.
    pub fn get_all_category_transfers(&self, order_by: OrderBy) -> (r: Result<
        Vec<CategoryTransfer>,
        RytError,
    >)
        ensures
            r is Ok <==> order_by == OrderBy::Unordered,
            r is Ok ==> r->Ok_0@ == self.model().transfers,
            r is Err ==> r->Err_0 == RytError::Rusqlite,
    {
        match order_by {
            OrderBy::Unordered => {
                let mut out: Vec<CategoryTransfer> = Vec::new();
                let mut i: usize = 0;
                while i < self.transfers.len()
                    invariant
                        0 <= i <= self.transfers@.len(),
                        out@ =~= self.transfers@.take(i as int),
                    decreases self.transfers@.len() - i,
                {
                    let t = &self.transfers[i];
                    out.push(CategoryTransfer { source: t.source, dest: t.dest, amount: t.amount });
                    proof {
                        crate::amounts::lemma_take_push(self.transfers@, i as int);
                    }
                    i = i + 1;
                }
                proof {
                    assert(self.transfers@.take(self.transfers@.len() as int) =~= self.transfers@);
                }
                Ok(out)
            },
            OrderBy::Date => Err(RytError::Rusqlite),
        }
    }

    /// Whether a table of the given name exists in the backing store; used by
    /// bootstrap, and exposed for introspection. What it reports depends on
    /// the file alone, so nothing more is promised.
    pub fn table_exists(&self, name: &str) -> (r: Result<bool, RytError>)
        ensures
            r is Err ==> r->Err_0 == RytError::Rusqlite,
    {
        store::table_exists_row(&self.conn, name)
    }

    /// Whether a category of the given display name exists.
    pub fn category_exists(&self, name: &str) -> (r: Result<bool, RytError>)
        ensures
            r is Ok,
            r->Ok_0 <==> (exists|i: int|
                0 <= i < self.model().categories.len()
                    && #[trigger] self.model().categories[i].display_name@ == name@),
    {
        let n = self.categories.len();
        let mut i: usize = 0;
        while i < n
            invariant
                n == self.categories.len(),
                0 <= i <= n,
                forall|k: int| 0 <= k < i ==> #[trigger] self.categories@[k].display_name@ != name@,
            decreases n - i,
        {
            if string_eq_str(&self.categories[i].display_name, name) {
                proof {
                    assert(self.model().categories[i as int].display_name@ == name@);
                }
                return Ok(true);
            }
            i = i + 1;
        }
        Ok(false)
    }

    /// The identity of the first category with the given display name, or
    /// `NotFound`.
    pub fn get_category_id(&self, name: &str) -> (r: Result<i64, RytError>)
        ensures
            r is Ok <==> (exists|i: int|
                0 <= i < self.model().categories.len()
                    && #[trigger] self.model().categories[i].display_name@ == name@),
            r is Ok ==> (exists|i: int|
                0 <= i < self.model().categories.len()
                    && #[trigger] self.model().categories[i].display_name@ == name@ && r->Ok_0
                    == self.model().categories[i].id && (forall|j: int|
                    0 <= j < i ==> #[trigger] self.model().categories[j].display_name@ != name@)),
            r is Err ==> r->Err_0 == RytError::NotFound,
    {
        let n = self.categories.len();
        let mut i: usize = 0;
        while i < n
            invariant
                n == self.categories.len(),
                0 <= i <= n,
                forall|k: int| 0 <= k < i ==> #[trigger] self.categories@[k].display_name@ != name@,
            decreases n - i,
        {
            if string_eq_str(&self.categories[i].display_name, name) {
                proof {
                    assert(self.model().categories[i as int].display_name@ == name@);
                    assert(forall|j: int|
                        0 <= j < i ==> #[trigger] self.model().categories[j].display_name@
                            != name@);
                }
                return Ok(self.categories[i].id);
            }
            i = i + 1;
        }
        Err(RytError::NotFound)
    }

    /// Renames the category with the given identity. `NotFound` is decided
    /// before any store call; on any failure the ledger is unchanged.
    pub fn rename_category(&mut self, id: i64, name: String) -> (r: Result<(), RytError>)
        requires
            old(self).wf(),
        ensures
            final(self).wf(),
            !(exists|i: int|
                0 <= i < old(self).model().categories.len() && #[trigger] old(
                    self,
                ).model().categories[i].id == id) ==> r == Result::<(), RytError>::Err(
                RytError::NotFound,
            ) && final(self).model() == old(self).model(),
            r is Ok ==> (exists|i: int|
                0 <= i < old(self).model().categories.len() && #[trigger] old(
                    self,
                ).model().categories[i].id == id && final(self).model() == (Ledger {
                    categories: old(self).model().categories.update(
                        i,
                        Category { id, display_name: name },
                    ),
                    ..old(self).model()
                })),
            r is Err ==> final(self).model() == old(self).model(),
            r is Err && r->Err_0 == RytError::NotFound ==> !(exists|i: int|
                0 <= i < old(self).model().categories.len() && #[trigger] old(
                    self,
                ).model().categories[i].id == id),
    {
        let n = self.categories.len();
        let mut i: usize = 0;
        while i < n
            invariant
                *self == *old(self),
                old(self).wf(),
                n == self.categories.len(),
                0 <= i <= n,
                forall|k: int| 0 <= k < i ==> #[trigger] self.categories@[k].id != id,
            decreases n - i,
        {
            if self.categories[i].id == id {
                proof {
                    assert(old(self).model().categories[i as int].id == id);
                }
                store::rename_category_row(&self.conn, id, name.as_str())?;
                let ghost old_cats = self.categories@;
                self.categories.set(i, Category { id, display_name: name });
                proof {
                    assert(category_ids(self.categories@) =~= category_ids(old_cats));
                    assert(self.model() =~= (Ledger {
                        categories: old(self).model().categories.update(
                            i as int,
                            Category { id, display_name: name },
                        ),
                        ..old(self).model()
                    }));
                }
                return Ok(());
            }
            i = i + 1;
        }
        Err(RytError::NotFound)
    }

    /// Deletes the category with the given identity. `NotFound` is decided
    /// before any store call; on any failure the ledger is unchanged.
    /// Transactions referencing the category keep their now dangling
    /// reference, which thereafter displays as the empty string.
    pub fn delete_category(&mut self, id: i64) -> (r: Result<(), RytError>)
        requires
            old(self).wf(),
        ensures
            final(self).wf(),
            !(exists|i: int|
                0 <= i < old(self).model().categories.len() && #[trigger] old(
                    self,
                ).model().categories[i].id == id) ==> r == Result::<(), RytError>::Err(
                RytError::NotFound,
            ) && final(self).model() == old(self).model(),
            r is Ok ==> (exists|i: int|
                0 <= i < old(self).model().categories.len() && #[trigger] old(
                    self,
                ).model().categories[i].id == id && final(self).model() == (Ledger {
                    categories: old(self).model().categories.remove(i),
                    ..old(self).model()
                })),
            r is Err ==> final(self).model() == old(self).model(),
            r is Err && r->Err_0 == RytError::NotFound ==> !(exists|i: int|
                0 <= i < old(self).model().categories.len() && #[trigger] old(
                    self,
                ).model().categories[i].id == id),
    {
        let n = self.categories.len();
        let mut i: usize = 0;
        while i < n
            invariant
                *self == *old(self),
                old(self).wf(),
                n == self.categories.len(),
                0 <= i <= n,
                forall|k: int| 0 <= k < i ==> #[trigger] self.categories@[k].id != id,
            decreases n - i,
        {
            if self.categories[i].id == id {
                proof {
                    assert(old(self).model().categories[i as int].id == id);
                }
                store::delete_category_row(&self.conn, id)?;
                let ghost old_cats = self.categories@;
                self.categories.remove(i);
                proof {
                    assert(category_ids(self.categories@) =~= category_ids(old_cats).remove(
                        i as int,
                    ));
                    lemma_ids_ok_remove(category_ids(old_cats), i as int);
                    assert(self.model() =~= (Ledger {
                        categories: old(self).model().categories.remove(i as int),
                        ..old(self).model()
                    }));
                }
                return Ok(());
            }
            i = i + 1;
        }
        Err(RytError::NotFound)
    }
}

proof fn lemma_ids_ok_remove(ids: Seq<i64>, at: int)
    requires
        ids_ok(ids),
        0 <= at < ids.len(),
    ensures
        ids_ok(ids.remove(at)),
{
    let w = ids.remove(at);
    assert forall|i: int, j: int| 0 <= i < j < w.len() implies #[trigger] w[i] < #[trigger] w[j] by {
        let i0 = if i < at {
            i
        } else {
            i + 1
        };
        let j0 = if j < at {
            j
        } else {
            j + 1
        };
        assert(w[i] == ids[i0]);
        assert(w[j] == ids[j0]);
        assert(ids[i0] < ids[j0]);
    }
    assert forall|i: int| 0 <= i < w.len() implies #[trigger] w[i] >= 1 by {
        let i0 = if i < at {
            i
        } else {
            i + 1
        };
        assert(w[i] == ids[i0]);
    }
}

/// Equality of a stored name and a borrowed one.
fn string_eq_str(a: &String, b: &str) -> (r: bool)
    ensures
        r <==> a@ == b@,
{
    let bs: String = b.to_owned();
    *a == bs
}

/// A field-for-field copy of a transaction.
pub(crate) fn clone_transaction(t: &Transaction) -> (r: Transaction)
    ensures
        r == *t,
{
    Transaction {
        payee: t.payee.clone(),
        notes: t.notes.clone(),
        account_id: t.account_id,
        category_id: t.category_id,
        date: t.date,
        amount: t.amount,
    }
}

fn clone_accounts(v: &Vec<Account>) -> (r: Vec<Account>)
    ensures
        r@ == v@,
{
    let mut out: Vec<Account> = Vec::new();
    let mut i: usize = 0;
    while i < v.len()
        invariant
            0 <= i <= v.len(),
            out@ =~= v@.take(i as int),
        decreases v.len() - i,
    {
        let a = &v[i];
        out.push(Account { id: a.id, display_name: a.display_name.clone() });
        proof {
            crate::amounts::lemma_take_push(v@, i as int);
        }
        i = i + 1;
    }
    proof {
        assert(v@.take(v@.len() as int) =~= v@);
    }
    out
}

fn clone_categories(v: &Vec<Category>) -> (r: Vec<Category>)
    ensures
        r@ == v@,
{
    let mut out: Vec<Category> = Vec::new();
    let mut i: usize = 0;
    while i < v.len()
        invariant
            0 <= i <= v.len(),
            out@ =~= v@.take(i as int),
        decreases v.len() - i,
    {
        let c = &v[i];
        out.push(Category { id: c.id, display_name: c.display_name.clone() });
        proof {
            crate::amounts::lemma_take_push(v@, i as int);
        }
        i = i + 1;
    }
    proof {
        assert(v@.take(v@.len() as int) =~= v@);
    }
    out
}

pub(crate) fn clone_transactions(v: &Vec<Transaction>) -> (r: Vec<Transaction>)
    ensures
        r@ == v@,
{
    let mut out: Vec<Transaction> = Vec::new();
    let mut i: usize = 0;
    while i < v.len()
        invariant
            0 <= i <= v.len(),
            out@ =~= v@.take(i as int),
        decreases v.len() - i,
    {
        out.push(clone_transaction(&v[i]));
        proof {
            crate::amounts::lemma_take_push(v@, i as int);
        }
        i = i + 1;
    }
    proof {
        assert(v@.take(v@.len() as int) =~= v@);
    }
    out
}

/// A stable exec insertion sort by date, equal to the specification sort.
pub(crate) fn sort_transactions_by_date(v: Vec<Transaction>) -> (r: Vec<Transaction>)
    ensures
        r@ == crate::amounts::sort_by_date(v@),
{
    let mut out: Vec<Transaction> = Vec::new();
    let mut i: usize = 0;
    while i < v.len()
        invariant
            0 <= i <= v.len(),
            out@ == crate::amounts::sort_by_date(v@.take(i as int)),
        decreases v.len() - i,
    {
        proof {
            crate::amounts::lemma_sort_by_date_ensures(v@.take(i as int));
        }
        let t = clone_transaction(&v[i]);
        // find the first position whose date is strictly greater
        let mut p: usize = 0;
        while p < out.len() && out[p].date <= t.date
            invariant
                0 <= p <= out.len(),
                forall|k: int| 0 <= k < p ==> #[trigger] out@[k].date <= t.date,
            decreases out.len() - p,
        {
            p = p + 1;
        }
        proof {
            crate::amounts::lemma_insert_by_date_split(out@, t, p as int);
            crate::amounts::lemma_take_push(v@, i as int);
            assert(v@.take(i as int).push(v@[i as int]).drop_last() =~= v@.take(i as int));
        }
        let ghost pre = out@;
        out.insert(p, t);
        proof {
            assert(out@ =~= pre.take(p as int) + seq![t] + pre.skip(p as int));
        }
        i = i + 1;
    }
    proof {
        assert(v@.take(v@.len() as int) =~= v@);
    }
    out
}

fn ensure_table(conn: &rusqlite::Connection, name: String, schema: String) -> (r: Result<
    (),
    RytError,
>)
    ensures
        r is Err ==> r->Err_0 == RytError::Rusqlite,
{
    let exists_already = store::table_exists_row(conn, name.as_str())?;
    if !exists_already {
        let mut sql: String = "CREATE TABLE ".to_owned();
        sql.append(name.as_str());
        sql.append(" ( ");
        sql.append(schema.as_str());
        sql.append(" )");
        store::execute_sql(conn, sql.as_str())?;
    }
    Ok(())
}

fn rows_to_accounts(rows: Vec<(i64, String)>) -> (r: Result<Vec<Account>, RytError>)
    ensures
        r is Ok <==> ids_ok(rows@.map_values(|row: (i64, String)| row.0)),
        r is Ok ==> r->Ok_0@.len() == rows@.len() && (forall|i: int|
            0 <= i < rows@.len() ==> (#[trigger] r->Ok_0@[i]).id == rows@[i].0
                && r->Ok_0@[i].display_name@ == rows@[i].1@),
        r is Ok ==> ids_ok(account_ids(r->Ok_0@)),
        r is Err ==> r->Err_0 == RytError::Rusqlite,
{
    let ghost row_ids = rows@.map_values(|row: (i64, String)| row.0);
    let mut out: Vec<Account> = Vec::new();
    let mut prev: i64 = 0;
    let mut i: usize = 0;
    while i < rows.len()
        invariant
            0 <= i <= rows.len(),
            row_ids == rows@.map_values(|row: (i64, String)| row.0),
            out@.len() == i,
            forall|k: int|
                0 <= k < i ==> (#[trigger] out@[k]).id == rows@[k].0 && out@[k].display_name@
                    == rows@[k].1@,
            ids_ok(account_ids(out@)),
            prev >= 0,
            i > 0 ==> prev == rows@[i - 1].0,
            i == 0 ==> prev == 0,
        decreases rows.len() - i,
    {
        let id = rows[i].0;
        if id <= prev {
            proof {
                assert(row_ids[i as int] == id);
                if i > 0 {
                    assert(row_ids[i as int - 1] == prev);
                }
                assert(!ids_ok(row_ids));
            }
            return Err(RytError::Rusqlite);
        }
        let entry = Account { id, display_name: rows[i].1.clone() };
        proof {
            assert(account_ids(out@.push(entry)) =~= account_ids(out@).push(id));
            lemma_ids_ok_push(account_ids(out@), id);
        }
        out.push(entry);
        prev = id;
        i = i + 1;
    }
    proof {
        assert forall|a: int, b: int| 0 <= a < b < row_ids.len() implies #[trigger] row_ids[a]
            < #[trigger] row_ids[b] by {
            assert(account_ids(out@)[a] == out@[a].id);
            assert(account_ids(out@)[b] == out@[b].id);
        }
        assert forall|a: int| 0 <= a < row_ids.len() implies #[trigger] row_ids[a] >= 1 by {
            assert(account_ids(out@)[a] == out@[a].id);
        }
    }
    Ok(out)
}

fn rows_to_categories(rows: Vec<(i64, String)>) -> (r: Result<Vec<Category>, RytError>)
    ensures
        r is Ok <==> ids_ok(rows@.map_values(|row: (i64, String)| row.0)),
        r is Ok ==> r->Ok_0@.len() == rows@.len() && (forall|i: int|
            0 <= i < rows@.len() ==> (#[trigger] r->Ok_0@[i]).id == rows@[i].0
                && r->Ok_0@[i].display_name@ == rows@[i].1@),
        r is Ok ==> ids_ok(category_ids(r->Ok_0@)),
        r is Err ==> r->Err_0 == RytError::Rusqlite,
{
    let ghost row_ids = rows@.map_values(|row: (i64, String)| row.0);
    let mut out: Vec<Category> = Vec::new();
    let mut prev: i64 = 0;
    let mut i: usize = 0;
    while i < rows.len()
        invariant
            0 <= i <= rows.len(),
            row_ids == rows@.map_values(|row: (i64, String)| row.0),
            out@.len() == i,
            forall|k: int|
                0 <= k < i ==> (#[trigger] out@[k]).id == rows@[k].0 && out@[k].display_name@
                    == rows@[k].1@,
            ids_ok(category_ids(out@)),
            prev >= 0,
            i > 0 ==> prev == rows@[i - 1].0,
            i == 0 ==> prev == 0,
        decreases rows.len() - i,
    {
        let id = rows[i].0;
        if id <= prev {
            proof {
                assert(row_ids[i as int] == id);
                if i > 0 {
                    assert(row_ids[i as int - 1] == prev);
                }
                assert(!ids_ok(row_ids));
            }
            return Err(RytError::Rusqlite);
        }
        let entry = Category { id, display_name: rows[i].1.clone() };
        proof {
            assert(category_ids(out@.push(entry)) =~= category_ids(out@).push(id));
            lemma_ids_ok_push(category_ids(out@), id);
        }
        out.push(entry);
        prev = id;
        i = i + 1;
    }
    proof {
        assert forall|a: int, b: int| 0 <= a < b < row_ids.len() implies #[trigger] row_ids[a]
            < #[trigger] row_ids[b] by {
            assert(category_ids(out@)[a] == out@[a].id);
            assert(category_ids(out@)[b] == out@[b].id);
        }
        assert forall|a: int| 0 <= a < row_ids.len() implies #[trigger] row_ids[a] >= 1 by {
            assert(category_ids(out@)[a] == out@[a].id);
        }
    }
    Ok(out)
}

fn rows_to_transactions(rows: Vec<(i64, String, i64, i64, String, i64, i64)>) -> (r: Result<
    Vec<Transaction>,
    RytError,
>)
    ensures
        r is Ok <==> (forall|i: int| 0 <= i < rows@.len() ==> (#[trigger] rows@[i]).0 == i + 1),
        r is Ok ==> r->Ok_0@.len() == rows@.len(),
        r is Ok ==> (forall|i: int|
            0 <= i < rows@.len() ==> (#[trigger] r->Ok_0@[i]).payee@ == rows@[i].1@
                && r->Ok_0@[i].amount == rows@[i].2 && r->Ok_0@[i].date == rows@[i].3
                && r->Ok_0@[i].notes@ == rows@[i].4@ && r->Ok_0@[i].account_id == rows@[i].5
                && r->Ok_0@[i].category_id == rows@[i].6),
        r is Ok ==> r->Ok_0@.len() <= i64::MAX,
        r is Err ==> r->Err_0 == RytError::Rusqlite,
{
    let mut out: Vec<Transaction> = Vec::new();
    let mut i: usize = 0;
    while i < rows.len()
        invariant
            0 <= i <= rows.len(),
            out@.len() == i,
            i as int <= i64::MAX,
            forall|k: int| 0 <= k < i ==> (#[trigger] rows@[k]).0 == k + 1,
            forall|k: int|
                0 <= k < i ==> (#[trigger] out@[k]).payee@ == rows@[k].1@ && out@[k].amount
                    == rows@[k].2 && out@[k].date == rows@[k].3 && out@[k].notes@ == rows@[k].4@
                    && out@[k].account_id == rows@[k].5 && out@[k].category_id == rows@[k].6,
        decreases rows.len() - i,
    {
        if (i as u64) >= (i64::MAX as u64) {
            // an i64 identity can never equal this position plus one
            proof {
                assert(rows@[i as int].0 <= i64::MAX < i as int + 1);
            }
            return Err(RytError::Rusqlite);
        }
        let row = &rows[i];
        if row.0 != (i as u64 as i64) + 1 {
            proof {
                assert(rows@[i as int].0 != i as int + 1);
            }
            return Err(RytError::Rusqlite);
        }
        let ghost prev_out = out@;
        out.push(
            Transaction {
                payee: row.1.clone(),
                amount: row.2,
                date: row.3,
                notes: row.4.clone(),
                account_id: row.5,
                category_id: row.6,
            },
        );
        proof {
            assert(rows@[i as int].0 == i as int + 1);
            assert forall|k: int| 0 <= k < i + 1 implies (#[trigger] out@[k]).payee@
                == rows@[k].1@ && out@[k].amount == rows@[k].2 && out@[k].date == rows@[k].3
                && out@[k].notes@ == rows@[k].4@ && out@[k].account_id == rows@[k].5
                && out@[k].category_id == rows@[k].6 by {
                if k < i {
                    assert(out@[k] == prev_out[k]);
                    assert(prev_out[k].amount == rows@[k].2);
                }
            }
        }
        i = i + 1;
    }
    proof {
        assert forall|k: int| 0 <= k < rows@.len() implies (#[trigger] rows@[k]).0 == k + 1 by {
            assert(out@[k].amount == rows@[k].2);
        }
    }
    Ok(out)
}

fn rows_to_transfers(rows: Vec<(i64, i64, i64, i64)>) -> (r: Result<Vec<CategoryTransfer>, RytError>)
    ensures
        r is Ok <==> (forall|i: int| 0 <= i < rows@.len() ==> (#[trigger] rows@[i]).0 == i + 1),
        r is Ok ==> r->Ok_0@.len() == rows@.len(),
        r is Ok ==> (forall|i: int|
            0 <= i < rows@.len() ==> (#[trigger] r->Ok_0@[i]).source == rows@[i].1
                && r->Ok_0@[i].dest == rows@[i].2 && r->Ok_0@[i].amount == rows@[i].3),
        r is Ok ==> r->Ok_0@.len() <= i64::MAX,
        r is Err ==> r->Err_0 == RytError::Rusqlite,
{
    let mut out: Vec<CategoryTransfer> = Vec::new();
    let mut i: usize = 0;
    while i < rows.len()
        invariant
            0 <= i <= rows.len(),
            out@.len() == i,
            i as int <= i64::MAX,
            forall|k: int| 0 <= k < i ==> (#[trigger] rows@[k]).0 == k + 1,
            forall|k: int|
                0 <= k < i ==> (#[trigger] out@[k]).source == rows@[k].1 && out@[k].dest
                    == rows@[k].2 && out@[k].amount == rows@[k].3,
        decreases rows.len() - i,
    {
        if (i as u64) >= (i64::MAX as u64) {
            // an i64 identity can never equal this position plus one
            proof {
                assert(rows@[i as int].0 <= i64::MAX < i as int + 1);
            }
            return Err(RytError::Rusqlite);
        }
        let row = &rows[i];
        if row.0 != (i as u64 as i64) + 1 {
            proof {
                assert(rows@[i as int].0 != i as int + 1);
            }
            return Err(RytError::Rusqlite);
        }
        let ghost prev_out = out@;
        out.push(CategoryTransfer { source: row.1, dest: row.2, amount: row.3 });
        proof {
            assert(rows@[i as int].0 == i as int + 1);
            assert forall|k: int| 0 <= k < i + 1 implies (#[trigger] out@[k]).source
                == rows@[k].1 && out@[k].dest == rows@[k].2 && out@[k].amount == rows@[k].3 by {
                if k < i {
                    assert(out@[k] == prev_out[k]);
                    assert(prev_out[k].source == rows@[k].1);
                }
            }
        }
        i = i + 1;
    }
    proof {
        assert forall|k: int| 0 <= k < rows@.len() implies (#[trigger] rows@[k]).0 == k + 1 by {
            assert(out@[k].source == rows@[k].1);
        }
    }
    Ok(out)
}

/// Splits a path at its last `/` into the directory and the file name.
fn split_path(path: &str) -> (r: (String, String))
    ensures
        ({
            let parts = (match last_slash(path@) {
                Some(i) => (path@.take(i), path@.skip(i + 1)),
                None => (Seq::<char>::empty(), path@),
            });
            r.0@ == parts.0 && r.1@ == parts.1
        }),
{
    let n = path.unicode_len();
    let mut found: bool = false;
    let mut pos: usize = 0;
    let mut i: usize = 0;
    while i < n
        invariant
            0 <= i <= n,
            n == path@.len(),
            last_slash(path@.take(i as int)) == (if found {
                Some(pos as int)
            } else {
                Option::<int>::None
            }),
            found ==> pos < i,
        decreases n - i,
    {
        proof {
            assert(path@.take(i + 1).drop_last() =~= path@.take(i as int));
        }
        if path.get_char(i) == '/' {
            found = true;
            pos = i;
        }
        i = i + 1;
    }
    proof {
        assert(path@.take(n as int) =~= path@);
    }
    if found {
        let folder = path.substring_char(0, pos).to_owned();
        let file = path.substring_char(pos + 1, n).to_owned();
        (folder, file)
    } else {
        (String::new(), path.to_owned())
    }
}


impl Database {
    /// The balance report: one row per account, in identity order, each with
    /// the account's derived balance — the sum of the amounts of all
    /// transactions that reference it, zero where there are none. Fails only
    /// where some account's running 64-bit sum would overflow, as the store's
    /// own aggregation would.
    pub fn get_account_display_list(&self) -> (r: Result<Vec<AccountDisplay>, RytError>)
        ensures
            r is Ok <==> (forall|i: int|
                0 <= i < self.model().accounts.len() ==> prefix_sums_fit(
                    account_txns(self.model().transactions, #[trigger] self.model().accounts[i].id),
                )),
            r is Ok ==> r->Ok_0@.len() == self.model().accounts.len(),
            r is Ok ==> (forall|i: int|
                0 <= i < r->Ok_0@.len() ==> {
                    let a = self.model().accounts[i];
                    let d = #[trigger] r->Ok_0@[i];
                    &&& d.account_id == a.id
                    &&& d.display_name@ == a.display_name@
                    &&& d.balance as int == account_balance(self.model().transactions, a.id)
                }),
            r is Err ==> r->Err_0 == RytError::Rusqlite,
    {
        let n = self.accounts.len();
        let mut out: Vec<AccountDisplay> = Vec::new();
        let mut i: usize = 0;
        while i < n
            invariant
                n == self.accounts.len(),
                0 <= i <= n,
                out@.len() == i,
                forall|k: int|
                    0 <= k < i ==> prefix_sums_fit(
                        account_txns(
                            self.model().transactions,
                            #[trigger] self.model().accounts[k].id,
                        ),
                    ),
                forall|k: int|
                    0 <= k < i ==> {
                        let a = self.model().accounts[k];
                        let d = #[trigger] out@[k];
                        &&& d.account_id == a.id
                        &&& d.display_name@ == a.display_name@
                        &&& d.balance as int == account_balance(self.model().transactions, a.id)
                    },
            decreases n - i,
        {
            let a = &self.accounts[i];
            let matching = filter_account_transactions(&self.transactions, a.id);
            let balance = match sum_transactions_checked(&matching) {
                Some(b) => b,
                Option::None => {
                    proof {
                        assert(!prefix_sums_fit(
                            account_txns(
                                self.model().transactions,
                                self.model().accounts[i as int].id,
                            ),
                        ));
                    }
                    return Err(RytError::Rusqlite);
                },
            };
            out.push(
                AccountDisplay {
                    account_id: a.id,
                    display_name: a.display_name.clone(),
                    balance,
                },
            );
            i = i + 1;
        }
        Ok(out)
    }

    /// An account's running history: its transactions stably sorted by date,
    /// each entry carrying the inclusive prefix sum of the amounts so far.
    /// The dates are non-decreasing, and the last entry's running balance is
    /// the account's derived balance. An unknown account yields the empty
    /// history; the report fails only where the running 64-bit sum would
    /// overflow.
    pub fn get_account_history(&self, account_id: i64) -> (r: Result<
        Vec<AccountHistoryEntry>,
        RytError,
    >)
        ensures
            ({
                let sorted = crate::amounts::sort_by_date(
                    account_txns(self.model().transactions, account_id),
                );
                let known = exists|i: int|
                    0 <= i < self.model().accounts.len() && #[trigger] self.model().accounts[i].id
                        == account_id;
                &&& (r is Ok <==> (!known || prefix_sums_fit(sorted)))
                &&& (r is Ok && !known ==> r->Ok_0@.len() == 0)
                &&& (r is Ok && known ==> {
                    &&& r->Ok_0@.len() == sorted.len()
                    &&& (forall|i: int|
                        0 <= i < sorted.len() ==> {
                            let e = #[trigger] r->Ok_0@[i];
                            &&& e.account_id == account_id
                            &&& e.display_name@ == account_name_or_empty(
                                self.model().accounts,
                                account_id,
                            )
                            &&& e.date == sorted[i].date
                            &&& e.running_balance as int == sum_txns(sorted.take(i + 1))
                        })
                })
                &&& (r is Ok ==> (forall|i: int, j: int|
                    0 <= i < j < r->Ok_0@.len() ==> #[trigger] r->Ok_0@[i].date
                        <= #[trigger] r->Ok_0@[j].date))
                &&& (r is Ok && known && sorted.len() > 0 ==> r->Ok_0@.last().running_balance
                    as int == account_balance(self.model().transactions, account_id))
            }),
            r is Err ==> r->Err_0 == RytError::Rusqlite,
    {
        let display_name = match find_account_name(&self.accounts, account_id) {
            Some(name) => name,
            Option::None => {
                return Ok(Vec::new());
            },
        };
        let matching = filter_account_transactions(&self.transactions, account_id);
        let sorted = sort_transactions_by_date(matching);
        proof {
            crate::amounts::lemma_sort_by_date_ensures(
                account_txns(self.model().transactions, account_id),
            );
            let w = choose|q: int|
                0 <= q < self.accounts@.len() && #[trigger] self.accounts@[q].id == account_id;
            assert(self.model().accounts[w].id == account_id);
        }
        let n = sorted.len();
        let mut out: Vec<AccountHistoryEntry> = Vec::new();
        let mut acc: i64 = 0;
        let mut i: usize = 0;
        proof {
            assert(sorted@.take(0) =~= Seq::<Transaction>::empty());
        }
        while i < n
            invariant
                n == sorted.len(),
                date_sorted(sorted@),
                sorted@ == crate::amounts::sort_by_date(
                    account_txns(self.model().transactions, account_id),
                ),
                exists|q: int|
                    0 <= q < self.model().accounts.len() && #[trigger] self.model().accounts[q].id
                        == account_id,
                display_name@ == account_name_or_empty(self.model().accounts, account_id),
                0 <= i <= n,
                out@.len() == i,
                acc as int == sum_txns(sorted@.take(i as int)),
                forall|j: int|
                    0 <= j <= i ==> i64::MIN <= sum_txns(#[trigger] sorted@.take(j)) <= i64::MAX,
                forall|k: int|
                    0 <= k < i ==> {
                        let e = #[trigger] out@[k];
                        &&& e.account_id == account_id
                        &&& e.display_name@ == display_name@
                        &&& e.date == sorted@[k].date
                        &&& e.running_balance as int == sum_txns(sorted@.take(k + 1))
                    },
            decreases n - i,
        {
            proof {
                crate::amounts::lemma_take_push(sorted@, i as int);
                crate::amounts::lemma_sum_push(sorted@.take(i as int), sorted@[i as int]);
            }
            acc = match acc.checked_add(sorted[i].amount) {
                Some(a) => a,
                Option::None => {
                    proof {
                        assert(!(i64::MIN <= sum_txns(sorted@.take(i as int + 1)) <= i64::MAX));
                    }
                    return Err(RytError::Rusqlite);
                },
            };
            out.push(
                AccountHistoryEntry {
                    account_id,
                    display_name: display_name.clone(),
                    running_balance: acc,
                    date: sorted[i].date,
                },
            );
            i = i + 1;
        }
        proof {
            assert(sorted@.take(n as int) =~= sorted@);
            assert forall|x: int, y: int| 0 <= x < y < out@.len() implies #[trigger] out@[x].date
                <= #[trigger] out@[y].date by {
                assert(out@[x].date == sorted@[x].date);
                assert(out@[y].date == sorted@[y].date);
            }
            crate::laws::lemma_history_matches_balance(self.model().transactions, account_id);
        }
        Ok(out)
    }

    /// The category spend report over the inclusive period `[unix_start,
    /// unix_end]`: every existing category exactly once, in identity order,
    /// with the total and truncated average of its matching transaction
    /// amounts — both zero where it has no transactions in the period. Fails
    /// only where some category's running 64-bit sum would overflow.
    pub fn get_category_display_list(&self, unix_start: i64, unix_end: i64) -> (r: Result<
        Vec<CategoryDisplay>,
        RytError,
    >)
        requires
            self.wf(),
        ensures
            r is Ok <==> (forall|i: int|
                0 <= i < self.model().categories.len() ==> prefix_sums_fit(
                    category_txns(
                        self.model().transactions,
                        #[trigger] self.model().categories[i].id,
                        unix_start,
                        unix_end,
                    ),
                )),
            r is Ok ==> r->Ok_0@.len() == self.model().categories.len(),
            r is Ok ==> (forall|i: int|
                0 <= i < r->Ok_0@.len() ==> {
                    let c = self.model().categories[i];
                    let d = #[trigger] r->Ok_0@[i];
                    &&& d.category_id == c.id
                    &&& d.display_name@ == c.display_name@
                    &&& d.transaction_total as int == category_total(
                        self.model().transactions,
                        c.id,
                        unix_start,
                        unix_end,
                    )
                    &&& d.transaction_average as int == crate::amounts::category_average(
                        self.model().transactions,
                        c.id,
                        unix_start,
                        unix_end,
                    )
                }),
            r is Err ==> r->Err_0 == RytError::Rusqlite,
    {
        let n = self.categories.len();
        let mut out: Vec<CategoryDisplay> = Vec::new();
        let mut i: usize = 0;
        while i < n
            invariant
                self.wf(),
                n == self.categories.len(),
                0 <= i <= n,
                out@.len() == i,
                forall|k: int|
                    0 <= k < i ==> prefix_sums_fit(
                        category_txns(
                            self.model().transactions,
                            #[trigger] self.model().categories[k].id,
                            unix_start,
                            unix_end,
                        ),
                    ),
                forall|k: int|
                    0 <= k < i ==> {
                        let c = self.model().categories[k];
                        let d = #[trigger] out@[k];
                        &&& d.category_id == c.id
                        &&& d.display_name@ == c.display_name@
                        &&& d.transaction_total as int == category_total(
                            self.model().transactions,
                            c.id,
                            unix_start,
                            unix_end,
                        )
                        &&& d.transaction_average as int == crate::amounts::category_average(
                            self.model().transactions,
                            c.id,
                            unix_start,
                            unix_end,
                        )
                    },
            decreases n - i,
        {
            let c = &self.categories[i];
            let matching = filter_category_transactions(
                &self.transactions,
                c.id,
                unix_start,
                unix_end,
            );
            let total = match sum_transactions_checked(&matching) {
                Some(b) => b,
                Option::None => {
                    proof {
                        assert(!prefix_sums_fit(
                            category_txns(
                                self.model().transactions,
                                self.model().categories[i as int].id,
                                unix_start,
                                unix_end,
                            ),
                        ));
                    }
                    return Err(RytError::Rusqlite);
                },
            };
            let average = average_of(total, &matching, &self.transactions);
            out.push(
                CategoryDisplay {
                    category_id: c.id,
                    display_name: c.display_name.clone(),
                    transaction_total: total,
                    transaction_average: average,
                },
            );
            i = i + 1;
        }
        Ok(out)
    }

    /// Every transaction in insertion order, with its weak account and
    /// category references resolved to display names; a dangling or sentinel
    /// reference resolves to the empty string, never an error.
    pub fn get_transaction_list_display(&self) -> (r: Result<TransactionDisplayList, RytError>)
        ensures
            r is Ok,
            r->Ok_0.transactions@.len() == self.model().transactions.len(),
            forall|i: int|
                0 <= i < self.model().transactions.len() ==> {
                    let t = self.model().transactions[i];
                    let e = #[trigger] r->Ok_0.transactions@[i];
                    &&& e.trans_raw == t
                    &&& e.category_display@ == category_name_or_empty(
                        self.model().categories,
                        t.category_id,
                    )
                    &&& e.account_display@ == account_name_or_empty(
                        self.model().accounts,
                        t.account_id,
                    )
                },
    {
        let n = self.transactions.len();
        let mut out: Vec<TransactionDisplay> = Vec::new();
        let mut i: usize = 0;
        while i < n
            invariant
                n == self.transactions.len(),
                0 <= i <= n,
                out@.len() == i,
                forall|k: int|
                    0 <= k < i ==> {
                        let t = self.model().transactions[k];
                        let e = #[trigger] out@[k];
                        &&& e.trans_raw == t
                        &&& e.category_display@ == category_name_or_empty(
                            self.model().categories,
                            t.category_id,
                        )
                        &&& e.account_display@ == account_name_or_empty(
                            self.model().accounts,
                            t.account_id,
                        )
                    },
            decreases n - i,
        {
            let t = &self.transactions[i];
            let category_display = resolve_category_name(&self.categories, t.category_id);
            let account_display = resolve_account_name(&self.accounts, t.account_id);
            out.push(
                TransactionDisplay {
                    trans_raw: clone_transaction(t),
                    category_display,
                    account_display,
                },
            );
            i = i + 1;
        }
        Ok(TransactionDisplayList { transactions: out })
    }
}

/// The transactions of one account, in stored order.
fn filter_account_transactions(v: &Vec<Transaction>, account_id: i64) -> (r: Vec<Transaction>)
    ensures
        r@ == account_txns(v@, account_id),
{
    let pred = |t: Transaction| t.account_id == account_id;
    let mut out: Vec<Transaction> = Vec::new();
    let mut i: usize = 0;
    proof {
        assert(v@.take(0).filter(|t: Transaction| t.account_id == account_id) =~= Seq::empty())
            by {
            reveal(Seq::filter);
            assert(v@.take(0) =~= Seq::<Transaction>::empty());
        }
    }
    while i < v.len()
        invariant
            0 <= i <= v.len(),
            out@ == v@.take(i as int).filter(|t: Transaction| t.account_id == account_id),
        decreases v.len() - i,
    {
        proof {
            crate::amounts::lemma_take_push(v@, i as int);
            crate::amounts::lemma_filter_push(
                v@.take(i as int),
                v@[i as int],
                |t: Transaction| t.account_id == account_id,
            );
        }
        if v[i].account_id == account_id {
            out.push(clone_transaction(&v[i]));
        }
        i = i + 1;
    }
    proof {
        assert(v@.take(v@.len() as int) =~= v@);
    }
    out
}

/// The transactions of one category whose date lies in the inclusive period.
fn filter_category_transactions(
    v: &Vec<Transaction>,
    category_id: i64,
    start: i64,
    end: i64,
) -> (r: Vec<Transaction>)
    ensures
        r@ == category_txns(v@, category_id, start, end),
{
    let mut out: Vec<Transaction> = Vec::new();
    let mut i: usize = 0;
    proof {
        assert(v@.take(0).filter(
            |t: Transaction| t.category_id == category_id && start <= t.date && t.date <= end,
        ) =~= Seq::empty()) by {
            reveal(Seq::filter);
            assert(v@.take(0) =~= Seq::<Transaction>::empty());
        }
    }
    while i < v.len()
        invariant
            0 <= i <= v.len(),
            out@ == v@.take(i as int).filter(
                |t: Transaction| t.category_id == category_id && start <= t.date && t.date <= end,
            ),
        decreases v.len() - i,
    {
        proof {
            crate::amounts::lemma_take_push(v@, i as int);
            crate::amounts::lemma_filter_push(
                v@.take(i as int),
                v@[i as int],
                |t: Transaction| t.category_id == category_id && start <= t.date && t.date <= end,
            );
        }
        if v[i].category_id == category_id && start <= v[i].date && v[i].date <= end {
            out.push(clone_transaction(&v[i]));
        }
        i = i + 1;
    }
    proof {
        assert(v@.take(v@.len() as int) =~= v@);
    }
    out
}

/// Sums the amounts left to right with 64-bit checked addition; yields the sum
/// exactly when every prefix sum fits, as the store's own aggregation would.
fn sum_transactions_checked(v: &Vec<Transaction>) -> (r: Option<i64>)
    ensures
        r is Some <==> prefix_sums_fit(v@),
        r is Some ==> r->0 as int == sum_txns(v@),
{
    let mut acc: i64 = 0;
    let mut i: usize = 0;
    proof {
        assert(v@.take(0) =~= Seq::<Transaction>::empty());
    }
    while i < v.len()
        invariant
            0 <= i <= v.len(),
            acc as int == sum_txns(v@.take(i as int)),
            forall|j: int| 0 <= j <= i ==> i64::MIN <= sum_txns(#[trigger] v@.take(j)) <= i64::MAX,
        decreases v.len() - i,
    {
        proof {
            crate::amounts::lemma_take_push(v@, i as int);
            crate::amounts::lemma_sum_push(v@.take(i as int), v@[i as int]);
        }
        acc = match acc.checked_add(v[i].amount) {
            Some(a) => a,
            Option::None => {
                proof {
                    assert(!(i64::MIN <= sum_txns(v@.take(i as int + 1)) <= i64::MAX));
                }
                return Option::None;
            },
        };
        i = i + 1;
    }
    proof {
        assert(v@.take(v@.len() as int) =~= v@);
    }
    Some(acc)
}

/// The truncated average of the already-summed amounts of `matching`, which
/// are the period's transactions of one category.
fn average_of(total: i64, matching: &Vec<Transaction>, all: &Vec<Transaction>) -> (r: i64)
    requires
        matching@.len() <= all@.len(),
        all@.len() <= i64::MAX,
        matching@.len() > 0 ==> total as int == sum_txns(matching@),
    ensures
        r as int == (if matching@.len() == 0 {
            0int
        } else {
            crate::amounts::trunc_div(total as int, matching@.len() as int)
        }),
{
    if matching.len() == 0 {
        return 0;
    }
    let count: i64 = matching.len() as u64 as i64;
    proof {
        vstd::arithmetic::div_mod::lemma_div_nonincreasing(
            (if total >= 0 {
                total as int
            } else {
                -(total as int)
            }),
            count as int,
        );
        vstd::arithmetic::div_mod::lemma_div_pos_is_pos(
            (if total >= 0 {
                total as int
            } else {
                -(total as int)
            }),
            count as int,
        );
    }
    match total.checked_div(count) {
        Some(a) => a,
        Option::None => 0,
    }
}

/// The display name of the first account with the given identity, where one
/// exists.
fn find_account_name(v: &Vec<Account>, id: i64) -> (r: Option<String>)
    ensures
        r is Some <==> (exists|i: int| 0 <= i < v@.len() && #[trigger] v@[i].id == id),
        r is Some ==> r->0@ == account_name_or_empty(v@, id),
{
    let n = v.len();
    let mut i: usize = 0;
    proof {
        assert(v@.skip(0) =~= v@);
    }
    while i < n
        invariant
            n == v@.len(),
            0 <= i <= n,
            forall|k: int| 0 <= k < i ==> #[trigger] v@[k].id != id,
            account_name_or_empty(v@, id) == account_name_or_empty(v@.skip(i as int), id),
        decreases n - i,
    {
        proof {
            assert(v@.skip(i as int).first() == v@[i as int]);
            assert(v@.skip(i as int).drop_first() =~= v@.skip(i as int + 1));
        }
        if v[i].id == id {
            return Some(v[i].display_name.clone());
        }
        i = i + 1;
    }
    proof {
        assert(v@.skip(n as int) =~= Seq::<Account>::empty());
    }
    Option::None
}

/// The display name of the first category with the given identity, or the
/// empty string.
pub(crate) fn resolve_category_name(v: &Vec<Category>, id: i64) -> (r: String)
    ensures
        r@ == category_name_or_empty(v@, id),
{
    let n = v.len();
    let mut i: usize = 0;
    proof {
        assert(v@.skip(0) =~= v@);
    }
    while i < n
        invariant
            n == v@.len(),
            0 <= i <= n,
            category_name_or_empty(v@, id) == category_name_or_empty(v@.skip(i as int), id),
        decreases n - i,
    {
        proof {
            assert(v@.skip(i as int).first() == v@[i as int]);
            assert(v@.skip(i as int).drop_first() =~= v@.skip(i as int + 1));
        }
        if v[i].id == id {
            return v[i].display_name.clone();
        }
        i = i + 1;
    }
    proof {
        assert(v@.skip(n as int) =~= Seq::<Category>::empty());
    }
    String::new()
}

/// The display name of the first account with the given identity, or the
/// empty string.
pub(crate) fn resolve_account_name(v: &Vec<Account>, id: i64) -> (r: String)
    ensures
        r@ == account_name_or_empty(v@, id),
{
    let n = v.len();
    let mut i: usize = 0;
    proof {
        assert(v@.skip(0) =~= v@);
    }
    while i < n
        invariant
            n == v@.len(),
            0 <= i <= n,
            account_name_or_empty(v@, id) == account_name_or_empty(v@.skip(i as int), id),
        decreases n - i,
    {
        proof {
            assert(v@.skip(i as int).first() == v@[i as int]);
            assert(v@.skip(i as int).drop_first() =~= v@.skip(i as int + 1));
        }
        if v[i].id == id {
            return v[i].display_name.clone();
        }
        i = i + 1;
    }
    proof {
        assert(v@.skip(n as int) =~= Seq::<Account>::empty());
    }
    String::new()
}


} // verus!
