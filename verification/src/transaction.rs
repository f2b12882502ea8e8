use vstd::prelude::*;

verus! {

/// A single ledger entry against an account.
///
/// `amount` is in signed cents: negative is an outflow, positive an inflow.
/// `date` is a Unix timestamp in seconds. `account_id` and `category_id` are
/// weak references; `category_id == 0` is the sentinel for "uncategorized".
#[derive(Debug, Clone, PartialEq, Eq)]
pub struct Transaction {
    pub payee: String,
    pub notes: String,
    pub account_id: i64,
    pub category_id: i64,
    pub date: i64,
    pub amount: i64,
}

/// An inflow/outflow pair is a valid transaction source exactly when one of
/// the two is strictly positive and the other is zero.
pub open spec fn flows_valid(inflow: i64, outflow: i64) -> bool {
    (inflow > 0 && outflow == 0) || (outflow > 0 && inflow == 0)
}

/// The signed amount built from a valid inflow/outflow pair: the inflow
/// itself, or the negated outflow.
pub open spec fn amount_from_flows(inflow: i64, outflow: i64) -> int {
    if inflow > 0 {
        inflow as int
    } else {
        -(outflow as int)
    }
}

impl Transaction {
    /// Validating constructor: succeeds iff exactly one of `inflow`/`outflow`
    /// is strictly positive and the other is zero. The new transaction is
    /// uncategorized, carries empty notes, and its amount is the inflow or
    /// the negated outflow.
    pub fn new(
        payee: String,
        inflow: i64,
        outflow: i64,
        date: i64,
        account_id: i64,
    ) -> (r: Result<Transaction, String>)
        ensures
            r is Ok <==> flows_valid(inflow, outflow),
            r is Ok ==> {
                let t = r->Ok_0;
                &&& t.payee@ == payee@
                &&& t.notes@ == Seq::<char>::empty()
                &&& t.account_id == account_id
                &&& t.category_id == 0
                &&& t.date == date
                &&& t.amount as int == amount_from_flows(inflow, outflow)
            },
            r is Err ==> r->Err_0@ == (if inflow != 0 && outflow != 0 {
                "Cannot create transaction with both inflow and outflow."@
            } else {
                "Cannot create transaction with no outflow and no inflow."@
            }),
    {
        if outflow != 0 && inflow != 0 {
            return Err("Cannot create transaction with both inflow and outflow.".to_owned());
        }
        if outflow <= 0 && inflow <= 0 {
            return Err("Cannot create transaction with no outflow and no inflow.".to_owned());
        }

        let amount: i64 = if outflow > 0 {
            -outflow
        } else {
            inflow
        };

        Ok(Transaction {
            payee,
            amount,
            date,
            account_id,
            category_id: 0,
            notes: String::new(),
        })
    }

    /// Unvalidated constructor: stores `amount` as given, with empty notes and
    /// no category.
    pub fn new_raw(payee: String, amount: i64, date: i64, account_id: i64) -> (t: Transaction)
        ensures
            t.payee@ == payee@,
            t.notes@ == Seq::<char>::empty(),
            t.account_id == account_id,
            t.category_id == 0,
            t.date == date,
            t.amount == amount,
    {
        Transaction { payee, amount, date, account_id, category_id: 0, notes: String::new() }
    }

    /// The name of the transactions table in the backing store.
    pub fn table_name() -> (r: String)
        ensures
            r@ == "transactions"@,
    {
        "transactions".to_owned()
    }

    /// The column definitions used to create the transactions table.
    pub fn sql_schema() -> (r: String)
        ensures
            r@ == "id INTEGER PRIMARY KEY, payee TEXT NOT NULL, amount INTEGER NOT NULL, date INTEGER NOT NULL, notes TEXT NOT NULL, account_id INTEGER NOT NULL, category_id INTEGER NOT NULL"@,
    {
        "id INTEGER PRIMARY KEY, payee TEXT NOT NULL, amount INTEGER NOT NULL, date INTEGER NOT NULL, notes TEXT NOT NULL, account_id INTEGER NOT NULL, category_id INTEGER NOT NULL".to_owned()
    }
}

/// A plain collection of transactions.
#[derive(Debug, Clone)]
pub struct TransactionList {
    pub transactions: Vec<Transaction>,
}

impl TransactionList {
    pub fn new() -> (r: TransactionList)
        ensures
            r.transactions@ == Seq::<Transaction>::empty(),
    {
        TransactionList { transactions: Vec::new() }
    }
}

/// A transaction enriched for display: its weak references are resolved to
/// display names, with the empty string standing for a dangling or sentinel
/// reference.
#[derive(Debug, Clone)]
pub struct TransactionDisplay {
    pub trans_raw: Transaction,
    pub category_display: String,
    pub account_display: String,
}

impl TransactionDisplay {
    pub fn new(
        trans_raw: Transaction,
        category_display: String,
        account_display: String,
    ) -> (r: TransactionDisplay)
        ensures
            r.trans_raw == trans_raw,
            r.category_display@ == category_display@,
            r.account_display@ == account_display@,
    {
        TransactionDisplay { trans_raw, category_display, account_display }
    }
}

/// A plain collection of enriched transactions.
#[derive(Debug, Clone)]
pub struct TransactionDisplayList {
    pub transactions: Vec<TransactionDisplay>,
}

impl TransactionDisplayList {
    pub fn new() -> (r: TransactionDisplayList)
        ensures
            r.transactions@ == Seq::<TransactionDisplay>::empty(),
    {
        TransactionDisplayList { transactions: Vec::new() }
    }
}

} // verus!
