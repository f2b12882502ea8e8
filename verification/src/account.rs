use vstd::prelude::*;

verus! {

/// A ledger account. Its balance is never stored: it is always derived as the
/// sum of the amounts of the transactions that reference it.
#[derive(Debug, Clone, PartialEq, Eq)]
pub struct Account {
    pub id: i64,
    pub display_name: String,
}

impl Account {
    /// A fresh account value; the engine assigns the real identity on insert.
    pub fn new(name: &str) -> (a: Account)
        ensures
            a.id == 0,
            a.display_name@ == name@,
    {
        Account { id: 0, display_name: name.to_owned() }
    }

    /// The name of the accounts table in the backing store.
    pub fn table_name() -> (r: String)
        ensures
            r@ == "accounts"@,
    {
        "accounts".to_owned()
    }

    /// The column definitions used to create the accounts table.
    pub fn sql_schema() -> (r: String)
        ensures
            r@ == "id INTEGER PRIMARY KEY, display_name TEXT NOT NULL"@,
    {
        "id INTEGER PRIMARY KEY, display_name TEXT NOT NULL".to_owned()
    }
}

/// One row of the account balance report: the derived balance beside the
/// account's identity and name.
#[derive(Debug, Clone, PartialEq, Eq)]
pub struct AccountDisplay {
    pub account_id: i64,
    pub display_name: String,
    pub balance: i64,
}

/// One row of an account's running history: the inclusive prefix sum of the
/// account's transaction amounts in date order.
#[derive(Debug, Clone, PartialEq, Eq)]
pub struct AccountHistoryEntry {
    pub account_id: i64,
    pub display_name: String,
    pub running_balance: i64,
    pub date: i64,
}

} // verus!
