use vstd::prelude::*;

verus! {

/// A movement of budgeted funds between two categories, without any cash
/// transaction. `amount` is in cents.
#[derive(Debug, Clone, PartialEq, Eq)]
pub struct CategoryTransfer {
    pub source: i64,
    pub dest: i64,
    pub amount: i64,
}

impl CategoryTransfer {
    /// The name of the category transfer table in the backing store.
    pub fn table_name() -> (r: String)
        ensures
            r@ == "category_transfer"@,
    {
        "category_transfer".to_owned()
    }

    /// The column definitions used to create the category transfer table.
    pub fn sql_schema() -> (r: String)
        ensures
            r@ == "id INTEGER PRIMARY KEY, source INTEGER NOT NULL, dest INTEGER NOT NULL, amount INTEGER NOT NULL"@,
    {
        "id INTEGER PRIMARY KEY, source INTEGER NOT NULL, dest INTEGER NOT NULL, amount INTEGER NOT NULL".to_owned()
    }
}

} // verus!
