use vstd::prelude::*;

verus! {

/// A spending category. Transactions reference it weakly by id; deleting a
/// category leaves such references dangling, and they then display as the
/// empty string.
#[derive(Debug, Clone, PartialEq, Eq)]
pub struct Category {
    pub id: i64,
    pub display_name: String,
}

impl Category {
    /// A fresh category value; the engine assigns the real identity on insert.
    pub fn new(name: &str) -> (c: Category)
        ensures
            c.id == 0,
            c.display_name@ == name@,
    {
        Category { id: 0, display_name: name.to_owned() }
    }

    /// The name of the categories table in the backing store.
    pub fn table_name() -> (r: String)
        ensures
            r@ == "categories"@,
    {
        "categories".to_owned()
    }

    /// The column definitions used to create the categories table.
    pub fn sql_schema() -> (r: String)
        ensures
            r@ == "id INTEGER PRIMARY KEY, display_name TEXT NOT NULL"@,
    {
        "id INTEGER PRIMARY KEY, display_name TEXT NOT NULL".to_owned()
    }
}

/// A plain collection of categories.
#[derive(Debug, Clone)]
pub struct CategoryList {
    pub categories: Vec<Category>,
}

impl CategoryList {
    pub fn new() -> (r: CategoryList)
        ensures
            r.categories@ == Seq::<Category>::empty(),
    {
        CategoryList { categories: Vec::new() }
    }
}

/// One row of the category spend report over a period: the total and average
/// of the matching transaction amounts, both in cents (the average truncated
/// toward zero), and zero for a category with no transactions in the period.
#[derive(Debug, Clone, PartialEq, Eq)]
pub struct CategoryDisplay {
    pub category_id: i64,
    pub display_name: String,
    pub transaction_total: i64,
    pub transaction_average: i64,
}

} // verus!
