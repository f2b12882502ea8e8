use lastfinance::{
    Account, Category, CategoryTransfer, Database, OrderBy, RytError, Transaction,
};

fn test_db() -> Database {
    Database::open_in_memory().unwrap()
}

#[test]
fn database_setup() {
    let db = test_db();
    assert_eq!(db.table_exists("categories"), Ok(true));
    assert_eq!(db.table_exists("accounts"), Ok(true));
    assert_eq!(db.table_exists("transactions"), Ok(true));
    assert_eq!(db.table_exists("category_transfer"), Ok(true));
    assert_eq!(db.table_exists("no_such_table"), Ok(false));
}

#[test]
fn open_missing_directory_is_a_storage_failure() {
    let r = Database::new("/no_such_directory_anywhere/sub/ledger.db3");
    assert_eq!(r.err(), Some(RytError::Rusqlite));
}

#[test]
fn insert_get() {
    let mut db = test_db();
    db.insert_category(Category::new("testing here")).unwrap();

    let cat_ret = db.get_category(1).unwrap();

    let mut cat_real = Category::new("testing here");
    cat_real.id = 1;

    assert_eq!(cat_ret, cat_real);
}

#[test]
fn insert_get_account() {
    let mut db = test_db();
    let id = db.insert_account(Account::new("Checking")).unwrap();
    let fetched = db.get_account(id).unwrap();
    assert_eq!(fetched.id, id);
    assert_eq!(fetched.display_name, "Checking");
    assert_eq!(db.get_account(id + 1), Err(RytError::NotFound));
}

#[test]
fn insert_get_transaction() {
    let mut db = test_db();
    let t = Transaction::new("payee".to_string(), 250, 0, 11, 1).unwrap();
    let id = db.insert_transaction(t.clone()).unwrap();
    assert_eq!(id, 1);
    assert_eq!(db.get_transaction(id).unwrap(), t);
    assert_eq!(db.get_transaction(2), Err(RytError::NotFound));
}

#[test]
fn insert_get_category_transfer() {
    let mut db = test_db();
    let tr = CategoryTransfer { source: 1, dest: 2, amount: 300 };
    let id = db.insert_category_transfer(tr.clone()).unwrap();
    assert_eq!(db.get_category_transfer(id).unwrap(), tr);
    let all = db.get_all_category_transfers(OrderBy::Unordered).unwrap();
    assert_eq!(all, vec![tr]);
}

#[test]
fn get_all_categories() {
    let mut db = test_db();

    db.insert_category(Category::new("first")).unwrap();
    db.insert_category(Category::new("second")).unwrap();

    let categories = db.get_all_categories(OrderBy::Unordered).unwrap();
    assert_eq!(categories.len(), 2);
}

#[test]
fn category_exists() {
    let mut db = test_db();

    db.insert_category(Category::new("first")).unwrap();
    db.insert_category(Category::new("second")).unwrap();

    assert_eq!(db.category_exists("first"), Ok(true));
    assert_eq!(db.category_exists("second"), Ok(true));
    assert_eq!(db.category_exists("third"), Ok(false));
}

#[test]
fn get_category_id() {
    let mut db = test_db();

    db.insert_category(Category::new("first")).unwrap();
    db.insert_category(Category::new("second")).unwrap();

    assert_eq!(db.get_category_id("first"), Ok(1));
    assert_eq!(db.get_category_id("second"), Ok(2));
    assert_eq!(db.get_category_id("what??"), Err(RytError::NotFound));
}

#[test]
fn get_category_id_of_missing_name_is_not_found() {
    let db = test_db();
    assert_eq!(db.get_category_id("nonexistent"), Err(RytError::NotFound));
}

#[test]
fn get_transaction_list_display() {
    let mut db = test_db();

    db.insert_category(Category::new("first")).unwrap();
    db.insert_category(Category::new("second")).unwrap();

    let mut trans = Transaction::new_raw("ryans transaction".to_string(), 100, 0, 0);
    trans.category_id = 1;
    db.insert_transaction(trans).unwrap();

    let trans = Transaction::new_raw("ryans second transaction".to_string(), 1, 0, 0);
    db.insert_transaction(trans).unwrap();

    let transaction_displays = db.get_transaction_list_display().unwrap();
    assert_eq!(transaction_displays.transactions.len(), 2);
    assert_eq!(transaction_displays.transactions[0].category_display, "first");
    assert_eq!(transaction_displays.transactions[0].trans_raw.amount, 100);
    assert_eq!(transaction_displays.transactions[1].category_display, "");
    assert_eq!(transaction_displays.transactions[1].trans_raw.amount, 1);
}

#[test]
fn get_category_display_list() {
    let mut db = test_db();

    db.insert_category(Category::new("first")).unwrap();
    db.insert_category(Category::new("second")).unwrap();
    db.insert_category(Category::new("third")).unwrap();

    let trans = Transaction::new_raw("ryans transaction".to_string(), 5, 10, 0);
    db.insert_transaction(trans).unwrap();

    let mut trans = Transaction::new_raw("ryans transaction".to_string(), 100, 10, 0);
    trans.category_id = 1;
    db.insert_transaction(trans).unwrap();

    let mut trans = Transaction::new_raw("ryans transaction".to_string(), 1000, 10, 0);
    trans.category_id = 1;
    db.insert_transaction(trans).unwrap();

    let mut trans = Transaction::new_raw("ryans second transaction".to_string(), 1, 10, 0);
    trans.category_id = 2;
    db.insert_transaction(trans).unwrap();

    let mut trans = Transaction::new_raw("ryans second transaction".to_string(), -10, 10, 0);
    trans.category_id = 2;
    db.insert_transaction(trans).unwrap();

    let category_displays = db.get_category_display_list(1, 10_000).unwrap();

    assert_eq!(category_displays.len(), 3);

    assert_eq!(category_displays[0].display_name, "first");
    assert_eq!(category_displays[0].transaction_total, 1100);
    assert_eq!(category_displays[0].transaction_average, 550);

    assert_eq!(category_displays[1].display_name, "second");
    assert_eq!(category_displays[1].transaction_total, -9);

    assert_eq!(category_displays[2].display_name, "third");
    assert_eq!(category_displays[2].transaction_total, 0);
    assert_eq!(category_displays[2].transaction_average, 0);
}

#[test]
fn category_display_list_respects_the_period() {
    let mut db = test_db();
    db.insert_category(Category::new("only")).unwrap();

    let mut inside = Transaction::new_raw("in".to_string(), 40, 50, 0);
    inside.category_id = 1;
    db.insert_transaction(inside).unwrap();

    let mut outside = Transaction::new_raw("out".to_string(), 999, 500, 0);
    outside.category_id = 1;
    db.insert_transaction(outside).unwrap();

    let displays = db.get_category_display_list(1, 100).unwrap();
    assert_eq!(displays.len(), 1);
    assert_eq!(displays[0].transaction_total, 40);
    assert_eq!(displays[0].transaction_average, 40);
}

#[test]
fn get_account_display_list() {
    let mut db = test_db();

    db.insert_account(Account::new("first")).unwrap();
    db.insert_account(Account::new("empty")).unwrap();

    db.insert_transaction(Transaction::new_raw("a".to_string(), -11734, 1, 1)).unwrap();
    db.insert_transaction(Transaction::new_raw("b".to_string(), 64860, 2, 1)).unwrap();

    let account_list = db.get_account_display_list().unwrap();

    assert_eq!(account_list.len(), 2);
    assert_eq!(account_list[0].display_name, "first");
    assert_eq!(account_list[0].balance, 53126);
    // an account with no transactions still appears, with balance zero
    assert_eq!(account_list[1].display_name, "empty");
    assert_eq!(account_list[1].balance, 0);
}

#[test]
fn get_account_history() {
    let mut db = test_db();

    db.insert_account(Account::new("first")).unwrap();

    db.insert_transaction(Transaction::new_raw("late".to_string(), 100, 300, 1)).unwrap();
    db.insert_transaction(Transaction::new_raw("early".to_string(), -50, 100, 1)).unwrap();
    db.insert_transaction(Transaction::new_raw("middle".to_string(), 200, 200, 1)).unwrap();

    let entries = db.get_account_history(1).unwrap();

    assert_eq!(entries.len(), 3);
    assert_eq!(entries[0].running_balance, -50);
    assert_eq!(entries[0].date, 100);
    assert_eq!(entries[1].running_balance, 150);
    assert_eq!(entries[2].running_balance, 250);
    assert_eq!(entries[2].display_name, "first");

    // the final running balance equals the reported account balance
    let balances = db.get_account_display_list().unwrap();
    assert_eq!(balances[0].balance, entries[2].running_balance);

    // an unknown account yields the empty history
    assert_eq!(db.get_account_history(9).unwrap().len(), 0);
}

#[test]
fn checking_account_scenario() {
    let mut db = test_db();

    let account_id = db.insert_account(Account::new("Checking")).unwrap();
    let opening =
        Transaction::new("Starting Balance".to_string(), 10000, 0, 1000, account_id).unwrap();
    db.insert_transaction(opening).unwrap();

    let coffee = Transaction::new("Coffee".to_string(), 0, 500, 2000, account_id).unwrap();
    db.insert_transaction(coffee).unwrap();

    let list = db.get_account_display_list().unwrap();
    assert_eq!(list.len(), 1);
    assert_eq!(list[0].display_name, "Checking");
    assert_eq!(list[0].balance, 9500);
}

#[test]
fn rename_category_changes_the_name_only() {
    let mut db = test_db();
    db.insert_category(Category::new("old")).unwrap();
    db.rename_category(1, "new".to_string()).unwrap();
    let cat = db.get_category(1).unwrap();
    assert_eq!(cat.display_name, "new");
    assert_eq!(cat.id, 1);
    assert_eq!(db.rename_category(9, "x".to_string()), Err(RytError::NotFound));
}

#[test]
fn delete_category_leaves_dangling_references_blank() {
    let mut db = test_db();
    db.insert_category(Category::new("doomed")).unwrap();
    let mut t = Transaction::new_raw("p".to_string(), 5, 1, 0);
    t.category_id = 1;
    db.insert_transaction(t).unwrap();

    db.delete_category(1).unwrap();
    assert_eq!(db.get_category(1), Err(RytError::NotFound));
    assert_eq!(db.delete_category(1), Err(RytError::NotFound));

    let displays = db.get_transaction_list_display().unwrap();
    assert_eq!(displays.transactions[0].category_display, "");
}

#[test]
fn get_all_transactions_sorted_by_date() {
    let mut db = test_db();
    db.insert_transaction(Transaction::new_raw("b".to_string(), 2, 20, 0)).unwrap();
    db.insert_transaction(Transaction::new_raw("a".to_string(), 1, 10, 0)).unwrap();

    let by_date = db.get_all_transactions(OrderBy::Date).unwrap();
    assert_eq!(by_date[0].payee, "a");
    assert_eq!(by_date[1].payee, "b");

    let unordered = db.get_all_transactions(OrderBy::Unordered).unwrap();
    assert_eq!(unordered[0].payee, "b");

    // an ordered fetch is refused for entities without a date column
    assert!(db.get_all_categories(OrderBy::Date).is_err());
}

#[test]
fn db_info_of_an_in_memory_database_is_blank() {
    let db = test_db();
    let info = db.db_info();
    assert_eq!(info.file_name, "");
    assert_eq!(info.file_path, "");
}
