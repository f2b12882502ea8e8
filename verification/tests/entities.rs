use lastfinance::Transaction;

#[test]
fn transaction_new_outflow_and_inflow() {
    assert_eq!(
        Transaction::new("payee".to_string(), 10, 10, 0, 0),
        Err("Cannot create transaction with both inflow and outflow.".to_string())
    );
}

#[test]
fn transaction_new() {
    let trans = Transaction::new("payee".to_string(), 0, 10, 0, 0).unwrap();
    assert_eq!(trans.amount, -10);
}

#[test]
fn transaction_new_rejects_two_zeroes() {
    assert_eq!(
        Transaction::new("payee".to_string(), 0, 0, 0, 0),
        Err("Cannot create transaction with no outflow and no inflow.".to_string())
    );
}

#[test]
fn transaction_new_rejects_negative_flows() {
    // a lone negative flow is not "exactly one strictly positive"
    assert!(Transaction::new("payee".to_string(), -5, 0, 0, 0).is_err());
    assert!(Transaction::new("payee".to_string(), 0, -5, 0, 0).is_err());
    assert!(Transaction::new("payee".to_string(), 10, -5, 0, 0).is_err());
}

#[test]
fn transaction_new_inflow_keeps_sign() {
    let trans = Transaction::new("payee".to_string(), 10, 0, 7, 3).unwrap();
    assert_eq!(trans.amount, 10);
    assert_eq!(trans.date, 7);
    assert_eq!(trans.account_id, 3);
    assert_eq!(trans.category_id, 0);
    assert_eq!(trans.notes, "");
}

#[test]
fn transaction_new_raw_stores_amount_unchecked() {
    let trans = Transaction::new_raw("p".to_string(), 0, 5, 2);
    assert_eq!(trans.amount, 0);
    assert_eq!(trans.date, 5);
    assert_eq!(trans.account_id, 2);
}

#[test]
fn empty_list_constructors() {
    assert_eq!(lastfinance::CategoryList::new().categories.len(), 0);
    assert_eq!(lastfinance::TransactionList::new().transactions.len(), 0);
    assert_eq!(lastfinance::TransactionDisplayList::new().transactions.len(), 0);
}

#[test]
fn transaction_display_new_keeps_its_parts() {
    let t = lastfinance::Transaction::new_raw("p".to_string(), 5, 1, 2);
    let d = lastfinance::TransactionDisplay::new(t.clone(), "cat".to_string(), "acc".to_string());
    assert_eq!(d.trans_raw, t);
    assert_eq!(d.category_display, "cat");
    assert_eq!(d.account_display, "acc");
}

#[test]
fn entity_schemas_name_their_tables() {
    assert_eq!(lastfinance::Category::table_name(), "categories");
    assert_eq!(lastfinance::Account::table_name(), "accounts");
    assert_eq!(lastfinance::Transaction::table_name(), "transactions");
    assert_eq!(lastfinance::CategoryTransfer::table_name(), "category_transfer");
    assert!(lastfinance::Category::sql_schema().contains("display_name TEXT NOT NULL"));
}
