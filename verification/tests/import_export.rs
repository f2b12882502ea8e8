use lastfinance::{
    Account, Category, Database, OrderBy, RytError, Transaction, parse_date_to_unix,
    parse_money_cents,
};

fn lines(rows: &[&str]) -> Vec<String> {
    rows.iter().map(|r| r.to_string()).collect()
}

#[test]
fn import() {
    let mut db = Database::open_in_memory().unwrap();
    db.insert_account(Account::new("first")).unwrap();

    let input = lines(&[
        "account, date, payee, outflow, inflow, category",
        ",2024-01-01,Arbys,117.34,,Dining",
        ",2024-01-02,The City,,648.60,",
    ]);
    let count = db.import(&input, 1).unwrap();
    assert_eq!(count, 2);

    let all_trans: Vec<Transaction> = db.get_all_transactions(OrderBy::Date).unwrap();
    assert_eq!(all_trans.len(), 2);

    assert_eq!(all_trans[0].payee, "Arbys");
    assert_eq!(all_trans[0].amount, -11734);
    assert_eq!(all_trans[0].date, 1704067200);
    assert_eq!(all_trans[0].account_id, 1);
    // the outflow's category was created and resolved
    assert_eq!(db.get_category_id("Dining"), Ok(1));
    assert_eq!(all_trans[0].category_id, 1);

    assert_eq!(all_trans[1].payee, "The City");
    assert_eq!(all_trans[1].amount, 64860);
    assert_eq!(all_trans[1].date, 1704153600);
    // inflows stay uncategorized
    assert_eq!(all_trans[1].category_id, 0);
}

#[test]
fn import_reuses_an_existing_category() {
    let mut db = Database::open_in_memory().unwrap();
    db.insert_category(Category::new("Dining")).unwrap();
    db.insert_category(Category::new("Fuel")).unwrap();

    let input = lines(&[
        "header",
        ",2024-01-01,A,1.00,,Fuel",
        ",2024-01-02,B,2.00,,Fuel",
    ]);
    assert_eq!(db.import(&input, 0).unwrap(), 2);

    // no duplicate category was created
    assert_eq!(db.get_all_categories(OrderBy::Unordered).unwrap().len(), 2);
    let all = db.get_all_transactions(OrderBy::Unordered).unwrap();
    assert_eq!(all[0].category_id, 2);
    assert_eq!(all[1].category_id, 2);
}

#[test]
fn import_rejects_a_bad_date_with_its_line_number() {
    let mut db = Database::open_in_memory().unwrap();
    let input = lines(&[
        "header",
        ",2024-01-01,Fine,1.00,,A",
        ",2024-13-01,Broken,1.00,,A",
    ]);
    let r = db.import(&input, 0);
    assert_eq!(r, Err(RytError::Import { line: 3, reason: "invalid date".to_string() }));
    // a malformed row aborts before anything is inserted
    assert_eq!(db.get_all_transactions(OrderBy::Unordered).unwrap().len(), 0);
    assert_eq!(db.get_all_categories(OrderBy::Unordered).unwrap().len(), 0);
}

#[test]
fn import_rejects_two_flows() {
    let mut db = Database::open_in_memory().unwrap();
    let input = lines(&["header", ",2024-01-01,Both,1.00,2.00,A"]);
    let r = db.import(&input, 0);
    assert_eq!(
        r,
        Err(RytError::Import {
            line: 2,
            reason: "Cannot create transaction with both inflow and outflow.".to_string(),
        })
    );
}

#[test]
fn import_rejects_absent_flows_and_short_rows() {
    let mut db = Database::open_in_memory().unwrap();
    let none = lines(&["header", ",2024-01-01,Nothing,,,A"]);
    assert_eq!(
        db.import(&none, 0),
        Err(RytError::Import {
            line: 2,
            reason: "Cannot create transaction with no outflow and no inflow.".to_string(),
        })
    );
    let short = lines(&["header", "only,three,fields"]);
    assert_eq!(
        db.import(&short, 0),
        Err(RytError::Import { line: 2, reason: "row has too few fields".to_string() })
    );
}

#[test]
fn import_of_just_a_header_is_empty() {
    let mut db = Database::open_in_memory().unwrap();
    assert_eq!(db.import(&lines(&["header"]), 0).unwrap(), 0);
    assert_eq!(db.import(&lines(&[]), 0).unwrap(), 0);
}

#[test]
fn money_fields_read_as_cents() {
    assert_eq!(parse_money_cents("117.34"), 11734);
    assert_eq!(parse_money_cents(" 648.60 "), 64860);
    assert_eq!(parse_money_cents("0"), 0);
    assert_eq!(parse_money_cents("5"), 500);
    assert_eq!(parse_money_cents("-5"), -500);
    assert_eq!(parse_money_cents("+2.5"), 250);
    assert_eq!(parse_money_cents("1."), 100);
    assert_eq!(parse_money_cents(".5"), 50);
    assert_eq!(parse_money_cents("1.005"), 101);
    assert_eq!(parse_money_cents("1.004"), 100);
    assert_eq!(parse_money_cents(""), 0);
    assert_eq!(parse_money_cents("abc"), 0);
    assert_eq!(parse_money_cents("1.2.3"), 0);
    assert_eq!(parse_money_cents("."), 0);
    assert_eq!(parse_money_cents("99999999999999999999999999"), 0);
}

#[test]
fn date_fields_read_as_midnight_utc() {
    assert_eq!(parse_date_to_unix("2024-01-01"), Some(1704067200));
    assert_eq!(parse_date_to_unix("2024-01-02"), Some(1704153600));
    assert_eq!(parse_date_to_unix("1970-01-01"), Some(0));
    assert_eq!(parse_date_to_unix("1969-12-31"), Some(-86400));
    assert_eq!(parse_date_to_unix("2024-02-29"), Some(1709164800));
    assert_eq!(parse_date_to_unix("2023-02-29"), None);
    assert_eq!(parse_date_to_unix("2024-13-01"), None);
    assert_eq!(parse_date_to_unix("2024-1-01"), None);
    assert_eq!(parse_date_to_unix("20240101"), None);
    assert_eq!(parse_date_to_unix(""), None);
}

#[test]
fn export_rows_renders_the_ledger_by_date() {
    let mut db = Database::open_in_memory().unwrap();
    db.insert_account(Account::new("A")).unwrap();
    db.insert_category(Category::new("C")).unwrap();

    let mut later = Transaction::new_raw("Dinner".to_string(), 64860, 1704153600, 1);
    later.category_id = 1;
    db.insert_transaction(later).unwrap();
    let earlier = Transaction::new_raw("Lunch".to_string(), -250, 1704067200, 1);
    db.insert_transaction(earlier).unwrap();

    let rows = db.export_rows().unwrap();
    assert_eq!(rows.len(), 3);
    assert_eq!(rows[0], "payee, amount, date, account, category");
    assert_eq!(rows[1], "Lunch,-2.50,2024-01-01,A,");
    assert_eq!(rows[2], "Dinner,648.60,2024-01-02,A,C");
}

#[test]
fn export_refuses_a_date_outside_the_calendar() {
    let mut db = Database::open_in_memory().unwrap();
    db.insert_transaction(Transaction::new_raw("far".to_string(), 1, i64::MAX, 0)).unwrap();
    assert_eq!(db.export_rows(), Err(RytError::Rusqlite));
}

#[test]
fn month_periods_meet_at_one_second_before_midnight() {
    // January 2024: from 2023-12-31T23:59:59Z to 2024-01-31T23:59:59Z
    assert_eq!(lastfinance::month_period(2024, 1), Some((1704067199, 1706745599)));
    // December rolls over into the next year
    assert_eq!(lastfinance::month_period(2023, 12), Some((1701388799, 1704067199)));
    assert_eq!(lastfinance::month_period(2024, 13), None);
    assert_eq!(lastfinance::month_period(9999, 12), None);
}
