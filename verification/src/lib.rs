//! A personal-finance ledger: accounts, categories and transactions kept in an
//! embedded SQLite store, with derived balances, running account history,
//! category spend reports and a CSV import/export pipeline.
//!
//! The engine mirrors the store's contents in memory and proves every report
//! and every mutation against that mirror; the SQLite calls themselves stand
//! behind small trusted wrappers.

mod account;
mod amounts;
mod category;
mod category_transfer;
mod csv;
mod database;
mod dates;
mod error;
mod laws;
mod numtext;
mod persist;
mod store;
mod transaction;

pub use account::{Account, AccountDisplay, AccountHistoryEntry};
pub use amounts::{
    account_balance, account_txns, category_average, category_total, category_txns, date_sorted,
    prefix_sums_fit, sort_by_date, sum_txns, trunc_div,
};
pub use category::{Category, CategoryDisplay, CategoryList};
pub use category_transfer::CategoryTransfer;
pub use csv::{CatView, RowView, TxView, apply_row, cat_views, export_line_text, first_category_id, renders_line, frac_cents, import_upto, parse_row, tx_views, money_or_zero, parse_money_cents, spec_money_cents, split_commas, split_csv_line, trimmed};
pub use database::{
    Database, Ledger, OrderBy, account_ids, account_name_or_empty, category_ids,
    category_name_or_empty, ids_ok, next_id,
};
pub use dates::{days_from_civil, days_in_month, is_leap_year, month_period, parse_date_to_unix, spec_parse_date, unix_of_date, valid_date};
pub use error::RytError;
pub use laws::{
    lemma_account_round_trip, lemma_balance_zero_without_transactions,
    lemma_category_round_trip, lemma_category_transfer_round_trip, lemma_category_zero_outside_period,
    lemma_history_matches_balance, lemma_transaction_round_trip,
};
pub use numtext::{amount_display_text, civil_text, civil_text_exec, pad2, pad4, amount_to_display, cents_text, dec_str_int, dec_str_nat, group_digits, i64_to_string, money_text};
pub use persist::{DatabaseInfo, PersistentData};
pub use transaction::{
    Transaction, TransactionDisplay, TransactionDisplayList, TransactionList, amount_from_flows,
    flows_valid,
};
