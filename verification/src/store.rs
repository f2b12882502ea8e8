use vstd::prelude::*;

use crate::category_transfer::CategoryTransfer;
use crate::error::RytError;
use crate::transaction::Transaction;

verus! {

#[verifier::external_type_specification]
#[verifier::external_body]
pub struct ExConnection(rusqlite::Connection);

/// Relies on rusqlite's Connection::open: opens or creates the database file
/// at the given path.
#[verifier::external_body]
pub(crate) fn open_file_connection(path: &str) -> (r: Result<rusqlite::Connection, RytError>)
    ensures
        r is Err ==> r->Err_0 == RytError::Rusqlite,
{
    match rusqlite::Connection::open(path) {
        Ok(conn) => Ok(conn),
        Err(_) => Err(RytError::Rusqlite),
    }
}

/// Relies on rusqlite's Connection::open_in_memory: opens a fresh private
/// in-memory database.
#[verifier::external_body]
pub(crate) fn open_memory_connection() -> (r: Result<rusqlite::Connection, RytError>)
    ensures
        r is Err ==> r->Err_0 == RytError::Rusqlite,
{
    match rusqlite::Connection::open_in_memory() {
        Ok(conn) => Ok(conn),
        Err(_) => Err(RytError::Rusqlite),
    }
}

/// Relies on rusqlite's Connection::execute: runs one parameterless SQL
/// statement; used only for schema bootstrap.
#[verifier::external_body]
pub(crate) fn execute_sql(conn: &rusqlite::Connection, sql: &str) -> (r: Result<(), RytError>)
    ensures
        r is Err ==> r->Err_0 == RytError::Rusqlite,
{
    match conn.execute(sql, ()) {
        Ok(_) => Ok(()),
        Err(_) => Err(RytError::Rusqlite),
    }
}

/// Relies on rusqlite's Connection::query_row over sqlite_master: reports
/// whether a table of the given name exists, with the name passed as a bound
/// parameter.
#[verifier::external_body]
pub(crate) fn table_exists_row(conn: &rusqlite::Connection, name: &str) -> (r: Result<
    bool,
    RytError,
>)
    ensures
        r is Err ==> r->Err_0 == RytError::Rusqlite,
{
    let q: rusqlite::Result<i64> = conn.query_row(
        "SELECT 1 FROM sqlite_master WHERE type='table' AND name=?1",
        (name,),
        |row| row.get(0),
    );
    match q {
        Ok(_) => Ok(true),
        Err(rusqlite::Error::QueryReturnedNoRows) => Ok(false),
        Err(_) => Err(RytError::Rusqlite),
    }
}

/// Relies on rusqlite's Connection::execute with bound parameters: inserts an
/// account row with an explicit identity.
#[verifier::external_body]
pub(crate) fn insert_account_row(conn: &rusqlite::Connection, id: i64, name: &str) -> (r: Result<
    (),
    RytError,
>)
    ensures
        r is Err ==> r->Err_0 == RytError::Rusqlite,
{
    match conn.execute("INSERT INTO accounts (id, display_name) VALUES (?1, ?2)", (id, name)) {
        Ok(_) => Ok(()),
        Err(_) => Err(RytError::Rusqlite),
    }
}

/// Relies on rusqlite's Connection::execute with bound parameters: inserts a
/// category row with an explicit identity.
#[verifier::external_body]
pub(crate) fn insert_category_row(conn: &rusqlite::Connection, id: i64, name: &str) -> (r: Result<
    (),
    RytError,
>)
    ensures
        r is Err ==> r->Err_0 == RytError::Rusqlite,
{
    match conn.execute("INSERT INTO categories (id, display_name) VALUES (?1, ?2)", (id, name)) {
        Ok(_) => Ok(()),
        Err(_) => Err(RytError::Rusqlite),
    }
}

/// Relies on rusqlite's Connection::execute with bound parameters: inserts a
/// transaction row with an explicit identity.
#[verifier::external_body]
pub(crate) fn insert_transaction_row(conn: &rusqlite::Connection, id: i64, t: &Transaction) -> (r:
    Result<(), RytError>)
    ensures
        r is Err ==> r->Err_0 == RytError::Rusqlite,
{
    let sql =
        "INSERT INTO transactions (id, payee, amount, date, notes, account_id, category_id) VALUES (?1, ?2, ?3, ?4, ?5, ?6, ?7)";
    let params = (id, t.payee.as_str(), t.amount, t.date, t.notes.as_str(), t.account_id,
        t.category_id);
    match conn.execute(sql, params) {
        Ok(_) => Ok(()),
        Err(_) => Err(RytError::Rusqlite),
    }
}

/// Relies on rusqlite's Connection::execute with bound parameters: inserts a
/// category transfer row with an explicit identity.
#[verifier::external_body]
pub(crate) fn insert_transfer_row(
    conn: &rusqlite::Connection,
    id: i64,
    tr: &CategoryTransfer,
) -> (r: Result<(), RytError>)
    ensures
        r is Err ==> r->Err_0 == RytError::Rusqlite,
{
    let sql = "INSERT INTO category_transfer (id, source, dest, amount) VALUES (?1, ?2, ?3, ?4)";
    match conn.execute(sql, (id, tr.source, tr.dest, tr.amount)) {
        Ok(_) => Ok(()),
        Err(_) => Err(RytError::Rusqlite),
    }
}

/// Relies on rusqlite's Connection::execute with bound parameters: deletes the
/// category row with the given identity.
#[verifier::external_body]
pub(crate) fn delete_category_row(conn: &rusqlite::Connection, id: i64) -> (r: Result<
    (),
    RytError,
>)
    ensures
        r is Err ==> r->Err_0 == RytError::Rusqlite,
{
    match conn.execute("DELETE FROM categories WHERE id = ?1", (id,)) {
        Ok(_) => Ok(()),
        Err(_) => Err(RytError::Rusqlite),
    }
}

/// Relies on rusqlite's Connection::execute with bound parameters: renames the
/// category row with the given identity.
#[verifier::external_body]
pub(crate) fn rename_category_row(conn: &rusqlite::Connection, id: i64, name: &str) -> (r: Result<
    (),
    RytError,
>)
    ensures
        r is Err ==> r->Err_0 == RytError::Rusqlite,
{
    match conn.execute("UPDATE categories SET display_name = ?2 WHERE id = ?1", (id, name)) {
        Ok(_) => Ok(()),
        Err(_) => Err(RytError::Rusqlite),
    }
}

/// Relies on rusqlite's Statement::query_map: fetches every account row as
/// `(id, display_name)`, ordered by identity. What comes back depends on the
/// file on disk, so nothing is promised of the contents; the caller validates
/// them.
#[verifier::external_body]
pub(crate) fn load_account_rows(conn: &rusqlite::Connection) -> (r: Result<
    Vec<(i64, String)>,
    RytError,
>)
    ensures
        r is Err ==> r->Err_0 == RytError::Rusqlite,
{
    let sql = "SELECT id, display_name FROM accounts ORDER BY id";
    let mut stmt = conn.prepare(sql).map_err(|_| RytError::Rusqlite)?;
    let rows = stmt.query_map((), |row| Ok((row.get(0)?, row.get(1)?))).map_err(
        |_| RytError::Rusqlite,
    )?;
    let mut out: Vec<(i64, String)> = Vec::new();
    for row in rows {
        out.push(row.map_err(|_| RytError::Rusqlite)?);
    }
    Ok(out)
}

/// Relies on rusqlite's Statement::query_map: fetches every category row as
/// `(id, display_name)`, ordered by identity; the caller validates the
/// contents.
#[verifier::external_body]
pub(crate) fn load_category_rows(conn: &rusqlite::Connection) -> (r: Result<
    Vec<(i64, String)>,
    RytError,
>)
    ensures
        r is Err ==> r->Err_0 == RytError::Rusqlite,
{
    let sql = "SELECT id, display_name FROM categories ORDER BY id";
    let mut stmt = conn.prepare(sql).map_err(|_| RytError::Rusqlite)?;
    let rows = stmt.query_map((), |row| Ok((row.get(0)?, row.get(1)?))).map_err(
        |_| RytError::Rusqlite,
    )?;
    let mut out: Vec<(i64, String)> = Vec::new();
    for row in rows {
        out.push(row.map_err(|_| RytError::Rusqlite)?);
    }
    Ok(out)
}

/// Relies on rusqlite's Statement::query_map: fetches every transaction row as
/// `(id, payee, amount, date, notes, account_id, category_id)`, ordered by
/// identity; the caller validates the contents.
#[verifier::external_body]
pub(crate) fn load_transaction_rows(conn: &rusqlite::Connection) -> (r: Result<
    Vec<(i64, String, i64, i64, String, i64, i64)>,
    RytError,
>)
    ensures
        r is Err ==> r->Err_0 == RytError::Rusqlite,
{
    let sql =
        "SELECT id, payee, amount, date, notes, account_id, category_id FROM transactions ORDER BY id";
    let mut stmt = conn.prepare(sql).map_err(|_| RytError::Rusqlite)?;
    let rows = stmt.query_map(
        (),
        |row| Ok((row.get(0)?, row.get(1)?, row.get(2)?, row.get(3)?, row.get(4)?, row.get(5)?,
                row.get(6)?)),
    ).map_err(|_| RytError::Rusqlite)?;
    let mut out: Vec<(i64, String, i64, i64, String, i64, i64)> = Vec::new();
    for row in rows {
        out.push(row.map_err(|_| RytError::Rusqlite)?);
    }
    Ok(out)
}

/// Relies on rusqlite's Statement::query_map: fetches every category transfer
/// row as `(id, source, dest, amount)`, ordered by identity; the caller
/// validates the contents.
#[verifier::external_body]
pub(crate) fn load_transfer_rows(conn: &rusqlite::Connection) -> (r: Result<
    Vec<(i64, i64, i64, i64)>,
    RytError,
>)
    ensures
        r is Err ==> r->Err_0 == RytError::Rusqlite,
{
    let sql = "SELECT id, source, dest, amount FROM category_transfer ORDER BY id";
    let mut stmt = conn.prepare(sql).map_err(|_| RytError::Rusqlite)?;
    let rows = stmt.query_map((), |row| Ok((row.get(0)?, row.get(1)?, row.get(2)?, row.get(3)?)))
        .map_err(|_| RytError::Rusqlite)?;
    let mut out: Vec<(i64, i64, i64, i64)> = Vec::new();
    for row in rows {
        out.push(row.map_err(|_| RytError::Rusqlite)?);
    }
    Ok(out)
}

} // verus!
