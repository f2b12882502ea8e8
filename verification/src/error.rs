use vstd::prelude::*;

verus! {

/// The ledger's error taxonomy.
///
/// `LockingDB` reports a poisoned or unavailable lock on the shared engine;
/// `Rusqlite` wraps any failure of the underlying store (bad query, I/O,
/// constraint, or an exhausted identifier space); `NotFound` reports a lookup
/// by identifier or name that matched nothing; the two `CreateTransaction`
/// variants report an invalid inflow/outflow pair; `Import` reports a
/// malformed row of the external line-oriented format, with the 1-based line
/// number (the header is line 1) and a reason; the remaining variants report
/// failures of the surrounding shell (file dialogs and path handling).
#[derive(Debug, Clone, PartialEq, Eq)]
pub enum RytError {
    LockingDB,
    Rusqlite,
    CreateTransactionInflowAndOutlow,
    CreateTransactionNoInflowOrOutflow,
    NotFound,
    Import { line: usize, reason: String },
    PickFileNone,
    PathBufToStringFail,
}

} // verus!
