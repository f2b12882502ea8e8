use vstd::prelude::*;

verus! {

/// A handle on the open database, for display: the file's own name and the
/// directory that holds it.
#[derive(Debug, Clone, PartialEq, Eq)]
pub struct DatabaseInfo {
    pub file_name: String,
    pub file_path: String,
}

/// The application settings that survive a restart: the path of the database
/// that was last open. Reading and writing the settings file is the shell's
/// work; the record itself lives here.
#[derive(Debug, Clone, PartialEq, Eq)]
pub struct PersistentData {
    pub last_db_path: String,
}

impl PersistentData {
    /// Settings with no remembered database path.
    pub fn new_empty() -> (r: PersistentData)
        ensures
            r.last_db_path@ == Seq::<char>::empty(),
    {
        PersistentData { last_db_path: String::new() }
    }
}

} // verus!
