//! Rows of the catalog.  Identifiers are 128-bit UUID values.
use vstd::prelude::*;

verus! {

/// A watched path; directories exactly `depth` levels below it are tracked.
#[derive(Clone, Debug)]
pub struct RootDirectory {
    pub id: u128,
    pub path: String,
    pub depth: i16,
}

/// A tracked directory and the fingerprint of its contents at the last scan.
#[derive(Clone, Debug)]
pub struct Directory {
    pub id: u128,
    pub path: String,
    pub fingerprint: String,
    pub root_directory_id: u128,
}

/// A snapshot of a directory in the engine's repository.  `fingerprint` is
/// the directory's fingerprint when the snapshot was taken; `created_date`
/// is in `YYYY-MM-DDTHH:MM:SS.ffffff`.
#[derive(Clone, Debug)]
pub struct Archive {
    pub id: u128,
    pub name: String,
    pub repo_id: String,
    pub archive_id: String,
    pub created_date: String,
    pub fingerprint: String,
    pub directory_id: Option<u128>,
}

} // verus!
