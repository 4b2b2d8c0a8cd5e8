//! Rows of the earlier table of mod archives, which kept one row per file
//! name.

use vstd::prelude::*;

verus! {

#[derive(Debug)]
pub struct ModArchive {
    pub id: u64,
    pub filename: String,
    pub name: Option<String>,
    pub version: Option<String>,
    pub size: u64,
    pub xxhash64: String,
    pub available: bool,
}

#[derive(Debug)]
pub struct ModArchiveEgg {
    pub filename: String,
    pub name: Option<String>,
    pub version: Option<String>,
    pub size: u64,
    pub xxhash64: String,
    pub available: bool,
}

} // verus!
