//! Rows of the earlier table of uploaded packages.

use vstd::prelude::*;

verus! {

#[derive(Debug)]
pub struct WabbajackArchive {
    pub id: u64,
    pub filename: String,
    pub name: String,
    pub version: String,
    pub xxhash64: String,
    pub available: bool,
}

#[derive(Debug)]
pub struct WabbajackArchiveEgg {
    pub filename: String,
    pub name: String,
    pub version: String,
    pub xxhash64: String,
    pub available: bool,
}

} // verus!
