//! What a directory scan is asked for and what it reports while running.
//! The walk itself is filesystem I/O and is performed by the surrounding
//! application; these are the plain values that cross that boundary.

use vstd::prelude::*;

verus! {

/// What to scan and how.
#[derive(Clone, Debug, PartialEq)]
pub struct ScanOptions {
    pub path: String,
    pub recursive: bool,
    pub include_hidden: bool,
}

/// One progress report of a running scan.
#[derive(Clone, Debug, PartialEq)]
pub struct ScanProgress {
    pub event: String,
    pub current_file: Option<String>,
    pub scanned_count: usize,
    pub total_count: Option<usize>,
}

} // verus!
