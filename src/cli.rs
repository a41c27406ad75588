//! The command-line options, as plain values.

use vstd::prelude::*;

verus! {

/// The options a search is started with.
pub struct Cli {
    /// Directory to search.
    pub path: String,
    /// Pattern to look for, in file names or contents.
    pub pattern: String,
    /// Search file contents rather than names.
    pub content: bool,
    /// Read the pattern as a regular expression.
    pub regex: bool,
    /// Number of workers to use.
    pub threads: usize,
    /// Show performance details.
    pub benchmark: bool,
}

} // verus!
