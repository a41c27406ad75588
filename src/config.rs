//! The configuration a search engine is built from.

use vstd::prelude::*;
use crate::cli::Cli;

verus! {

/// What to search, where, and how.
pub struct SearchConfig {
    pub path: String,
    pub pattern: String,
    pub search_content: bool,
    pub use_regex: bool,
    pub max_threads: usize,
    pub benchmark: bool,
}

impl SearchConfig {
    pub fn from_cli(cli: &Cli) -> (r: Self)
        ensures
            r.path@ == cli.path@,
            r.pattern@ == cli.pattern@,
            r.search_content == cli.content,
            r.use_regex == cli.regex,
            r.max_threads == cli.threads,
            r.benchmark == cli.benchmark,
    {
        SearchConfig {
            path: cli.path.clone(),
            pattern: cli.pattern.clone(),
            search_content: cli.content,
            use_regex: cli.regex,
            max_threads: cli.threads,
            benchmark: cli.benchmark,
        }
    }
}

} // verus!
