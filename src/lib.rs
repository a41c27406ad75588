//! A parallel file search engine: literal and regular-expression matchers,
//! per-file scanning, work partitioning and report aggregation.

pub mod cli;
pub mod config;
pub mod engine;

pub mod matchers;
pub mod results;
