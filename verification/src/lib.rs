//! Binary-safe pattern search: match scanning, gap derivation for inverse
//! search, and the three output formats, with machine-checked contracts.

pub mod span;
pub mod gaps;
pub mod engine;
pub mod scan;
pub mod options;
pub mod output;
pub mod report;
pub mod run;
