//! Weighted code coverage: scores that combine the structural complexity of
//! each lexical scope of a source file with the per-line test coverage of
//! that file, at function, file and project granularity.
//!
//! All scores are integers in millionths (see `metrics::MICRO`), each
//! rounded down from the value of its formula; CRAP rounds `1 − coverage`
//! down to millionths before cubing it (see `metrics::crap_value`).
//!
//! - `scope`: the scope tree of a file as an arena, the smallest enclosing
//!   scope of a line, the function scopes and their qualified names.
//! - `coverage`: per-line coverage and how each report dialect writes it.
//! - `metrics`: the plain and quantized weighted coverage, CRAP and stink
//!   scores, and the complexity classification.
//! - `aggregate`: the partial sums that workers keep, their reduction, and
//!   the project row computed from them.
//! - `stats`: the AVG, MAX and MIN rows.
//! - `report`: the coverage of a report by file path; which files it covers.
//! - `files`, `functions`: scoring one file, and the final result of a run,
//!   per file or per function.
//! - `utility`: paths, extensions, ordering and the split of the file list
//!   among workers.

pub mod error;
pub mod utility;
pub mod coverage;
pub mod scope;
pub mod metrics;
pub mod aggregate;
pub mod stats;
pub mod report;
pub mod files;
pub mod functions;
