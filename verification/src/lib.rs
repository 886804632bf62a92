//! Derives natural-language question/answer pairs describing simple numeric
//! facts (total, average, count) about the numeric columns of a small
//! tabular dataset.

use vstd::prelude::*;

pub mod aggregate;
pub mod laws;
pub mod source;
pub mod synth;
pub mod text;

verus! {

/// A question about a column of the table, together with its answer.
#[derive(Debug, Clone, PartialEq, Eq)]
pub struct QuestionAnswer {
    pub question: String,
    pub answer: String,
}

/// The failures the pipeline can surface.  Numeric-parse failures of single
/// cells are not among them: those are silently skipped evidence, never
/// errors.
#[derive(Debug, Clone, PartialEq, Eq)]
pub enum QaError {
    /// The data source could not be opened or read; raised by the caller
    /// that owns the source, with the underlying cause.
    SourceUnavailable(String),
    /// The header row could not be decoded.
    HeaderUnreadable(String),
    /// A data row could not be decoded into fields at all.
    RecordUnreadable(String),
    /// The scan completed but produced no qualifying column.
    NoNumericColumns,
}

} // verus!
