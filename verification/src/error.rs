//! The error kinds a triage cycle can end with.

use vstd::prelude::*;

verus! {

/// Why a triage cycle failed. Every failure carries enough of the offending
/// text to diagnose it afterwards; none is recovered from within a cycle.
#[derive(Debug, Clone, PartialEq, Eq)]
pub enum TriageError {
    /// The model or the repository could not be reached. Raised by the
    /// caller that performs the transport, never by the library itself.
    TransportFailure(String),
    /// The model's reply misses the fenced block, is not a JSON object,
    /// types a field wrongly, or writes a rating in an unknown shape.
    MalformedModelOutput(String),
    /// The model named a case that the catalog does not hold.
    UnknownCaseKey(String),
    /// The model scored a metric that the rubric does not hold.
    UnknownMetricKey(String),
    /// A metric never received a value, or the rubric was empty.
    IncompleteRubric(String),
    /// The conversation handed in was empty.
    EmptyConversation,
}

} // verus!
