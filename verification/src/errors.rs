use vstd::prelude::*;

verus! {

/// Failure taxonomy of the whole run.  Every error is fatal: the caller
/// aborts without producing a report.
#[derive(Clone, Copy, PartialEq, Eq, Structural, Debug)]
pub enum ReportError {
    /// The remote service rejected the credential.
    AuthError,
    /// Transport failure, or an unexpected HTTP status that is not an
    /// authentication rejection.
    NetworkError,
    /// A response body did not match the order schema, or a price field is
    /// not a decimal string the summarizer accepts.
    ParseError,
    /// The pagination link metadata was absent or malformed where it was
    /// required.
    ProtocolError,
    /// A donation total exceeded the range of the fixed-point accumulator.
    Overflow,
}

} // verus!
