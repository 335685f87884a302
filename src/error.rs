//! Failure kinds of one request.
use vstd::prelude::*;

verus! {

/// Why a request failed. The fatal kinds end the request; `TraversalError` and
/// `ScanFileError` are recorded per entry or per file and never end it.
#[derive(Clone, Copy, Debug, PartialEq, Eq, Structural)]
pub enum PipelineError {
    WorkspaceCreateFailed,
    RetrievalFailed,
    RetrievalTooLarge,
    RetrievalTimeout,
    UnsafeArchiveEntry,
    UnsafeCloneDestination,
    ExtractionFailed,
    TraversalError,
    ScanFileError,
}

impl PipelineError {
    /// The failure stems from what the caller sent (a bad URL, a hostile
    /// archive, an escaping destination) rather than from a transient or
    /// server-side condition.
    pub open spec fn spec_is_input_error(self) -> bool {
        match self {
            PipelineError::RetrievalFailed => true,
            PipelineError::UnsafeArchiveEntry => true,
            PipelineError::UnsafeCloneDestination => true,
            PipelineError::RetrievalTooLarge => true,
            _ => false,
        }
    }

    pub fn is_input_error(&self) -> (r: bool)
        ensures
            r == self.spec_is_input_error(),
    {
        match self {
            PipelineError::RetrievalFailed => true,
            PipelineError::UnsafeArchiveEntry => true,
            PipelineError::UnsafeCloneDestination => true,
            PipelineError::RetrievalTooLarge => true,
            _ => false,
        }
    }

    /// The error ends the request (as opposed to a per-entry or per-file one).
    pub open spec fn spec_is_fatal(self) -> bool {
        !(self is TraversalError || self is ScanFileError)
    }

    pub fn is_fatal(&self) -> (r: bool)
        ensures
            r == self.spec_is_fatal(),
    {
        match self {
            PipelineError::TraversalError => false,
            PipelineError::ScanFileError => false,
            _ => true,
        }
    }
}

} // verus!
