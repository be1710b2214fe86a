//! The error taxonomy of the reconciliation pipeline.

use vstd::prelude::*;

verus! {

/// The kinds of failure the pipeline distinguishes.
#[derive(Debug, Clone, Copy, PartialEq, Eq, Structural)]
pub enum ErrorKind {
    /// The feed does not have the documented shape; nothing is processed.
    MalformedFeed,
    /// A change pairs its cause, type and security in a way the model forbids.
    InconsistentSecurity,
    /// The settlement backend could not be reached; no batch is attempted.
    BackendUnreachable,
    /// The backend refused one batch; later batches are still attempted.
    SubmissionRejected,
    /// A batch was not confirmed in time; it may still land later.
    ConfirmationTimeout,
}

/// Why a feed could not be turned into batches.
#[derive(Debug, Clone, Copy, PartialEq, Eq, Structural)]
pub enum FeedError {
    /// A name, a date or the document's shape is not the documented one.
    MalformedFeed,
    /// The change at these positions (account, event, change) breaks the
    /// pairing of causes, change types and securities.
    InconsistentSecurity { account: usize, event: usize, change: usize },
}

impl FeedError {
    pub fn kind(&self) -> (r: ErrorKind)
        ensures
            (r == ErrorKind::MalformedFeed) == (*self is MalformedFeed),
            (r == ErrorKind::InconsistentSecurity) == (*self is InconsistentSecurity),
            r == ErrorKind::MalformedFeed || r == ErrorKind::InconsistentSecurity,
    {
        match self {
            FeedError::MalformedFeed => ErrorKind::MalformedFeed,
            FeedError::InconsistentSecurity { .. } => ErrorKind::InconsistentSecurity,
        }
    }
}

} // verus!
