//! The failures that the pipeline distinguishes.
use vstd::prelude::*;

verus! {

#[derive(Clone, Copy, Debug, PartialEq, Eq, Structural)]
pub enum SyncError {
    /// Bad input; nothing was sent.
    Validation,
    /// A tree could not be listed or walked.
    Enumeration,
    /// No direct download address could be obtained.
    Resolution,
    /// No product, or no file.
    NotFound,
    /// A response with a status outside 2xx, or rate limiting that outlasted
    /// every attempt.
    Api { status: u16 },
    /// A response body that could not be read.
    Protocol,
    /// No response, on every attempt.
    Transport,
    /// Writing to a remote share, which needs access that is not available.
    Unsupported,
}

} // verus!
