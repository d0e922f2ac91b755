use vstd::prelude::*;

verus! {

/// Every failure the core can report.  All are recoverable at the request
/// boundary; none terminates the process.
#[derive(Clone, Copy, Debug, PartialEq, Eq, Structural)]
pub enum ServiceError {
    /// The spec token could not be decoded into a structurally valid sequence.
    MalformedSpec,
    /// The fetched source bytes are not a recognizable image.
    DecodeFailure,
    /// An operation's parameters fail validation against the current buffer.
    InvalidOperation,
    /// Encoding the finished buffer into the output format failed.
    EncodeFailure,
    /// Network retrieval failed or returned a non-success result.
    FetchFailure,
}

} // verus!
