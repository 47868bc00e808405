//! The error taxonomy of the replay pipeline. Every fallible step of the
//! core returns one of these values; nothing is swallowed inside the core.

use vstd::prelude::*;

verus! {

/// The buffer operation during which an overflow was detected.
#[derive(Debug, Clone, Copy, PartialEq, Eq, Structural)]
pub enum BufferOp {
    WriteInt32,
    WriteInt64,
    WriteBytes,
}

/// A structural failure while encoding a record: a write past the end of
/// the bounded buffer, a final size that differs from the expected one, or
/// a `created` timestamp that cannot be turned into a tick count.
#[derive(Debug, Clone, PartialEq)]
pub enum FormatError {
    Overflow { op: BufferOp, capacity: usize, offset: usize },
    SizeMismatch { expected: usize, actual: usize },
    InvalidTimestamp,
    /// A chunk body that does not fit its signed 32-bit length field, or a
    /// container too large for the address space: such payloads must be
    /// rejected or split by the caller.
    PayloadTooLarge,
}

/// The error taxonomy of the pipeline.
///
/// - `InvalidInput`: the replay id holds a non-alphanumeric character.
/// - `NotFound`: the id was absent from every discovery page.
/// - `PreconditionFailed`: the recording is not finished yet.
/// - `NetworkError`: a transport-level failure survived all retries.
/// - `ServerError`: a non-success HTTP status; such a response is not retried.
/// - `ParseError`: malformed JSON or an unexpected schema.
/// - `IoError`: a missing or unreadable local file, or a failed write.
/// - `FormatError`: an encoding-level failure (see [`FormatError`]).
#[derive(Debug, Clone, PartialEq)]
pub enum ReplayError {
    InvalidInput,
    NotFound,
    PreconditionFailed,
    NetworkError { url: String, attempts: u32 },
    ServerError { url: String, status: u16 },
    ParseError { context: String },
    IoError { context: String },
    FormatError(FormatError),
}

} // verus!
