use vstd::prelude::*;

verus! {

/// Why processing a frame or writing the results failed.
#[derive(Debug, Clone, Copy, PartialEq, Eq, Structural)]
pub enum TimelineError {
    /// A frame arrived without a presentation timestamp.
    MissingTimestamp,
    /// The stream's duration is zero.
    InvalidDuration,
    /// A frame's buffer does not hold the pixels its size promises.
    BufferUnavailable,
    /// A thumbnail's grid lies beyond the grids that were allocated.
    GridIndexOutOfRange,
    /// The manifest could not be written.
    ManifestWriteFailure,
}

} // verus!
