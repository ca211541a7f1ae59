//! The failures of an extraction.

use vstd::prelude::*;

verus! {

/// Why an extraction ended without a pixel buffer.
///
/// Every failure of the pipeline is one of these; the decoder's transient
/// "try again" answer and its other, non-fatal errors are absorbed by the
/// decode-forward engine and never appear here.
#[derive(Clone, Copy, Debug, PartialEq, Eq, Structural)]
pub enum ExtractionError {
    /// The requesting timeline's frame rate is zero.
    InvalidFrameRate,
    /// The source path is missing or its container format was not recognised.
    ContainerOpen,
    /// The container holds no stream whose media type is video.
    NoVideoStream,
    /// The video stream's time base is not a positive rational.
    InvalidTimeBase,
    /// The target position does not fit the container's 64-bit timestamps.
    PositionOutOfRange,
    /// The container rejected the seek request.
    Seek,
    /// The scaler's parameters are invalid, or what it produced is not a
    /// picture of the requested geometry.
    Conversion,
    /// The packets ran out, or overshot the target, before any frame was decoded.
    NoFrameProduced,
}

} // verus!
