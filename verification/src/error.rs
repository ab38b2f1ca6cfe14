//! Errors raised by the container demultiplexer and the superframe splitter.

use vstd::prelude::*;

verus! {

/// What can go wrong while splitting a stream into coded frames.
///
/// Ordinary end of stream is not an error: a short read at a record
/// boundary ends the sequence cleanly. These three conditions are fatal
/// for the affected stream and are reported distinctly.
#[derive(Clone, Copy, Debug, PartialEq, Eq, Structural)]
pub enum StreamError {
    /// Fewer than the 32 global header bytes were available at construction.
    HeaderError,
    /// A superframe index announces more bytes than the chunk holds
    /// (or the chunk is empty, so no marker byte exists to examine).
    MalformedSuperframeError,
    /// A frame size taken from the index overruns the chunk bounds.
    TruncatedFrameError,
}

} // verus!
