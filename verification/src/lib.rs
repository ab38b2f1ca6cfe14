//! Stream-splitting pipeline for a chunked video container.
//!
//! The `ivf` module parses the container: a fixed 32-byte global header
//! followed by length-prefixed records, each carrying one chunk of coded
//! data. The `vp9` module splits a single chunk into the coded frames a
//! stateless decoder consumes one at a time, by reading the optional
//! superframe index at the end of the chunk. The `controls` module holds
//! the plain-value types describing extended decoder controls.

pub mod controls;
pub mod error;
pub mod ivf;
pub mod lebytes;
pub mod vp9;
