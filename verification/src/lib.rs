//! A terminal image browser pipeline: a photo list with clamped navigation,
//! a directory listing filtered to image files, and the protocol state that
//! absorbs asynchronously resized frames without blocking the render loop.

use vstd::prelude::*;

pub mod decode;
pub mod driver;
pub mod listing;
pub mod protocol;
pub mod relay;

verus! {

/// The error taxonomy of the pipeline.
///
/// `IoError`: a directory or file could not be read.
/// `DecodeError`: the bytes of a file are not a supported image.
/// `ResizeError`: a resize job failed (for example, a zero-area target).
/// `ChannelClosed`: the background relay or worker pool has terminated.
#[derive(Clone, Copy, PartialEq, Eq, Structural, Debug)]
pub enum ErrorKind {
    IoError,
    DecodeError,
    ResizeError,
    ChannelClosed,
}

} // verus!
