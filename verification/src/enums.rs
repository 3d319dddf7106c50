//! The carrier formats the crate knows about, and the error types of the
//! path-level encoding and decoding entry points.

use vstd::prelude::*;

verus! {

/// The container formats a carrier can come from.
#[derive(Debug, Clone, Copy, PartialEq, Eq, Hash, Structural)]
pub enum SupportedFileType {
    Png,
    WavPcm,
}

/// Errors of the encoding entry point.
#[derive(Debug, Eq, PartialEq)]
pub enum EncodingError {
    /// The container file could not be opened or parsed.
    BadFile(String),
    /// The carrier has too few bytes for the framed message; the text
    /// names both byte counts.
    MessageTooLarge(String),
    /// The carrier bytes could not be reassembled into a container.
    GenerateFileFailure,
    /// The reassembled container could not be written out.
    WriteFileFailure,
}

/// Errors of the decoding entry point.
#[derive(Debug, Eq, PartialEq)]
pub enum DecodingError {
    /// The container file could not be opened or parsed.
    BadFile(String),
    /// The length-prefix region could not be regrouped into bytes.
    CannotGroupMessageLength,
    /// The 4-byte length prefix could not be converted to an integer.
    CannotConvertMessageLength,
    /// The recovered payload bytes are not valid UTF-8, or the carrier
    /// is too short to hold the payload the prefix announces.
    CannotConvertMessageBytes,
}

} // verus!
