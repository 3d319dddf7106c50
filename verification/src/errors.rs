//! Error types for the steganography core: strategy-level failures and
//! carrier-level failures surfaced by format adapters.

use vstd::prelude::*;

verus! {

/// Members are different strategy specific errors.
#[derive(Debug, Eq, PartialEq)]
pub enum StegoStrategyError {
    /// The carrier has too few bytes for the framed message; the text
    /// names both byte counts.
    MessageTooLarge(String),
    /// The 4-byte length prefix could not be converted to an integer.
    CannotConvertMessageLength,
    /// The length-prefix region could not be regrouped into bytes.
    CannotGroupMessageLength,
    /// The recovered payload bytes are not valid UTF-8, or the carrier
    /// is too short to hold the payload the prefix announces.
    CannotConvertMessageBytes,
    /// A failure surfaced by the carrier itself, wrapped unchanged.
    GeneralMediaError(StegoCoverMediaError),
}

/// Members are different cover media specific errors.
#[derive(Debug, Eq, PartialEq)]
pub enum StegoCoverMediaError {
    /// The container file could not be opened or parsed.
    BadFile(String),
    /// The carrier bytes could not be reassembled into a container.
    GenerateFileFailure,
    /// The reassembled container could not be written out.
    WriteFileFailure,
}

} // verus!
