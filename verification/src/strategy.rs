//! The interface for steganography strategies.

use vstd::prelude::*;

use crate::cover_media::CoverMedia;
use crate::errors::StegoStrategyError;

verus! {

/// Defines the interface for steganography strategies. Implementors must
/// provide methods for encoding and decoding messages into/from a
/// [`CoverMedia`] implementation.
pub trait StegoStrategy {
    /// Encodes a message into the given cover media, in place.
    fn encode<M: CoverMedia>(&self, message: &str, media: &mut M) -> Result<
        (),
        StegoStrategyError,
    >;

    /// Decodes a message from the given cover media and returns it as a
    /// string.
    fn decode<M: CoverMedia>(&self, media: &M) -> Result<String, StegoStrategyError>;
}

} // verus!
