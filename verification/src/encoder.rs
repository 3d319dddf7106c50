//! The encoding entry point: embeds a message into carrier bytes that a
//! format adapter extracted from a container file. Opening the container
//! and saving the changed bytes back are the adapter's work and happen
//! outside this crate; the encoder holds the chosen format so a caller
//! can pick the matching adapter.

use vstd::prelude::*;
use vstd::utf8::encode_utf8;

use crate::enums::EncodingError;
use crate::enums::SupportedFileType;
use crate::lsb::embed_message;
use crate::lsb::embedded_bytes;
use crate::lsb::encode_accepts;
use crate::lsb::required_carrier_bytes;
use crate::text::capacity_message;
use crate::text::spec_capacity_message;

verus! {

/// The text of the capacity error a carrier of `carrier_len` bytes
/// raises for a message needing `required_len` bytes.
pub open spec fn image_capacity_message(carrier_len: nat, required_len: nat) -> Seq<char> {
    spec_capacity_message("Image has "@, carrier_len, required_len)
}

/// Embeds messages into carriers of one container format.
pub struct StegoEncoder {
    file_type: SupportedFileType,
}

impl StegoEncoder {
    /// The container format this encoder was made for.
    pub closed spec fn file_type_spec(&self) -> SupportedFileType {
        self.file_type
    }

    /// An encoder for carriers of the given container format.
    pub fn new(file_type: SupportedFileType) -> (encoder: Self)
        ensures
            encoder.file_type_spec() == file_type,
    {
        Self { file_type }
    }

    /// Returns the container format this encoder was made for.
    pub fn file_type(&self) -> (file_type: SupportedFileType)
        ensures
            file_type == self.file_type_spec(),
    {
        self.file_type
    }

    /// Embeds `message` into a copy of the carrier bytes. Every format's
    /// carrier takes the frame the same way — one frame bit per carrier
    /// byte — so only the adapters around this call differ.
    pub fn encode(&self, message: &str, carrier: &[u8]) -> (result: Result<Vec<u8>, EncodingError>)
        ensures
            result is Ok <==> encode_accepts(carrier@, encode_utf8(message@).len() as int),
            result is Ok ==> result->Ok_0@ == embedded_bytes(carrier@, encode_utf8(message@)),
            result is Err ==> (result->Err_0 matches EncodingError::MessageTooLarge(text)
                && text@ == image_capacity_message(
                carrier@.len(),
                required_carrier_bytes(encode_utf8(message@).len() as int) as nat,
            )),
    {
        match embed_message(message, carrier) {
            Some(encoded) => Ok(encoded),
            None => {
                let required: u128 = 8u128 * (4u128 + message.as_bytes().len() as u128);
                let text = capacity_message("Image has ", carrier.len() as u128, required);
                Err(EncodingError::MessageTooLarge(text))
            },
        }
    }
}

} // verus!
