//! The decoding entry point: recovers a message from carrier bytes that a
//! format adapter extracted from a container file. Opening the container
//! happens outside this crate; the decoder holds the chosen format so a
//! caller can pick the matching adapter.

use vstd::prelude::*;

use crate::enums::DecodingError;
use crate::enums::SupportedFileType;
use crate::errors::StegoStrategyError;
use crate::lsb::extract_message;
use crate::lsb::spec_decode;

verus! {

/// The decoding entry point's rendering of a strategy failure.
pub open spec fn decoding_error_of(error: StegoStrategyError) -> DecodingError {
    match error {
        StegoStrategyError::CannotGroupMessageLength => DecodingError::CannotGroupMessageLength,
        StegoStrategyError::CannotConvertMessageLength => DecodingError::CannotConvertMessageLength,
        _ => DecodingError::CannotConvertMessageBytes,
    }
}

/// Recovers messages from carriers of one container format.
pub struct StegoDecoder {
    file_type: SupportedFileType,
}

impl StegoDecoder {
    /// The container format this decoder was made for.
    pub closed spec fn file_type_spec(&self) -> SupportedFileType {
        self.file_type
    }

    /// A decoder for carriers of the given container format.
    pub fn new(file_type: SupportedFileType) -> (decoder: Self)
        ensures
            decoder.file_type_spec() == file_type,
    {
        Self { file_type }
    }

    /// Returns the container format this decoder was made for.
    pub fn file_type(&self) -> (file_type: SupportedFileType)
        ensures
            file_type == self.file_type_spec(),
    {
        self.file_type
    }

    /// Recovers the embedded message from the carrier bytes. Every
    /// format's carrier is read the same way, so only the adapter that
    /// produced the bytes differs.
    pub fn decode(&self, carrier: &[u8]) -> (result: Result<String, DecodingError>)
        ensures
            result is Ok <==> spec_decode(carrier@) is Ok,
            result is Ok ==> result->Ok_0@ == spec_decode(carrier@)->Ok_0,
            result is Err ==> result->Err_0 == decoding_error_of(spec_decode(carrier@)->Err_0),
    {
        match extract_message(carrier) {
            Ok(text) => Ok(text),
            Err(error) => Err(
                match error {
                    StegoStrategyError::CannotGroupMessageLength => DecodingError::CannotGroupMessageLength,
                    StegoStrategyError::CannotConvertMessageLength => DecodingError::CannotConvertMessageLength,
                    _ => DecodingError::CannotConvertMessageBytes,
                },
            ),
        }
    }
}

} // verus!
