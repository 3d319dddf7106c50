//! The least-significant-bit strategy: the message is framed with a 4-byte
//! big-endian length prefix, the frame's bits are written MSB-first into
//! the least-significant bits of the leading carrier bytes, and decoding
//! reads them back by the inverse walk.

use vstd::prelude::*;
use vstd::utf8::decode_utf8;
use vstd::utf8::encode_utf8;
use vstd::utf8::valid_utf8;

use crate::bit_utils::bits_of_bytes;
use crate::bit_utils::byte_from_lsb_group;
use crate::bit_utils::bytes_to_bits;
use crate::bit_utils::lsbs_to_bytes;
use crate::bit_utils::update_byte_lsb;
use crate::bit_utils::with_lsb;
use crate::cover_media::CoverMedia;
use crate::errors::StegoStrategyError;
use crate::strategy::StegoStrategy;
use crate::text::capacity_message;
use crate::text::spec_capacity_message;
use crate::text::string_from_utf8;

verus! {

/// The 4 bytes of `n`, big-endian.
pub open spec fn u32_be_bytes(n: u32) -> Seq<u8> {
    seq![(n >> 24) as u8, (n >> 16) as u8, (n >> 8) as u8, n as u8]
}

/// The big-endian reading of 4 bytes.
pub open spec fn u32_of_be_bytes(bytes: Seq<u8>) -> u32
    recommends
        bytes.len() == 4,
{
    ((bytes[0] as u32) << 24) | ((bytes[1] as u32) << 16) | ((bytes[2] as u32) << 8) | (
    bytes[3] as u32)
}

/// The frame embedded for a message: its byte length as a 4-byte
/// big-endian prefix, then its raw bytes.
pub open spec fn frame_bytes(message: Seq<u8>) -> Seq<u8>
    recommends
        message.len() <= u32::MAX,
{
    u32_be_bytes(message.len() as u32) + message
}

/// How many carrier bytes a message of `message_len` bytes needs: one
/// carrier byte per frame bit.
pub open spec fn required_carrier_bytes(message_len: int) -> int {
    8 * (4 + message_len)
}

/// Whether a carrier can hold a message of `message_len` bytes: the
/// length must fit the 32-bit prefix and the carrier must have room for
/// every frame bit.
pub open spec fn encode_accepts(carrier: Seq<u8>, message_len: int) -> bool {
    message_len <= u32::MAX && required_carrier_bytes(message_len) <= carrier.len()
}

/// The carrier bytes after embedding `message`: the leading bytes take
/// the frame's bits into their least-significant bits, the rest are left
/// unchanged.
pub open spec fn embedded_bytes(carrier: Seq<u8>, message: Seq<u8>) -> Seq<u8>
    recommends
        encode_accepts(carrier, message.len() as int),
{
    Seq::new(
        carrier.len(),
        |i: int|
            if i < required_carrier_bytes(message.len() as int) {
                with_lsb(carrier[i], bits_of_bytes(frame_bytes(message))[i])
            } else {
                carrier[i]
            },
    )
}

/// The message byte length a carrier announces: the big-endian reading
/// of the 4 bytes carried by the first 32 least-significant bits.
pub open spec fn recovered_len(carrier: Seq<u8>) -> u32
    recommends
        carrier.len() >= 32,
{
    u32_of_be_bytes(lsbs_to_bytes(carrier.take(32), 4))
}

/// The payload bytes a carrier holds after the length-prefix region.
pub open spec fn recovered_payload(carrier: Seq<u8>) -> Seq<u8>
    recommends
        carrier.len() >= 32 + 8 * (recovered_len(carrier) as int),
{
    lsbs_to_bytes(
        carrier.subrange(32, 32 + 8 * (recovered_len(carrier) as int)),
        recovered_len(carrier) as int,
    )
}

/// What decoding a carrier yields: the decoded text, or the error that
/// names the first step that cannot proceed.
pub open spec fn spec_decode(carrier: Seq<u8>) -> Result<Seq<char>, StegoStrategyError> {
    if carrier.len() < 32 {
        Err(StegoStrategyError::CannotGroupMessageLength)
    } else if carrier.len() < 32 + 8 * (recovered_len(carrier) as int) {
        Err(StegoStrategyError::CannotConvertMessageBytes)
    } else if valid_utf8(recovered_payload(carrier)) {
        Ok(decode_utf8(recovered_payload(carrier)))
    } else {
        Err(StegoStrategyError::CannotConvertMessageBytes)
    }
}

/// The text of the capacity error a carrier of `carrier_len` bytes
/// raises for a message needing `required_len` bytes.
pub open spec fn media_capacity_message(carrier_len: nat, required_len: nat) -> Seq<char> {
    spec_capacity_message("Media has "@, carrier_len, required_len)
}

/// The bytes of `carrier` from `start` (inclusive) to `end` (exclusive).
fn sub_vec(carrier: &[u8], start: usize, end: usize) -> (out: Vec<u8>)
    requires
        start <= end <= carrier@.len(),
    ensures
        out@ == carrier@.subrange(start as int, end as int),
{
    let mut out: Vec<u8> = Vec::new();
    let mut i = start;
    while i < end
        invariant
            start <= i <= end <= carrier@.len(),
            out@.len() == i - start,
            forall|t: int| 0 <= t < out@.len() ==> out@[t] == carrier@[start + t],
        decreases end - i,
    {
        out.push(carrier[i]);
        i = i + 1;
    }
    assert(out@ =~= carrier@.subrange(start as int, end as int));
    out
}

/// The 4 bytes of `n`, big-endian.
fn u32_to_be_vec(n: u32) -> (bytes: Vec<u8>)
    ensures
        bytes@ == u32_be_bytes(n),
{
    let mut bytes: Vec<u8> = Vec::new();
    bytes.push((n >> 24) as u8);
    bytes.push((n >> 16) as u8);
    bytes.push((n >> 8) as u8);
    bytes.push(n as u8);
    proof {
        assert(bytes@ =~= u32_be_bytes(n));
    }
    bytes
}

/// The big-endian reading of 4 bytes.
fn u32_from_be_vec(bytes: &Vec<u8>) -> (n: u32)
    requires
        bytes@.len() == 4,
    ensures
        n == u32_of_be_bytes(bytes@),
{
    ((bytes[0] as u32) << 24) | ((bytes[1] as u32) << 16) | ((bytes[2] as u32) << 8) | (
    bytes[3] as u32)
}

/// Embeds `message` into a copy of `carrier`, or returns `None` when the
/// carrier cannot hold it.
pub fn embed_message(message: &str, carrier: &[u8]) -> (result: Option<Vec<u8>>)
    ensures
        result is Some <==> encode_accepts(carrier@, encode_utf8(message@).len() as int),
        result is Some ==> result->0@ == embedded_bytes(carrier@, encode_utf8(message@)),
{
    let message_bytes = message.as_bytes();
    let message_byte_length = message_bytes.len();
    let carrier_length = carrier.len();

    if (message_byte_length as u128) > (u32::MAX as u128) {
        return None;
    }
    let required: u128 = 8u128 * (4u128 + message_byte_length as u128);
    if (carrier_length as u128) < required {
        return None;
    }
    let required_usize: usize = 8 * (4 + message_byte_length);
    assert(required_usize == required_carrier_bytes(encode_utf8(message@).len() as int));

    let mut frame = u32_to_be_vec(message_byte_length as u32);
    frame.extend_from_slice(message_bytes);
    proof {
        assert(frame@ =~= frame_bytes(encode_utf8(message@)));
    }
    let frame_bits = bytes_to_bits(frame.as_slice());

    let mut output: Vec<u8> = Vec::new();
    let mut i: usize = 0;
    while i < carrier_length
        invariant
            carrier_length == carrier@.len(),
            required_usize == required_carrier_bytes(encode_utf8(message@).len() as int),
            required_usize <= carrier_length,
            frame_bits@ == bits_of_bytes(frame_bytes(encode_utf8(message@))),
            frame_bits@.len() == required_usize,
            encode_accepts(carrier@, encode_utf8(message@).len() as int),
            0 <= i <= carrier_length,
            output@.len() == i,
            forall|t: int| 0 <= t < i ==> output@[t] == embedded_bytes(
                carrier@,
                encode_utf8(message@),
            )[t],
        decreases carrier_length - i,
    {
        if i < required_usize {
            output.push(update_byte_lsb(carrier[i], frame_bits[i]));
        } else {
            output.push(carrier[i]);
        }
        i = i + 1;
    }
    assert(output@ =~= embedded_bytes(carrier@, encode_utf8(message@)));
    Some(output)
}

/// Recovers the embedded message from `carrier`, or the error that names
/// the first step that cannot proceed.
pub fn extract_message(carrier: &[u8]) -> (result: Result<String, StegoStrategyError>)
    ensures
        result is Ok <==> spec_decode(carrier@) is Ok,
        result is Ok ==> result->Ok_0@ == spec_decode(carrier@)->Ok_0,
        result is Err ==> result->Err_0 == spec_decode(carrier@)->Err_0,
{
    let carrier_length = carrier.len();
    if carrier_length < 32 {
        return Err(StegoStrategyError::CannotGroupMessageLength);
    }

    let prefix = sub_vec(carrier, 0, 32);
    proof {
        assert(prefix@ =~= carrier@.take(32));
    }
    let length_bytes = match byte_from_lsb_group(prefix, 32) {
        Some(bytes) => bytes,
        None => {
            return Err(StegoStrategyError::CannotGroupMessageLength);
        },
    };
    let message_length = u32_from_be_vec(&length_bytes);
    assert(message_length == recovered_len(carrier@));

    let needed: u64 = 32u64 + 8u64 * (message_length as u64);
    if (carrier_length as u64) < needed {
        return Err(StegoStrategyError::CannotConvertMessageBytes);
    }
    let end: usize = needed as usize;

    let payload_region = sub_vec(carrier, 32, end);
    let bit_limit: usize = end - 32;
    match byte_from_lsb_group(payload_region, bit_limit) {
        Some(payload) => {
            proof {
                assert(payload@ == recovered_payload(carrier@));
            }
            match string_from_utf8(payload) {
                Some(text) => Ok(text),
                None => Err(StegoStrategyError::CannotConvertMessageBytes),
            }
        },
        None => Err(StegoStrategyError::CannotConvertMessageBytes),
    }
}

/// The least-significant-bit strategy.
pub struct LsbStrategy;

impl LsbStrategy {
    /// A new strategy value.
    pub fn new() -> (strategy: Self) {
        Self
    }
}

impl StegoStrategy for LsbStrategy {
    /// Frames `message` and writes its bits into the least-significant
    /// bits of the leading carrier bytes, leaving the rest of the
    /// carrier unchanged; fails without touching the carrier when the
    /// message's byte length overflows the 32-bit prefix or the carrier
    /// is too small.
    fn encode<M: CoverMedia>(&self, message: &str, media: &mut M) -> (result: Result<
        (),
        StegoStrategyError,
    >)
        ensures
            ({
                let c = old(media).bytes_view();
                let m = encode_utf8(message@);
                if encode_accepts(c, m.len() as int) {
                    match result {
                        Ok(()) => final(media).bytes_view() == embedded_bytes(c, m),
                        Err(e) => (e matches StegoStrategyError::GeneralMediaError(_))
                            && final(media).bytes_view() == c && !old(media).accepts_write(
                            embedded_bytes(c, m),
                        ),
                    }
                } else {
                    &&& (result matches Err(StegoStrategyError::MessageTooLarge(text))
                        && text@ == media_capacity_message(
                        c.len(),
                        required_carrier_bytes(m.len() as int) as nat,
                    ))
                    &&& final(media).bytes_view() == c
                }
            }),
    {
        let carrier = media.read_bytes();
        match embed_message(message, carrier) {
            Some(encoded) => {
                match media.write_bytes(encoded.as_slice()) {
                    Ok(()) => Ok(()),
                    Err(e) => Err(StegoStrategyError::GeneralMediaError(e)),
                }
            },
            None => {
                let carrier_length = carrier.len();
                let message_byte_length = message.as_bytes().len();
                let required: u128 = 8u128 * (4u128 + message_byte_length as u128);
                let text = capacity_message("Media has ", carrier_length as u128, required);
                Err(StegoStrategyError::MessageTooLarge(text))
            },
        }
    }

    /// Reads the announced length from the first 32 carrier bytes, then
    /// the payload bits that follow, and decodes them as UTF-8.
    fn decode<M: CoverMedia>(&self, media: &M) -> (result: Result<String, StegoStrategyError>)
        ensures
            result is Ok <==> spec_decode(media.bytes_view()) is Ok,
            result is Ok ==> result->Ok_0@ == spec_decode(media.bytes_view())->Ok_0,
            result is Err ==> result->Err_0 == spec_decode(media.bytes_view())->Err_0,
    {
        let carrier = media.read_bytes();
        extract_message(carrier)
    }
}

} // verus!
