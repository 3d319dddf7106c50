//! Least-significant-bit steganography: hide a UTF-8 message in the
//! redundant low-order bits of a carrier byte buffer and recover it
//! losslessly later.
//!
//! The carrier is a flat byte sequence (one byte per image colour channel
//! or per PCM sample byte); each carrier byte donates its least-significant
//! bit. A message is framed as a 4-byte big-endian length prefix followed
//! by its raw UTF-8 bytes, and the frame's bits are written MSB-first into
//! the least-significant bits of the leading carrier bytes.

pub mod bit_utils;
pub mod cover_media;
pub mod decoder;
pub mod encoder;
pub mod enums;
pub mod errors;
pub mod laws;
pub mod lsb;
pub mod pcm;
pub mod strategy;
pub mod text;

pub use bit_utils::bytes_to_bits;
pub use bit_utils::byte_from_lsb_group;
pub use bit_utils::get_byte_lsb;
pub use bit_utils::update_byte_lsb;
