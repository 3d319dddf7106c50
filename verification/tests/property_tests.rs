use lsb_stego::byte_from_lsb_group;
use lsb_stego::bytes_to_bits;
use lsb_stego::cover_media::CoverMedia;
use lsb_stego::cover_media::InMemoryCoverMedia;
use lsb_stego::errors::StegoStrategyError;
use lsb_stego::get_byte_lsb;
use lsb_stego::lsb::LsbStrategy;
use lsb_stego::strategy::StegoStrategy;
use lsb_stego::update_byte_lsb;

// Round trip: what encode hides, decode recovers, for plain ASCII,
// multi-byte UTF-8 and the empty message.
#[test]
fn round_trip_ascii() {
    let mut media = InMemoryCoverMedia::new(vec![0x37; 400]);
    let strategy = LsbStrategy::new();
    strategy.encode("hello world", &mut media).unwrap();
    assert_eq!(strategy.decode(&media).unwrap(), "hello world");
}

#[test]
fn round_trip_multibyte() {
    let mut media = InMemoryCoverMedia::new(vec![0xFF; 512]);
    let strategy = LsbStrategy::new();
    let message = "naïve café 💩";
    strategy.encode(message, &mut media).unwrap();
    assert_eq!(strategy.decode(&media).unwrap(), message);
}

#[test]
fn round_trip_empty_message_in_exact_carrier() {
    // An empty message needs exactly 8 * 4 = 32 carrier bytes.
    let mut media = InMemoryCoverMedia::new(vec![0xAB; 32]);
    let strategy = LsbStrategy::new();
    strategy.encode("", &mut media).unwrap();
    assert_eq!(strategy.decode(&media).unwrap(), "");
}

// Capacity boundary: a carrier of exactly the required byte count is
// accepted; one byte fewer is refused, naming both counts.
#[test]
fn capacity_boundary_exact_carrier_accepted() {
    // "test" is 4 bytes, so the frame needs 8 * (4 + 4) = 64 bytes.
    let mut media = InMemoryCoverMedia::new(vec![0xAB; 64]);
    let strategy = LsbStrategy::new();
    strategy.encode("test", &mut media).unwrap();
    assert_eq!(strategy.decode(&media).unwrap(), "test");
}

#[test]
fn capacity_boundary_one_byte_short_refused() {
    let mut media = InMemoryCoverMedia::new(vec![0xAB; 63]);
    let strategy = LsbStrategy::new();
    assert_eq!(
        strategy.encode("test", &mut media).err(),
        Some(StegoStrategyError::MessageTooLarge(
            "Media has 63 bytes. Message requires 64 bytes.".to_string()
        ))
    );
}

// Non-payload bytes untouched: bytes past the payload region are
// byte-for-byte identical, and bytes inside it keep their upper 7 bits.
#[test]
fn encode_touches_only_payload_lsbs() {
    let mut media = InMemoryCoverMedia::new(vec![0xAB; 1024]);
    let strategy = LsbStrategy::new();
    strategy.encode("test", &mut media).unwrap();
    let bytes = media.read_bytes();
    assert_eq!(bytes.len(), 1024);
    for i in 0..64 {
        assert_eq!(bytes[i] & 0xFE, 0xAA);
    }
    for i in 64..1024 {
        assert_eq!(bytes[i], 0xAB);
    }
}

// Length-prefix fidelity: the first 32 carrier bytes of an encoded
// carrier regroup to the message's byte length, big-endian.
#[test]
fn length_prefix_recovers_exact_length() {
    let mut media = InMemoryCoverMedia::new(vec![0x00; 256]);
    let strategy = LsbStrategy::new();
    strategy.encode("hello", &mut media).unwrap();
    let prefix: Vec<u8> = media.read_bytes()[..32].to_vec();
    assert_eq!(byte_from_lsb_group(prefix, 32), Some(vec![0, 0, 0, 5]));
}

// Idempotent utility: reading the LSB after writing it returns the bit
// that was written, for every byte and bit value.
#[test]
fn get_lsb_of_set_lsb_is_bit() {
    for byte in 0..=255u8 {
        for bit in [0u8, 1, 2, 0x7F, 0x80, 0xFF] {
            assert_eq!(get_byte_lsb(update_byte_lsb(byte, bit)), bit & 1);
        }
    }
}

// Corruption detection: a flipped non-LSB bit anywhere in the payload
// region leaves the decode result unchanged.
#[test]
fn non_lsb_flip_does_not_change_decode() {
    let mut media = InMemoryCoverMedia::new(vec![0xAB; 1024]);
    let strategy = LsbStrategy::new();
    strategy.encode("test", &mut media).unwrap();

    let mut corrupted = media.read_bytes().to_vec();
    corrupted[10] ^= 0x80; // inside the prefix region
    corrupted[40] ^= 0x02; // inside the payload region
    let corrupted_media = InMemoryCoverMedia::new(corrupted);
    assert_eq!(strategy.decode(&corrupted_media).unwrap(), "test");
}

// Corruption detection: a flipped LSB inside the length-prefix region
// changes the recovered length, so the original message cannot come back.
#[test]
fn prefix_lsb_flip_changes_outcome() {
    let mut media = InMemoryCoverMedia::new(vec![0xAB; 1024]);
    let strategy = LsbStrategy::new();
    strategy.encode("test", &mut media).unwrap();

    for i in [0usize, 3, 17, 31] {
        let mut corrupted = media.read_bytes().to_vec();
        corrupted[i] ^= 0x01;
        let corrupted_media = InMemoryCoverMedia::new(corrupted);
        assert_ne!(strategy.decode(&corrupted_media), Ok("test".to_string()));
    }
}

// Decoding a carrier too short to hold the length prefix.
#[test]
fn decode_short_carrier_cannot_group_length() {
    let media = InMemoryCoverMedia::new(vec![0xAB; 31]);
    let strategy = LsbStrategy::new();
    assert_eq!(
        strategy.decode(&media).err(),
        Some(StegoStrategyError::CannotGroupMessageLength)
    );
}

// Decoding a carrier whose prefix announces more payload than it holds.
#[test]
fn decode_truncated_payload_cannot_convert_bytes() {
    // 32 even bytes would announce length 0; making the last LSB 1
    // announces length 1, which needs 40 carrier bytes.
    let mut bytes = vec![0x56u8; 32];
    bytes[31] = 0x57;
    let media = InMemoryCoverMedia::new(bytes);
    let strategy = LsbStrategy::new();
    assert_eq!(
        strategy.decode(&media).err(),
        Some(StegoStrategyError::CannotConvertMessageBytes)
    );
}

// Decoding a payload that is not UTF-8.
#[test]
fn decode_invalid_utf8_cannot_convert_bytes() {
    // Prefix announces length 1; the payload byte is 0xFF, which is not
    // valid UTF-8 on its own.
    let mut bytes = vec![0x56u8; 40];
    bytes[31] = 0x57;
    for i in 32..40 {
        bytes[i] = 0x57;
    }
    let media = InMemoryCoverMedia::new(bytes);
    let strategy = LsbStrategy::new();
    assert_eq!(
        strategy.decode(&media).err(),
        Some(StegoStrategyError::CannotConvertMessageBytes)
    );
}

// The bit utilities on their edge inputs.
#[test]
fn bytes_to_bits_empty() {
    let empty: &[u8] = &[];
    assert_eq!(bytes_to_bits(empty), Vec::<u8>::new());
}

#[test]
fn byte_from_lsb_group_rejects_non_multiple_of_8() {
    assert_eq!(byte_from_lsb_group(vec![1, 0, 1, 0, 1, 0, 1], 7), None);
}

#[test]
fn byte_from_lsb_group_rejects_short_input() {
    assert_eq!(byte_from_lsb_group(vec![1, 0, 1, 0, 1, 0, 1], 8), None);
}

#[test]
fn byte_from_lsb_group_ignores_extra_bytes() {
    // Nine input bytes, eight wanted bits: the ninth byte is ignored.
    let bytes = vec![0x01, 0x00, 0x01, 0x00, 0x01, 0x00, 0x01, 0x00, 0xFF];
    assert_eq!(byte_from_lsb_group(bytes, 8), Some(vec![0b10101010]));
}

// The wire layout itself: a carrier built by hand, bit by bit — 4-byte
// big-endian length prefix, then MSB-first payload bits, one per byte —
// decodes without ever calling encode.
#[test]
fn decode_hand_built_carrier() {
    // Frame for "A": length 1, then 0x41 = 0b01000001.
    let frame_bits: Vec<u8> = {
        let mut bits = vec![0u8; 31];
        bits.push(1); // length prefix 0x00000001, big-endian
        bits.extend([0, 1, 0, 0, 0, 0, 0, 1]); // 'A', MSB first
        bits
    };
    let carrier: Vec<u8> = frame_bits.iter().map(|bit| 0xAA | bit).collect();

    let strategy = LsbStrategy::new();
    let media = InMemoryCoverMedia::new(carrier);
    assert_eq!(strategy.decode(&media).unwrap(), "A");
}
