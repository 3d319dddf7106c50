use lsb_stego::pcm::le_bytes_from_samples;
use lsb_stego::pcm::samples_from_le_bytes;

#[test]
fn samples_unpack_little_endian() {
    let bytes = le_bytes_from_samples(&[0x12345678, -1, 0]);
    assert_eq!(
        bytes,
        vec![0x78, 0x56, 0x34, 0x12, 0xFF, 0xFF, 0xFF, 0xFF, 0, 0, 0, 0]
    );
}

#[test]
fn bytes_pack_little_endian() {
    let samples = samples_from_le_bytes(&[0x78, 0x56, 0x34, 0x12, 0xFF, 0xFF, 0xFF, 0xFF]);
    assert_eq!(samples, vec![0x12345678, -1]);
}

#[test]
fn sample_byte_round_trip() {
    let samples = vec![i32::MIN, -2, -1, 0, 1, 2, i32::MAX, 0x0ABCDEF0];
    assert_eq!(samples_from_le_bytes(&le_bytes_from_samples(&samples)), samples);
}

#[test]
fn trailing_bytes_are_ignored() {
    let samples = samples_from_le_bytes(&[1, 0, 0, 0, 9, 9]);
    assert_eq!(samples, vec![1]);
}
