use lsb_stego::cover_media::InMemoryCoverMedia;
use lsb_stego::errors::StegoStrategyError;
use lsb_stego::lsb::LsbStrategy;
use lsb_stego::strategy::StegoStrategy;

fn mock_media() -> InMemoryCoverMedia {
    InMemoryCoverMedia::new(vec![0xAB; 1024]) // a KiB of predictable bytes
}

#[test]
fn test_encode_success() {
    let mut media = mock_media();
    let lsb_strategy = LsbStrategy::new();

    assert_eq!(lsb_strategy.encode("test", &mut media).is_ok(), true);
}

#[test]
fn test_encode_message_to_big_failure() {
    let mut media = mock_media();
    let lsb_strategy = LsbStrategy::new();

    let large_str: &str = &"💩".repeat(38); // 8 * 38 bytes should be over the 1kb test amount

    assert_eq!(
        lsb_strategy.encode(large_str, &mut media).err(),
        Some(StegoStrategyError::MessageTooLarge(
            "Media has 1024 bytes. Message requires 1248 bytes.".to_string()
        ))
    );
}

#[test]
fn test_decode_success() {
    let mut media = mock_media();
    let lsb_strategy = LsbStrategy::new();

    let message = "testing-testing-123";

    lsb_strategy.encode(message, &mut media).unwrap();

    assert_eq!(lsb_strategy.decode(&mut media).unwrap(), message);
}
