use lsb_stego::cover_media::CoverMedia;
use lsb_stego::cover_media::InMemoryCoverMedia;
use lsb_stego::cover_media::PngCoverMedia;
use lsb_stego::cover_media::WavAudioSpec;
use lsb_stego::cover_media::WavPcmCoverMedia;
use lsb_stego::cover_media::WavSampleFormat;
use lsb_stego::text::capacity_message;
use lsb_stego::text::u128_to_decimal;

#[test]
fn png_media_round_trips_bytes_and_keeps_dimensions() {
    let mut media = PngCoverMedia::new(480, 640);
    assert_eq!(media.read_bytes(), &[] as &[u8]);
    media.write_bytes(&[1, 2, 3, 4]).unwrap();
    assert_eq!(media.read_bytes(), &[1, 2, 3, 4]);
    assert_eq!(media.height(), 480);
    assert_eq!(media.width(), 640);

    let copy = media.clone_with_bytes(&[9, 8, 7]).unwrap();
    assert_eq!(copy.read_bytes(), &[9, 8, 7]);
    assert_eq!(copy.height(), 480);
    assert_eq!(copy.width(), 640);
    // The receiver is unchanged.
    assert_eq!(media.read_bytes(), &[1, 2, 3, 4]);
}

#[test]
fn wav_media_round_trips_bytes_and_keeps_spec() {
    let spec = WavAudioSpec {
        channels: 2,
        sample_rate: 44100,
        bits_per_sample: 32,
        sample_format: WavSampleFormat::Int,
    };
    let mut media = WavPcmCoverMedia::new(spec);
    assert_eq!(media.read_bytes(), &[] as &[u8]);
    media.write_bytes(&[5, 6, 7, 8]).unwrap();
    assert_eq!(media.read_bytes(), &[5, 6, 7, 8]);
    assert_eq!(media.wav_spec(), spec);

    let copy = media.clone_with_bytes(&[1, 1]).unwrap();
    assert_eq!(copy.read_bytes(), &[1, 1]);
    assert_eq!(copy.wav_spec(), spec);
}

#[test]
fn in_memory_media_replaces_bytes_wholesale() {
    let mut media = InMemoryCoverMedia::new(vec![1, 2, 3]);
    assert_eq!(media.read_bytes(), &[1, 2, 3]);
    media.write_bytes(&[4, 5]).unwrap();
    assert_eq!(media.read_bytes(), &[4, 5]);
}

#[test]
fn decimal_rendering_is_exact() {
    assert_eq!(u128_to_decimal(0), "0");
    assert_eq!(u128_to_decimal(7), "7");
    assert_eq!(u128_to_decimal(1248), "1248");
    assert_eq!(u128_to_decimal(340282366920938463463374607431768211455), "340282366920938463463374607431768211455");
}

#[test]
fn capacity_message_is_exact() {
    assert_eq!(
        capacity_message("Media has ", 1024, 1248),
        "Media has 1024 bytes. Message requires 1248 bytes."
    );
}
