//! The carrier abstraction: the capability contract a carrier byte buffer
//! satisfies, and the carriers that implement it — a PNG-backed one, a
//! WAV-PCM-backed one, and a plain in-memory one.
//!
//! A carrier is an ordered, fixed-length sequence of raw sample or
//! pixel-channel bytes. Opening and saving the container files themselves
//! is format-specific plumbing that lives outside this crate; here a
//! carrier only reads, replaces, and copies its byte payload.

use vstd::prelude::*;

use crate::errors::StegoCoverMediaError;

verus! {

/// Defines the interface for cover media that we intend to encode/decode.
/// Implementors must provide methods for reading bytes, writing back bytes
/// and creating a clone with new bytes.
pub trait CoverMedia: Sized {
    /// The carrier's current raw bytes.
    spec fn bytes_view(&self) -> Seq<u8>;

    /// When this carrier is bound to accept a wholesale replacement by
    /// `new_bytes`. The in-memory carriers of this crate accept every
    /// replacement; an adapter with a narrower byte store may refuse
    /// some.
    spec fn accepts_write(&self, new_bytes: Seq<u8>) -> bool;

    /// Returns the carrier's current raw bytes.
    fn read_bytes(&self) -> (bytes: &[u8])
        ensures
            bytes@ == self.bytes_view(),
    ;

    /// Replaces the carrier's raw bytes wholesale.
    fn write_bytes(&mut self, new_bytes: &[u8]) -> (result: Result<(), StegoCoverMediaError>)
        ensures
            result is Ok ==> final(self).bytes_view() == new_bytes@,
            result is Err ==> final(self).bytes_view() == old(self).bytes_view(),
            old(self).accepts_write(new_bytes@) ==> result is Ok,
    ;

    /// Returns a carrier identical to this one except that it carries
    /// `new_bytes`.
    fn clone_with_bytes(&self, new_bytes: &[u8]) -> (result: Result<Self, StegoCoverMediaError>)
        ensures
            result is Ok ==> result->Ok_0.bytes_view() == new_bytes@,
    ;
}

/// A carrier of PNG pixel-channel bytes, one byte per RGBA channel
/// sample, together with the image dimensions needed to rebuild the
/// container on save.
pub struct PngCoverMedia {
    data: Vec<u8>,
    height: u32,
    width: u32,
}

impl PngCoverMedia {
    /// An empty carrier for an image of the given dimensions.
    pub fn new(height: u32, width: u32) -> (media: Self)
        ensures
            media.bytes_view() == Seq::<u8>::empty(),
            media.height_spec() == height,
            media.width_spec() == width,
    {
        Self { data: Vec::new(), height, width }
    }

    /// The image height this carrier was built for.
    pub closed spec fn height_spec(&self) -> u32 {
        self.height
    }

    /// The image width this carrier was built for.
    pub closed spec fn width_spec(&self) -> u32 {
        self.width
    }

    /// Returns the image height.
    pub fn height(&self) -> (height: u32)
        ensures
            height == self.height_spec(),
    {
        self.height
    }

    /// Returns the image width.
    pub fn width(&self) -> (width: u32)
        ensures
            width == self.width_spec(),
    {
        self.width
    }
}

impl CoverMedia for PngCoverMedia {
    closed spec fn bytes_view(&self) -> Seq<u8> {
        self.data@
    }

    open spec fn accepts_write(&self, new_bytes: Seq<u8>) -> bool {
        true
    }

    fn read_bytes(&self) -> (bytes: &[u8]) {
        self.data.as_slice()
    }

    fn write_bytes(&mut self, new_bytes: &[u8]) -> (result: Result<(), StegoCoverMediaError>)
        ensures
            result is Ok,
    {
        self.data.clear();
        self.data.extend_from_slice(new_bytes);
        Ok(())
    }

    fn clone_with_bytes(&self, new_bytes: &[u8]) -> (result: Result<
        Self,
        StegoCoverMediaError,
    >)
        ensures
            result is Ok,
            result->Ok_0.height_spec() == self.height_spec(),
            result->Ok_0.width_spec() == self.width_spec(),
    {
        Ok(Self {
            data: vstd::slice::slice_to_vec(new_bytes),
            height: self.height,
            width: self.width,
        })
    }
}

/// How the samples of a WAV carrier are laid out, as plain values:
/// enough to rebuild an identical container around new sample bytes.
#[derive(Debug, Clone, Copy, PartialEq, Eq, Structural)]
pub struct WavAudioSpec {
    /// Number of interleaved audio channels.
    pub channels: u16,
    /// Samples per second, per channel.
    pub sample_rate: u32,
    /// Bits per sample; the carrier holds one byte per sample byte.
    pub bits_per_sample: u16,
    /// How a sample's bits are to be read.
    pub sample_format: WavSampleFormat,
}

/// The interpretation of a WAV sample's bits.
#[derive(Debug, Clone, Copy, PartialEq, Eq, Structural)]
pub enum WavSampleFormat {
    /// IEEE floating-point samples.
    Float,
    /// Signed integer samples.
    Int,
}

/// A carrier of WAV PCM sample bytes, one carrier byte per little-endian
/// byte of each sample, together with the sample layout needed to rebuild
/// the container on save.
pub struct WavPcmCoverMedia {
    data: Vec<u8>,
    wav_spec: WavAudioSpec,
}

impl WavPcmCoverMedia {
    /// An empty carrier for audio of the given sample layout.
    pub fn new(wav_spec: WavAudioSpec) -> (media: Self)
        ensures
            media.bytes_view() == Seq::<u8>::empty(),
            media.wav_spec_spec() == wav_spec,
    {
        Self { data: Vec::new(), wav_spec }
    }

    /// The sample layout this carrier was built for.
    pub closed spec fn wav_spec_spec(&self) -> WavAudioSpec {
        self.wav_spec
    }

    /// Returns the sample layout.
    pub fn wav_spec(&self) -> (wav_spec: WavAudioSpec)
        ensures
            wav_spec == self.wav_spec_spec(),
    {
        self.wav_spec
    }
}

impl CoverMedia for WavPcmCoverMedia {
    closed spec fn bytes_view(&self) -> Seq<u8> {
        self.data@
    }

    open spec fn accepts_write(&self, new_bytes: Seq<u8>) -> bool {
        true
    }

    fn read_bytes(&self) -> (bytes: &[u8]) {
        self.data.as_slice()
    }

    fn write_bytes(&mut self, new_bytes: &[u8]) -> (result: Result<(), StegoCoverMediaError>)
        ensures
            result is Ok,
    {
        self.data.clear();
        self.data.extend_from_slice(new_bytes);
        Ok(())
    }

    fn clone_with_bytes(&self, new_bytes: &[u8]) -> (result: Result<
        Self,
        StegoCoverMediaError,
    >)
        ensures
            result is Ok,
            result->Ok_0.wav_spec_spec() == self.wav_spec_spec(),
    {
        Ok(Self { data: vstd::slice::slice_to_vec(new_bytes), wav_spec: self.wav_spec })
    }
}

/// A carrier over a plain byte buffer, for callers that already hold raw
/// bytes and for tests.
pub struct InMemoryCoverMedia {
    data: Vec<u8>,
}

impl InMemoryCoverMedia {
    /// A carrier over the given bytes.
    pub fn new(data: Vec<u8>) -> (media: Self)
        ensures
            media.bytes_view() == data@,
    {
        Self { data }
    }
}

impl CoverMedia for InMemoryCoverMedia {
    closed spec fn bytes_view(&self) -> Seq<u8> {
        self.data@
    }

    open spec fn accepts_write(&self, new_bytes: Seq<u8>) -> bool {
        true
    }

    fn read_bytes(&self) -> (bytes: &[u8]) {
        self.data.as_slice()
    }

    fn write_bytes(&mut self, new_bytes: &[u8]) -> (result: Result<(), StegoCoverMediaError>)
        ensures
            result is Ok,
    {
        self.data.clear();
        self.data.extend_from_slice(new_bytes);
        Ok(())
    }

    fn clone_with_bytes(&self, new_bytes: &[u8]) -> (result: Result<
        Self,
        StegoCoverMediaError,
    >)
        ensures
            result is Ok,
    {
        Ok(Self { data: vstd::slice::slice_to_vec(new_bytes) })
    }
}

} // verus!
