//! PCM sample packing: a WAV carrier holds one byte per little-endian
//! byte of each 32-bit sample, so samples and carrier bytes convert both
//! ways without loss.

use vstd::prelude::*;

verus! {

/// The 4 bytes of a 32-bit sample, little-endian.
pub open spec fn le_bytes_of_i32(sample: i32) -> Seq<u8> {
    seq![
        (sample as u32) as u8,
        ((sample as u32) >> 8) as u8,
        ((sample as u32) >> 16) as u8,
        ((sample as u32) >> 24) as u8,
    ]
}

/// The 32-bit sample read from 4 little-endian bytes.
pub open spec fn i32_of_le_bytes(bytes: Seq<u8>) -> i32
    recommends
        bytes.len() == 4,
{
    ((((bytes[3] as u32) << 24) | ((bytes[2] as u32) << 16) | ((bytes[1] as u32) << 8) | (
    bytes[0] as u32)) as i32)
}

/// The byte run of a sample sequence: 4 little-endian bytes per sample,
/// in sample order.
pub open spec fn le_bytes_of_samples(samples: Seq<i32>) -> Seq<u8> {
    Seq::new(samples.len() * 4, |i: int| le_bytes_of_i32(samples[i / 4])[i % 4])
}

/// The sample sequence of a byte run: one sample per whole group of 4
/// bytes, trailing bytes ignored.
pub open spec fn samples_of_le_bytes(bytes: Seq<u8>) -> Seq<i32> {
    Seq::new(bytes.len() / 4, |j: int| i32_of_le_bytes(bytes.subrange(4 * j, 4 * j + 4)))
}

/// Unpacks samples into their little-endian carrier bytes.
pub fn le_bytes_from_samples(samples: &[i32]) -> (bytes: Vec<u8>)
    ensures
        bytes@ == le_bytes_of_samples(samples@),
{
    let mut bytes: Vec<u8> = Vec::new();
    let count = samples.len();
    let mut j: usize = 0;
    while j < count
        invariant
            count == samples@.len(),
            0 <= j <= count,
            bytes@.len() == 4 * j,
            forall|t: int| 0 <= t < bytes@.len() ==> bytes@[t] == le_bytes_of_samples(samples@)[t],
        decreases count - j,
    {
        let sample = samples[j] as u32;
        bytes.push(sample as u8);
        bytes.push((sample >> 8) as u8);
        bytes.push((sample >> 16) as u8);
        bytes.push((sample >> 24) as u8);
        proof {
            assert forall|k: int| 0 <= k < 4 implies #[trigger] bytes@[4 * (j as int) + k]
                == le_bytes_of_samples(samples@)[4 * (j as int) + k] by {
                assert((4 * (j as int) + k) / 4 == j as int && (4 * (j as int) + k) % 4 == k)
                    by (nonlinear_arith)
                    requires
                        0 <= k < 4,
                        0 <= j,
                ;
            };
        }
        j = j + 1;
    }
    assert(bytes@ =~= le_bytes_of_samples(samples@));
    bytes
}

/// Packs carrier bytes back into samples, 4 little-endian bytes each;
/// trailing bytes that do not fill a sample are ignored.
pub fn samples_from_le_bytes(bytes: &[u8]) -> (samples: Vec<i32>)
    ensures
        samples@ == samples_of_le_bytes(bytes@),
{
    let mut samples: Vec<i32> = Vec::new();
    let n = bytes.len();
    let count = n / 4;
    let mut j: usize = 0;
    while j < count
        invariant
            n == bytes@.len(),
            count == n / 4,
            4 * count <= n,
            0 <= j <= count,
            samples@.len() == j,
            forall|t: int| 0 <= t < j ==> samples@[t] == samples_of_le_bytes(bytes@)[t],
        decreases count - j,
    {
        proof {
            assert(4 * (j as int) + 4 <= 4 * (count as int)) by (nonlinear_arith)
                requires
                    j < count,
            ;
        }
        let base = 4 * j;
        let sample = #[verifier::truncate] ((((bytes[base + 3] as u32) << 24) | ((bytes[base
            + 2] as u32) << 16) | ((bytes[base + 1] as u32) << 8) | (bytes[base] as u32)) as i32);
        samples.push(sample);
        proof {
            assert(bytes@.subrange(4 * (j as int), 4 * (j as int) + 4) =~= seq![
                bytes@[4 * (j as int)],
                bytes@[4 * (j as int) + 1],
                bytes@[4 * (j as int) + 2],
                bytes@[4 * (j as int) + 3],
            ]);
        }
        j = j + 1;
    }
    assert(samples@ =~= samples_of_le_bytes(bytes@));
    samples
}

/// A sample survives the trip through its little-endian bytes.
proof fn lemma_i32_le_round_trip(sample: i32)
    ensures
        i32_of_le_bytes(le_bytes_of_i32(sample)) == sample,
{
    let u = sample as u32;
    assert(((((u >> 24) as u8) as u32) << 24) | ((((u >> 16) as u8) as u32) << 16) | ((((u
        >> 8) as u8) as u32) << 8) | ((u as u8) as u32) == u) by (bit_vector);
    assert((sample as u32) as i32 == sample) by (bit_vector);
}

/// Law: packing the bytes a sample run was unpacked to returns the same
/// samples, so a WAV carrier round-trips through its byte form.
pub proof fn lemma_samples_round_trip(samples: Seq<i32>)
    ensures
        samples_of_le_bytes(le_bytes_of_samples(samples)) == samples,
{
    let bytes = le_bytes_of_samples(samples);
    assert(bytes.len() / 4 == samples.len());
    assert forall|j: int| 0 <= j < samples.len() implies samples_of_le_bytes(bytes)[j]
        == samples[j] by {
        assert forall|k: int| 0 <= k < 4 implies bytes[4 * j + k] == le_bytes_of_i32(
            samples[j],
        )[k] by {
            assert((4 * j + k) / 4 == j && (4 * j + k) % 4 == k) by (nonlinear_arith)
                requires
                    0 <= k < 4,
                    0 <= j,
            ;
        };
        assert(bytes.subrange(4 * j, 4 * j + 4) =~= le_bytes_of_i32(samples[j]));
        lemma_i32_le_round_trip(samples[j]);
    };
    assert(samples_of_le_bytes(bytes) =~= samples);
}

} // verus!
