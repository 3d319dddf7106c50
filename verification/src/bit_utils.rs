//! Bit/byte conversion utilities: expanding bytes to their bit sequence
//! (MSB-first), reading and writing a byte's least-significant bit, and
//! regrouping the least-significant bits of a byte run back into bytes.

use vstd::prelude::*;

verus! {

/// Bit `i` of `byte`, counting from the most significant bit (`i == 0`)
/// down to the least significant (`i == 7`).
pub open spec fn bit_at(byte: u8, i: int) -> u8
    recommends
        0 <= i < 8,
{
    (byte >> (7 - i) as u8) & 1
}

/// The bit sequence of `bytes`: eight bits per byte, MSB first, in input
/// order.
pub open spec fn bits_of_bytes(bytes: Seq<u8>) -> Seq<u8> {
    Seq::new(bytes.len() * 8, |i: int| bit_at(bytes[i / 8], i % 8))
}

/// The least-significant bit of `byte`.
pub open spec fn lsb(byte: u8) -> u8 {
    byte & 1
}

/// `byte` with its least-significant bit replaced by `bit & 1`; the upper
/// seven bits are unchanged.
pub open spec fn with_lsb(byte: u8, bit: u8) -> u8 {
    (byte & 0xfe) | (bit & 1)
}

/// The byte whose MSB-first bit sequence is `bits` (each element 0 or 1).
pub open spec fn byte_of_bits(bits: Seq<u8>) -> u8
    recommends
        bits.len() == 8,
{
    (bits[0] as int * 128 + bits[1] as int * 64 + bits[2] as int * 32 + bits[3] as int * 16
        + bits[4] as int * 8 + bits[5] as int * 4 + bits[6] as int * 2 + bits[7] as int) as u8
}

/// The first `count` bytes carried by the least-significant bits of
/// `bytes`: bits are taken one per input byte and packed MSB-first,
/// eight input bytes per output byte.
pub open spec fn lsbs_to_bytes(bytes: Seq<u8>, count: int) -> Seq<u8>
    recommends
        0 <= count,
        bytes.len() >= 8 * count,
{
    Seq::new(count as nat, |j: int| byte_of_bits(Seq::new(8, |k: int| lsb(bytes[8 * j + k]))))
}

/// A least-significant bit is 0 or 1.
pub proof fn lemma_lsb_bound(byte: u8)
    ensures
        lsb(byte) <= 1,
{
    assert(byte & 1 <= 1) by (bit_vector);
}

/// A bit extracted by `bit_at` is 0 or 1.
pub proof fn lemma_bit_at_is_bit(byte: u8, i: int)
    requires
        0 <= i < 8,
    ensures
        bit_at(byte, i) == 0 || bit_at(byte, i) == 1,
{
    let sh = (7 - i) as u8;
    assert((byte >> sh) & 1 == 0 || (byte >> sh) & 1 == 1) by (bit_vector);
}

/// Reading the least-significant bit after writing it returns the bit
/// that was written (reduced to 0 or 1); writing never disturbs the
/// upper seven bits.
pub proof fn lemma_lsb_of_with_lsb(byte: u8, bit: u8)
    ensures
        lsb(with_lsb(byte, bit)) == bit & 1,
        with_lsb(byte, bit) & 0xfe == byte & 0xfe,
        bit <= 1 ==> lsb(with_lsb(byte, bit)) == bit,
{
    assert(((byte & 0xfe) | (bit & 1)) & 1 == bit & 1) by (bit_vector);
    assert((((byte & 0xfe) | (bit & 1)) & 0xfe) == byte & 0xfe) by (bit_vector);
    assert(bit <= 1 ==> bit & 1 == bit) by (bit_vector);
}

/// Packing the eight bits of a byte yields that byte back.
pub proof fn lemma_byte_of_bits_of_byte(byte: u8)
    ensures
        byte_of_bits(Seq::new(8, |k: int| bit_at(byte, k))) == byte,
{
    let bits = Seq::new(8, |k: int| bit_at(byte, k));
    assert(((byte >> 7u8) & 1) as int * 128 + ((byte >> 6u8) & 1) as int * 64 + ((byte >> 5u8) & 1)
        as int * 32 + ((byte >> 4u8) & 1) as int * 16 + ((byte >> 3u8) & 1) as int * 8 + ((byte
        >> 2u8) & 1) as int * 4 + ((byte >> 1u8) & 1) as int * 2 + ((byte >> 0u8) & 1) as int
        == byte as int) by (bit_vector);
}

/// Each bit of a packed byte is the bit it was packed from.
pub proof fn lemma_bit_at_byte_of_bits(bits: Seq<u8>, k: int)
    requires
        bits.len() == 8,
        forall|i: int| 0 <= i < 8 ==> bits[i] == 0 || bits[i] == 1,
        0 <= k < 8,
    ensures
        bit_at(byte_of_bits(bits), k) == bits[k],
{
    let b0 = bits[0];
    let b1 = bits[1];
    let b2 = bits[2];
    let b3 = bits[3];
    let b4 = bits[4];
    let b5 = bits[5];
    let b6 = bits[6];
    let b7 = bits[7];
    let packed = byte_of_bits(bits);
    assert(packed == (b0 as int * 128 + b1 as int * 64 + b2 as int * 32 + b3 as int * 16 + b4
        as int * 8 + b5 as int * 4 + b6 as int * 2 + b7 as int) as u8);
    let sh = (7 - k) as u8;
    assert(b0 <= 1 && b1 <= 1 && b2 <= 1 && b3 <= 1 && b4 <= 1 && b5 <= 1 && b6 <= 1 && b7 <= 1);
    let total: u8 = (b0 as int * 128 + b1 as int * 64 + b2 as int * 32 + b3 as int * 16 + b4
        as int * 8 + b5 as int * 4 + b6 as int * 2 + b7 as int) as u8;
    assert((b0 <= 1 && b1 <= 1 && b2 <= 1 && b3 <= 1 && b4 <= 1 && b5 <= 1 && b6 <= 1 && b7 <= 1
        && total == (b0 as int * 128 + b1 as int * 64 + b2 as int * 32 + b3 as int * 16 + b4
        as int * 8 + b5 as int * 4 + b6 as int * 2 + b7 as int) as u8) ==> ((sh == 7u8 ==> (total
        >> sh) & 1 == b0) && (sh == 6u8 ==> (total >> sh) & 1 == b1) && (sh == 5u8 ==> (total
        >> sh) & 1 == b2) && (sh == 4u8 ==> (total >> sh) & 1 == b3) && (sh == 3u8 ==> (total
        >> sh) & 1 == b4) && (sh == 2u8 ==> (total >> sh) & 1 == b5) && (sh == 1u8 ==> (total
        >> sh) & 1 == b6) && (sh == 0u8 ==> (total >> sh) & 1 == b7))) by (bit_vector);
}

/// Expands `bytes` to its bit sequence: eight bits per input byte, most
/// significant bit first, in input order.
pub fn bytes_to_bits(bytes: &[u8]) -> (bits: Vec<u8>)
    ensures
        bits@ == bits_of_bytes(bytes@),
{
    let mut bits: Vec<u8> = Vec::new();
    let n = bytes.len();
    for i in 0..n
        invariant
            n == bytes@.len(),
            bits@.len() == 8 * i,
            forall|j: int| 0 <= j < bits@.len() ==> bits@[j] == bits_of_bytes(bytes@)[j],
    {
        let byte = bytes[i];
        let mut k: usize = 0;
        while k < 8
            invariant
                n == bytes@.len(),
                i < n,
                byte == bytes@[i as int],
                0 <= k <= 8,
                bits@.len() == 8 * i + k,
                forall|j: int| 0 <= j < bits@.len() ==> bits@[j] == bits_of_bytes(bytes@)[j],
            decreases 8 - k,
        {
            let bit = (byte >> (7 - k) as u8) & 1;
            bits.push(bit);
            assert(bits@[8 * i + k] == bit_at(bytes@[i as int], k as int));
            assert(8 * i + k < 8 * n);
            assert((8 * i + k) / 8 == i && (8 * i + k) % 8 == k) by (nonlinear_arith)
                requires
                    0 <= k < 8,
                    0 <= i,
            ;
            k = k + 1;
        }
    }
    assert(bits@ =~= bits_of_bytes(bytes@));
    bits
}

/// Returns `original_byte` with its least-significant bit replaced by
/// `message_bit & 1`.
pub fn update_byte_lsb(original_byte: u8, message_bit: u8) -> (updated: u8)
    ensures
        updated == with_lsb(original_byte, message_bit),
{
    (original_byte & 0b1111_1110) | (message_bit & 1)
}

/// Returns the least-significant bit of `byte`.
pub fn get_byte_lsb(byte: u8) -> (bit: u8)
    ensures
        bit == lsb(byte),
{
    byte & 1
}

/// Regroups the least-significant bits of `bytes` into whole bytes:
/// each run of eight input bytes donates its LSBs, packed MSB-first,
/// producing `bit_limit / 8` output bytes.
///
/// `bit_limit` is the number of payload *bits* wanted (one per input
/// byte). Returns `None` when `bit_limit` is not a multiple of 8 or the
/// input holds fewer than `bit_limit` bytes; input bytes past
/// `bit_limit` are ignored.
pub fn byte_from_lsb_group(bytes: Vec<u8>, bit_limit: usize) -> (grouped: Option<Vec<u8>>)
    ensures
        grouped is Some <==> (bit_limit % 8 == 0 && bytes@.len() >= bit_limit),
        grouped is Some ==> grouped->0@ == lsbs_to_bytes(bytes@, bit_limit as int / 8),
{
    if bit_limit % 8 != 0 {
        return None;
    }
    let n = bytes.len();
    if n < bit_limit {
        return None;
    }

    let expected_byte_amount = bit_limit / 8;
    let mut output: Vec<u8> = Vec::new();

    let mut j: usize = 0;
    while j < expected_byte_amount
        invariant
            n == bytes@.len(),
            8 * expected_byte_amount <= n,
            0 <= j <= expected_byte_amount,
            output@.len() == j,
            forall|t: int| 0 <= t < j ==> output@[t] == lsbs_to_bytes(
                bytes@,
                expected_byte_amount as int,
            )[t],
        decreases expected_byte_amount - j,
    {
        let ghost group = Seq::new(8, |k: int| lsb(bytes@[8 * (j as int) + k]));
        proof {
            assert(8 * (j as int) + 8 <= 8 * (expected_byte_amount as int)) by (nonlinear_arith)
                requires
                    j < expected_byte_amount,
            ;
        }
        let base = 8 * j;
        let b0 = get_byte_lsb(bytes[base]);
        let b1 = get_byte_lsb(bytes[base + 1]);
        let b2 = get_byte_lsb(bytes[base + 2]);
        let b3 = get_byte_lsb(bytes[base + 3]);
        let b4 = get_byte_lsb(bytes[base + 4]);
        let b5 = get_byte_lsb(bytes[base + 5]);
        let b6 = get_byte_lsb(bytes[base + 6]);
        let b7 = get_byte_lsb(bytes[base + 7]);
        let byte = (b0 << 7u8) | (b1 << 6u8) | (b2 << 5u8) | (b3 << 4u8) | (b4 << 3u8) | (b5
            << 2u8) | (b6 << 1u8) | b7;
        proof {
            lemma_lsb_bound(bytes@[8 * (j as int)]);
            lemma_lsb_bound(bytes@[8 * (j as int) + 1]);
            lemma_lsb_bound(bytes@[8 * (j as int) + 2]);
            lemma_lsb_bound(bytes@[8 * (j as int) + 3]);
            lemma_lsb_bound(bytes@[8 * (j as int) + 4]);
            lemma_lsb_bound(bytes@[8 * (j as int) + 5]);
            lemma_lsb_bound(bytes@[8 * (j as int) + 6]);
            lemma_lsb_bound(bytes@[8 * (j as int) + 7]);
            assert((b0 << 7u8) | (b1 << 6u8) | (b2 << 5u8) | (b3 << 4u8) | (b4 << 3u8) | (b5
                << 2u8) | (b6 << 1u8) | b7 == (b0 as int * 128 + b1 as int * 64 + b2 as int * 32
                + b3 as int * 16 + b4 as int * 8 + b5 as int * 4 + b6 as int * 2 + b7 as int) as u8)
                by (bit_vector)
                requires
                    b0 <= 1 && b1 <= 1 && b2 <= 1 && b3 <= 1 && b4 <= 1 && b5 <= 1 && b6 <= 1 && b7
                        <= 1,
            ;
            assert(byte == byte_of_bits(group));
        }
        output.push(byte);
        j = j + 1;
    }
    assert(output@ =~= lsbs_to_bytes(bytes@, expected_byte_amount as int));
    Some(output)
}

} // verus!
