//! The laws of the LSB strategy, stated over the same spec functions the
//! executable contracts use: encoding and decoding invert each other, the
//! capacity check is exact, encoding disturbs nothing but the payload
//! region's least-significant bits, and decoding reads nothing else.

use vstd::prelude::*;
use vstd::utf8::encode_utf8;
use vstd::utf8::encode_utf8_decode_utf8;
use vstd::utf8::encode_utf8_valid_utf8;

use crate::bit_utils::bit_at;
use crate::bit_utils::bits_of_bytes;
use crate::bit_utils::byte_of_bits;
use crate::bit_utils::lemma_bit_at_byte_of_bits;
use crate::bit_utils::lemma_bit_at_is_bit;
use crate::bit_utils::lemma_byte_of_bits_of_byte;
use crate::bit_utils::lemma_lsb_bound;
use crate::bit_utils::lemma_lsb_of_with_lsb;
use crate::bit_utils::lsb;
use crate::bit_utils::lsbs_to_bytes;
use crate::errors::StegoStrategyError;
use crate::lsb::embedded_bytes;
use crate::lsb::encode_accepts;
use crate::lsb::frame_bytes;
use crate::lsb::recovered_len;
use crate::lsb::recovered_payload;
use crate::lsb::required_carrier_bytes;
use crate::lsb::spec_decode;
use crate::lsb::u32_be_bytes;
use crate::lsb::u32_of_be_bytes;

verus! {

/// Reading 4 big-endian bytes back gives the integer they were made of.
proof fn lemma_u32_be_round_trip(n: u32)
    ensures
        u32_of_be_bytes(u32_be_bytes(n)) == n,
{
    assert(((((n >> 24) as u8) as u32) << 24) | ((((n >> 16) as u8) as u32) << 16) | ((((n
        >> 8) as u8) as u32) << 8) | ((n as u8) as u32) == n) by (bit_vector);
}

/// Two different 4-byte sequences read as different big-endian integers.
proof fn lemma_u32_of_be_bytes_injective(a: Seq<u8>, b: Seq<u8>)
    requires
        a.len() == 4,
        b.len() == 4,
        a != b,
    ensures
        u32_of_be_bytes(a) != u32_of_be_bytes(b),
{
    let a0 = a[0];
    let a1 = a[1];
    let a2 = a[2];
    let a3 = a[3];
    let b0 = b[0];
    let b1 = b[1];
    let b2 = b[2];
    let b3 = b[3];
    assert(a0 != b0 || a1 != b1 || a2 != b2 || a3 != b3) by {
        if a0 == b0 && a1 == b1 && a2 == b2 && a3 == b3 {
            assert(a =~= b);
        }
    };
    assert((((a0 as u32) << 24) | ((a1 as u32) << 16) | ((a2 as u32) << 8) | (a3 as u32) == ((
    b0 as u32) << 24) | ((b1 as u32) << 16) | ((b2 as u32) << 8) | (b3 as u32)) ==> (a0 == b0 && a1
        == b1 && a2 == b2 && a3 == b3)) by (bit_vector);
}

/// When the least-significant bits of `s` spell out the bits of the
/// frame bytes `off` to `off + cnt`, regrouping them returns exactly
/// those frame bytes.
proof fn lemma_extract_group(s: Seq<u8>, frame: Seq<u8>, off: int, cnt: int)
    requires
        0 <= off,
        0 <= cnt,
        off + cnt <= frame.len(),
        s.len() >= 8 * cnt,
        forall|i: int| 0 <= i < 8 * cnt ==> lsb(#[trigger] s[i]) == bits_of_bytes(frame)[8 * off
            + i],
    ensures
        lsbs_to_bytes(s, cnt) == frame.subrange(off, off + cnt),
{
    assert forall|j: int| 0 <= j < cnt implies lsbs_to_bytes(s, cnt)[j] == frame[off + j] by {
        let group = Seq::new(8, |k: int| lsb(s[8 * j + k]));
        assert forall|k: int| 0 <= k < 8 implies group[k] == bit_at(frame[off + j], k) by {
            assert(0 <= 8 * j + k < 8 * cnt) by (nonlinear_arith)
                requires
                    0 <= j < cnt,
                    0 <= k < 8,
            ;
            assert(lsb(s[8 * j + k]) == bits_of_bytes(frame)[8 * off + 8 * j + k]);
            assert((8 * off + 8 * j + k) / 8 == off + j && (8 * off + 8 * j + k) % 8 == k)
                by (nonlinear_arith)
                requires
                    0 <= k < 8,
                    0 <= off,
                    0 <= j,
            ;
            assert(bits_of_bytes(frame)[8 * off + 8 * j + k] == bit_at(frame[off + j], k));
        };
        assert(group =~= Seq::new(8, |k: int| bit_at(frame[off + j], k)));
        lemma_byte_of_bits_of_byte(frame[off + j]);
    };
    assert(lsbs_to_bytes(s, cnt) =~= frame.subrange(off, off + cnt));
}

/// In an embedded carrier, the least-significant bit of byte `i` of the
/// payload region is bit `i` of the frame.
proof fn lemma_embedded_lsb(carrier: Seq<u8>, message: Seq<u8>, i: int)
    requires
        encode_accepts(carrier, message.len() as int),
        0 <= i < required_carrier_bytes(message.len() as int),
    ensures
        lsb(embedded_bytes(carrier, message)[i]) == bits_of_bytes(frame_bytes(message))[i],
{
    let frame = frame_bytes(message);
    let bit = bits_of_bytes(frame)[i];
    assert(0 <= i / 8 < frame.len() && 0 <= i % 8 < 8);
    lemma_bit_at_is_bit(frame[i / 8], i % 8);
    lemma_lsb_of_with_lsb(carrier[i], bit);
}

/// Law: the carrier is only ever changed in the least-significant bits
/// of the payload region. Bytes at or past `required_carrier_bytes` are
/// left byte-for-byte identical, and every byte before it keeps its
/// upper seven bits.
pub proof fn lemma_encode_touches_only_payload_lsbs(carrier: Seq<u8>, message: Seq<u8>)
    requires
        encode_accepts(carrier, message.len() as int),
    ensures
        embedded_bytes(carrier, message).len() == carrier.len(),
        forall|i: int|
            required_carrier_bytes(message.len() as int) <= i < carrier.len()
                ==> #[trigger] embedded_bytes(carrier, message)[i] == carrier[i],
        forall|i: int|
            0 <= i < required_carrier_bytes(message.len() as int)
                ==> #[trigger] embedded_bytes(carrier, message)[i] & 0xfe == carrier[i] & 0xfe,
{
    let frame = frame_bytes(message);
    assert forall|i: int|
        0 <= i < required_carrier_bytes(message.len() as int) implies #[trigger] embedded_bytes(
        carrier,
        message,
    )[i] & 0xfe == carrier[i] & 0xfe by {
        lemma_lsb_of_with_lsb(carrier[i], bits_of_bytes(frame)[i]);
    };
}

/// Law: for any message length the 32-bit prefix can carry, decoding an
/// embedded carrier recovers exactly that byte length.
pub proof fn lemma_length_prefix_fidelity(carrier: Seq<u8>, message: Seq<u8>)
    requires
        encode_accepts(carrier, message.len() as int),
    ensures
        recovered_len(embedded_bytes(carrier, message)) == message.len(),
{
    let encoded = embedded_bytes(carrier, message);
    let frame = frame_bytes(message);
    let prefix = encoded.take(32);
    assert forall|i: int| 0 <= i < 32 implies lsb(#[trigger] prefix[i]) == bits_of_bytes(
        frame,
    )[8 * 0 + i] by {
        lemma_embedded_lsb(carrier, message, i);
    };
    lemma_extract_group(prefix, frame, 0, 4);
    assert(frame.subrange(0, 4) =~= u32_be_bytes(message.len() as u32));
    lemma_u32_be_round_trip(message.len() as u32);
}

/// Law: round trip. Any message whose frame a carrier can hold is
/// decoded back from the embedded carrier, exactly.
pub proof fn lemma_round_trip(carrier: Seq<u8>, message: Seq<char>)
    requires
        encode_accepts(carrier, encode_utf8(message).len() as int),
    ensures
        spec_decode(embedded_bytes(carrier, encode_utf8(message))) == Ok::<
            Seq<char>,
            StegoStrategyError,
        >(message),
{
    let m = encode_utf8(message);
    let encoded = embedded_bytes(carrier, m);
    let frame = frame_bytes(m);
    lemma_length_prefix_fidelity(carrier, m);
    let len = m.len() as int;
    let payload_region = encoded.subrange(32, 32 + 8 * len);
    assert forall|i: int| 0 <= i < 8 * len implies lsb(#[trigger] payload_region[i])
        == bits_of_bytes(frame)[8 * 4 + i] by {
        lemma_embedded_lsb(carrier, m, 32 + i);
    };
    lemma_extract_group(payload_region, frame, 4, len);
    assert(frame.subrange(4, 4 + len) =~= m);
    assert(recovered_payload(encoded) == m);
    encode_utf8_valid_utf8(message);
    encode_utf8_decode_utf8(message);
}

/// Law: the capacity check is exact. A carrier of exactly the required
/// byte count is accepted; one byte fewer is refused.
pub proof fn lemma_capacity_boundary(message_len: int, exact: Seq<u8>, short: Seq<u8>)
    requires
        0 <= message_len <= u32::MAX,
        exact.len() == required_carrier_bytes(message_len),
        short.len() == required_carrier_bytes(message_len) - 1,
    ensures
        encode_accepts(exact, message_len),
        !encode_accepts(short, message_len),
{
}

/// Two byte runs with equal least-significant bits regroup to the same
/// bytes.
proof fn lemma_lsbs_to_bytes_congruence(s1: Seq<u8>, s2: Seq<u8>, cnt: int)
    requires
        0 <= cnt,
        s1.len() >= 8 * cnt,
        s2.len() >= 8 * cnt,
        forall|i: int| 0 <= i < 8 * cnt ==> lsb(#[trigger] s1[i]) == lsb(#[trigger] s2[i]),
    ensures
        lsbs_to_bytes(s1, cnt) == lsbs_to_bytes(s2, cnt),
{
    assert forall|j: int| 0 <= j < cnt implies lsbs_to_bytes(s1, cnt)[j] == lsbs_to_bytes(
        s2,
        cnt,
    )[j] by {
        assert forall|k: int| 0 <= k < 8 implies lsb(#[trigger] s1[8 * j + k]) == lsb(
            s2[8 * j + k],
        ) by {
            assert(0 <= 8 * j + k < 8 * cnt) by (nonlinear_arith)
                requires
                    0 <= j < cnt,
                    0 <= k < 8,
            ;
        };
        assert(Seq::new(8, |k: int| lsb(s1[8 * j + k])) =~= Seq::new(
            8,
            |k: int| lsb(s2[8 * j + k]),
        ));
    };
    assert(lsbs_to_bytes(s1, cnt) =~= lsbs_to_bytes(s2, cnt));
}

/// Law: decoding reads nothing but least-significant bits, so changing
/// any other bit anywhere changes nothing about the decode outcome.
pub proof fn lemma_decode_depends_only_on_lsbs(c1: Seq<u8>, c2: Seq<u8>)
    requires
        c1.len() == c2.len(),
        forall|i: int| 0 <= i < c1.len() ==> lsb(#[trigger] c1[i]) == lsb(#[trigger] c2[i]),
    ensures
        spec_decode(c1) == spec_decode(c2),
{
    if c1.len() >= 32 {
        assert forall|i: int| 0 <= i < 32 implies lsb(#[trigger] c1.take(32)[i]) == lsb(
            #[trigger] c2.take(32)[i],
        ) by {}
        lemma_lsbs_to_bytes_congruence(c1.take(32), c2.take(32), 4);
        assert(recovered_len(c1) == recovered_len(c2));
        let len = recovered_len(c1) as int;
        if c1.len() >= 32 + 8 * len {
            let p1 = c1.subrange(32, 32 + 8 * len);
            let p2 = c2.subrange(32, 32 + 8 * len);
            assert forall|i: int| 0 <= i < 8 * len implies lsb(#[trigger] p1[i]) == lsb(
                #[trigger] p2[i],
            ) by {}
            lemma_lsbs_to_bytes_congruence(p1, p2, len);
            assert(recovered_payload(c1) == recovered_payload(c2));
        }
    }
}

/// Law: flipping the least-significant bit of any byte in the
/// length-prefix region changes the length that decoding recovers.
pub proof fn lemma_prefix_lsb_flip_changes_length(c1: Seq<u8>, c2: Seq<u8>, i: int)
    requires
        c1.len() == c2.len(),
        c1.len() >= 32,
        0 <= i < 32,
        forall|j: int| 0 <= j < c1.len() && j != i ==> c1[j] == c2[j],
        lsb(c1[i]) != lsb(c2[i]),
    ensures
        recovered_len(c1) != recovered_len(c2),
{
    let a = lsbs_to_bytes(c1.take(32), 4);
    let b = lsbs_to_bytes(c2.take(32), 4);
    let j0 = i / 8;
    let k0 = i % 8;
    assert(0 <= j0 < 4 && 0 <= k0 < 8 && 8 * j0 + k0 == i);
    let g1 = Seq::new(8, |k: int| lsb(c1.take(32)[8 * j0 + k]));
    let g2 = Seq::new(8, |k: int| lsb(c2.take(32)[8 * j0 + k]));
    assert forall|k: int| 0 <= k < 8 implies g1[k] <= 1 && g2[k] <= 1 by {
        lemma_lsb_bound(c1[8 * j0 + k]);
        lemma_lsb_bound(c2[8 * j0 + k]);
    };
    assert(g1[k0] != g2[k0]);
    lemma_bit_at_byte_of_bits(g1, k0);
    lemma_bit_at_byte_of_bits(g2, k0);
    assert(a[j0] == byte_of_bits(g1) && b[j0] == byte_of_bits(g2));
    assert(a[j0] != b[j0]);
    assert(a != b);
    lemma_u32_of_be_bytes_injective(a, b);
}

} // verus!
