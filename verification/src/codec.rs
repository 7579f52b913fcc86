//! Serialization of samples for the cross-context transport.
//!
//! The transport is a byte channel, so each synthesized sample crosses it as
//! its 32-bit two's-complement value in four little-endian bytes.  Encoding
//! and decoding are verified exact inverses.

use vstd::prelude::*;

verus! {

/// The two's-complement 32-bit image of a sample value.
pub open spec fn sample_bits(s: int) -> int {
    if s >= 0 {
        s
    } else {
        s + 0x1_0000_0000
    }
}

/// The unsigned value read back from four little-endian bytes.
pub open spec fn le32(b0: int, b1: int, b2: int, b3: int) -> int {
    b0 + 0x100 * b1 + 0x1_0000 * b2 + 0x100_0000 * b3
}

/// The little-endian bytes of a sample, as a sequence (low byte first).
pub open spec fn sample_bytes(s: int) -> Seq<u8> {
    let u = sample_bits(s);
    seq![
        (u % 0x100) as u8,
        ((u / 0x100) % 0x100) as u8,
        ((u / 0x1_0000) % 0x100) as u8,
        ((u / 0x100_0000) % 0x100) as u8,
    ]
}

/// `sample_bits` is injective over the 32-bit sample range, so the byte
/// image of a sample determines the sample.
pub proof fn lemma_sample_bits_injective(a: int, b: int)
    requires
        i32::MIN <= a <= i32::MAX,
        i32::MIN <= b <= i32::MAX,
        sample_bits(a) == sample_bits(b),
    ensures
        a == b,
{
}

/// Reassembling the four bytes of a 32-bit value yields the value back.
pub proof fn lemma_le32_of_bytes(u: int)
    requires
        0 <= u < 0x1_0000_0000,
    ensures
        le32(u % 0x100, (u / 0x100) % 0x100, (u / 0x1_0000) % 0x100, (u / 0x100_0000) % 0x100)
            == u,
{
    assert(u % 0x100 + 0x100 * ((u / 0x100) % 0x100) + 0x1_0000 * ((u / 0x1_0000) % 0x100)
        + 0x100_0000 * ((u / 0x100_0000) % 0x100) == u) by (nonlinear_arith)
        requires 0 <= u < 0x1_0000_0000;
}

/// Encodes a sample as its four little-endian bytes, low byte first.
pub fn encode_sample(s: i32) -> (r: (u8, u8, u8, u8))
    ensures
        le32(r.0 as int, r.1 as int, r.2 as int, r.3 as int) == sample_bits(s as int),
        seq![r.0, r.1, r.2, r.3] =~= sample_bytes(s as int),
{
    let u: u32 = if s >= 0 {
        s as u32
    } else {
        ((s as i64) + 0x1_0000_0000) as u32
    };
    assert(u as int == sample_bits(s as int));
    let b0: u8 = (u % 0x100) as u8;
    let b1: u8 = ((u / 0x100) % 0x100) as u8;
    let b2: u8 = ((u / 0x1_0000) % 0x100) as u8;
    let b3: u8 = ((u / 0x100_0000) % 0x100) as u8;
    proof {
        lemma_le32_of_bytes(u as int);
    }
    (b0, b1, b2, b3)
}

/// Decodes four little-endian bytes back into the sample they encode.
pub fn decode_sample(b0: u8, b1: u8, b2: u8, b3: u8) -> (s: i32)
    ensures
        sample_bits(s as int) == le32(b0 as int, b1 as int, b2 as int, b3 as int),
{
    let u: u32 = (b0 as u32) + 0x100 * (b1 as u32) + 0x1_0000 * (b2 as u32)
        + 0x100_0000 * (b3 as u32);
    if u <= 0x7fff_ffff {
        u as i32
    } else {
        ((u as i64) - 0x1_0000_0000) as i32
    }
}

/// Round trip: decoding the bytes of a sample yields the sample back.  This
/// is the byte-level half of the transport round-trip property; the channel
/// itself delivers the bytes unchanged and in order.
pub proof fn lemma_codec_round_trip(s: int, d: int)
    requires
        i32::MIN <= s <= i32::MAX,
        i32::MIN <= d <= i32::MAX,
        sample_bits(d) == le32(
            sample_bytes(s)[0] as int,
            sample_bytes(s)[1] as int,
            sample_bytes(s)[2] as int,
            sample_bytes(s)[3] as int,
        ),
    ensures
        d == s,
{
    let u = sample_bits(s);
    assert(0 <= u < 0x1_0000_0000);
    lemma_le32_of_bytes(u);
    lemma_sample_bits_injective(d, s);
}

} // verus!
