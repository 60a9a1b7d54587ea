//! Little-endian integers as byte sequences.
//!
//! The spec functions give the arithmetic meaning of the byte layout; the
//! executable conversions are done by the `byteorder` crate.

use byteorder::{ByteOrder, LittleEndian};
use vstd::prelude::*;

verus! {

/// The 16-bit number whose little-endian bytes are the first two of `b`.
pub open spec fn u16_from_le(b: Seq<u8>) -> u16
    recommends
        b.len() >= 2,
{
    (b[0] as int + 0x100 * (b[1] as int)) as u16
}

/// The 32-bit number whose little-endian bytes are the first four of `b`.
pub open spec fn u32_from_le(b: Seq<u8>) -> u32
    recommends
        b.len() >= 4,
{
    (b[0] as int + 0x100 * (b[1] as int) + 0x1_0000 * (b[2] as int) + 0x100_0000 * (
    b[3] as int)) as u32
}

/// The 64-bit number whose little-endian bytes are the first eight of `b`.
pub open spec fn u64_from_le(b: Seq<u8>) -> u64
    recommends
        b.len() >= 8,
{
    (u32_from_le(b) as int + 0x1_0000_0000 * (u32_from_le(b.skip(4)) as int)) as u64
}

/// The two little-endian bytes of `v`.
pub open spec fn u16_to_le(v: u16) -> Seq<u8> {
    seq![(v % 0x100) as u8, (v / 0x100) as u8]
}

/// The four little-endian bytes of `v`.
pub open spec fn u32_to_le(v: u32) -> Seq<u8> {
    seq![
        (v % 0x100) as u8,
        (v / 0x100 % 0x100) as u8,
        (v / 0x1_0000 % 0x100) as u8,
        (v / 0x100_0000) as u8,
    ]
}

/// The eight little-endian bytes of `v`.
pub open spec fn u64_to_le(v: u64) -> Seq<u8> {
    u32_to_le((v % 0x1_0000_0000) as u32) + u32_to_le((v / 0x1_0000_0000) as u32)
}

/// Encoding a 16-bit number and decoding the bytes gives the number back.
pub proof fn lemma_u16_le_value(v: u16)
    ensures
        u16_to_le(v).len() == 2,
        u16_from_le(u16_to_le(v)) == v,
{
}

/// Decoding two bytes and encoding the number gives the bytes back.
pub proof fn lemma_u16_le_bytes(b: Seq<u8>)
    requires
        b.len() == 2,
    ensures
        u16_to_le(u16_from_le(b)) == b,
{
    assert(u16_to_le(u16_from_le(b)) =~= b);
}

/// Encoding a 32-bit number and decoding the bytes gives the number back.
pub proof fn lemma_u32_le_value(v: u32)
    ensures
        u32_to_le(v).len() == 4,
        u32_from_le(u32_to_le(v)) == v,
{
}

/// Decoding four bytes and encoding the number gives the bytes back.
pub proof fn lemma_u32_le_bytes(b: Seq<u8>)
    requires
        b.len() == 4,
    ensures
        u32_to_le(u32_from_le(b)) == b,
{
    let (b0, b1, b2, b3) = (b[0] as int, b[1] as int, b[2] as int, b[3] as int);
    let hi = b1 + 0x100 * b2 + 0x1_0000 * b3;
    let v = b0 + 0x100 * hi;
    assert(u32_from_le(b) == v);
    assert(v % 0x100 == b0 && v / 0x100 == hi);
    assert(hi % 0x100 == b1 && hi / 0x100 == b2 + 0x100 * b3);
    assert(v / 0x1_0000 == hi / 0x100);
    assert(v / 0x100_0000 == b3);
    assert(u32_to_le(u32_from_le(b)) =~= b);
}

/// Encoding a 64-bit number and decoding the bytes gives the number back.
pub proof fn lemma_u64_le_value(v: u64)
    ensures
        u64_to_le(v).len() == 8,
        u64_from_le(u64_to_le(v)) == v,
{
    let lo = (v % 0x1_0000_0000) as u32;
    let hi = (v / 0x1_0000_0000) as u32;
    lemma_u32_le_value(lo);
    lemma_u32_le_value(hi);
    assert(u64_to_le(v).skip(4) =~= u32_to_le(hi));
    assert(u32_from_le(u64_to_le(v)) == u32_from_le(u32_to_le(lo)));
}

/// A 64-bit number made of a low and a high word splits back into them.
proof fn lemma_split_words(lo: u32, hi: u32)
    ensures
        (lo + 0x1_0000_0000 * hi) % 0x1_0000_0000 == lo,
        (lo + 0x1_0000_0000 * hi) / 0x1_0000_0000 == hi,
        lo + 0x1_0000_0000 * hi <= u64::MAX,
{
}

/// Decoding eight bytes and encoding the number gives the bytes back.
pub proof fn lemma_u64_le_bytes(b: Seq<u8>)
    requires
        b.len() == 8,
    ensures
        u64_to_le(u64_from_le(b)) == b,
{
    let lo = u32_from_le(b);
    let hi = u32_from_le(b.skip(4));
    assert(u32_from_le(b.take(4)) == lo) by {
        assert(b.take(4)[0] == b[0] && b.take(4)[1] == b[1]);
        assert(b.take(4)[2] == b[2] && b.take(4)[3] == b[3]);
    }
    assert(u32_to_le(lo) == b.take(4)) by {
        lemma_u32_le_bytes(b.take(4));
    }
    assert(u32_to_le(hi) == b.skip(4)) by {
        lemma_u32_le_bytes(b.skip(4));
    }
    assert(u64_to_le(u64_from_le(b)) == u32_to_le(lo) + u32_to_le(hi)) by {
        lemma_split_words(lo, hi);
    }
    assert(b.take(4) + b.skip(4) =~= b);
}

/// Appends the bytes of `src` to `out`.
pub(crate) fn append_bytes(out: &mut Vec<u8>, src: &[u8])
    ensures
        final(out)@ == old(out)@ + src@,
{
    let mut i: usize = 0;
    while i < src.len()
        invariant
            i <= src@.len(),
            out@ == old(out)@ + src@.take(i as int),
        decreases src@.len() - i,
    {
        out.push(src[i]);
        i += 1;
        assert(src@.take(i as int) =~= src@.take(i - 1).push(src@[i - 1]));
    }
    assert(src@.take(i as int) =~= src@);
}

/// `byteorder::LittleEndian::read_u16`: the number held in the first two
/// bytes of `buf`, least significant byte first. The crate panics on a
/// shorter buffer, which the precondition excludes.
#[verifier::external_body]
pub(crate) fn read_u16_le(buf: &[u8]) -> (v: u16)
    requires
        buf@.len() >= 2,
    ensures
        v == u16_from_le(buf@),
{
    LittleEndian::read_u16(buf)
}

/// `byteorder::LittleEndian::read_u32`: the number held in the first four
/// bytes of `buf`, least significant byte first. The crate panics on a
/// shorter buffer, which the precondition excludes.
#[verifier::external_body]
pub(crate) fn read_u32_le(buf: &[u8]) -> (v: u32)
    requires
        buf@.len() >= 4,
    ensures
        v == u32_from_le(buf@),
{
    LittleEndian::read_u32(buf)
}

/// `byteorder::LittleEndian::read_u64`: the number held in the first eight
/// bytes of `buf`, least significant byte first. The crate panics on a
/// shorter buffer, which the precondition excludes.
#[verifier::external_body]
pub(crate) fn read_u64_le(buf: &[u8]) -> (v: u64)
    requires
        buf@.len() >= 8,
    ensures
        v == u64_from_le(buf@),
{
    LittleEndian::read_u64(buf)
}

/// `byteorder::LittleEndian::write_u16` on a two-byte buffer: the bytes of
/// `v`, least significant first.
#[verifier::external_body]
pub(crate) fn u16_le_bytes(v: u16) -> (b: [u8; 2])
    ensures
        b@ == u16_to_le(v),
{
    let mut b = [0u8; 2];
    LittleEndian::write_u16(&mut b, v);
    b
}

/// `byteorder::LittleEndian::write_u32` on a four-byte buffer: the bytes of
/// `v`, least significant first.
#[verifier::external_body]
pub(crate) fn u32_le_bytes(v: u32) -> (b: [u8; 4])
    ensures
        b@ == u32_to_le(v),
{
    let mut b = [0u8; 4];
    LittleEndian::write_u32(&mut b, v);
    b
}

/// `byteorder::LittleEndian::write_u64` on an eight-byte buffer: the bytes
/// of `v`, least significant first.
#[verifier::external_body]
pub(crate) fn u64_le_bytes(v: u64) -> (b: [u8; 8])
    ensures
        b@ == u64_to_le(v),
{
    let mut b = [0u8; 8];
    LittleEndian::write_u64(&mut b, v);
    b
}

} // verus!
