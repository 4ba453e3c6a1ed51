//! Little-endian integers on the wire: what a run of bytes means as a number,
//! and the bytes that a number is written as.

use vstd::prelude::*;

verus! {

/// The 16-bit number whose two bytes, least significant first, stand in `bytes`
/// from `at` on.
pub open spec fn le_u16(bytes: Seq<u8>, at: int) -> u16
    recommends
        0 <= at,
        at + 2 <= bytes.len(),
{
    (bytes[at] + 256 * bytes[at + 1]) as u16
}

/// The 32-bit number whose four bytes, least significant first, stand in
/// `bytes` from `at` on.
pub open spec fn le_u32(bytes: Seq<u8>, at: int) -> u32
    recommends
        0 <= at,
        at + 4 <= bytes.len(),
{
    (bytes[at] + 256 * bytes[at + 1] + 65536 * bytes[at + 2] + 16777216 * bytes[at + 3]) as u32
}

/// The two bytes of a 16-bit number, least significant first.
pub open spec fn u16_le_bytes(v: u16) -> Seq<u8> {
    seq![(v % 256) as u8, (v / 256) as u8]
}

/// The four bytes of a 32-bit number, least significant first.
pub open spec fn u32_le_bytes(v: u32) -> Seq<u8> {
    seq![
        (v % 256) as u8,
        (v / 256 % 256) as u8,
        (v / 65536 % 256) as u8,
        (v / 16777216) as u8,
    ]
}

/// Where the two bytes of a 16-bit number stand, that number is read.
pub proof fn lemma_u16_read_written(bytes: Seq<u8>, at: int, v: u16)
    requires
        0 <= at,
        at + 2 <= bytes.len(),
        bytes.subrange(at, at + 2) == u16_le_bytes(v),
    ensures
        le_u16(bytes, at) == v,
{
    let w = bytes.subrange(at, at + 2);
    assert(bytes[at] == w[0]);
    assert(bytes[at + 1] == w[1]);
    assert(v % 256 + 256 * (v / 256) == v);
}

/// Where the four bytes of a 32-bit number stand, that number is read.
pub proof fn lemma_u32_read_written(bytes: Seq<u8>, at: int, v: u32)
    requires
        0 <= at,
        at + 4 <= bytes.len(),
        bytes.subrange(at, at + 4) == u32_le_bytes(v),
    ensures
        le_u32(bytes, at) == v,
{
    let w = bytes.subrange(at, at + 4);
    assert(bytes[at] == w[0]);
    assert(bytes[at + 1] == w[1]);
    assert(bytes[at + 2] == w[2]);
    assert(bytes[at + 3] == w[3]);
    let x = v as int;
    assert(x / 256 == x / 256 % 256 + 256 * (x / 65536)) by {
        assert(x / 65536 == x / 256 / 256);
    }
    assert(x / 65536 == x / 65536 % 256 + 256 * (x / 16777216)) by {
        assert(x / 16777216 == x / 65536 / 256);
    }
    assert(x == x % 256 + 256 * (x / 256));
}

/// Writing the 16-bit number that two bytes spell gives those two bytes.
pub proof fn lemma_u16_written_read(bytes: Seq<u8>, at: int)
    requires
        0 <= at,
        at + 2 <= bytes.len(),
    ensures
        u16_le_bytes(le_u16(bytes, at)) == bytes.subrange(at, at + 2),
{
    let b0 = bytes[at] as int;
    let b1 = bytes[at + 1] as int;
    let v = le_u16(bytes, at) as int;
    assert(v == b0 + 256 * b1);
    assert(v % 256 == b0 && v / 256 == b1);
    assert(u16_le_bytes(le_u16(bytes, at)) =~= bytes.subrange(at, at + 2));
}

/// Writing the 32-bit number that four bytes spell gives those four bytes.
pub proof fn lemma_u32_written_read(bytes: Seq<u8>, at: int)
    requires
        0 <= at,
        at + 4 <= bytes.len(),
    ensures
        u32_le_bytes(le_u32(bytes, at)) == bytes.subrange(at, at + 4),
{
    let b0 = bytes[at] as int;
    let b1 = bytes[at + 1] as int;
    let b2 = bytes[at + 2] as int;
    let b3 = bytes[at + 3] as int;
    let v = le_u32(bytes, at) as int;
    assert(v == b0 + 256 * b1 + 65536 * b2 + 16777216 * b3);
    assert(v % 256 == b0 && v / 256 == b1 + 256 * b2 + 65536 * b3);
    assert(v / 256 % 256 == b1);
    assert(v / 65536 == b2 + 256 * b3);
    assert(v / 65536 % 256 == b2);
    assert(v / 16777216 == b3);
    assert(u32_le_bytes(le_u32(bytes, at)) =~= bytes.subrange(at, at + 4));
}

/// Reads a little-endian 16-bit number at `at`.
pub fn read_u16(bytes: &[u8], at: usize) -> (v: u16)
    requires
        at + 2 <= bytes@.len(),
    ensures
        v == le_u16(bytes@, at as int),
{
    let lo: u16 = bytes[at] as u16;
    let hi: u16 = bytes[at + 1] as u16;
    lo + 256 * hi
}

/// Reads a little-endian 32-bit number at `at`.
pub fn read_u32(bytes: &[u8], at: usize) -> (v: u32)
    requires
        at + 4 <= bytes@.len(),
    ensures
        v == le_u32(bytes@, at as int),
{
    let b0: u32 = bytes[at] as u32;
    let b1: u32 = bytes[at + 1] as u32;
    let b2: u32 = bytes[at + 2] as u32;
    let b3: u32 = bytes[at + 3] as u32;
    b0 + 256 * b1 + 65536 * b2 + 16777216 * b3
}

/// Appends a 16-bit number, least significant byte first.
pub fn write_u16(out: &mut Vec<u8>, v: u16)
    ensures
        final(out)@ == old(out)@ + u16_le_bytes(v),
{
    out.push((v % 256) as u8);
    out.push((v / 256) as u8);
    assert(out@ =~= old(out)@ + u16_le_bytes(v));
}

/// Appends a 32-bit number, least significant byte first.
pub fn write_u32(out: &mut Vec<u8>, v: u32)
    ensures
        final(out)@ == old(out)@ + u32_le_bytes(v),
{
    out.push((v % 256) as u8);
    out.push((v / 256 % 256) as u8);
    out.push((v / 65536 % 256) as u8);
    out.push((v / 16777216) as u8);
    assert(out@ =~= old(out)@ + u32_le_bytes(v));
}

} // verus!
