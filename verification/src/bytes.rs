//! Little-endian integers inside byte sequences.
//!
//! The wire value of an integer is stated arithmetically: byte `k` of the
//! encoding carries weight `256^k`.

use vstd::prelude::*;

verus! {

/// The unsigned 16-bit value stored little-endian at `at` in `s`.
pub open spec fn le_u16(s: Seq<u8>, at: int) -> int {
    s[at] as int + 0x100 * (s[at + 1] as int)
}

/// The unsigned 32-bit value stored little-endian at `at` in `s`.
pub open spec fn le_u32(s: Seq<u8>, at: int) -> int {
    le_u16(s, at) + 0x1_0000 * le_u16(s, at + 2)
}

/// The unsigned 64-bit value stored little-endian at `at` in `s`.
pub open spec fn le_u64(s: Seq<u8>, at: int) -> int {
    le_u32(s, at) + 0x1_0000_0000 * le_u32(s, at + 4)
}

/// The two bytes that store `x` little-endian.
pub open spec fn u16_le(x: u16) -> Seq<u8> {
    seq![(x % 0x100) as u8, (x / 0x100) as u8]
}

/// The four bytes that store `x` little-endian.
pub open spec fn u32_le(x: u32) -> Seq<u8> {
    u16_le((x % 0x1_0000) as u16) + u16_le((x / 0x1_0000) as u16)
}

/// Reads the little-endian `u16` at `at`.
pub fn read_u16(data: &[u8], at: usize) -> (v: u16)
    requires
        at + 2 <= data.len(),
    ensures
        v as int == le_u16(data@, at as int),
{
    let lo: u16 = data[at] as u16;
    let hi: u16 = data[at + 1] as u16;
    lo + hi * 0x100
}

/// Reads the little-endian `u32` at `at`.
pub fn read_u32(data: &[u8], at: usize) -> (v: u32)
    requires
        at + 4 <= data.len(),
    ensures
        v as int == le_u32(data@, at as int),
{
    let lo: u32 = read_u16(data, at) as u32;
    let hi: u32 = read_u16(data, at + 2) as u32;
    lo + hi * 0x1_0000
}

/// Reads the little-endian `u64` at `at`.
pub fn read_u64(data: &[u8], at: usize) -> (v: u64)
    requires
        at + 8 <= data.len(),
    ensures
        v as int == le_u64(data@, at as int),
{
    let lo: u64 = read_u32(data, at) as u64;
    let hi: u64 = read_u32(data, at + 4) as u64;
    lo + hi * 0x1_0000_0000
}

/// Appends the little-endian encoding of `x` to `out`.
pub fn push_u16(out: &mut Vec<u8>, x: u16)
    ensures
        final(out)@ == old(out)@ + u16_le(x),
{
    out.push((x % 0x100) as u8);
    out.push((x / 0x100) as u8);
    assert(out@ =~= old(out)@ + u16_le(x));
}

/// Appends the little-endian encoding of `x` to `out`.
pub fn push_u32(out: &mut Vec<u8>, x: u32)
    ensures
        final(out)@ == old(out)@ + u32_le(x),
{
    push_u16(out, (x % 0x1_0000) as u16);
    push_u16(out, (x / 0x1_0000) as u16);
    assert(out@ =~= old(out)@ + u32_le(x));
}

/// Decoding what was encoded gives the value back.
pub proof fn lemma_u16_decode_encode(x: u16)
    ensures
        le_u16(u16_le(x), 0) == x,
{
}

/// Decoding what was encoded gives the value back.
pub proof fn lemma_u32_decode_encode(x: u32)
    ensures
        le_u32(u32_le(x), 0) == x,
{
    let lo = (x % 0x1_0000) as u16;
    let hi = (x / 0x1_0000) as u16;
    let s = u32_le(x);
    assert(s[0] == u16_le(lo)[0] && s[1] == u16_le(lo)[1]);
    assert(s[2] == u16_le(hi)[0] && s[3] == u16_le(hi)[1]);
    lemma_u16_decode_encode(lo);
    lemma_u16_decode_encode(hi);
}

/// Encoding what was decoded gives the two source bytes back.
pub proof fn lemma_u16_encode_decode(s: Seq<u8>, at: int)
    requires
        0 <= at,
        at + 2 <= s.len(),
    ensures
        0 <= le_u16(s, at) <= u16::MAX,
        u16_le(le_u16(s, at) as u16) == s.subrange(at, at + 2),
{
    assert(u16_le(le_u16(s, at) as u16) =~= s.subrange(at, at + 2));
}

/// Encoding what was decoded gives the four source bytes back.
pub proof fn lemma_u32_encode_decode(s: Seq<u8>, at: int)
    requires
        0 <= at,
        at + 4 <= s.len(),
    ensures
        0 <= le_u32(s, at) <= u32::MAX,
        u32_le(le_u32(s, at) as u32) == s.subrange(at, at + 4),
{
    lemma_u16_encode_decode(s, at);
    lemma_u16_encode_decode(s, at + 2);
    let x = le_u32(s, at) as u32;
    assert((x % 0x1_0000) as u16 == le_u16(s, at) as u16);
    assert((x / 0x1_0000) as u16 == le_u16(s, at + 2) as u16);
    assert(u32_le(x) =~= s.subrange(at, at + 4));
}

} // verus!
