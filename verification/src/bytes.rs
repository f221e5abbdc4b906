//! Byte-buffer helpers shared by the packet formats: copying ranges and reading and writing
//! big-endian fields.

use vstd::prelude::*;

verus! {

/// Big-endian value of two bytes.
pub open spec fn be16(hi: u8, lo: u8) -> u16 {
    (hi as int * 256 + lo as int) as u16
}

/// Appends the bytes of `s` to `buf`.
pub fn push_slice(buf: &mut Vec<u8>, s: &[u8])
    ensures
        final(buf)@ == old(buf)@ + s@,
{
    let mut i: usize = 0;
    while i < s.len()
        invariant
            i <= s@.len(),
            buf@ == old(buf)@ + s@.subrange(0, i as int),
        decreases s@.len() - i,
    {
        buf.push(s[i]);
        i = i + 1;
        assert(buf@ =~= old(buf)@ + s@.subrange(0, i as int));
    }
    assert(s@.subrange(0, s@.len() as int) =~= s@);
}

/// A new buffer holding the bytes of `s` from `lo` up to `hi`.
pub fn copy_range(s: &[u8], lo: usize, hi: usize) -> (out: Vec<u8>)
    requires
        lo <= hi <= s@.len(),
    ensures
        out@ == s@.subrange(lo as int, hi as int),
{
    let mut out: Vec<u8> = Vec::new();
    let mut i: usize = lo;
    while i < hi
        invariant
            lo <= i <= hi,
            hi <= s@.len(),
            out@ == s@.subrange(lo as int, i as int),
        decreases hi - i,
    {
        out.push(s[i]);
        i = i + 1;
        assert(out@ =~= s@.subrange(lo as int, i as int));
    }
    out
}

/// The big-endian 16-bit value at `offset`.
pub fn read_be16(s: &[u8], offset: usize) -> (value: u16)
    requires
        offset + 2 <= s@.len(),
    ensures
        value == be16(s@[offset as int], s@[offset + 1]),
{
    (s[offset] as u16) * 256 + (s[offset + 1] as u16)
}

/// Replaces the byte at `offset`.
pub fn set_byte(buf: &mut Vec<u8>, offset: usize, value: u8)
    requires
        offset < old(buf)@.len(),
    ensures
        final(buf)@ == old(buf)@.update(offset as int, value),
{
    buf.set(offset, value);
}

/// Big-endian value of four bytes.
pub open spec fn be32(a: u8, b: u8, c: u8, d: u8) -> u32 {
    (a as int * 0x100_0000 + b as int * 0x1_0000 + c as int * 0x100 + d as int) as u32
}

/// The big-endian 32-bit value at `offset`.
pub fn read_be32(s: &[u8], offset: usize) -> (value: u32)
    requires
        offset + 4 <= s@.len(),
    ensures
        value == be32(s@[offset as int], s@[offset + 1], s@[offset + 2], s@[offset + 3]),
{
    (s[offset] as u32) * 0x100_0000 + (s[offset + 1] as u32) * 0x1_0000 + (s[offset + 2] as u32)
        * 0x100 + (s[offset + 3] as u32)
}

/// The two big-endian bytes of `x`.
pub open spec fn be16_bytes(x: u16) -> Seq<u8> {
    seq![(x / 256) as u8, (x % 256) as u8]
}

/// The four big-endian bytes of `x`.
pub open spec fn be32_bytes(x: u32) -> Seq<u8> {
    seq![(x / 0x100_0000) as u8, ((x / 0x1_0000) % 0x100) as u8, ((x / 0x100) % 0x100) as u8, (x % 0x100) as u8]
}

/// Appends the two big-endian bytes of `x`.
pub fn push_be16(buf: &mut Vec<u8>, x: u16)
    ensures
        final(buf)@ == old(buf)@ + be16_bytes(x),
{
    buf.push((x / 256) as u8);
    buf.push((x % 256) as u8);
    assert(final(buf)@ =~= old(buf)@ + be16_bytes(x));
}

/// Appends the four big-endian bytes of `x`.
pub fn push_be32(buf: &mut Vec<u8>, x: u32)
    ensures
        final(buf)@ == old(buf)@ + be32_bytes(x),
{
    buf.push((x / 0x100_0000) as u8);
    buf.push(((x / 0x1_0000) % 0x100) as u8);
    buf.push(((x / 0x100) % 0x100) as u8);
    buf.push((x % 0x100) as u8);
    assert(final(buf)@ =~= old(buf)@ + be32_bytes(x));
}

/// Reading back written big-endian bytes gives the value.
pub proof fn lemma_be_round_trip(x: u16, y: u32)
    ensures
        be16(be16_bytes(x)[0], be16_bytes(x)[1]) == x,
        be32(be32_bytes(y)[0], be32_bytes(y)[1], be32_bytes(y)[2], be32_bytes(y)[3]) == y,
{
}

} // verus!
