//! Big-endian primitive codec: the byte-level reads and writes every other
//! module builds its formats from.

use vstd::prelude::*;

verus! {

/// The integer held by two big-endian bytes at `pos`.
pub open spec fn be16(b: Seq<u8>, pos: int) -> int {
    b[pos] * 256 + b[pos + 1]
}

/// The integer held by four big-endian bytes at `pos`.
pub open spec fn be32(b: Seq<u8>, pos: int) -> int {
    ((b[pos] * 256 + b[pos + 1]) * 256 + b[pos + 2]) * 256 + b[pos + 3]
}

/// The two big-endian bytes of `x`.
pub open spec fn u16_be_bytes(x: u16) -> Seq<u8> {
    seq![(x / 256) as u8, (x % 256) as u8]
}

/// The four big-endian bytes of `x`.
pub open spec fn u32_be_bytes(x: u32) -> Seq<u8> {
    seq![
        (x / 0x1000000) as u8,
        ((x / 0x10000) % 256) as u8,
        ((x / 256) % 256) as u8,
        (x % 256) as u8,
    ]
}

pub proof fn lemma_be16_bounds(b: Seq<u8>, pos: int)
    requires
        0 <= pos,
        pos + 2 <= b.len(),
    ensures
        0 <= be16(b, pos) < 0x10000,
{
}

pub proof fn lemma_be32_bounds(b: Seq<u8>, pos: int)
    requires
        0 <= pos,
        pos + 4 <= b.len(),
    ensures
        0 <= be32(b, pos) < 0x100000000,
{
}

/// Reading a value and writing it back reproduces the bytes read.
pub proof fn lemma_be16_reencode(b: Seq<u8>, pos: int)
    requires
        0 <= pos,
        pos + 2 <= b.len(),
    ensures
        u16_be_bytes(be16(b, pos) as u16) == b.subrange(pos, pos + 2),
{
    let x = (be16(b, pos) as u16);
    let b0 = b[pos];
    let b1 = b[pos + 1];
    assert(x == b0 * 256 + b1);
    assert(b0 < 256 && b1 < 256);
    assert(x / 256 == b0 && x % 256 == b1) by (nonlinear_arith)
        requires
            x == b0 * 256 + b1,
            b0 < 256,
            b1 < 256,
    ;
    assert(u16_be_bytes(x) =~= b.subrange(pos, pos + 2));
}

/// Reading a value and writing it back reproduces the bytes read.
pub proof fn lemma_be32_reencode(b: Seq<u8>, pos: int)
    requires
        0 <= pos,
        pos + 4 <= b.len(),
    ensures
        u32_be_bytes(be32(b, pos) as u32) == b.subrange(pos, pos + 4),
{
    let x = (be32(b, pos) as u32);
    let b0 = b[pos];
    let b1 = b[pos + 1];
    let b2 = b[pos + 2];
    let b3 = b[pos + 3];
    assert(x == ((b0 * 256 + b1) * 256 + b2) * 256 + b3);
    assert(b0 < 256 && b1 < 256 && b2 < 256 && b3 < 256);
    assert(
        x / 0x1000000 == b0 && (x / 0x10000) % 256 == b1 && (x / 256) % 256 == b2 && x % 256 == b3
    ) by (nonlinear_arith)
        requires
            x == ((b0 * 256 + b1) * 256 + b2) * 256 + b3,
            b0 < 256,
            b1 < 256,
            b2 < 256,
            b3 < 256,
    ;
    assert(u32_be_bytes(x) =~= b.subrange(pos, pos + 4));
}

/// The byte at `pos`.
pub fn read_u8(b: &Vec<u8>, pos: usize) -> (r: u8)
    requires
        pos < b@.len(),
    ensures
        r == b@[pos as int],
{
    b[pos]
}

/// Two big-endian bytes at `pos` as one integer.
pub fn read_u16_be(b: &Vec<u8>, pos: usize) -> (r: u16)
    requires
        pos + 2 <= b@.len(),
    ensures
        r == be16(b@, pos as int),
{
    let n = b.len();
    let hi = b[pos] as u16;
    let lo = b[pos + 1] as u16;
    hi * 256 + lo
}

/// Four big-endian bytes at `pos` as one integer.
pub fn read_u32_be(b: &Vec<u8>, pos: usize) -> (r: u32)
    requires
        pos + 4 <= b@.len(),
    ensures
        r == be32(b@, pos as int),
{
    let n = b.len();
    let b0 = b[pos] as u32;
    let b1 = b[pos + 1] as u32;
    let b2 = b[pos + 2] as u32;
    let b3 = b[pos + 3] as u32;
    ((b0 * 256 + b1) * 256 + b2) * 256 + b3
}

/// Appends one byte.
pub fn push_u8(out: &mut Vec<u8>, x: u8)
    ensures
        final(out)@ == old(out)@ + seq![x],
{
    out.push(x);
    assert(out@ =~= old(out)@ + seq![x]);
}

/// Appends the two big-endian bytes of `x`.
pub fn push_u16_be(out: &mut Vec<u8>, x: u16)
    ensures
        final(out)@ == old(out)@ + u16_be_bytes(x),
{
    out.push((x / 256) as u8);
    out.push((x % 256) as u8);
    assert(out@ =~= old(out)@ + u16_be_bytes(x));
}

/// Appends the four big-endian bytes of `x`.
pub fn push_u32_be(out: &mut Vec<u8>, x: u32)
    ensures
        final(out)@ == old(out)@ + u32_be_bytes(x),
{
    out.push((x / 0x1000000) as u8);
    out.push(((x / 0x10000) % 256) as u8);
    out.push(((x / 256) % 256) as u8);
    out.push((x % 256) as u8);
    assert(out@ =~= old(out)@ + u32_be_bytes(x));
}

/// Appends `count` bytes of `src` starting at `pos`.
pub fn push_slice(out: &mut Vec<u8>, src: &Vec<u8>, pos: usize, count: usize)
    requires
        pos + count <= src@.len(),
    ensures
        final(out)@ == old(out)@ + src@.subrange(pos as int, pos + count),
{
    let mut i: usize = 0;
    while i < count
        invariant
            pos + count <= src@.len(),
            i <= count,
            out@ == old(out)@ + src@.subrange(pos as int, pos + i),
        decreases count - i,
    {
        let _n = src.len();
        let b = src[pos + i];
        out.push(b);
        assert(out@ =~= old(out)@ + src@.subrange(pos as int, pos + i + 1));
        i = i + 1;
    }
}

/// Copies the bytes of `src` in `[pos, pos + count)` into a fresh vector.
pub fn read_slice(src: &Vec<u8>, pos: usize, count: usize) -> (r: Vec<u8>)
    requires
        pos + count <= src@.len(),
    ensures
        r@ == src@.subrange(pos as int, pos + count),
{
    let mut out: Vec<u8> = Vec::new();
    push_slice(&mut out, src, pos, count);
    assert(out@ =~= src@.subrange(pos as int, pos + count));
    out
}

/// Joining two adjacent subranges gives the enclosing subrange.
pub proof fn lemma_subrange_cat(b: Seq<u8>, a: int, m: int, c: int, x: Seq<u8>, y: Seq<u8>)
    requires
        0 <= a <= m <= c <= b.len(),
        x == b.subrange(a, m),
        y == b.subrange(m, c),
    ensures
        x + y == b.subrange(a, c),
{
    assert(x + y =~= b.subrange(a, c));
}

} // verus!
