//! Big-endian integer layout shared by every frame of the protocol.

use vstd::prelude::*;

verus! {

/// The two bytes of `v`, most significant first.
pub open spec fn be16(v: u16) -> Seq<u8> {
    seq![((v >> 8u16) & 0xff) as u8, (v & 0xff) as u8]
}

/// The three low bytes of `v`, most significant first.
pub open spec fn be24(v: u32) -> Seq<u8> {
    seq![((v >> 16u32) & 0xff) as u8, ((v >> 8u32) & 0xff) as u8, (v & 0xff) as u8]
}

/// The four bytes of `v`, most significant first.
pub open spec fn be32(v: u32) -> Seq<u8> {
    seq![
        ((v >> 24u32) & 0xff) as u8,
        ((v >> 16u32) & 0xff) as u8,
        ((v >> 8u32) & 0xff) as u8,
        (v & 0xff) as u8,
    ]
}

/// The integer that two bytes spell, most significant first.
pub open spec fn be16_value(b: Seq<u8>) -> u16 {
    ((b[0] as u16) << 8u16) | (b[1] as u16)
}

/// The integer that four bytes spell, most significant first.
pub open spec fn be32_value(b: Seq<u8>) -> u32 {
    ((b[0] as u32) << 24u32) | ((b[1] as u32) << 16u32) | ((b[2] as u32) << 8u32) | (b[3] as u32)
}

pub proof fn lemma_be16_round_trip(v: u16)
    ensures
        be16(v).len() == 2,
        be16_value(be16(v)) == v,
{
    let b = be16(v);
    let x0 = (v >> 8u16) & 0xff;
    let x1 = v & 0xff;
    assert(x0 < 256 && x1 < 256) by (bit_vector)
        requires
            x0 == (v >> 8u16) & 0xff,
            x1 == v & 0xff,
    ;
    assert(b[0] as u16 == x0);
    assert(b[1] as u16 == x1);
    assert((x0 << 8u16) | x1 == v) by (bit_vector)
        requires
            x0 == (v >> 8u16) & 0xff,
            x1 == v & 0xff,
    ;
}

pub proof fn lemma_be32_round_trip(v: u32)
    ensures
        be32(v).len() == 4,
        be32_value(be32(v)) == v,
{
    let b = be32(v);
    let x0 = (v >> 24u32) & 0xff;
    let x1 = (v >> 16u32) & 0xff;
    let x2 = (v >> 8u32) & 0xff;
    let x3 = v & 0xff;
    assert(x0 < 256 && x1 < 256 && x2 < 256 && x3 < 256) by (bit_vector)
        requires
            x0 == (v >> 24u32) & 0xff,
            x1 == (v >> 16u32) & 0xff,
            x2 == (v >> 8u32) & 0xff,
            x3 == v & 0xff,
    ;
    assert(b[0] as u32 == x0);
    assert(b[1] as u32 == x1);
    assert(b[2] as u32 == x2);
    assert(b[3] as u32 == x3);
    assert((x0 << 24u32) | (x1 << 16u32) | (x2 << 8u32) | x3 == v) by (bit_vector)
        requires
            x0 == (v >> 24u32) & 0xff,
            x1 == (v >> 16u32) & 0xff,
            x2 == (v >> 8u32) & 0xff,
            x3 == v & 0xff,
    ;
}

/// Appends the two bytes of `v`, most significant first.
pub fn put_u16(dst: &mut Vec<u8>, v: u16)
    ensures
        final(dst)@ == old(dst)@ + be16(v),
{
    dst.push(((v >> 8u16) & 0xff) as u8);
    dst.push((v & 0xff) as u8);
    assert(dst@ =~= old(dst)@ + be16(v));
}

/// Appends the three low bytes of `v`, most significant first.
pub fn put_u24(dst: &mut Vec<u8>, v: u32)
    ensures
        final(dst)@ == old(dst)@ + be24(v),
{
    dst.push(((v >> 16u32) & 0xff) as u8);
    dst.push(((v >> 8u32) & 0xff) as u8);
    dst.push((v & 0xff) as u8);
    assert(dst@ =~= old(dst)@ + be24(v));
}

/// Appends the four bytes of `v`, most significant first.
pub fn put_u32(dst: &mut Vec<u8>, v: u32)
    ensures
        final(dst)@ == old(dst)@ + be32(v),
{
    dst.push(((v >> 24u32) & 0xff) as u8);
    dst.push(((v >> 16u32) & 0xff) as u8);
    dst.push(((v >> 8u32) & 0xff) as u8);
    dst.push((v & 0xff) as u8);
    assert(dst@ =~= old(dst)@ + be32(v));
}

/// Reads two bytes at `at`, most significant first.
pub fn get_u16(src: &[u8], at: usize) -> (r: u16)
    requires
        at + 2 <= src@.len(),
    ensures
        r == be16_value(src@.subrange(at as int, at + 2)),
{
    ((src[at] as u16) << 8u16) | (src[at + 1] as u16)
}

/// Reads four bytes at `at`, most significant first.
pub fn get_u32(src: &[u8], at: usize) -> (r: u32)
    requires
        at + 4 <= src@.len(),
    ensures
        r == be32_value(src@.subrange(at as int, at + 4)),
{
    ((src[at] as u32) << 24u32) | ((src[at + 1] as u32) << 16u32) | ((src[at + 2] as u32) << 8u32)
        | (src[at + 3] as u32)
}

} // verus!
