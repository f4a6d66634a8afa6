//! Little-endian integers in byte sequences.
use vstd::prelude::*;

verus! {

/// Little-endian `u16` of `v` truncated to 16 bits.
pub open spec fn u16le(v: int) -> Seq<u8> {
    seq![(v % 256) as u8, ((v / 256) % 256) as u8]
}

/// Little-endian `u32` of `v` truncated to 32 bits.
pub open spec fn u32le(v: int) -> Seq<u8> {
    seq![
        (v % 256) as u8,
        ((v / 256) % 256) as u8,
        ((v / 65536) % 256) as u8,
        ((v / 16777216) % 256) as u8,
    ]
}

pub open spec fn rd_u16(d: Seq<u8>, p: int) -> int {
    d[p] as int + 256 * d[p + 1] as int
}

pub open spec fn rd_u32(d: Seq<u8>, p: int) -> int {
    d[p] as int + 256 * d[p + 1] as int + 65536 * d[p + 2] as int + 16777216 * d[p + 3] as int
}

pub proof fn lemma_u16_roundtrip(v: int)
    requires
        0 <= v < 65536,
    ensures
        rd_u16(u16le(v), 0) == v,
{
    let lo = v % 256;
    let hi = (v / 256) % 256;
    assert(v / 256 < 256) by (nonlinear_arith)
        requires
            0 <= v < 65536,
    ;
    assert(lo + 256 * hi == v) by (nonlinear_arith)
        requires
            lo == v % 256,
            hi == (v / 256) % 256,
            v / 256 < 256,
            0 <= v,
    ;
}

pub proof fn lemma_u32_roundtrip(v: int)
    requires
        0 <= v < 0x1_0000_0000,
    ensures
        rd_u32(u32le(v), 0) == v,
{
    let b0 = v % 256;
    let b1 = (v / 256) % 256;
    let b2 = (v / 65536) % 256;
    let b3 = (v / 16777216) % 256;
    assert(b0 + 256 * b1 + 65536 * b2 + 16777216 * b3 == v) by (nonlinear_arith)
        requires
            b0 == v % 256,
            b1 == (v / 256) % 256,
            b2 == (v / 65536) % 256,
            b3 == (v / 16777216) % 256,
            0 <= v < 0x1_0000_0000,
    ;
}

pub fn push_u16(out: &mut Vec<u8>, v: usize)
    ensures
        final(out)@ == old(out)@ + u16le(v as int),
{
    out.push((v % 256) as u8);
    out.push(((v / 256) % 256) as u8);
    assert(final(out)@ =~= old(out)@ + u16le(v as int));
}


pub fn push_u32(out: &mut Vec<u8>, v: u32)
    ensures
        final(out)@ == old(out)@ + u32le(v as int),
{
    out.push((v % 256) as u8);
    out.push(((v / 256) % 256) as u8);
    out.push(((v / 65536) % 256) as u8);
    out.push(((v / 16777216) % 256) as u8);
    assert(final(out)@ =~= old(out)@ + u32le(v as int));
}

pub fn read_u16(s: &[u8], p: usize) -> (r: u16)
    requires
        p + 2 <= s@.len(),
    ensures
        r as int == rd_u16(s@, p as int),
{
    s[p] as u16 + 256 * s[p + 1] as u16
}

pub fn read_u32(s: &[u8], p: usize) -> (r: u32)
    requires
        p + 4 <= s@.len(),
    ensures
        r as int == rd_u32(s@, p as int),
{
    s[p] as u32 + 256 * s[p + 1] as u32 + 65536 * s[p + 2] as u32 + 16777216 * s[p + 3] as u32
}

/// Reading back a written `u16` or `u32` at any position gives the value.
pub proof fn lemma_rd_u16_at(d: Seq<u8>, p: int, v: int)
    requires
        0 <= v < 65536,
        0 <= p,
        p + 2 <= d.len(),
        d[p] == u16le(v)[0],
        d[p + 1] == u16le(v)[1],
    ensures
        rd_u16(d, p) == v,
{
    lemma_u16_roundtrip(v);
}

pub proof fn lemma_rd_u32_at(d: Seq<u8>, p: int, v: int)
    requires
        0 <= v < 0x1_0000_0000,
        0 <= p,
        p + 4 <= d.len(),
        d[p] == u32le(v)[0],
        d[p + 1] == u32le(v)[1],
        d[p + 2] == u32le(v)[2],
        d[p + 3] == u32le(v)[3],
    ensures
        rd_u32(d, p) == v,
{
    lemma_u32_roundtrip(v);
}

} // verus!
