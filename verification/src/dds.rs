//! Pixel conversions between DDS pixel formats and the B8G8R8A8 layout used
//! for textures in memory (four bytes per pixel: blue, green, red, alpha).
//! Trailing bytes that do not make up a whole source pixel are ignored.
use vstd::prelude::*;

verus! {

// ---------------------------------------------------------------------------
// L8

/// Each luminance byte becomes a pixel with that value in every colour
/// channel and an opaque alpha.
pub open spec fn spec_from_l8(data: Seq<u8>) -> Seq<u8> {
    Seq::new(data.len() * 4, |i: int| if i % 4 == 3 { 255u8 } else { data[i / 4] })
}

/// The first byte of every whole four-byte pixel.
pub open spec fn spec_first_of_quads(data: Seq<u8>) -> Seq<u8> {
    Seq::new(data.len() / 4, |i: int| data[4 * i])
}

pub fn convert_from_l8(pixel_data: &[u8]) -> (res: Vec<u8>)
    requires
        pixel_data@.len() * 4 <= usize::MAX,
    ensures
        res@ == spec_from_l8(pixel_data@),
{
    let mut res: Vec<u8> = Vec::new();
    let n = pixel_data.len();
    for i in 0..n
        invariant
            n == pixel_data@.len(),
            res@.len() == i * 4,
            forall|k: int| 0 <= k < i * 4 ==> res@[k] == spec_from_l8(pixel_data@)[k],
    {
        let v = pixel_data[i];
        res.push(v);
        res.push(v);
        res.push(v);
        res.push(255);
    }
    assert(res@ =~= spec_from_l8(pixel_data@));
    res
}

fn first_of_quads(pixel_data: &[u8]) -> (res: Vec<u8>)
    ensures
        res@ == spec_first_of_quads(pixel_data@),
{
    let mut res: Vec<u8> = Vec::new();
    let n = pixel_data.len() / 4;
    for i in 0..n
        invariant
            n == pixel_data@.len() / 4,
            pixel_data@.len() <= usize::MAX,
            res@.len() == i,
            forall|k: int| 0 <= k < i ==> res@[k] == spec_first_of_quads(pixel_data@)[k],
    {
        proof {
            assert(4 * i + 3 < pixel_data@.len()) by (nonlinear_arith)
                requires
                    i < n,
                    n == pixel_data@.len() / 4,
            ;
        }
        res.push(pixel_data[4 * i]);
    }
    assert(res@ =~= spec_first_of_quads(pixel_data@));
    res
}

pub fn convert_to_l8(pixel_data: &[u8]) -> (res: Vec<u8>)
    ensures
        res@ == spec_first_of_quads(pixel_data@),
{
    first_of_quads(pixel_data)
}

/// Converting L8 pixels and back gives the bytes back.
pub proof fn lemma_l8_roundtrip(data: Seq<u8>)
    ensures
        spec_first_of_quads(spec_from_l8(data)) == data,
{
    let m = spec_from_l8(data);
    assert((data.len() * 4) / 4 == data.len()) by (nonlinear_arith);
    assert forall|i: int| 0 <= i < data.len() implies #[trigger] spec_first_of_quads(m)[i] == data[i] by {
        assert((4 * i) % 4 == 0 && (4 * i) / 4 == i) by (nonlinear_arith);
    }
    assert(spec_first_of_quads(m) =~= data);
}

// ---------------------------------------------------------------------------
// A8

/// Each alpha byte becomes a black pixel with that alpha.
pub open spec fn spec_from_a8(data: Seq<u8>) -> Seq<u8> {
    Seq::new(data.len() * 4, |i: int| if i % 4 == 3 { data[i / 4] } else { 0u8 })
}

pub fn convert_from_a8(pixel_data: &[u8]) -> (res: Vec<u8>)
    requires
        pixel_data@.len() * 4 <= usize::MAX,
    ensures
        res@ == spec_from_a8(pixel_data@),
{
    let mut res: Vec<u8> = Vec::new();
    let n = pixel_data.len();
    for i in 0..n
        invariant
            n == pixel_data@.len(),
            res@.len() == i * 4,
            forall|k: int| 0 <= k < i * 4 ==> res@[k] == spec_from_a8(pixel_data@)[k],
    {
        let v = pixel_data[i];
        res.push(0);
        res.push(0);
        res.push(0);
        res.push(v);
    }
    assert(res@ =~= spec_from_a8(pixel_data@));
    res
}

/// The alpha (fourth) byte of every whole four-byte pixel.
pub open spec fn spec_alpha_of_quads(data: Seq<u8>) -> Seq<u8> {
    Seq::new(data.len() / 4, |i: int| data[4 * i + 3])
}

/// Takes the alpha byte of every pixel.
pub fn convert_to_a8(pixel_data: &[u8]) -> (res: Vec<u8>)
    ensures
        res@ == spec_alpha_of_quads(pixel_data@),
{
    let mut res: Vec<u8> = Vec::new();
    let n = pixel_data.len() / 4;
    for i in 0..n
        invariant
            n == pixel_data@.len() / 4,
            pixel_data@.len() <= usize::MAX,
            res@.len() == i,
            forall|k: int| 0 <= k < i ==> res@[k] == spec_alpha_of_quads(pixel_data@)[k],
    {
        proof {
            assert(4 * i + 3 < pixel_data@.len()) by (nonlinear_arith)
                requires
                    i < n,
                    n == pixel_data@.len() / 4,
            ;
        }
        res.push(pixel_data[4 * i + 3]);
    }
    assert(res@ =~= spec_alpha_of_quads(pixel_data@));
    res
}

/// Converting A8 pixels and back gives the bytes back.
pub proof fn lemma_a8_roundtrip(data: Seq<u8>)
    ensures
        spec_alpha_of_quads(spec_from_a8(data)) == data,
{
    let m = spec_from_a8(data);
    assert((data.len() * 4) / 4 == data.len()) by (nonlinear_arith);
    assert forall|i: int| 0 <= i < data.len() implies #[trigger] spec_alpha_of_quads(m)[i] == data[i] by {
        assert((4 * i + 3) % 4 == 3 && (4 * i + 3) / 4 == i) by (nonlinear_arith);
    }
    assert(spec_alpha_of_quads(m) =~= data);
}

// ---------------------------------------------------------------------------
// Two-byte pixels

/// The little-endian 16-bit value of a two-byte pixel.
pub open spec fn word(p0: u8, p1: u8) -> u16 {
    (p0 as u16) | ((p1 as u16) << 8u16)
}

/// The whole two-byte pixels of `data`, each turned into four bytes by `f`
/// (`f(v, c)` is byte `c` of the pixel with value `v`).
pub open spec fn widen_pairs(data: Seq<u8>, f: spec_fn(u16, int) -> u8) -> Seq<u8> {
    Seq::new((data.len() / 2) * 4, |i: int| f(word(data[2 * (i / 4)], data[2 * (i / 4) + 1]), i % 4))
}

/// The whole four-byte pixels of `data`, each turned into two bytes:
/// `lo(b, g)` and `hi(g, r, a)`.
pub open spec fn narrow_quads(data: Seq<u8>, lo: spec_fn(u8, u8) -> u8, hi: spec_fn(u8, u8, u8) -> u8) -> Seq<u8> {
    Seq::new(
        (data.len() / 4) * 2,
        |i: int|
            if i % 2 == 0 {
                lo(data[4 * (i / 2)], data[4 * (i / 2) + 1])
            } else {
                hi(data[4 * (i / 2) + 1], data[4 * (i / 2) + 2], data[4 * (i / 2) + 3])
            },
    )
}

// ---------------------------------------------------------------------------
// A4R4G4B4

/// Byte `c` (blue, green, red, alpha) of the A4R4G4B4 pixel `v`: each 4-bit
/// channel moved into the high half of its byte.
pub open spec fn a4_channel(v: u16, c: int) -> u8 {
    if c == 0 {
        ((v & 0x000Fu16) << 4u16) as u8
    } else if c == 1 {
        (v & 0x00F0u16) as u8
    } else if c == 2 {
        ((v & 0x0F00u16) >> 4u16) as u8
    } else {
        ((v & 0xF000u16) >> 8u16) as u8
    }
}

pub open spec fn spec_from_a4r4g4b4(data: Seq<u8>) -> Seq<u8> {
    widen_pairs(data, |v: u16, c: int| a4_channel(v, c))
}

pub fn convert_from_a4r4g4b4(pixel_data: &[u8]) -> (res: Vec<u8>)
    requires
        (pixel_data@.len() / 2) * 4 <= usize::MAX,
    ensures
        res@ == spec_from_a4r4g4b4(pixel_data@),
{
    let mut res: Vec<u8> = Vec::new();
    let n = pixel_data.len() / 2;
    for i in 0..n
        invariant
            n == pixel_data@.len() / 2,
            n * 4 <= usize::MAX,
            res@.len() == i * 4,
            forall|k: int| 0 <= k < i * 4 ==> res@[k] == spec_from_a4r4g4b4(pixel_data@)[k],
    {
        let p0 = pixel_data[2 * i];
        let p1 = pixel_data[2 * i + 1];
        let v: u16 = (p0 as u16) | ((p1 as u16) << 8u16);
        res.push(((v & 0x000F) << 4u16) as u8);
        res.push((v & 0x00F0) as u8);
        res.push(((v & 0x0F00) >> 4u16) as u8);
        res.push(((v & 0xF000) >> 8u16) as u8);
        proof {
            assert forall|k: int| i * 4 <= k < i * 4 + 4 implies res@[k] == spec_from_a4r4g4b4(pixel_data@)[k] by {
                assert(k / 4 == i && k % 4 == k - i * 4) by (nonlinear_arith)
                    requires
                        i * 4 <= k < i * 4 + 4,
                ;
            }
        }
    }
    assert(res@ =~= spec_from_a4r4g4b4(pixel_data@));
    res
}

/// Blue and green packed into the low byte: the high half of each.
pub open spec fn a4_lo(b: u8, g: u8) -> u8 {
    (b >> 4u8) | (g & 0xF0u8)
}

/// Red and alpha packed into the high byte: the high half of each.
pub open spec fn a4_hi(g: u8, r: u8, a: u8) -> u8 {
    (r >> 4u8) | (a & 0xF0u8)
}

pub open spec fn spec_to_a4r4g4b4(data: Seq<u8>) -> Seq<u8> {
    narrow_quads(data, |b: u8, g: u8| a4_lo(b, g), |g: u8, r: u8, a: u8| a4_hi(g, r, a))
}

pub fn convert_to_a4r4g4b4(pixel_data: &[u8]) -> (res: Vec<u8>)
    ensures
        res@ == spec_to_a4r4g4b4(pixel_data@),
{
    let mut res: Vec<u8> = Vec::new();
    let n = pixel_data.len() / 4;
    for i in 0..n
        invariant
            n == pixel_data@.len() / 4,
            pixel_data@.len() <= usize::MAX,
            res@.len() == i * 2,
            forall|k: int| 0 <= k < i * 2 ==> res@[k] == spec_to_a4r4g4b4(pixel_data@)[k],
    {
        proof {
            assert(4 * i + 3 < pixel_data@.len()) by (nonlinear_arith)
                requires
                    i < n,
                    n == pixel_data@.len() / 4,
            ;
        }
        let b = pixel_data[4 * i];
        let g = pixel_data[4 * i + 1];
        let r = pixel_data[4 * i + 2];
        let a = pixel_data[4 * i + 3];
        res.push((b >> 4u8) | (g & 0xF0));
        res.push((r >> 4u8) | (a & 0xF0));
        proof {
            assert forall|k: int| i * 2 <= k < i * 2 + 2 implies res@[k] == spec_to_a4r4g4b4(pixel_data@)[k] by {
                assert(k / 2 == i && k % 2 == k - i * 2) by (nonlinear_arith)
                    requires
                        i * 2 <= k < i * 2 + 2,
                ;
            }
        }
    }
    assert(res@ =~= spec_to_a4r4g4b4(pixel_data@));
    res
}

proof fn lemma_a4_pixel(p0: u8, p1: u8)
    ensures
        a4_lo(a4_channel(word(p0, p1), 0), a4_channel(word(p0, p1), 1)) == p0,
        a4_hi(a4_channel(word(p0, p1), 1), a4_channel(word(p0, p1), 2), a4_channel(word(p0, p1), 3)) == p1,
{
    let v = word(p0, p1);
    assert(((((v & 0x000Fu16) << 4u16) as u8) >> 4u8) | (((v & 0x00F0u16) as u8) & 0xF0u8) == p0) by (bit_vector)
        requires
            v == (p0 as u16) | ((p1 as u16) << 8u16),
    ;
    assert(((((v & 0x0F00u16) >> 4u16) as u8) >> 4u8) | ((((v & 0xF000u16) >> 8u16) as u8) & 0xF0u8) == p1) by (bit_vector)
        requires
            v == (p0 as u16) | ((p1 as u16) << 8u16),
    ;
}

/// Widening A4R4G4B4 pixels and packing them again gives the pixels back
/// (a trailing odd byte is not a pixel and is dropped).
pub proof fn lemma_a4r4g4b4_roundtrip(data: Seq<u8>)
    ensures
        spec_to_a4r4g4b4(spec_from_a4r4g4b4(data)) == data.take(((data.len() / 2) * 2) as int),
        data.len() % 2 == 0 ==> spec_to_a4r4g4b4(spec_from_a4r4g4b4(data)) == data,
{
    let n = data.len() / 2;
    let w = spec_from_a4r4g4b4(data);
    let r = spec_to_a4r4g4b4(w);
    assert((n * 4) / 4 == n) by (nonlinear_arith);
    assert forall|k: int| 0 <= k < n * 2 implies #[trigger] r[k] == data[k] by {
        let i = k / 2;
        assert(0 <= i < n && k == 2 * i + k % 2 && 4 * i + 3 < n * 4) by (nonlinear_arith)
            requires
                0 <= k < n * 2,
                i == k / 2,
        ;
        assert((4 * i) / 4 == i && (4 * i) % 4 == 0 && (4 * i + 1) / 4 == i && (4 * i + 1) % 4 == 1) by (nonlinear_arith);
        assert((4 * i + 2) / 4 == i && (4 * i + 2) % 4 == 2 && (4 * i + 3) / 4 == i && (4 * i + 3) % 4 == 3) by (nonlinear_arith);
        lemma_a4_pixel(data[2 * i], data[2 * i + 1]);
    }
    assert(r =~= data.take((n * 2) as int));
    if data.len() % 2 == 0 {
        assert(data.take((n * 2) as int) =~= data);
    }
}

// ---------------------------------------------------------------------------
// A1R5G5B5

/// Byte `c` (blue, green, red, alpha) of the A1R5G5B5 pixel `v`: each 5-bit
/// colour channel moved into the top five bits of its byte, the alpha bit
/// into the top bit.
pub open spec fn a1_channel(v: u16, c: int) -> u8 {
    if c == 0 {
        ((v & 0x001Fu16) << 3u16) as u8
    } else if c == 1 {
        ((v & 0x03E0u16) >> 2u16) as u8
    } else if c == 2 {
        ((v & 0x7C00u16) >> 7u16) as u8
    } else {
        ((v & 0x8000u16) >> 8u16) as u8
    }
}

pub open spec fn spec_from_a1r5g5b5(data: Seq<u8>) -> Seq<u8> {
    widen_pairs(data, |v: u16, c: int| a1_channel(v, c))
}

pub fn convert_from_a1r5g5b5(pixel_data: &[u8]) -> (res: Vec<u8>)
    requires
        (pixel_data@.len() / 2) * 4 <= usize::MAX,
    ensures
        res@ == spec_from_a1r5g5b5(pixel_data@),
{
    let mut res: Vec<u8> = Vec::new();
    let n = pixel_data.len() / 2;
    for i in 0..n
        invariant
            n == pixel_data@.len() / 2,
            n * 4 <= usize::MAX,
            res@.len() == i * 4,
            forall|k: int| 0 <= k < i * 4 ==> res@[k] == spec_from_a1r5g5b5(pixel_data@)[k],
    {
        let p0 = pixel_data[2 * i];
        let p1 = pixel_data[2 * i + 1];
        let v: u16 = (p0 as u16) | ((p1 as u16) << 8u16);
        res.push(((v & 0x001F) << 3u16) as u8);
        res.push(((v & 0x03E0) >> 2u16) as u8);
        res.push(((v & 0x7C00) >> 7u16) as u8);
        res.push(((v & 0x8000) >> 8u16) as u8);
        proof {
            assert forall|k: int| i * 4 <= k < i * 4 + 4 implies res@[k] == spec_from_a1r5g5b5(pixel_data@)[k] by {
                assert(k / 4 == i && k % 4 == k - i * 4) by (nonlinear_arith)
                    requires
                        i * 4 <= k < i * 4 + 4,
                ;
            }
        }
    }
    assert(res@ =~= spec_from_a1r5g5b5(pixel_data@));
    res
}

/// The low byte: blue's top five bits, then green's low three of five.
pub open spec fn a1_lo(b: u8, g: u8) -> u8 {
    (b >> 3u8) | ((g << 2u8) & 0xE0u8)
}

/// The high byte: green's top two of five, red's top five bits, and the
/// alpha bit.
pub open spec fn a1_hi(g: u8, r: u8, a: u8) -> u8 {
    (g >> 6u8) | ((r >> 1u8) & 0x7Cu8) | (a & 0x80u8)
}

pub open spec fn spec_to_a1r5g5b5(data: Seq<u8>) -> Seq<u8> {
    narrow_quads(data, |b: u8, g: u8| a1_lo(b, g), |g: u8, r: u8, a: u8| a1_hi(g, r, a))
}

pub fn convert_to_a1r5g5b5(pixel_data: &[u8]) -> (res: Vec<u8>)
    ensures
        res@ == spec_to_a1r5g5b5(pixel_data@),
{
    let mut res: Vec<u8> = Vec::new();
    let n = pixel_data.len() / 4;
    for i in 0..n
        invariant
            n == pixel_data@.len() / 4,
            pixel_data@.len() <= usize::MAX,
            res@.len() == i * 2,
            forall|k: int| 0 <= k < i * 2 ==> res@[k] == spec_to_a1r5g5b5(pixel_data@)[k],
    {
        proof {
            assert(4 * i + 3 < pixel_data@.len()) by (nonlinear_arith)
                requires
                    i < n,
                    n == pixel_data@.len() / 4,
            ;
        }
        let b = pixel_data[4 * i];
        let g = pixel_data[4 * i + 1];
        let r = pixel_data[4 * i + 2];
        let a = pixel_data[4 * i + 3];
        res.push((b >> 3u8) | ((g << 2u8) & 0xE0));
        res.push((g >> 6u8) | ((r >> 1u8) & 0x7C) | (a & 0x80));
        proof {
            assert forall|k: int| i * 2 <= k < i * 2 + 2 implies res@[k] == spec_to_a1r5g5b5(pixel_data@)[k] by {
                assert(k / 2 == i && k % 2 == k - i * 2) by (nonlinear_arith)
                    requires
                        i * 2 <= k < i * 2 + 2,
                ;
            }
        }
    }
    assert(res@ =~= spec_to_a1r5g5b5(pixel_data@));
    res
}

proof fn lemma_a1_pixel(p0: u8, p1: u8)
    ensures
        a1_lo(a1_channel(word(p0, p1), 0), a1_channel(word(p0, p1), 1)) == p0,
        a1_hi(a1_channel(word(p0, p1), 1), a1_channel(word(p0, p1), 2), a1_channel(word(p0, p1), 3)) == p1,
{
    let v = word(p0, p1);
    assert(((((v & 0x001Fu16) << 3u16) as u8) >> 3u8) | (((((v & 0x03E0u16) >> 2u16) as u8) << 2u8) & 0xE0u8) == p0) by (bit_vector)
        requires
            v == (p0 as u16) | ((p1 as u16) << 8u16),
    ;
    assert(((((v & 0x03E0u16) >> 2u16) as u8) >> 6u8) | (((((v & 0x7C00u16) >> 7u16) as u8) >> 1u8) & 0x7Cu8) | ((((v & 0x8000u16) >> 8u16) as u8) & 0x80u8) == p1) by (bit_vector)
        requires
            v == (p0 as u16) | ((p1 as u16) << 8u16),
    ;
}

/// Widening A1R5G5B5 pixels and packing them again gives the pixels back
/// (a trailing odd byte is not a pixel and is dropped).
pub proof fn lemma_a1r5g5b5_roundtrip(data: Seq<u8>)
    ensures
        spec_to_a1r5g5b5(spec_from_a1r5g5b5(data)) == data.take(((data.len() / 2) * 2) as int),
        data.len() % 2 == 0 ==> spec_to_a1r5g5b5(spec_from_a1r5g5b5(data)) == data,
{
    let n = data.len() / 2;
    let w = spec_from_a1r5g5b5(data);
    let r = spec_to_a1r5g5b5(w);
    assert((n * 4) / 4 == n) by (nonlinear_arith);
    assert forall|k: int| 0 <= k < n * 2 implies #[trigger] r[k] == data[k] by {
        let i = k / 2;
        assert(0 <= i < n && k == 2 * i + k % 2 && 4 * i + 3 < n * 4) by (nonlinear_arith)
            requires
                0 <= k < n * 2,
                i == k / 2,
        ;
        assert((4 * i) / 4 == i && (4 * i) % 4 == 0 && (4 * i + 1) / 4 == i && (4 * i + 1) % 4 == 1) by (nonlinear_arith);
        assert((4 * i + 2) / 4 == i && (4 * i + 2) % 4 == 2 && (4 * i + 3) / 4 == i && (4 * i + 3) % 4 == 3) by (nonlinear_arith);
        lemma_a1_pixel(data[2 * i], data[2 * i + 1]);
    }
    assert(r =~= data.take((n * 2) as int));
    if data.len() % 2 == 0 {
        assert(data.take((n * 2) as int) =~= data);
    }
}

proof fn lemma_a4_pixel_arith(p0: u8, p1: u8, b: u8, g: u8, r: u8, a: u8)
    ensures
        a4_channel(word(p0, p1), 0) as int == (p0 as int % 16) * 16,
        a4_channel(word(p0, p1), 1) as int == (p0 as int / 16) * 16,
        a4_channel(word(p0, p1), 2) as int == (p1 as int % 16) * 16,
        a4_channel(word(p0, p1), 3) as int == (p1 as int / 16) * 16,
        a4_lo(b, g) as int == b as int / 16 + (g as int / 16) * 16,
        a4_hi(g, r, a) as int == r as int / 16 + (a as int / 16) * 16,
{
    let v = word(p0, p1);
    assert(((v & 0x000Fu16) << 4u16) as u8 == (p0 % 16) * 16 && (v & 0x00F0u16) as u8 == (p0 / 16) * 16
        && ((v & 0x0F00u16) >> 4u16) as u8 == (p1 % 16) * 16 && ((v & 0xF000u16) >> 8u16) as u8 == (p1 / 16) * 16)
        by (bit_vector)
        requires
            v == (p0 as u16) | ((p1 as u16) << 8u16),
    ;
    assert((b >> 4u8) | (g & 0xF0u8) == b / 16 + (g / 16) * 16 && (r >> 4u8) | (a & 0xF0u8) == r / 16 + (a / 16) * 16)
        by (bit_vector);
}

/// A4R4G4B4 in numbers: a pixel of bytes `p0`, `p1` holds blue in the low
/// and green in the high half of `p0`, red in the low and alpha in the high
/// half of `p1`; widening puts each 4-bit value into the high half of its
/// byte (blue, green, red, alpha), and packing keeps the high half of each.
pub proof fn lemma_a4r4g4b4_channels(data: Seq<u8>, i: int)
    ensures
        0 <= i < data.len() / 2 ==> {
            let w = spec_from_a4r4g4b4(data);
            &&& w[4 * i] as int == (data[2 * i] as int % 16) * 16
            &&& w[4 * i + 1] as int == (data[2 * i] as int / 16) * 16
            &&& w[4 * i + 2] as int == (data[2 * i + 1] as int % 16) * 16
            &&& w[4 * i + 3] as int == (data[2 * i + 1] as int / 16) * 16
        },
        0 <= i < data.len() / 4 ==> {
            let n = spec_to_a4r4g4b4(data);
            &&& n[2 * i] as int == data[4 * i] as int / 16 + (data[4 * i + 1] as int / 16) * 16
            &&& n[2 * i + 1] as int == data[4 * i + 2] as int / 16 + (data[4 * i + 3] as int / 16) * 16
        },
{
    if 0 <= i < data.len() / 2 {
        assert(4 * i + 3 < (data.len() / 2) * 4 && 2 * i + 1 < data.len()) by (nonlinear_arith)
            requires 0 <= i < data.len() / 2;
        assert((4 * i) / 4 == i && (4 * i) % 4 == 0 && (4 * i + 1) / 4 == i && (4 * i + 1) % 4 == 1) by (nonlinear_arith);
        assert((4 * i + 2) / 4 == i && (4 * i + 2) % 4 == 2 && (4 * i + 3) / 4 == i && (4 * i + 3) % 4 == 3) by (nonlinear_arith);
        lemma_a4_pixel_arith(data[2 * i], data[2 * i + 1], 0, 0, 0, 0);
    }
    if 0 <= i < data.len() / 4 {
        assert(2 * i + 1 < (data.len() / 4) * 2 && 4 * i + 3 < data.len()) by (nonlinear_arith)
            requires 0 <= i < data.len() / 4;
        assert((2 * i) / 2 == i && (2 * i) % 2 == 0 && (2 * i + 1) / 2 == i && (2 * i + 1) % 2 == 1) by (nonlinear_arith);
        lemma_a4_pixel_arith(0, 0, data[4 * i], data[4 * i + 1], data[4 * i + 2], data[4 * i + 3]);
    }
}

proof fn lemma_a1_pixel_arith(p0: u8, p1: u8, b: u8, g: u8, r: u8, a: u8)
    ensures
        a1_channel(word(p0, p1), 0) as int == (p0 as int % 32) * 8,
        a1_channel(word(p0, p1), 1) as int == (p0 as int / 32 + (p1 as int % 4) * 8) * 8,
        a1_channel(word(p0, p1), 2) as int == ((p1 as int / 4) % 32) * 8,
        a1_channel(word(p0, p1), 3) as int == (p1 as int / 128) * 128,
        a1_lo(b, g) as int == b as int / 8 + ((g as int / 8) % 8) * 32,
        a1_hi(g, r, a) as int == g as int / 64 + (r as int / 8) * 4 + (a as int / 128) * 128,
{
    let v = word(p0, p1);
    assert(((v & 0x001Fu16) << 3u16) as u8 == (p0 % 32) * 8 && ((v & 0x03E0u16) >> 2u16) as u8 == (p0 / 32 + (p1 % 4) * 8) * 8
        && ((v & 0x7C00u16) >> 7u16) as u8 == ((p1 / 4) % 32) * 8 && ((v & 0x8000u16) >> 8u16) as u8 == (p1 / 128) * 128)
        by (bit_vector)
        requires
            v == (p0 as u16) | ((p1 as u16) << 8u16),
    ;
    assert((b >> 3u8) | ((g << 2u8) & 0xE0u8) == b / 8 + ((g / 8) % 8) * 32) by (bit_vector);
    assert((g >> 6u8) | ((r >> 1u8) & 0x7Cu8) | (a & 0x80u8) == g / 64 + (r / 8) * 4 + (a / 128) * 128) by (bit_vector);
}

/// A1R5G5B5 in numbers: the pixel value `v = p0 + 256 * p1` holds blue in
/// bits 0..5, green in bits 5..10, red in bits 10..15 and the alpha bit in
/// bit 15; widening puts each 5-bit value into the top five bits of its
/// byte and the alpha bit into the top bit, and packing keeps those bits.
pub proof fn lemma_a1r5g5b5_channels(data: Seq<u8>, i: int)
    ensures
        0 <= i < data.len() / 2 ==> {
            let w = spec_from_a1r5g5b5(data);
            let v = data[2 * i] as int + 256 * data[2 * i + 1] as int;
            &&& w[4 * i] as int == (v % 32) * 8
            &&& w[4 * i + 1] as int == ((v / 32) % 32) * 8
            &&& w[4 * i + 2] as int == ((v / 1024) % 32) * 8
            &&& w[4 * i + 3] as int == (v / 32768) * 128
        },
        0 <= i < data.len() / 4 ==> {
            let n = spec_to_a1r5g5b5(data);
            let b = data[4 * i] as int;
            let g = data[4 * i + 1] as int;
            let r = data[4 * i + 2] as int;
            let a = data[4 * i + 3] as int;
            n[2 * i] as int + 256 * n[2 * i + 1] as int == b / 8 + (g / 8) * 32 + (r / 8) * 1024 + (a / 128) * 32768
        },
{
    if 0 <= i < data.len() / 2 {
        assert(4 * i + 3 < (data.len() / 2) * 4 && 2 * i + 1 < data.len()) by (nonlinear_arith)
            requires 0 <= i < data.len() / 2;
        assert((4 * i) / 4 == i && (4 * i) % 4 == 0 && (4 * i + 1) / 4 == i && (4 * i + 1) % 4 == 1) by (nonlinear_arith);
        assert((4 * i + 2) / 4 == i && (4 * i + 2) % 4 == 2 && (4 * i + 3) / 4 == i && (4 * i + 3) % 4 == 3) by (nonlinear_arith);
        let p0 = data[2 * i];
        let p1 = data[2 * i + 1];
        lemma_a1_pixel_arith(p0, p1, 0, 0, 0, 0);
        let v = p0 as int + 256 * p1 as int;
        assert(v % 32 == p0 as int % 32 && (v / 32) % 32 == p0 as int / 32 + (p1 as int % 4) * 8
            && (v / 1024) % 32 == (p1 as int / 4) % 32 && v / 32768 == p1 as int / 128) by (nonlinear_arith)
            requires
                v == p0 as int + 256 * p1 as int,
                0 <= p0 < 256,
                0 <= p1 < 256,
        ;
    }
    if 0 <= i < data.len() / 4 {
        assert(2 * i + 1 < (data.len() / 4) * 2 && 4 * i + 3 < data.len()) by (nonlinear_arith)
            requires 0 <= i < data.len() / 4;
        assert((2 * i) / 2 == i && (2 * i) % 2 == 0 && (2 * i + 1) / 2 == i && (2 * i + 1) % 2 == 1) by (nonlinear_arith);
        let b = data[4 * i];
        let g = data[4 * i + 1];
        let r = data[4 * i + 2];
        let a = data[4 * i + 3];
        lemma_a1_pixel_arith(0, 0, b, g, r, a);
        assert(b as int / 8 + ((g as int / 8) % 8) * 32 + 256 * (g as int / 64 + (r as int / 8) * 4 + (a as int / 128) * 128)
            == b as int / 8 + (g as int / 8) * 32 + (r as int / 8) * 1024 + (a as int / 128) * 32768) by (nonlinear_arith)
            requires
                0 <= g < 256,
        ;
    }
}

// ---------------------------------------------------------------------------
// X8R8G8B8

/// Every whole pixel keeps its colour bytes and gets alpha `alpha`.
pub open spec fn spec_with_alpha(data: Seq<u8>, alpha: u8) -> Seq<u8> {
    Seq::new((data.len() / 4) * 4, |i: int| if i % 4 == 3 { alpha } else { data[i] })
}

fn set_alpha(pixel_data: &[u8], alpha: u8) -> (res: Vec<u8>)
    ensures
        res@ == spec_with_alpha(pixel_data@, alpha),
{
    let mut res: Vec<u8> = Vec::new();
    let n = pixel_data.len() / 4;
    for i in 0..n
        invariant
            n == pixel_data@.len() / 4,
            pixel_data@.len() <= usize::MAX,
            res@.len() == i * 4,
            forall|k: int| 0 <= k < i * 4 ==> res@[k] == spec_with_alpha(pixel_data@, alpha)[k],
    {
        proof {
            assert(4 * i + 3 < pixel_data@.len()) by (nonlinear_arith)
                requires
                    i < n,
                    n == pixel_data@.len() / 4,
            ;
        }
        res.push(pixel_data[4 * i]);
        res.push(pixel_data[4 * i + 1]);
        res.push(pixel_data[4 * i + 2]);
        res.push(alpha);
        proof {
            assert forall|k: int| i * 4 <= k < i * 4 + 4 implies res@[k] == spec_with_alpha(pixel_data@, alpha)[k] by {
                assert(k % 4 == k - i * 4) by (nonlinear_arith)
                    requires
                        i * 4 <= k < i * 4 + 4,
                ;
            }
        }
    }
    assert(res@ =~= spec_with_alpha(pixel_data@, alpha));
    res
}

/// Keeps the colour bytes and makes every pixel opaque.
pub fn convert_from_x8r8g8b8(pixel_data: &[u8]) -> (res: Vec<u8>)
    ensures
        res@ == spec_with_alpha(pixel_data@, 255),
{
    set_alpha(pixel_data, 255)
}

/// Keeps the colour bytes and zeroes the unused byte.
pub fn convert_to_x8r8g8b8(pixel_data: &[u8]) -> (res: Vec<u8>)
    ensures
        res@ == spec_with_alpha(pixel_data@, 0),
{
    set_alpha(pixel_data, 0)
}

/// Reading back X8R8G8B8 data that was just written gives the same pixels
/// as reading the data it was written from.
pub proof fn lemma_x8r8g8b8_roundtrip(data: Seq<u8>)
    ensures
        spec_with_alpha(spec_with_alpha(data, 0), 255) == spec_with_alpha(data, 255),
{
    let a = spec_with_alpha(data, 0);
    assert(((data.len() / 4) * 4) / 4 * 4 == (data.len() / 4) * 4) by (nonlinear_arith);
    assert(spec_with_alpha(a, 255) =~= spec_with_alpha(data, 255));
}

} // verus!
