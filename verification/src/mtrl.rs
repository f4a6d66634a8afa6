//! The game's material format.
//!
//! Layout (little endian): a 16-byte header (`u32` signature, `u16` size,
//! `u16` colorset data size, `u16` strings size, `u16` shader offset, then the
//! `u8` counts of textures, uv sets and colorsets and the `u8` size of an
//! unknown block); the texture, uv set and colorset entries (`u16` name offset
//! into the strings, `u16` flags); the strings; the unknown block; 16 colorset
//! rows of 16 `u16` when the colorset data size is not 0; 16 dye `u16` when it
//! is 544; then `u16` shader values size, `u16` shader key count, `u16`
//! constant count, `u16` sampler count and `u32` flags; the shader keys (8
//! bytes each), the constants (`u32` type, `u16` offset, `u16` size), the
//! samplers (`u32` type, `u32` flags, `u32` texture index) and the shader
//! values (4 bytes each, size / 4 of them).
use vstd::prelude::*;
use vstd::utf8::{valid_utf8, decode_utf8};
use crate::le::{rd_u16, rd_u32, read_u16, read_u32};
use crate::text::{utf8_to_string, str_chars, string_from_chars};

verus! {

/// Where the parts of a material file start.
pub struct MtrlLayout {
    pub colorset_data_size: int,
    pub strings_size: int,
    pub shader_offset: int,
    pub texture_count: int,
    pub uvset_count: int,
    pub colorset_count: int,
    pub unk_size: int,
    pub textures: int,
    pub uvsets: int,
    pub colorsets: int,
    pub strings: int,
    pub unk: int,
    pub rows: int,
    pub tail: int,
}

pub open spec fn layout(b: Seq<u8>) -> MtrlLayout {
    let cds = rd_u16(b, 6);
    let ss = rd_u16(b, 8);
    let so = rd_u16(b, 10);
    let tc = b[12] as int;
    let uc = b[13] as int;
    let cc = b[14] as int;
    let us = b[15] as int;
    let uvsets = 16 + 4 * tc;
    let colorsets = uvsets + 4 * uc;
    let strings = colorsets + 4 * cc;
    let unk = strings + ss;
    let rows = unk + us;
    let dye = rows + if cds > 0 {
        512int
    } else {
        0int
    };
    let tail = dye + if cds == 544 {
        32int
    } else {
        0int
    };
    MtrlLayout {
        colorset_data_size: cds,
        strings_size: ss,
        shader_offset: so,
        texture_count: tc,
        uvset_count: uc,
        colorset_count: cc,
        unk_size: us,
        textures: 16,
        uvsets,
        colorsets,
        strings,
        unk,
        rows,
        tail,
    }
}

pub open spec fn shader_key_count(b: Seq<u8>) -> int {
    rd_u16(b, layout(b).tail + 2)
}

pub open spec fn constant_count(b: Seq<u8>) -> int {
    rd_u16(b, layout(b).tail + 4)
}

pub open spec fn sampler_count(b: Seq<u8>) -> int {
    rd_u16(b, layout(b).tail + 6)
}

pub open spec fn constants_at(b: Seq<u8>) -> int {
    layout(b).tail + 12 + 8 * shader_key_count(b)
}

pub open spec fn samplers_at(b: Seq<u8>) -> int {
    constants_at(b) + 8 * constant_count(b)
}

/// Where the shader values end: the end of the material.
pub open spec fn values_end(b: Seq<u8>) -> int {
    samplers_at(b) + 12 * sampler_count(b) + 4 * (rd_u16(b, layout(b).tail) / 4)
}

/// All parts of the material lie within `b`.
pub open spec fn complete(b: Seq<u8>) -> bool {
    &&& b.len() >= 16
    &&& layout(b).tail + 12 <= b.len()
    &&& values_end(b) <= b.len()
}

pub open spec fn strings_of(b: Seq<u8>) -> Seq<u8> {
    b.subrange(layout(b).strings, layout(b).strings + layout(b).strings_size)
}

/// The characters before the first NUL.
pub open spec fn until_nul(cs: Seq<char>) -> Seq<char>
    decreases cs.len(),
{
    if cs.len() == 0 {
        cs
    } else if cs[0] == '\0' {
        Seq::empty()
    } else {
        seq![cs[0]] + until_nul(cs.drop_first())
    }
}

/// The text of `s` up to the first NUL, when `s` is all valid UTF-8.
pub open spec fn null_terminated(s: Seq<u8>) -> Option<Seq<char>> {
    if valid_utf8(s) {
        Some(until_nul(decode_utf8(s)))
    } else {
        None
    }
}

/// The string at offset `o` of the strings block (none when the offset lies
/// beyond the block or the rest of the block is not UTF-8).
pub open spec fn string_at(strings: Seq<u8>, o: int) -> Option<Seq<char>> {
    if o > strings.len() {
        None
    } else {
        null_terminated(strings.skip(o))
    }
}

/// Name offset of uv set `i`.
pub open spec fn uvset_name(b: Seq<u8>, i: int) -> int {
    rd_u16(b, layout(b).uvsets + 4 * i)
}

pub open spec fn colorset_name(b: Seq<u8>, i: int) -> int {
    rd_u16(b, layout(b).colorsets + 4 * i)
}

pub open spec fn texture_name(b: Seq<u8>, i: int) -> int {
    rd_u16(b, layout(b).textures + 4 * i)
}

/// Texture index of sampler `i`.
pub open spec fn sampler_texture(b: Seq<u8>, i: int) -> int {
    rd_u32(b, samplers_at(b) + 12 * i + 8)
}

/// `b` holds a material that can be read: it is complete, and every string
/// that a material holds is found, every sampler naming an existing texture.
pub open spec fn readable(b: Seq<u8>) -> bool {
    &&& complete(b)
    &&& string_at(strings_of(b), layout(b).shader_offset) is Some
    &&& forall|i: int| 0 <= i < layout(b).uvset_count ==> #[trigger] string_at(strings_of(b), uvset_name(b, i)) is Some
    &&& forall|i: int|
        0 <= i < layout(b).colorset_count ==> #[trigger] string_at(strings_of(b), colorset_name(b, i)) is Some
    &&& forall|i: int|
        0 <= i < sampler_count(b) ==> #[trigger] sampler_texture(b, i) < layout(b).texture_count
            && string_at(strings_of(b), texture_name(b, sampler_texture(b, i))) is Some
}

/// One row of colorset data (16 values, kept as raw 16-bit halves).
#[derive(Copy, Clone, Debug, Default)]
pub struct ColorsetRow {
    pub diffuse_r: u16,
    pub diffuse_g: u16,
    pub diffuse_b: u16,
    pub specular_strength: u16,
    pub specular_r: u16,
    pub specular_g: u16,
    pub specular_b: u16,
    pub gloss_strength: u16,
    pub emissive_r: u16,
    pub emissive_g: u16,
    pub emissive_b: u16,
    pub material: u16,
    pub material_repeat_x: u16,
    pub material_skew_x: u16,
    pub material_skew_y: u16,
    pub material_repeat_y: u16,
}

/// The values of a row in file order.
pub open spec fn row_values(r: ColorsetRow) -> Seq<u16> {
    seq![
        r.diffuse_r,
        r.diffuse_g,
        r.diffuse_b,
        r.specular_strength,
        r.specular_r,
        r.specular_g,
        r.specular_b,
        r.gloss_strength,
        r.emissive_r,
        r.emissive_g,
        r.emissive_b,
        r.material,
        r.material_repeat_x,
        r.material_skew_x,
        r.material_skew_y,
        r.material_repeat_y,
    ]
}

pub struct Sampler {
    pub typ: u32,
    pub flags: u32,
    pub path: String,
}

pub struct Constant {
    pub typ: u32,
    pub offset: u16,
    pub size: u16,
}

/// A material.
pub struct Mtrl {
    pub shader: String,
    pub uvsets: Vec<String>,
    pub colorsets: Vec<String>,
    pub unk: Vec<u8>,
    pub colorset_datas: Vec<ColorsetRow>,
    pub samplers: Vec<Sampler>,
    pub constants: Vec<Constant>,
}

/// `m` is the material that `b` holds.
pub open spec fn read_as(b: Seq<u8>, m: Mtrl) -> bool {
    let l = layout(b);
    let strings = strings_of(b);
    &&& Some(m.shader@) == string_at(strings, l.shader_offset)
    &&& m.uvsets@.len() == l.uvset_count
    &&& forall|i: int| 0 <= i < l.uvset_count ==> Some((#[trigger] m.uvsets@[i])@) == string_at(strings, uvset_name(b, i))
    &&& m.colorsets@.len() == l.colorset_count
    &&& forall|i: int|
        0 <= i < l.colorset_count ==> Some((#[trigger] m.colorsets@[i])@) == string_at(strings, colorset_name(b, i))
    &&& m.unk@ == b.subrange(l.unk, l.unk + l.unk_size)
    &&& m.colorset_datas@.len() == 16
    &&& forall|r: int, c: int|
        0 <= r < 16 && 0 <= c < 16 ==> #[trigger] row_values(m.colorset_datas@[r])[c] as int == if l.colorset_data_size > 0 {
            rd_u16(b, l.rows + 32 * r + 2 * c)
        } else {
            0
        }
    &&& m.samplers@.len() == sampler_count(b)
    &&& forall|i: int|
        0 <= i < sampler_count(b) ==> {
            let s = #[trigger] m.samplers@[i];
            &&& s.typ as int == rd_u32(b, samplers_at(b) + 12 * i)
            &&& s.flags as int == rd_u32(b, samplers_at(b) + 12 * i + 4)
            &&& Some(s.path@) == string_at(strings, texture_name(b, sampler_texture(b, i)))
        }
    &&& m.constants@.len() == constant_count(b)
    &&& forall|i: int|
        0 <= i < constant_count(b) ==> {
            let c = #[trigger] m.constants@[i];
            &&& c.typ as int == rd_u32(b, constants_at(b) + 8 * i)
            &&& c.offset as int == rd_u16(b, constants_at(b) + 8 * i + 4)
            &&& c.size as int == rd_u16(b, constants_at(b) + 8 * i + 6)
        }
}

fn until_nul_exec(cs: &Vec<char>) -> (res: Vec<char>)
    ensures
        res@ == until_nul(cs@),
{
    let mut res: Vec<char> = Vec::new();
    let mut i: usize = 0;
    assert(cs@.skip(0) =~= cs@);
    assert(res@ + until_nul(cs@) =~= until_nul(cs@));
    while i < cs.len()
        invariant
            i <= cs@.len(),
            until_nul(cs@) == res@ + until_nul(cs@.skip(i as int)),
        decreases cs@.len() - i,
    {
        if cs[i] == '\0' {
            assert(until_nul(cs@.skip(i as int)) =~= Seq::<char>::empty());
            assert(res@ + Seq::<char>::empty() =~= res@);
            return res;
        }
        proof {
            assert(cs@.skip(i as int).drop_first() =~= cs@.skip(i + 1));
            assert(res@ + until_nul(cs@.skip(i as int)) =~= res@.push(cs@[i as int]) + until_nul(
                cs@.skip(i + 1),
            ));
        }
        res.push(cs[i]);
        i = i + 1;
    }
    assert(cs@.skip(i as int) =~= Seq::<char>::empty());
    assert(res@ + Seq::<char>::empty() =~= res@);
    res
}

/// The string at offset `o` of `strings` (`null_terminated` on the rest of
/// the block).
fn string_at_exec(strings: &Vec<u8>, o: usize) -> (res: Option<String>)
    ensures
        match res {
            Some(s) => string_at(strings@, o as int) == Some(s@),
            None => string_at(strings@, o as int) is None,
        },
{
    if o > strings.len() {
        return None;
    }
    let mut rest: Vec<u8> = Vec::new();
    let mut i = o;
    while i < strings.len()
        invariant
            o <= i <= strings@.len(),
            rest@ == strings@.subrange(o as int, i as int),
        decreases strings@.len() - i,
    {
        rest.push(strings[i]);
        proof {
            assert(strings@.subrange(o as int, i + 1) =~= strings@.subrange(o as int, i as int).push(strings@[i as int]));
        }
        i = i + 1;
    }
    assert(rest@ =~= strings@.skip(o as int));
    match utf8_to_string(rest.as_slice()) {
        Some(s) => {
            let cs = str_chars(s.as_str());
            let pre = until_nul_exec(&cs);
            Some(string_from_chars(pre.as_slice()))
        },
        None => None,
    }
}

fn copy_range(b: &[u8], start: usize, end: usize) -> (res: Vec<u8>)
    requires
        start <= end <= b@.len(),
    ensures
        res@ == b@.subrange(start as int, end as int),
{
    let mut res: Vec<u8> = Vec::new();
    let mut i = start;
    while i < end
        invariant
            start <= i <= end,
            end <= b@.len(),
            res@ == b@.subrange(start as int, i as int),
        decreases end - i,
    {
        res.push(b[i]);
        proof {
            assert(b@.subrange(start as int, i + 1) =~= b@.subrange(start as int, i as int).push(b@[i as int]));
        }
        i = i + 1;
    }
    res
}

fn read_row(b: &[u8], p: usize) -> (r: ColorsetRow)
    requires
        p + 32 <= b@.len(),
    ensures
        forall|c: int| 0 <= c < 16 ==> #[trigger] row_values(r)[c] as int == rd_u16(b@, p + 2 * c),
{
    let _n = b.len();
    ColorsetRow {
        diffuse_r: read_u16(b, p),
        diffuse_g: read_u16(b, p + 2),
        diffuse_b: read_u16(b, p + 4),
        specular_strength: read_u16(b, p + 6),
        specular_r: read_u16(b, p + 8),
        specular_g: read_u16(b, p + 10),
        specular_b: read_u16(b, p + 12),
        gloss_strength: read_u16(b, p + 14),
        emissive_r: read_u16(b, p + 16),
        emissive_g: read_u16(b, p + 18),
        emissive_b: read_u16(b, p + 20),
        material: read_u16(b, p + 22),
        material_repeat_x: read_u16(b, p + 24),
        material_skew_x: read_u16(b, p + 26),
        material_skew_y: read_u16(b, p + 28),
        material_repeat_y: read_u16(b, p + 30),
    }
}

fn zero_row() -> (r: ColorsetRow)
    ensures
        forall|c: int| 0 <= c < 16 ==> #[trigger] row_values(r)[c] == 0,
{
    ColorsetRow {
        diffuse_r: 0,
        diffuse_g: 0,
        diffuse_b: 0,
        specular_strength: 0,
        specular_r: 0,
        specular_g: 0,
        specular_b: 0,
        gloss_strength: 0,
        emissive_r: 0,
        emissive_g: 0,
        emissive_b: 0,
        material: 0,
        material_repeat_x: 0,
        material_skew_x: 0,
        material_skew_y: 0,
        material_repeat_y: 0,
    }
}


/// The strings named by `count` entries starting at `base` (each a `u16`
/// offset into `strings` followed by a `u16` of flags).
fn read_names(b: &[u8], strings: &Vec<u8>, base: usize, count: usize) -> (res: Option<Vec<String>>)
    requires
        base + 4 * count <= b@.len(),
    ensures
        res is Some <==> forall|i: int|
            0 <= i < count ==> #[trigger] string_at(strings@, rd_u16(b@, base + 4 * i)) is Some,
        res matches Some(v) ==> {
            &&& v@.len() == count
            &&& forall|i: int|
                0 <= i < count ==> Some((#[trigger] v@[i])@) == string_at(strings@, rd_u16(b@, base + 4 * i))
        },
{
    let _n = b.len();
    let mut v: Vec<String> = Vec::new();
    let mut i: usize = 0;
    while i < count
        invariant
            i <= count,
            base + 4 * count <= b@.len(),
            b@.len() <= usize::MAX,
            v@.len() == i,
            forall|j: int| 0 <= j < i ==> #[trigger] string_at(strings@, rd_u16(b@, base + 4 * j)) is Some,
            forall|j: int| 0 <= j < i ==> Some((#[trigger] v@[j])@) == string_at(strings@, rd_u16(b@, base + 4 * j)),
        decreases count - i,
    {
        let off = read_u16(b, base + 4 * i);
        match string_at_exec(strings, off as usize) {
            Some(name) => v.push(name),
            None => {
                assert(string_at(strings@, rd_u16(b@, base + 4 * i)) is None);
                return None;
            },
        }
        i = i + 1;
    }
    Some(v)
}

/// Where the parts of a read material come from, fixed by the header
/// fields.  The strings follow the 16-byte header and the 4-byte texture, uv
/// set and colorset entries (counts at bytes 12, 13, 14); the shader name is
/// found at the shader offset (bytes 10..12) within them, each uv set and
/// colorset name at the offset its entry holds.  The unknown block (size at
/// byte 15) follows the strings (size at bytes 8..10), and the colorset rows
/// follow it.  The shader values header follows the 512 bytes of rows when
/// the colorset data size (bytes 6..8) is not 0, and the 32 bytes of dye
/// values after them when it is 544; the shader key, constant and sampler
/// counts are its 2nd, 3rd and 4th `u16`, and the constants follow its 12
/// bytes and the 8-byte shader keys, the samplers the 8-byte constants.
pub proof fn lemma_mtrl_part_positions(b: Seq<u8>, m: Mtrl)
    requires
        b.len() >= 16,
        read_as(b, m),
    ensures
        ({
            let cds = rd_u16(b, 6);
            let strings = 16 + 4 * (b[12] as int + b[13] as int + b[14] as int);
            let rows = strings + rd_u16(b, 8) + b[15] as int;
            let tail = if cds == 0 {
                rows
            } else if cds == 544 {
                rows + 512 + 32
            } else {
                rows + 512
            };
            &&& Some(m.shader@) == string_at(
                b.subrange(strings, strings + rd_u16(b, 8)),
                rd_u16(b, 10),
            )
            &&& forall|i: int|
                0 <= i < b[13] as int ==> Some((#[trigger] m.uvsets@[i])@) == string_at(
                    b.subrange(strings, strings + rd_u16(b, 8)),
                    rd_u16(b, 16 + 4 * b[12] as int + 4 * i),
                )
            &&& forall|i: int|
                0 <= i < b[14] as int ==> Some((#[trigger] m.colorsets@[i])@) == string_at(
                    b.subrange(strings, strings + rd_u16(b, 8)),
                    rd_u16(b, 16 + 4 * (b[12] as int + b[13] as int) + 4 * i),
                )
            &&& m.unk@ == b.subrange(strings + rd_u16(b, 8), rows)
            &&& forall|r: int, c: int|
                0 <= r < 16 && 0 <= c < 16 && cds > 0 ==> #[trigger] row_values(m.colorset_datas@[r])[c] as int
                    == rd_u16(b, rows + 32 * r + 2 * c)
            &&& m.constants@.len() == rd_u16(b, tail + 4)
            &&& m.samplers@.len() == rd_u16(b, tail + 6)
            &&& forall|i: int|
                0 <= i < m.constants@.len() ==> (#[trigger] m.constants@[i]).typ as int == rd_u32(
                    b,
                    tail + 12 + 8 * rd_u16(b, tail + 2) + 8 * i,
                )
            &&& forall|i: int|
                0 <= i < m.samplers@.len() ==> (#[trigger] m.samplers@[i]).typ as int == rd_u32(
                    b,
                    tail + 12 + 8 * rd_u16(b, tail + 2) + 8 * rd_u16(b, tail + 4) + 12 * i,
                )
        }),
{
}

impl Mtrl {
    /// Reads the material that `b` holds; `None` where `b` holds none (a part
    /// lies beyond the end, a string is missing or not UTF-8, or a sampler
    /// names a texture that the material does not have).
    pub fn read(b: &[u8]) -> (res: Option<Mtrl>)
        ensures
            res is Some <==> readable(b@),
            res matches Some(m) ==> read_as(b@, m),
    {
        let n = b.len();
        if n < 16 {
            return None;
        }
        let cds = read_u16(b, 6) as usize;
        let ss = read_u16(b, 8) as usize;
        let so = read_u16(b, 10) as usize;
        let tc = b[12] as usize;
        let uc = b[13] as usize;
        let cc = b[14] as usize;
        let us = b[15] as usize;
        let uvsets_at = 16 + 4 * tc;
        let colorsets_at = uvsets_at + 4 * uc;
        let strings_at = colorsets_at + 4 * cc;
        let unk_at = strings_at + ss;
        let rows_at = unk_at + us;
        let dye_at = if cds > 0 {
            rows_at + 512
        } else {
            rows_at
        };
        let tail = if cds == 544 {
            dye_at + 32
        } else {
            dye_at
        };
        let ghost l = layout(b@);
        assert(tail == l.tail && strings_at == l.strings && rows_at == l.rows);
        if tail + 12 > n {
            return None;
        }
        let vs = read_u16(b, tail) as usize;
        let skc = read_u16(b, tail + 2) as usize;
        let conc = read_u16(b, tail + 4) as usize;
        let smc = read_u16(b, tail + 6) as usize;
        let constants_start = tail + 12 + 8 * skc;
        let samplers_start = constants_start + 8 * conc;
        let end = samplers_start + 12 * smc + 4 * (vs / 4);
        assert(constants_start == constants_at(b@) && samplers_start == samplers_at(b@));
        assert(end == values_end(b@));
        if end > n {
            return None;
        }
        assert(complete(b@));
        let strings = copy_range(b, strings_at, strings_at + ss);
        assert(strings@ == strings_of(b@));
        let shader = match string_at_exec(&strings, so) {
            Some(s) => s,
            None => return None,
        };
        let uvsets = match read_names(b, &strings, uvsets_at, uc) {
            Some(v) => v,
            None => {
                proof {
                    let i = choose|i: int|
                        0 <= i < uc && !(#[trigger] string_at(strings@, rd_u16(b@, uvsets_at + 4 * i)) is Some);
                    assert(uvset_name(b@, i) == rd_u16(b@, uvsets_at + 4 * i));
                }
                return None;
            },
        };
        let colorsets = match read_names(b, &strings, colorsets_at, cc) {
            Some(v) => v,
            None => {
                proof {
                    let i = choose|i: int|
                        0 <= i < cc && !(#[trigger] string_at(strings@, rd_u16(b@, colorsets_at + 4 * i)) is Some);
                    assert(colorset_name(b@, i) == rd_u16(b@, colorsets_at + 4 * i));
                }
                return None;
            },
        };
        let unk = copy_range(b, unk_at, unk_at + us);
        let mut rows: Vec<ColorsetRow> = Vec::new();
        let mut r: usize = 0;
        while r < 16
            invariant
                r <= 16,
                n == b@.len(),
                rows_at == layout(b@).rows,
                cds == layout(b@).colorset_data_size,
                cds > 0 ==> rows_at + 512 <= n,
                rows@.len() == r,
                forall|k: int, c: int|
                    0 <= k < r && 0 <= c < 16 ==> #[trigger] row_values(rows@[k])[c] as int == if cds > 0 {
                        rd_u16(b@, rows_at + 32 * k + 2 * c)
                    } else {
                        0
                    },
            decreases 16 - r,
        {
            if cds > 0 {
                rows.push(read_row(b, rows_at + 32 * r));
            } else {
                rows.push(zero_row());
            }
            r = r + 1;
        }
        let mut constants: Vec<Constant> = Vec::new();
        let mut i: usize = 0;
        while i < conc
            invariant
                i <= conc,
                n == b@.len(),
                conc == constant_count(b@),
                constants_start == constants_at(b@),
                constants_start + 8 * conc <= n,
                constants@.len() == i,
                forall|j: int|
                    0 <= j < i ==> {
                        let c = #[trigger] constants@[j];
                        &&& c.typ as int == rd_u32(b@, constants_at(b@) + 8 * j)
                        &&& c.offset as int == rd_u16(b@, constants_at(b@) + 8 * j + 4)
                        &&& c.size as int == rd_u16(b@, constants_at(b@) + 8 * j + 6)
                    },
            decreases conc - i,
        {
            let p = constants_start + 8 * i;
            constants.push(Constant { typ: read_u32(b, p), offset: read_u16(b, p + 4), size: read_u16(b, p + 6) });
            i = i + 1;
        }
        let mut samplers: Vec<Sampler> = Vec::new();
        let mut i: usize = 0;
        while i < smc
            invariant
                i <= smc,
                n == b@.len(),
                smc == sampler_count(b@),
                tc == layout(b@).texture_count,
                16 + 4 * tc <= n,
                samplers_start == samplers_at(b@),
                samplers_start + 12 * smc <= n,
                strings@ == strings_of(b@),
                samplers@.len() == i,
                forall|j: int|
                    0 <= j < i ==> #[trigger] sampler_texture(b@, j) < tc && string_at(
                        strings_of(b@),
                        texture_name(b@, sampler_texture(b@, j)),
                    ) is Some,
                forall|j: int|
                    0 <= j < i ==> {
                        let s = #[trigger] samplers@[j];
                        &&& s.typ as int == rd_u32(b@, samplers_at(b@) + 12 * j)
                        &&& s.flags as int == rd_u32(b@, samplers_at(b@) + 12 * j + 4)
                        &&& Some(s.path@) == string_at(strings_of(b@), texture_name(b@, sampler_texture(b@, j)))
                    },
            decreases smc - i,
        {
            let p = samplers_start + 12 * i;
            let typ = read_u32(b, p);
            let flags = read_u32(b, p + 4);
            let tex = read_u32(b, p + 8);
            assert(tex as int == sampler_texture(b@, i as int));
            if tex as usize >= tc {
                return None;
            }
            let off = read_u16(b, 16 + 4 * (tex as usize));
            assert(off as int == texture_name(b@, sampler_texture(b@, i as int)));
            let path = match string_at_exec(&strings, off as usize) {
                Some(s) => s,
                None => return None,
            };
            samplers.push(Sampler { typ, flags, path });
            i = i + 1;
        }
        let m = Mtrl { shader, uvsets, colorsets, unk, colorset_datas: rows, samplers, constants };
        proof {
            assert(forall|i: int| 0 <= i < layout(b@).uvset_count ==> uvset_name(b@, i) == rd_u16(b@, uvsets_at + 4 * i));
            assert(forall|i: int| 0 <= i < layout(b@).colorset_count ==> colorset_name(b@, i) == rd_u16(b@, colorsets_at + 4 * i));
        }
        Some(m)
    }
}

} // verus!
