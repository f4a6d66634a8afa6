//! The game's texture format: an 80-byte little-endian header followed by the
//! pixel data.
use vstd::prelude::*;
use crate::le::{u16le, u32le, rd_u16, rd_u32, push_u16, push_u32, read_u16, read_u32, lemma_rd_u16_at, lemma_rd_u32_at};

verus! {

/// Pixel format of a texture.
#[derive(Copy, Clone, Debug, PartialEq, Eq, Structural)]
pub enum Format {
    Unknown,
    L8,
    A8,
    Argb4,
    A1rgb5,
    Argb8,
    Xrgb8,
    Argb82,
    R32F,
    Rg16F,
    Argb16,
    Rgba32F,
    Dxt1,
    Dxt3,
    Dxt5,
    D16,
    D24S8,
    Rgba8,
    Null,
    Shadow16,
    Shadow24,
}

/// The number that stands for a format in the header.
pub open spec fn format_code(f: Format) -> u32 {
    match f {
        Format::Unknown => 0x0,
        Format::L8 => 0x1130,
        Format::A8 => 0x1131,
        Format::Argb4 => 0x1440,
        Format::A1rgb5 => 0x1441,
        Format::Argb8 => 0x1450,
        Format::Xrgb8 => 0x1451,
        Format::Argb82 => 0x1452,
        Format::R32F => 0x2150,
        Format::Rg16F => 0x2250,
        Format::Argb16 => 0x2460,
        Format::Rgba32F => 0x2470,
        Format::Dxt1 => 0x3420,
        Format::Dxt3 => 0x3430,
        Format::Dxt5 => 0x3431,
        Format::D16 => 0x4140,
        Format::D24S8 => 0x4250,
        Format::Rgba8 => 0x4401,
        Format::Null => 0x5100,
        Format::Shadow16 => 0x5140,
        Format::Shadow24 => 0x5150,
    }
}

/// The format that `code` stands for, if any.
pub open spec fn format_of_code(code: u32) -> Option<Format> {
    if code == 0x0 {
        Some(Format::Unknown)
    } else if code == 0x1130 {
        Some(Format::L8)
    } else if code == 0x1131 {
        Some(Format::A8)
    } else if code == 0x1440 {
        Some(Format::Argb4)
    } else if code == 0x1441 {
        Some(Format::A1rgb5)
    } else if code == 0x1450 {
        Some(Format::Argb8)
    } else if code == 0x1451 {
        Some(Format::Xrgb8)
    } else if code == 0x1452 {
        Some(Format::Argb82)
    } else if code == 0x2150 {
        Some(Format::R32F)
    } else if code == 0x2250 {
        Some(Format::Rg16F)
    } else if code == 0x2460 {
        Some(Format::Argb16)
    } else if code == 0x2470 {
        Some(Format::Rgba32F)
    } else if code == 0x3420 {
        Some(Format::Dxt1)
    } else if code == 0x3430 {
        Some(Format::Dxt3)
    } else if code == 0x3431 {
        Some(Format::Dxt5)
    } else if code == 0x4140 {
        Some(Format::D16)
    } else if code == 0x4250 {
        Some(Format::D24S8)
    } else if code == 0x4401 {
        Some(Format::Rgba8)
    } else if code == 0x5100 {
        Some(Format::Null)
    } else if code == 0x5140 {
        Some(Format::Shadow16)
    } else if code == 0x5150 {
        Some(Format::Shadow24)
    } else {
        None
    }
}

impl Format {
    pub fn code(self) -> (r: u32)
        ensures
            r == format_code(self),
    {
        match self {
            Format::Unknown => 0x0,
            Format::L8 => 0x1130,
            Format::A8 => 0x1131,
            Format::Argb4 => 0x1440,
            Format::A1rgb5 => 0x1441,
            Format::Argb8 => 0x1450,
            Format::Xrgb8 => 0x1451,
            Format::Argb82 => 0x1452,
            Format::R32F => 0x2150,
            Format::Rg16F => 0x2250,
            Format::Argb16 => 0x2460,
            Format::Rgba32F => 0x2470,
            Format::Dxt1 => 0x3420,
            Format::Dxt3 => 0x3430,
            Format::Dxt5 => 0x3431,
            Format::D16 => 0x4140,
            Format::D24S8 => 0x4250,
            Format::Rgba8 => 0x4401,
            Format::Null => 0x5100,
            Format::Shadow16 => 0x5140,
            Format::Shadow24 => 0x5150,
        }
    }

    pub fn from_code(code: u32) -> (r: Option<Format>)
        ensures
            r == format_of_code(code),
    {
        if code == 0x0 {
            Some(Format::Unknown)
        } else if code == 0x1130 {
            Some(Format::L8)
        } else if code == 0x1131 {
            Some(Format::A8)
        } else if code == 0x1440 {
            Some(Format::Argb4)
        } else if code == 0x1441 {
            Some(Format::A1rgb5)
        } else if code == 0x1450 {
            Some(Format::Argb8)
        } else if code == 0x1451 {
            Some(Format::Xrgb8)
        } else if code == 0x1452 {
            Some(Format::Argb82)
        } else if code == 0x2150 {
            Some(Format::R32F)
        } else if code == 0x2250 {
            Some(Format::Rg16F)
        } else if code == 0x2460 {
            Some(Format::Argb16)
        } else if code == 0x2470 {
            Some(Format::Rgba32F)
        } else if code == 0x3420 {
            Some(Format::Dxt1)
        } else if code == 0x3430 {
            Some(Format::Dxt3)
        } else if code == 0x3431 {
            Some(Format::Dxt5)
        } else if code == 0x4140 {
            Some(Format::D16)
        } else if code == 0x4250 {
            Some(Format::D24S8)
        } else if code == 0x4401 {
            Some(Format::Rgba8)
        } else if code == 0x5100 {
            Some(Format::Null)
        } else if code == 0x5140 {
            Some(Format::Shadow16)
        } else if code == 0x5150 {
            Some(Format::Shadow24)
        } else {
            None
        }
    }
}

/// Every format is found again from its code.
pub proof fn lemma_format_code_roundtrip(f: Format)
    ensures
        format_of_code(format_code(f)) == Some(f),
{
}

/// Pixel formats of DDS files.
#[derive(Copy, Clone, Debug, PartialEq, Eq, Structural)]
pub enum DdsFormat {
    Unknown,
    L8,
    A8,
    A4R4G4B4,
    A1R5G5B5,
    A8R8G8B8,
    X8R8G8B8,
    Dxt1,
    Dxt3,
    Dxt5,
    A16B16G16R16,
}

pub open spec fn spec_dds_of(f: Format) -> DdsFormat {
    match f {
        Format::L8 => DdsFormat::L8,
        Format::A8 => DdsFormat::A8,
        Format::Argb4 => DdsFormat::A4R4G4B4,
        Format::A1rgb5 => DdsFormat::A1R5G5B5,
        Format::Argb8 => DdsFormat::A8R8G8B8,
        Format::Xrgb8 => DdsFormat::X8R8G8B8,
        Format::Dxt1 => DdsFormat::Dxt1,
        Format::Dxt3 => DdsFormat::Dxt3,
        Format::Dxt5 => DdsFormat::Dxt5,
        Format::Argb16 => DdsFormat::A16B16G16R16,
        _ => DdsFormat::Unknown,
    }
}

pub open spec fn spec_format_of(f: DdsFormat) -> Format {
    match f {
        DdsFormat::L8 => Format::L8,
        DdsFormat::A8 => Format::A8,
        DdsFormat::A4R4G4B4 => Format::Argb4,
        DdsFormat::A1R5G5B5 => Format::A1rgb5,
        DdsFormat::A8R8G8B8 => Format::Argb8,
        DdsFormat::X8R8G8B8 => Format::Xrgb8,
        DdsFormat::Dxt1 => Format::Dxt1,
        DdsFormat::Dxt3 => Format::Dxt3,
        DdsFormat::Dxt5 => Format::Dxt5,
        DdsFormat::A16B16G16R16 => Format::Argb16,
        DdsFormat::Unknown => Format::Unknown,
    }
}

impl From<Format> for DdsFormat {
    fn from(format: Format) -> (r: Self) {
        match format {
            Format::L8 => DdsFormat::L8,
            Format::A8 => DdsFormat::A8,
            Format::Argb4 => DdsFormat::A4R4G4B4,
            Format::A1rgb5 => DdsFormat::A1R5G5B5,
            Format::Argb8 => DdsFormat::A8R8G8B8,
            Format::Xrgb8 => DdsFormat::X8R8G8B8,
            Format::Dxt1 => DdsFormat::Dxt1,
            Format::Dxt3 => DdsFormat::Dxt3,
            Format::Dxt5 => DdsFormat::Dxt5,
            Format::Argb16 => DdsFormat::A16B16G16R16,
            _ => DdsFormat::Unknown,
        }
    }
}

impl vstd::std_specs::convert::FromSpecImpl<Format> for DdsFormat {
    open spec fn obeys_from_spec() -> bool {
        true
    }

    open spec fn from_spec(format: Format) -> Self {
        spec_dds_of(format)
    }
}

impl From<DdsFormat> for Format {
    fn from(format: DdsFormat) -> (r: Self) {
        match format {
            DdsFormat::L8 => Format::L8,
            DdsFormat::A8 => Format::A8,
            DdsFormat::A4R4G4B4 => Format::Argb4,
            DdsFormat::A1R5G5B5 => Format::A1rgb5,
            DdsFormat::A8R8G8B8 => Format::Argb8,
            DdsFormat::X8R8G8B8 => Format::Xrgb8,
            DdsFormat::Dxt1 => Format::Dxt1,
            DdsFormat::Dxt3 => Format::Dxt3,
            DdsFormat::Dxt5 => Format::Dxt5,
            DdsFormat::A16B16G16R16 => Format::Argb16,
            DdsFormat::Unknown => Format::Unknown,
        }
    }
}

impl vstd::std_specs::convert::FromSpecImpl<DdsFormat> for Format {
    open spec fn obeys_from_spec() -> bool {
        true
    }

    open spec fn from_spec(format: DdsFormat) -> Self {
        spec_format_of(format)
    }
}

/// Going from a DDS format to a texture format and back is the identity,
/// and so is going the other way for every format that DDS can hold.
pub proof fn lemma_format_mapping_roundtrip(d: DdsFormat, f: Format)
    ensures
        spec_dds_of(spec_format_of(d)) == d,
        spec_dds_of(f) != DdsFormat::Unknown ==> spec_format_of(spec_dds_of(f)) == f,
{
}

/// Each texture format and the DDS format with the same pixel layout:
/// L8 and L8, A8 and A8, Argb4 and A4R4G4B4, A1rgb5 and A1R5G5B5, Argb8 and
/// A8R8G8B8, Xrgb8 and X8R8G8B8, the three DXT formats, and Argb16 and
/// A16B16G16R16; every other texture format has no DDS counterpart.
pub proof fn lemma_format_mapping_table()
    ensures
        spec_dds_of(Format::L8) == DdsFormat::L8,
        spec_format_of(DdsFormat::L8) == Format::L8,
        spec_dds_of(Format::A8) == DdsFormat::A8,
        spec_format_of(DdsFormat::A8) == Format::A8,
        spec_dds_of(Format::Argb4) == DdsFormat::A4R4G4B4,
        spec_format_of(DdsFormat::A4R4G4B4) == Format::Argb4,
        spec_dds_of(Format::A1rgb5) == DdsFormat::A1R5G5B5,
        spec_format_of(DdsFormat::A1R5G5B5) == Format::A1rgb5,
        spec_dds_of(Format::Argb8) == DdsFormat::A8R8G8B8,
        spec_format_of(DdsFormat::A8R8G8B8) == Format::Argb8,
        spec_dds_of(Format::Xrgb8) == DdsFormat::X8R8G8B8,
        spec_format_of(DdsFormat::X8R8G8B8) == Format::Xrgb8,
        spec_dds_of(Format::Dxt1) == DdsFormat::Dxt1,
        spec_format_of(DdsFormat::Dxt1) == Format::Dxt1,
        spec_dds_of(Format::Dxt3) == DdsFormat::Dxt3,
        spec_format_of(DdsFormat::Dxt3) == Format::Dxt3,
        spec_dds_of(Format::Dxt5) == DdsFormat::Dxt5,
        spec_format_of(DdsFormat::Dxt5) == Format::Dxt5,
        spec_dds_of(Format::Argb16) == DdsFormat::A16B16G16R16,
        spec_format_of(DdsFormat::A16B16G16R16) == Format::Argb16,
        spec_dds_of(Format::Unknown) == DdsFormat::Unknown,
        spec_dds_of(Format::Argb82) == DdsFormat::Unknown,
        spec_dds_of(Format::R32F) == DdsFormat::Unknown,
        spec_dds_of(Format::Rg16F) == DdsFormat::Unknown,
        spec_dds_of(Format::Rgba32F) == DdsFormat::Unknown,
        spec_dds_of(Format::D16) == DdsFormat::Unknown,
        spec_dds_of(Format::D24S8) == DdsFormat::Unknown,
        spec_dds_of(Format::Rgba8) == DdsFormat::Unknown,
        spec_dds_of(Format::Null) == DdsFormat::Unknown,
        spec_dds_of(Format::Shadow16) == DdsFormat::Unknown,
        spec_dds_of(Format::Shadow24) == DdsFormat::Unknown,
        spec_format_of(DdsFormat::Unknown) == Format::Unknown,
{
}

/// The header of a texture file.
pub struct Header {
    pub flags: u32,
    pub format: Format,
    pub width: u16,
    pub height: u16,
    pub depths: u16,
    pub mip_levels: u16,
    pub lod_offsets: [u32; 3],
    pub mip_offsets: [u32; 13],
}

/// The little-endian bytes of a sequence of `u32`s.
pub open spec fn u32_words(s: Seq<u32>) -> Seq<u8>
    decreases s.len(),
{
    if s.len() == 0 {
        Seq::empty()
    } else {
        u32_words(s.drop_last()) + u32le(s.last() as int)
    }
}

proof fn lemma_u32_words(s: Seq<u32>, i: int)
    requires
        0 <= i < s.len(),
    ensures
        u32_words(s).len() == 4 * s.len(),
        forall|j: int| 0 <= j < 4 ==> #[trigger] u32_words(s)[4 * i + j] == u32le(s[i] as int)[j],
    decreases s.len(),
{
    lemma_u32_words_len(s);
    lemma_u32_words_len(s.drop_last());
    if i < s.len() - 1 {
        lemma_u32_words(s.drop_last(), i);
    }
}

proof fn lemma_u32_words_len(s: Seq<u32>)
    ensures
        u32_words(s).len() == 4 * s.len(),
    decreases s.len(),
{
    if s.len() > 0 {
        lemma_u32_words_len(s.drop_last());
    }
}

/// The first 16 bytes of a header: flags, format code and the four sizes.
pub open spec fn header_prefix(h: Header) -> Seq<u8> {
    u32le(h.flags as int) + u32le(format_code(h.format) as int) + u16le(h.width as int) + u16le(
        h.height as int,
    ) + u16le(h.depths as int) + u16le(h.mip_levels as int)
}

/// The 80 bytes of a header.
pub open spec fn header_bytes(h: Header) -> Seq<u8> {
    header_prefix(h) + u32_words(h.lod_offsets@) + u32_words(h.mip_offsets@)
}

/// The header that the first 80 bytes of `b` hold, field by field.
pub open spec fn header_read_as(b: Seq<u8>, h: Header) -> bool {
    &&& b.len() >= 80
    &&& h.flags as int == rd_u32(b, 0)
    &&& format_code(h.format) as int == rd_u32(b, 4)
    &&& h.width as int == rd_u16(b, 8)
    &&& h.height as int == rd_u16(b, 10)
    &&& h.depths as int == rd_u16(b, 12)
    &&& h.mip_levels as int == rd_u16(b, 14)
    &&& forall|i: int| 0 <= i < 3 ==> h.lod_offsets[i] as int == #[trigger] rd_u32(b, 16 + 4 * i)
    &&& forall|i: int| 0 <= i < 13 ==> h.mip_offsets[i] as int == #[trigger] rd_u32(b, 28 + 4 * i)
}

/// The bytes hold a header: there are at least 80 and the format code is
/// one of the known formats.
pub open spec fn header_readable(b: Seq<u8>) -> bool {
    b.len() >= 80 && format_of_code(rd_u32(b, 4) as u32) is Some
}

impl Header {
    /// Reads a header from the start of `bytes`; `None` when there are fewer
    /// than 80 bytes or the format code is unknown.
    pub fn read(bytes: &[u8]) -> (res: Option<Header>)
        ensures
            res is Some <==> header_readable(bytes@),
            res matches Some(h) ==> header_read_as(bytes@, h),
    {
        if bytes.len() < 80 {
            return None;
        }
        let format = match Format::from_code(read_u32(bytes, 4)) {
            Some(f) => f,
            None => return None,
        };
        let h = Header {
            flags: read_u32(bytes, 0),
            format,
            width: read_u16(bytes, 8),
            height: read_u16(bytes, 10),
            depths: read_u16(bytes, 12),
            mip_levels: read_u16(bytes, 14),
            lod_offsets: [read_u32(bytes, 16), read_u32(bytes, 20), read_u32(bytes, 24)],
            mip_offsets: [
                read_u32(bytes, 28),
                read_u32(bytes, 32),
                read_u32(bytes, 36),
                read_u32(bytes, 40),
                read_u32(bytes, 44),
                read_u32(bytes, 48),
                read_u32(bytes, 52),
                read_u32(bytes, 56),
                read_u32(bytes, 60),
                read_u32(bytes, 64),
                read_u32(bytes, 68),
                read_u32(bytes, 72),
                read_u32(bytes, 76),
            ],
        };
        proof {
            lemma_format_code_roundtrip(format);
            assert forall|i: int| 0 <= i < 3 implies h.lod_offsets[i] as int == #[trigger] rd_u32(bytes@, 16 + 4 * i) by {}
            assert forall|i: int| 0 <= i < 13 implies h.mip_offsets[i] as int == #[trigger] rd_u32(bytes@, 28 + 4 * i) by {}
        }
        Some(h)
    }

    /// The 80 bytes of the header (`write_to` of the header).
    pub fn write(&self) -> (res: Vec<u8>)
        ensures
            res@ == header_bytes(*self),
    {
        let mut out: Vec<u8> = Vec::new();
        push_u32(&mut out, self.flags);
        push_u32(&mut out, self.format.code());
        push_u16(&mut out, self.width as usize);
        push_u16(&mut out, self.height as usize);
        push_u16(&mut out, self.depths as usize);
        push_u16(&mut out, self.mip_levels as usize);
        assert(out@ =~= header_prefix(*self));
        let ghost pre = out@;
        let mut i: usize = 0;
        while i < 3
            invariant
                i <= 3,
                out@ == pre + u32_words(self.lod_offsets@.take(i as int)),
            decreases 3 - i,
        {
            push_u32(&mut out, self.lod_offsets[i]);
            proof {
                assert(self.lod_offsets@.take(i + 1).drop_last() =~= self.lod_offsets@.take(i as int));
            }
            i = i + 1;
        }
        assert(self.lod_offsets@.take(3) =~= self.lod_offsets@);
        let ghost pre2 = out@;
        let mut i: usize = 0;
        while i < 13
            invariant
                i <= 13,
                out@ == pre2 + u32_words(self.mip_offsets@.take(i as int)),
            decreases 13 - i,
        {
            push_u32(&mut out, self.mip_offsets[i]);
            proof {
                assert(self.mip_offsets@.take(i + 1).drop_last() =~= self.mip_offsets@.take(i as int));
            }
            i = i + 1;
        }
        assert(self.mip_offsets@.take(13) =~= self.mip_offsets@);
        assert(out@ =~= header_bytes(*self));
        out
    }
}

/// A header written and read back is the same header.
pub proof fn lemma_header_roundtrip(h: Header)
    ensures
        header_bytes(h).len() == 80,
        header_readable(header_bytes(h)),
        forall|h2: Header| header_read_as(header_bytes(h), h2) ==> h2 == h,
{
    let b = header_bytes(h);
    let pre = header_prefix(h);
    let w1 = u32_words(h.lod_offsets@);
    let w2 = u32_words(h.mip_offsets@);
    lemma_u32_words_len(h.lod_offsets@);
    lemma_u32_words_len(h.mip_offsets@);
    assert(pre.len() == 16);
    assert(b.len() == 80);
    lemma_rd_u32_at(b, 0, h.flags as int);
    lemma_rd_u32_at(b, 4, format_code(h.format) as int);
    lemma_rd_u16_at(b, 8, h.width as int);
    lemma_rd_u16_at(b, 10, h.height as int);
    lemma_rd_u16_at(b, 12, h.depths as int);
    lemma_rd_u16_at(b, 14, h.mip_levels as int);
    lemma_format_code_roundtrip(h.format);
    assert forall|i: int| 0 <= i < 3 implies #[trigger] rd_u32(b, 16 + 4 * i) == h.lod_offsets[i] as int by {
        lemma_u32_words(h.lod_offsets@, i);
        assert(b[16 + 4 * i] == w1[4 * i + 0]);
        assert(b[16 + 4 * i + 1] == w1[4 * i + 1]);
        assert(b[16 + 4 * i + 2] == w1[4 * i + 2]);
        assert(b[16 + 4 * i + 3] == w1[4 * i + 3]);
        lemma_rd_u32_at(b, 16 + 4 * i, h.lod_offsets[i] as int);
    }
    assert forall|i: int| 0 <= i < 13 implies #[trigger] rd_u32(b, 28 + 4 * i) == h.mip_offsets[i] as int by {
        lemma_u32_words(h.mip_offsets@, i);
        assert(b[28 + 4 * i] == w2[4 * i + 0]);
        assert(b[28 + 4 * i + 1] == w2[4 * i + 1]);
        assert(b[28 + 4 * i + 2] == w2[4 * i + 2]);
        assert(b[28 + 4 * i + 3] == w2[4 * i + 3]);
        lemma_rd_u32_at(b, 28 + 4 * i, h.mip_offsets[i] as int);
    }
    assert forall|h2: Header| header_read_as(b, h2) implies h2 == h by {
        broadcast use vstd::array::axiom_array_ext_equal;
        assert(format_of_code(format_code(h2.format)) == Some(h2.format));
        assert(h2.lod_offsets@ =~= h.lod_offsets@) by {
            assert forall|i: int| 0 <= i < 3 implies h2.lod_offsets@[i] == h.lod_offsets@[i] by {
                assert(h2.lod_offsets[i] as int == rd_u32(b, 16 + 4 * i));
            }
        }
        assert(h2.mip_offsets@ =~= h.mip_offsets@) by {
            assert forall|i: int| 0 <= i < 13 implies h2.mip_offsets@[i] == h.mip_offsets@[i] by {
                assert(h2.mip_offsets[i] as int == rd_u32(b, 28 + 4 * i));
            }
        }
        assert(h2.lod_offsets =~= h.lod_offsets);
        assert(h2.mip_offsets =~= h.mip_offsets);
    }
}

/// The game's format codes.  A header read from bytes whose format field
/// (bytes 4..8, little-endian) holds one of these codes has exactly that
/// format: L8 is 0x1130, A8 0x1131, Argb4 0x1440, A1rgb5 0x1441, Argb8
/// 0x1450, Xrgb8 0x1451, Argb82 0x1452, R32F 0x2150, Rg16F 0x2250, Argb16
/// 0x2460, Rgba32F 0x2470, Dxt1 0x3420, Dxt3 0x3430, Dxt5 0x3431, D16
/// 0x4140, D24S8 0x4250, Rgba8 0x4401, Null 0x5100, Shadow16 0x5140,
/// Shadow24 0x5150, and Unknown 0.
pub proof fn lemma_header_read_format_codes(b: Seq<u8>, h: Header)
    requires
        header_read_as(b, h),
    ensures
        (rd_u32(b, 4) == 0x0) == (h.format == Format::Unknown),
        (rd_u32(b, 4) == 0x1130) == (h.format == Format::L8),
        (rd_u32(b, 4) == 0x1131) == (h.format == Format::A8),
        (rd_u32(b, 4) == 0x1440) == (h.format == Format::Argb4),
        (rd_u32(b, 4) == 0x1441) == (h.format == Format::A1rgb5),
        (rd_u32(b, 4) == 0x1450) == (h.format == Format::Argb8),
        (rd_u32(b, 4) == 0x1451) == (h.format == Format::Xrgb8),
        (rd_u32(b, 4) == 0x1452) == (h.format == Format::Argb82),
        (rd_u32(b, 4) == 0x2150) == (h.format == Format::R32F),
        (rd_u32(b, 4) == 0x2250) == (h.format == Format::Rg16F),
        (rd_u32(b, 4) == 0x2460) == (h.format == Format::Argb16),
        (rd_u32(b, 4) == 0x2470) == (h.format == Format::Rgba32F),
        (rd_u32(b, 4) == 0x3420) == (h.format == Format::Dxt1),
        (rd_u32(b, 4) == 0x3430) == (h.format == Format::Dxt3),
        (rd_u32(b, 4) == 0x3431) == (h.format == Format::Dxt5),
        (rd_u32(b, 4) == 0x4140) == (h.format == Format::D16),
        (rd_u32(b, 4) == 0x4250) == (h.format == Format::D24S8),
        (rd_u32(b, 4) == 0x4401) == (h.format == Format::Rgba8),
        (rd_u32(b, 4) == 0x5100) == (h.format == Format::Null),
        (rd_u32(b, 4) == 0x5140) == (h.format == Format::Shadow16),
        (rd_u32(b, 4) == 0x5150) == (h.format == Format::Shadow24),
{
}

/// The same table byte by byte: the format field is stored little-endian, so
/// an L8 header has the bytes 30 11 00 00 at 4..8, an A8 header 31 11 00 00,
/// and so on.
pub proof fn lemma_header_read_format_bytes(b: Seq<u8>, h: Header)
    requires
        header_read_as(b, h),
    ensures
        (b[4] == 0x0 && b[5] == 0x0 && b[6] == 0 && b[7] == 0) == (h.format == Format::Unknown),
        (b[4] == 0x30 && b[5] == 0x11 && b[6] == 0 && b[7] == 0) == (h.format == Format::L8),
        (b[4] == 0x31 && b[5] == 0x11 && b[6] == 0 && b[7] == 0) == (h.format == Format::A8),
        (b[4] == 0x40 && b[5] == 0x14 && b[6] == 0 && b[7] == 0) == (h.format == Format::Argb4),
        (b[4] == 0x41 && b[5] == 0x14 && b[6] == 0 && b[7] == 0) == (h.format == Format::A1rgb5),
        (b[4] == 0x50 && b[5] == 0x14 && b[6] == 0 && b[7] == 0) == (h.format == Format::Argb8),
        (b[4] == 0x51 && b[5] == 0x14 && b[6] == 0 && b[7] == 0) == (h.format == Format::Xrgb8),
        (b[4] == 0x52 && b[5] == 0x14 && b[6] == 0 && b[7] == 0) == (h.format == Format::Argb82),
        (b[4] == 0x50 && b[5] == 0x21 && b[6] == 0 && b[7] == 0) == (h.format == Format::R32F),
        (b[4] == 0x50 && b[5] == 0x22 && b[6] == 0 && b[7] == 0) == (h.format == Format::Rg16F),
        (b[4] == 0x60 && b[5] == 0x24 && b[6] == 0 && b[7] == 0) == (h.format == Format::Argb16),
        (b[4] == 0x70 && b[5] == 0x24 && b[6] == 0 && b[7] == 0) == (h.format == Format::Rgba32F),
        (b[4] == 0x20 && b[5] == 0x34 && b[6] == 0 && b[7] == 0) == (h.format == Format::Dxt1),
        (b[4] == 0x30 && b[5] == 0x34 && b[6] == 0 && b[7] == 0) == (h.format == Format::Dxt3),
        (b[4] == 0x31 && b[5] == 0x34 && b[6] == 0 && b[7] == 0) == (h.format == Format::Dxt5),
        (b[4] == 0x40 && b[5] == 0x41 && b[6] == 0 && b[7] == 0) == (h.format == Format::D16),
        (b[4] == 0x50 && b[5] == 0x42 && b[6] == 0 && b[7] == 0) == (h.format == Format::D24S8),
        (b[4] == 0x1 && b[5] == 0x44 && b[6] == 0 && b[7] == 0) == (h.format == Format::Rgba8),
        (b[4] == 0x0 && b[5] == 0x51 && b[6] == 0 && b[7] == 0) == (h.format == Format::Null),
        (b[4] == 0x40 && b[5] == 0x51 && b[6] == 0 && b[7] == 0) == (h.format == Format::Shadow16),
        (b[4] == 0x50 && b[5] == 0x51 && b[6] == 0 && b[7] == 0) == (h.format == Format::Shadow24),
{
    lemma_header_read_format_codes(b, h);
}

/// A written header holds the game's code of its format in bytes 4..8
/// (the same table as for reading).
pub proof fn lemma_header_write_format_codes(h: Header)
    ensures
        header_bytes(h).len() == 80,
        h.format == Format::Unknown ==> rd_u32(header_bytes(h), 4) == 0x0,
        h.format == Format::L8 ==> rd_u32(header_bytes(h), 4) == 0x1130,
        h.format == Format::A8 ==> rd_u32(header_bytes(h), 4) == 0x1131,
        h.format == Format::Argb4 ==> rd_u32(header_bytes(h), 4) == 0x1440,
        h.format == Format::A1rgb5 ==> rd_u32(header_bytes(h), 4) == 0x1441,
        h.format == Format::Argb8 ==> rd_u32(header_bytes(h), 4) == 0x1450,
        h.format == Format::Xrgb8 ==> rd_u32(header_bytes(h), 4) == 0x1451,
        h.format == Format::Argb82 ==> rd_u32(header_bytes(h), 4) == 0x1452,
        h.format == Format::R32F ==> rd_u32(header_bytes(h), 4) == 0x2150,
        h.format == Format::Rg16F ==> rd_u32(header_bytes(h), 4) == 0x2250,
        h.format == Format::Argb16 ==> rd_u32(header_bytes(h), 4) == 0x2460,
        h.format == Format::Rgba32F ==> rd_u32(header_bytes(h), 4) == 0x2470,
        h.format == Format::Dxt1 ==> rd_u32(header_bytes(h), 4) == 0x3420,
        h.format == Format::Dxt3 ==> rd_u32(header_bytes(h), 4) == 0x3430,
        h.format == Format::Dxt5 ==> rd_u32(header_bytes(h), 4) == 0x3431,
        h.format == Format::D16 ==> rd_u32(header_bytes(h), 4) == 0x4140,
        h.format == Format::D24S8 ==> rd_u32(header_bytes(h), 4) == 0x4250,
        h.format == Format::Rgba8 ==> rd_u32(header_bytes(h), 4) == 0x4401,
        h.format == Format::Null ==> rd_u32(header_bytes(h), 4) == 0x5100,
        h.format == Format::Shadow16 ==> rd_u32(header_bytes(h), 4) == 0x5140,
        h.format == Format::Shadow24 ==> rd_u32(header_bytes(h), 4) == 0x5150,
{
    let b = header_bytes(h);
    lemma_u32_words_len(h.lod_offsets@);
    lemma_u32_words_len(h.mip_offsets@);
    assert(header_prefix(h).len() == 16);
    lemma_rd_u32_at(b, 4, format_code(h.format) as int);
}

/// One B8G8R8A8 pixel.
#[derive(Copy, Clone, Debug, PartialEq, Eq, Structural)]
pub struct Pixel {
    pub b: u8,
    pub g: u8,
    pub r: u8,
    pub a: u8,
}

/// A texture: its header and its pixel data as B8G8R8A8.
pub struct Tex {
    pub header: Header,
    pub data: Vec<u8>,
}

impl Tex {
    /// The pixels of the data, four bytes each (a trailing partial pixel is
    /// left out).
    pub fn as_pixels(&self) -> (res: Vec<Pixel>)
        ensures
            res@.len() == self.data@.len() / 4,
            forall|i: int|
                0 <= i < res@.len() ==> #[trigger] res@[i] == (Pixel {
                    b: self.data@[4 * i],
                    g: self.data@[4 * i + 1],
                    r: self.data@[4 * i + 2],
                    a: self.data@[4 * i + 3],
                }),
    {
        let mut res: Vec<Pixel> = Vec::new();
        let len = self.data.len();
        let n = len / 4;
        for i in 0..n
            invariant
                n == self.data@.len() / 4,
                len == self.data@.len(),
                res@.len() == i,
                forall|k: int|
                    0 <= k < i ==> #[trigger] res@[k] == (Pixel {
                        b: self.data@[4 * k],
                        g: self.data@[4 * k + 1],
                        r: self.data@[4 * k + 2],
                        a: self.data@[4 * k + 3],
                    }),
        {
            proof {
                assert(4 * i + 3 < len) by (nonlinear_arith)
                    requires
                        i < n,
                        n == len / 4,
                ;
            }
            res.push(
                Pixel {
                    b: self.data[4 * i],
                    g: self.data[4 * i + 1],
                    r: self.data[4 * i + 2],
                    a: self.data[4 * i + 3],
                },
            );
        }
        res
    }

    /// The RGBA bytes a PNG of the texture is written from: the first
    /// `width * height` pixels with blue and red swapped.
    pub fn png_rgba(&self) -> (res: Vec<u8>)
        requires
            self.header.width as int * self.header.height as int * 4 <= self.data@.len(),
        ensures
            res@.len() == self.header.width as int * self.header.height as int * 4,
            forall|i: int|
                0 <= i < res@.len() ==> #[trigger] res@[i] == if i % 4 == 0 {
                    self.data@[i + 2]
                } else if i % 4 == 2 {
                    self.data@[i - 2]
                } else {
                    self.data@[i]
                },
    {
        let len = self.data.len();
        let n = self.header.width as usize * self.header.height as usize;
        let mut res: Vec<u8> = Vec::new();
        let mut p: usize = 0;
        while p < n
            invariant
                n == self.header.width as int * self.header.height as int,
                n * 4 <= len,
                len == self.data@.len(),
                p <= n,
                res@.len() == 4 * p,
                forall|i: int|
                    0 <= i < 4 * p ==> #[trigger] res@[i] == if i % 4 == 0 {
                        self.data@[i + 2]
                    } else if i % 4 == 2 {
                        self.data@[i - 2]
                    } else {
                        self.data@[i]
                    },
            decreases n - p,
        {
            let q = 4 * p;
            res.push(self.data[q + 2]);
            res.push(self.data[q + 1]);
            res.push(self.data[q]);
            res.push(self.data[q + 3]);
            p = p + 1;
        }
        res
    }
}

} // verus!
