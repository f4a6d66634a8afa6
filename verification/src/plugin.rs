//! The game plugin's side of drawing: textures the host creates for it, the
//! checks and byte positions of uploads into them, the pointer buttons read
//! from the keyboard state, vertex colours, and the NUL-separated string
//! lists passed across the host boundary.
use vstd::prelude::*;
use crate::text::{str_chars, string_from_chars, split_chars, split_char_vec, lemma_split_chars_nonempty, joined};

verus! {

/// Pixel formats of host textures.
#[derive(Copy, Clone, Debug, PartialEq, Eq, Structural)]
pub enum TextureFormat {
    Unknown,
    A8Unorm,
    R8g8b8a8Unorm,
    B8g8r8a8Unorm,
}

pub open spec fn format_code(f: TextureFormat) -> i32 {
    match f {
        TextureFormat::Unknown => 0,
        TextureFormat::A8Unorm => 65,
        TextureFormat::R8g8b8a8Unorm => 28,
        TextureFormat::B8g8r8a8Unorm => 87,
    }
}

pub open spec fn format_bytes(f: TextureFormat) -> usize {
    match f {
        TextureFormat::Unknown => 0,
        TextureFormat::A8Unorm => 1,
        TextureFormat::R8g8b8a8Unorm => 4,
        TextureFormat::B8g8r8a8Unorm => 4,
    }
}

impl TextureFormat {
    /// Bytes per pixel.
    pub fn byte_count(&self) -> (r: usize)
        ensures
            r == format_bytes(*self),
    {
        match self {
            TextureFormat::Unknown => 0,
            TextureFormat::A8Unorm => 1,
            TextureFormat::R8g8b8a8Unorm => 4,
            TextureFormat::B8g8r8a8Unorm => 4,
        }
    }

    /// The number the host knows the format by.
    pub fn code(&self) -> (r: i32)
        ensures
            r == format_code(*self),
    {
        match self {
            TextureFormat::Unknown => 0,
            TextureFormat::A8Unorm => 65,
            TextureFormat::R8g8b8a8Unorm => 28,
            TextureFormat::B8g8r8a8Unorm => 87,
        }
    }
}

/// The host's numbers for texture formats and usages: the formats are the
/// DXGI ones (A8_UNORM 65, R8G8B8A8_UNORM 28, B8G8R8A8_UNORM 87, unknown 0)
/// with 1, 4 and 4 bytes per pixel; the usages are numbered 0 to 3 (default,
/// immutable, dynamic, staging).
pub proof fn lemma_texture_format_numbers()
    ensures
        format_code(TextureFormat::Unknown) == 0 && format_bytes(TextureFormat::Unknown) == 0,
        format_code(TextureFormat::A8Unorm) == 65 && format_bytes(TextureFormat::A8Unorm) == 1,
        format_code(TextureFormat::R8g8b8a8Unorm) == 28 && format_bytes(TextureFormat::R8g8b8a8Unorm) == 4,
        format_code(TextureFormat::B8g8r8a8Unorm) == 87 && format_bytes(TextureFormat::B8g8r8a8Unorm) == 4,
        usage_code(TextureUsage::Default) == 0,
        usage_code(TextureUsage::Immutable) == 1,
        usage_code(TextureUsage::Dynamic) == 2,
        usage_code(TextureUsage::Staging) == 3,
{
}

/// How the host may use a texture.
#[derive(Copy, Clone, Debug, PartialEq, Eq, Structural)]
pub enum TextureUsage {
    Default,
    Immutable,
    Dynamic,
    Staging,
}

pub open spec fn usage_code(u: TextureUsage) -> i32 {
    match u {
        TextureUsage::Default => 0,
        TextureUsage::Immutable => 1,
        TextureUsage::Dynamic => 2,
        TextureUsage::Staging => 3,
    }
}

impl TextureUsage {
    /// The number the host knows the usage by.
    pub fn code(&self) -> (r: i32)
        ensures
            r == usage_code(*self),
    {
        match self {
            TextureUsage::Default => 0,
            TextureUsage::Immutable => 1,
            TextureUsage::Dynamic => 2,
            TextureUsage::Staging => 3,
        }
    }
}

/// CPU access flags of a texture: `NONE`, `WRITE` and `READ` combined.
#[derive(Copy, Clone, Debug, PartialEq, Eq, Structural)]
pub struct TextureCpuFlags {
    pub bits: i32,
}

impl TextureCpuFlags {
    pub fn none() -> (r: TextureCpuFlags)
        ensures
            r.bits == 0,
    {
        TextureCpuFlags { bits: 0 }
    }

    pub fn write() -> (r: TextureCpuFlags)
        ensures
            r.bits == 0x10000,
    {
        TextureCpuFlags { bits: 0x10000 }
    }

    pub fn read() -> (r: TextureCpuFlags)
        ensures
            r.bits == 0x20000,
    {
        TextureCpuFlags { bits: 0x20000 }
    }
}

/// What a texture is created with.
#[derive(Copy, Clone, Debug, PartialEq, Eq, Structural)]
pub struct TextureOptions {
    pub width: i32,
    pub height: i32,
    pub format: TextureFormat,
    pub usage: TextureUsage,
    pub cpu_access_flags: TextureCpuFlags,
}

/// Why an upload into a texture is refused.
#[derive(Copy, Clone, Debug, PartialEq, Eq, Structural)]
pub enum TextureError {
    InvalidSize,
    OutOfBounds,
}

impl TextureError {
    pub fn message(&self) -> (r: &'static str)
        ensures
            *self == TextureError::InvalidSize ==> r@ == "Invalid data size for texture dimensions"@,
            *self == TextureError::OutOfBounds ==> r@ == "Section extends beyond texture borders"@,
    {
        match self {
            TextureError::InvalidSize => "Invalid data size for texture dimensions",
            TextureError::OutOfBounds => "Section extends beyond texture borders",
        }
    }
}

/// A texture of the host, known by its handle (`0` for none).
pub struct Texture {
    pub width: usize,
    pub height: usize,
    pub format: TextureFormat,
    pub usage: TextureUsage,
    pub cpu_access_flags: TextureCpuFlags,
    pub ptr: usize,
}

/// Where byte `i` of a section `w` pixels wide at (`x`, `y`) goes in a texture
/// `width` pixels wide of `bc` bytes per pixel.
pub open spec fn section_target(width: int, bc: int, x: int, y: int, w: int, i: int) -> int {
    let bpl = w * bc;
    y * bpl + x * bc + i % bpl + (i / bpl) * (width * bc)
}

impl Texture {
    /// The texture the host made from `options` under the handle `ptr`.
    pub fn from_resource(options: TextureOptions, ptr: usize) -> (r: Texture)
        ensures
            r.width == options.width as usize,
            r.height == options.height as usize,
            r.format == options.format,
            r.usage == options.usage,
            r.cpu_access_flags == options.cpu_access_flags,
            r.ptr == ptr,
    {
        Texture {
            width: options.width as usize,
            height: options.height as usize,
            format: options.format,
            usage: options.usage,
            cpu_access_flags: options.cpu_access_flags,
            ptr,
        }
    }

    /// No texture.
    pub fn empty() -> (r: Texture)
        ensures
            r.width == 0 && r.height == 0,
            r.format == TextureFormat::Unknown,
            r.usage == TextureUsage::Default,
            r.cpu_access_flags.bits == 0,
            r.ptr == 0,
    {
        Texture {
            width: 0,
            height: 0,
            format: TextureFormat::Unknown,
            usage: TextureUsage::Default,
            cpu_access_flags: TextureCpuFlags::none(),
            ptr: 0,
        }
    }

    /// The host's handle.
    pub fn resource(&self) -> (r: usize)
        ensures
            r == self.ptr,
    {
        self.ptr
    }

    /// Whether `len` bytes fill the whole texture, as an upload needs.
    pub fn draw_check(&self, len: usize) -> (r: Result<(), TextureError>)
        requires
            self.width * self.height <= usize::MAX,
            self.width * self.height * format_bytes(self.format) <= usize::MAX,
        ensures
            r is Ok <==> len == self.width * self.height * format_bytes(self.format),
            r matches Err(e) ==> e == TextureError::InvalidSize,
    {
        if len != self.width * self.height * self.format.byte_count() {
            return Err(TextureError::InvalidSize);
        }
        Ok(())
    }

    /// The checks of an upload of `len` bytes into the section `w` by `h` at
    /// (`x`, `y`), and where each of its bytes goes.
    pub fn section_targets(&self, x: usize, y: usize, w: usize, h: usize, len: usize) -> (r: Result<Vec<usize>, TextureError>)
        requires
            self.width * self.height * format_bytes(self.format) <= usize::MAX,
            w * format_bytes(self.format) <= usize::MAX,
            w * h <= usize::MAX,
            w * h * format_bytes(self.format) <= usize::MAX,
            x + w <= usize::MAX,
            y + h <= usize::MAX,
        ensures
            len != w * h * format_bytes(self.format) ==> r == Err::<Vec<usize>, TextureError>(TextureError::InvalidSize),
            len == w * h * format_bytes(self.format) && (x + w > self.width || y + h > self.height) ==> r == Err::<
                Vec<usize>,
                TextureError,
            >(TextureError::OutOfBounds),
            r matches Ok(v) ==> {
                &&& v@.len() == len
                &&& forall|i: int|
                    0 <= i < len ==> #[trigger] v@[i] == section_target(
                        self.width as int,
                        format_bytes(self.format) as int,
                        x as int,
                        y as int,
                        w as int,
                        i,
                    )
                &&& forall|i: int| 0 <= i < len ==> #[trigger] v@[i] < self.width * self.height * format_bytes(self.format)
            },
            (len == w * h * format_bytes(self.format) && x + w <= self.width && y + h <= self.height) ==> r is Ok,
    {
        let bc = self.format.byte_count();
        let bpl = w * bc;
        if len != w * h * bc {
            return Err(TextureError::InvalidSize);
        }
        if x + w > self.width || y + h > self.height {
            return Err(TextureError::OutOfBounds);
        }
        let ghost total = self.width * self.height * bc;
        assert(len == bpl * h) by (nonlinear_arith)
            requires
                bpl == w * bc,
                len == w * h * bc,
        ;
        let mut v: Vec<usize> = Vec::new();
        let mut i: usize = 0;
        while i < len
            invariant
                bc == format_bytes(self.format),
                bpl == w * bc,
                total == self.width * self.height * bc,
                total <= usize::MAX,
                len == bpl * h,
                x + w <= self.width,
                y + h <= self.height,
                i <= len,
                v@.len() == i,
                forall|k: int| 0 <= k < i ==> #[trigger] v@[k] == section_target(self.width as int, bc as int, x as int, y as int, w as int, k),
                forall|k: int| 0 <= k < i ==> #[trigger] v@[k] < total,
            decreases len - i,
        {
            proof {
                lemma_section_bound(self.width as int, self.height as int, bc as int, x as int, y as int, w as int, h as int, i as int);
            }
            let t = y * bpl + x * bc + i % bpl + i / bpl * (self.width * bc);
            v.push(t);
            i = i + 1;
        }
        Ok(v)
    }
}

/// The byte a section's byte `i` goes to lies inside the texture.
proof fn lemma_section_bound(width: int, height: int, bc: int, x: int, y: int, w: int, h: int, i: int)
    requires
        width >= 0,
        height >= 0,
        bc >= 0,
        x >= 0,
        y >= 0,
        w >= 0,
        h >= 0,
        0 <= i < w * bc * h,
        width * height * bc >= 0,
        x + w <= width,
        y + h <= height,
    ensures
        w * bc > 0,
        0 <= y * (w * bc) <= y * (w * bc) + x * bc + i % (w * bc) + (i / (w * bc)) * (width * bc),
        y * (w * bc) + x * bc + i % (w * bc) + (i / (w * bc)) * (width * bc) < width * height * bc,
        x * bc <= y * (w * bc) + x * bc,
        i % (w * bc) <= y * (w * bc) + x * bc + i % (w * bc),
        (i / (w * bc)) * (width * bc) <= y * (w * bc) + x * bc + i % (w * bc) + (i / (w * bc)) * (width * bc),
        i / (w * bc) * (width * bc) == (i / (w * bc)) * (width * bc),
        width * bc <= width * height * bc,
{
    let bpl = w * bc;
    assert(bpl > 0) by (nonlinear_arith)
        requires
            0 <= i < bpl * h,
            bpl >= 0,
            h >= 0,
    ;
    let q = i / bpl;
    let m = i % bpl;
    assert(0 <= m < bpl && 0 <= q < h && i == q * bpl + m) by (nonlinear_arith)
        requires
            bpl > 0,
            0 <= i < bpl * h,
            q == i / bpl,
            m == i % bpl,
    ;
    assert(y * bpl + x * bc + m + q * (width * bc) < width * height * bc) by (nonlinear_arith)
        requires
            bpl == w * bc,
            0 <= m < bpl,
            0 <= q < h,
            x + w <= width,
            y + h <= height,
            x >= 0,
            y >= 0,
            bc >= 0,
            w >= 0,
    {
        assert(x * bc + m < width * bc) by (nonlinear_arith)
            requires
                bpl == w * bc,
                0 <= m < bpl,
                x + w <= width,
                x >= 0,
                bc >= 0,
        ;
        assert(y * bpl <= y * (width * bc)) by (nonlinear_arith)
            requires
                bpl == w * bc,
                w <= width,
                y >= 0,
                bc >= 0,
        ;
        assert(y * (width * bc) + x * bc + m + q * (width * bc) < (y + q + 1) * (width * bc)) by (nonlinear_arith)
            requires
                x * bc + m < width * bc,
        ;
        assert((y + q + 1) * (width * bc) <= height * (width * bc)) by (nonlinear_arith)
            requires
                y + q + 1 <= height,
                width * bc >= 0,
        ;
        assert(height * (width * bc) == width * height * bc) by (nonlinear_arith);
    }
    assert(height >= 1);
    assert(width * bc <= width * height * bc) by (nonlinear_arith)
        requires
            height >= 1,
            width >= 0,
            bc >= 0,
    ;
    assert(0 <= y * bpl && 0 <= x * bc && 0 <= q * (width * bc)) by (nonlinear_arith)
        requires
            y >= 0,
            x >= 0,
            bc >= 0,
            q >= 0,
            width >= 0,
            bpl >= 0,
    ;
}

/// Mouse buttons, read from the keyboard state.
#[derive(Copy, Clone, Debug, PartialEq, Eq, Structural)]
pub enum PointerButton {
    Primary,
    Secondary,
    Middle,
    Extra1,
    Extra2,
}

/// The virtual-key code of each button.
pub open spec fn button_code(b: PointerButton) -> int {
    match b {
        PointerButton::Primary => 1,
        PointerButton::Secondary => 2,
        PointerButton::Middle => 4,
        PointerButton::Extra1 => 5,
        PointerButton::Extra2 => 6,
    }
}

pub open spec fn all_buttons() -> Seq<PointerButton> {
    seq![
        PointerButton::Primary,
        PointerButton::Secondary,
        PointerButton::Middle,
        PointerButton::Extra1,
        PointerButton::Extra2,
    ]
}

/// The buttons of `bs` whose state differs between `last` and `now`, in the
/// order of `bs`, each with whether it is down now.
pub open spec fn button_changes(bs: Seq<PointerButton>, last: Seq<bool>, now: Seq<bool>) -> Seq<(PointerButton, bool)>
    decreases bs.len(),
{
    if bs.len() == 0 {
        Seq::empty()
    } else {
        let rest = button_changes(bs.drop_last(), last, now);
        let b = bs.last();
        if now[button_code(b)] != last[button_code(b)] {
            rest.push((b, now[button_code(b)]))
        } else {
            rest
        }
    }
}

/// The button presses and releases between two keyboard states.
pub fn pointer_changes(last: &[bool], now: &[bool]) -> (r: Vec<(PointerButton, bool)>)
    requires
        last@.len() > 6,
        now@.len() > 6,
    ensures
        r@ == button_changes(all_buttons(), last@, now@),
{
    let mut r: Vec<(PointerButton, bool)> = Vec::new();
    if now[1] != last[1] {
        r.push((PointerButton::Primary, now[1]));
    }
    if now[2] != last[2] {
        r.push((PointerButton::Secondary, now[2]));
    }
    if now[4] != last[4] {
        r.push((PointerButton::Middle, now[4]));
    }
    if now[5] != last[5] {
        r.push((PointerButton::Extra1, now[5]));
    }
    if now[6] != last[6] {
        r.push((PointerButton::Extra2, now[6]));
    }
    proof {
        let a = all_buttons();
        assert(a.drop_last().drop_last().drop_last().drop_last().drop_last() =~= Seq::<PointerButton>::empty());
        assert(a.drop_last().drop_last().drop_last().drop_last() =~= seq![PointerButton::Primary]);
        assert(a.drop_last().drop_last().drop_last() =~= seq![PointerButton::Primary, PointerButton::Secondary]);
        assert(a.drop_last().drop_last() =~= seq![PointerButton::Primary, PointerButton::Secondary, PointerButton::Middle]);
        assert(a.drop_last() =~= seq![
            PointerButton::Primary,
            PointerButton::Secondary,
            PointerButton::Middle,
            PointerButton::Extra1,
        ]);
        reveal_with_fuel(button_changes, 6);
    }
    r
}

/// Each pointer button is read from the state of its Windows virtual key:
/// Primary from 0x01, Secondary from 0x02, Middle from 0x04, Extra1 from
/// 0x05 and Extra2 from 0x06.  The changes are exactly the buttons, in that
/// order, whose key state differs, each with its state now.
pub proof fn lemma_pointer_buttons_from_keys(last: Seq<bool>, now: Seq<bool>)
    requires
        last.len() > 6,
        now.len() > 6,
    ensures
        button_changes(all_buttons(), last, now) == (if now[0x01] != last[0x01] {
            seq![(PointerButton::Primary, now[0x01])]
        } else {
            Seq::empty()
        }) + (if now[0x02] != last[0x02] {
            seq![(PointerButton::Secondary, now[0x02])]
        } else {
            Seq::empty()
        }) + (if now[0x04] != last[0x04] {
            seq![(PointerButton::Middle, now[0x04])]
        } else {
            Seq::empty()
        }) + (if now[0x05] != last[0x05] {
            seq![(PointerButton::Extra1, now[0x05])]
        } else {
            Seq::empty()
        }) + (if now[0x06] != last[0x06] {
            seq![(PointerButton::Extra2, now[0x06])]
        } else {
            Seq::empty()
        }),
{
    let a = all_buttons();
    assert(a.drop_last().drop_last().drop_last().drop_last().drop_last() =~= Seq::<PointerButton>::empty());
    assert(a.drop_last().drop_last().drop_last().drop_last() =~= seq![PointerButton::Primary]);
    assert(a.drop_last().drop_last().drop_last() =~= seq![PointerButton::Primary, PointerButton::Secondary]);
    assert(a.drop_last().drop_last() =~= seq![PointerButton::Primary, PointerButton::Secondary, PointerButton::Middle]);
    assert(a.drop_last() =~= seq![
        PointerButton::Primary,
        PointerButton::Secondary,
        PointerButton::Middle,
        PointerButton::Extra1,
    ]);
    reveal_with_fuel(button_changes, 6);
    let e = Seq::<(PointerButton, bool)>::empty();
    let p1 = if now[0x01] != last[0x01] { seq![(PointerButton::Primary, now[0x01])] } else { e };
    let p2 = if now[0x02] != last[0x02] { seq![(PointerButton::Secondary, now[0x02])] } else { e };
    let p4 = if now[0x04] != last[0x04] { seq![(PointerButton::Middle, now[0x04])] } else { e };
    let p5 = if now[0x05] != last[0x05] { seq![(PointerButton::Extra1, now[0x05])] } else { e };
    let p6 = if now[0x06] != last[0x06] { seq![(PointerButton::Extra2, now[0x06])] } else { e };
    assert(button_changes(a.drop_last().drop_last().drop_last().drop_last(), last, now) =~= p1);
    assert(button_changes(a.drop_last().drop_last().drop_last(), last, now) =~= p1 + p2);
    assert(button_changes(a.drop_last().drop_last(), last, now) =~= p1 + p2 + p4);
    assert(button_changes(a.drop_last(), last, now) =~= p1 + p2 + p4 + p5);
    assert(button_changes(a, last, now) =~= p1 + p2 + p4 + p5 + p6);
}

/// A key counts as down when its state byte is above 1.
pub fn keys_down(raw: &[u8]) -> (r: Vec<bool>)
    ensures
        r@.len() == raw@.len(),
        forall|i: int| 0 <= i < raw@.len() ==> #[trigger] r@[i] == (raw@[i] > 1),
{
    let mut r: Vec<bool> = Vec::new();
    let mut i: usize = 0;
    while i < raw.len()
        invariant
            i <= raw@.len(),
            r@.len() == i,
            forall|k: int| 0 <= k < i ==> #[trigger] r@[k] == (raw@[k] > 1),
        decreases raw@.len() - i,
    {
        r.push(raw[i] > 1);
        i = i + 1;
    }
    r
}

/// A vertex colour packed for the host: alpha, blue, green, red from the high
/// byte down.
pub fn pack_abgr(r: u8, g: u8, b: u8, a: u8) -> (c: u32)
    ensures
        c == a as int * 0x100_0000 + b as int * 0x1_0000 + g as int * 0x100 + r as int,
{
    let (r32, g32, b32, a32) = (r as u32, g as u32, b as u32, a as u32);
    assert((a32 << 24u32) == a32 * 0x100_0000) by (bit_vector)
        requires
            a32 < 256,
    ;
    assert((b32 << 16u32) == b32 * 0x1_0000) by (bit_vector)
        requires
            b32 < 256,
    ;
    assert((g32 << 8u32) == g32 * 0x100) by (bit_vector)
        requires
            g32 < 256,
    ;
    (a32 << 24u32) + (b32 << 16u32) + (g32 << 8u32) + r32
}

/// The strings of a NUL-separated list (`split('\0')`).
pub fn split_nul(s: &str) -> (r: Vec<String>)
    ensures
        r@.len() == split_chars(s@, '\0').len(),
        forall|i: int| 0 <= i < r@.len() ==> #[trigger] r@[i]@ == split_chars(s@, '\0')[i],
{
    let cs = str_chars(s);
    let pieces = split_char_vec(&cs, '\0');
    let mut r: Vec<String> = Vec::new();
    let mut i: usize = 0;
    while i < pieces.len()
        invariant
            cs@ == s@,
            pieces@.len() == split_chars(s@, '\0').len(),
            forall|k: int| 0 <= k < pieces@.len() ==> #[trigger] pieces@[k]@ == split_chars(s@, '\0')[k],
            i <= pieces@.len(),
            r@.len() == i,
            forall|k: int| 0 <= k < i ==> #[trigger] r@[k]@ == split_chars(s@, '\0')[k],
        decreases pieces@.len() - i,
    {
        r.push(string_from_chars(pieces[i].as_slice()));
        i = i + 1;
    }
    r
}

pub open spec fn strings_view(v: Seq<String>) -> Seq<Seq<char>> {
    v.map_values(|s: String| s@)
}

/// The strings joined with NUL between them (`join("\0")`).
pub fn join_nul(parts: &Vec<String>) -> (r: String)
    ensures
        r@ == joined(strings_view(parts@), seq!['\0']),
{
    let mut out: Vec<char> = Vec::new();
    let mut i: usize = 0;
    while i < parts.len()
        invariant
            i <= parts@.len(),
            out@ == joined(strings_view(parts@).take(i as int), seq!['\0']),
        decreases parts@.len() - i,
    {
        let part = str_chars(parts[i].as_str());
        let ghost mid0 = out@;
        if i > 0 {
            out.push('\0');
        }
        let ghost mid = out@;
        let mut k: usize = 0;
        while k < part.len()
            invariant
                k <= part@.len(),
                out@ == mid + part@.take(k as int),
            decreases part@.len() - k,
        {
            out.push(part[k]);
            proof {
                assert(part@.take(k + 1) =~= part@.take(k as int).push(part@[k as int]));
            }
            k = k + 1;
        }
        proof {
            assert(part@.take(part@.len() as int) =~= part@);
            let t = strings_view(parts@).take(i + 1);
            assert(t.drop_last() =~= strings_view(parts@).take(i as int));
            assert(t.last() == part@);
            if i == 0 {
                assert(strings_view(parts@).take(0) =~= Seq::<Seq<char>>::empty());
                assert(out@ =~= joined(t, seq!['\0']));
            } else {
                assert(out@ =~= joined(t, seq!['\0']));
            }
        }
        i = i + 1;
    }
    assert(strings_view(parts@).take(parts@.len() as int) =~= strings_view(parts@));
    string_from_chars(out.as_slice())
}

/// Splitting at a separator splits each side of it apart.
proof fn lemma_split_concat(a: Seq<char>, b: Seq<char>, sep: char)
    ensures
        split_chars(a + seq![sep] + b, sep) == split_chars(a, sep) + split_chars(b, sep),
    decreases b.len(),
{
    if b.len() == 0 {
        assert(a + seq![sep] + b =~= a.push(sep));
        assert((a.push(sep)).drop_last() =~= a);
        assert(split_chars(a, sep) + split_chars(b, sep) =~= split_chars(a, sep).push(Seq::<char>::empty()));
    } else {
        let s = a + seq![sep] + b;
        assert(s.drop_last() =~= a + seq![sep] + b.drop_last());
        lemma_split_concat(a, b.drop_last(), sep);
        lemma_split_chars_nonempty(b.drop_last(), sep);
        lemma_split_chars_nonempty(a, sep);
        let ra = split_chars(a, sep);
        let rb = split_chars(b.drop_last(), sep);
        if b.last() == sep {
            assert(split_chars(b, sep) == rb.push(Seq::<char>::empty()));
            assert((ra + rb).push(Seq::<char>::empty()) =~= ra + rb.push(Seq::<char>::empty()));
        } else {
            assert(split_chars(b, sep) == rb.update(rb.len() - 1, rb.last().push(b.last())));
            let rr = ra + rb;
            assert(rr.last() == rb.last());
            assert(rr.update(rr.len() - 1, rr.last().push(b.last())) =~= ra + rb.update(rb.len() - 1, rb.last().push(b.last())));
        }
    }
}

/// A string without the separator is one piece.
proof fn lemma_split_single(b: Seq<char>, sep: char)
    requires
        !b.contains(sep),
    ensures
        split_chars(b, sep) == seq![b],
    decreases b.len(),
{
    if b.len() == 0 {
        assert(b =~= Seq::<char>::empty());
        assert(split_chars(b, sep) =~= seq![b]);
    } else {
        assert(!b.drop_last().contains(sep)) by {
            if b.drop_last().contains(sep) {
                let i = choose|i: int| 0 <= i < b.drop_last().len() && b.drop_last()[i] == sep;
                assert(b[i] == sep);
            }
        }
        lemma_split_single(b.drop_last(), sep);
        assert(b[b.len() - 1] != sep);
        assert(b.drop_last().push(b.last()) =~= b);
        assert(seq![b.drop_last()].update(0, b.drop_last().push(b.last())) =~= seq![b]);
    }
}

/// Joining strings with NUL and splitting the result at NUL gives the strings
/// back, when there is at least one and none holds a NUL.
pub proof fn lemma_split_join_nul(parts: Seq<Seq<char>>)
    requires
        parts.len() >= 1,
        forall|i: int| 0 <= i < parts.len() ==> !(#[trigger] parts[i]).contains('\0'),
    ensures
        split_chars(joined(parts, seq!['\0']), '\0') == parts,
    decreases parts.len(),
{
    if parts.len() == 1 {
        lemma_split_single(parts[0], '\0');
        assert(seq![parts[0]] =~= parts);
    } else {
        let init = parts.drop_last();
        lemma_split_join_nul(init);
        lemma_split_concat(joined(init, seq!['\0']), parts.last(), '\0');
        lemma_split_single(parts.last(), '\0');
        assert(init + seq![parts.last()] =~= parts);
    }
}

/// Where byte `i` of an update `w` pixels wide at (`px`, `py`) goes in the
/// copy of a texture `width` pixels wide with `bc` bytes per pixel.
pub open spec fn patch_target(width: int, bc: int, px: int, py: int, w: int, i: int) -> int {
    px * bc + i % (w * bc) + (py + i / (w * bc)) * width * bc
}

/// The copy `t` after the first `n` bytes of `data` were written in turn.
pub open spec fn patched(t: Seq<u8>, data: Seq<u8>, width: int, bc: int, px: int, py: int, w: int, n: int) -> Seq<u8>
    decreases n,
{
    if n <= 0 {
        t
    } else {
        patched(t, data, width, bc, px, py, w, n - 1).update(patch_target(width, bc, px, py, w, n - 1), data[n - 1])
    }
}

/// Writes a partial texture update `data`, `w` pixels wide, at (`px`, `py`)
/// into the kept copy `tex` of a texture `width` pixels wide.
pub fn patch_texture_data(tex: &mut Vec<u8>, width: usize, bc: usize, px: usize, py: usize, w: usize, data: &[u8])
    requires
        data@.len() > 0 ==> w * bc > 0,
        w * bc <= usize::MAX,
        py + data@.len() <= usize::MAX,
        forall|i: int|
            0 <= i < data@.len() ==> #[trigger] patch_target(width as int, bc as int, px as int, py as int, w as int, i)
                < old(tex)@.len(),
    ensures
        final(tex)@ == patched(old(tex)@, data@, width as int, bc as int, px as int, py as int, w as int, data@.len() as int),
{
    let n = data.len();
    if n == 0 {
        return;
    }
    let bpl = w * bc;
    let len = tex.len();
    let mut i: usize = 0;
    while i < n
        invariant
            n == data@.len(),
            len == tex@.len(),
            py + n <= usize::MAX,
            n > 0,
            bpl == w * bc,
            bpl > 0,
            tex@.len() == old(tex)@.len(),
            i <= n,
            forall|k: int|
                0 <= k < n ==> #[trigger] patch_target(width as int, bc as int, px as int, py as int, w as int, k)
                    < old(tex)@.len(),
            tex@ == patched(old(tex)@, data@, width as int, bc as int, px as int, py as int, w as int, i as int),
        decreases n - i,
    {
        let curx = i % bpl;
        let cury = i / bpl;
        let ghost t = patch_target(width as int, bc as int, px as int, py as int, w as int, i as int);
        assert(t < old(tex)@.len());
        proof {
            lemma_patch_parts(width as int, bc as int, px as int, py as int, w as int, i as int);
        }
        let idx = px * bc + curx + (py + cury) * width * bc;
        tex.set(idx, data[i]);
        i = i + 1;
    }
}

/// The parts of a patch target are no larger than it.
proof fn lemma_patch_parts(width: int, bc: int, px: int, py: int, w: int, i: int)
    requires
        width >= 0,
        bc >= 0,
        px >= 0,
        py >= 0,
        w * bc > 0,
        i >= 0,
    ensures
        px * bc <= px * bc + i % (w * bc),
        px * bc + i % (w * bc) <= patch_target(width, bc, px, py, w, i),
        0 <= (py + i / (w * bc)) * width <= (py + i / (w * bc)) * width * bc || bc == 0,
        (py + i / (w * bc)) * width * bc <= patch_target(width, bc, px, py, w, i),
        py + i / (w * bc) >= 0,
        py + i / (w * bc) <= py + i,
        0 <= i % (w * bc),
        (py + i / (w * bc)) * width <= (py + i / (w * bc)) * width * bc,
{
    let bpl = w * bc;
    assert(0 <= i % bpl && i / bpl >= 0) by (nonlinear_arith)
        requires
            bpl > 0,
            i >= 0,
    ;
    let q = py + i / bpl;
    assert(i / bpl <= i) by (nonlinear_arith)
        requires
            bpl > 0,
            i >= 0,
    ;
    assert(bc >= 1) by (nonlinear_arith)
        requires
            bpl == w * bc,
            bpl > 0,
            bc >= 0,
    ;
    assert(q * width <= q * width * bc) by (nonlinear_arith)
        requires
            q >= 0,
            width >= 0,
            bc >= 1,
    ;
    assert(0 <= q * width <= q * width * bc || bc == 0) by (nonlinear_arith)
        requires
            q >= 0,
            width >= 0,
            bc >= 0,
    ;
    assert(px * bc >= 0 && q * width * bc >= 0) by (nonlinear_arith)
        requires
            q >= 0,
            width >= 0,
            bc >= 0,
            px >= 0,
    ;
}

/// When an update lies within one texture row range (`px + w <= width`),
/// every byte of it ends up at its place.
pub proof fn lemma_patch_in_place(t: Seq<u8>, data: Seq<u8>, width: int, bc: int, px: int, py: int, w: int, i: int)
    requires
        bc > 0,
        w > 0,
        px >= 0,
        py >= 0,
        px + w <= width,
        0 <= i < data.len(),
        forall|k: int| 0 <= k < data.len() ==> 0 <= #[trigger] patch_target(width, bc, px, py, w, k) < t.len(),
    ensures
        patched(t, data, width, bc, px, py, w, data.len() as int)[patch_target(width, bc, px, py, w, i)] == data[i],
{
    lemma_patched_keeps(t, data, width, bc, px, py, w, i, data.len() as int);
}

/// Writes after byte `i` never land on its place.
proof fn lemma_patched_keeps(t: Seq<u8>, data: Seq<u8>, width: int, bc: int, px: int, py: int, w: int, i: int, n: int)
    requires
        bc > 0,
        w > 0,
        px >= 0,
        py >= 0,
        px + w <= width,
        0 <= i < n <= data.len(),
        forall|k: int| 0 <= k < data.len() ==> 0 <= #[trigger] patch_target(width, bc, px, py, w, k) < t.len(),
    ensures
        patched(t, data, width, bc, px, py, w, n)[patch_target(width, bc, px, py, w, i)] == data[i],
        patched(t, data, width, bc, px, py, w, n).len() == t.len(),
    decreases n,
{
    lemma_patched_len(t, data, width, bc, px, py, w, n);
    if n - 1 > i {
        lemma_patched_keeps(t, data, width, bc, px, py, w, i, n - 1);
        lemma_targets_distinct(width, bc, px, py, w, i, n - 1);
    } else {
        lemma_patched_len(t, data, width, bc, px, py, w, n - 1);
    }
}

proof fn lemma_patched_len(t: Seq<u8>, data: Seq<u8>, width: int, bc: int, px: int, py: int, w: int, n: int)
    requires
        0 <= n <= data.len(),
        forall|k: int| 0 <= k < data.len() ==> 0 <= #[trigger] patch_target(width, bc, px, py, w, k) < t.len(),
    ensures
        patched(t, data, width, bc, px, py, w, n).len() == t.len(),
    decreases n,
{
    if n > 0 {
        lemma_patched_len(t, data, width, bc, px, py, w, n - 1);
    }
}

/// Different bytes of an update within a row range go to different places.
proof fn lemma_targets_distinct(width: int, bc: int, px: int, py: int, w: int, i: int, j: int)
    requires
        bc > 0,
        w > 0,
        px >= 0,
        py >= 0,
        px + w <= width,
        0 <= i < j,
    ensures
        patch_target(width, bc, px, py, w, i) != patch_target(width, bc, px, py, w, j),
{
    let bpl = w * bc;
    assert(bpl > 0) by (nonlinear_arith)
        requires
            bpl == w * bc,
            w > 0,
            bc > 0,
    ;
    let qi = i / bpl;
    let qj = j / bpl;
    let mi = i % bpl;
    let mj = j % bpl;
    assert(i == qi * bpl + mi && j == qj * bpl + mj && 0 <= mi < bpl && 0 <= mj < bpl && qi >= 0 && qj >= 0) by (nonlinear_arith)
        requires
            bpl > 0,
            i >= 0,
            j >= 0,
            qi == i / bpl,
            qj == j / bpl,
            mi == i % bpl,
            mj == j % bpl,
    ;
    assert(bpl <= width * bc) by (nonlinear_arith)
        requires
            bpl == w * bc,
            w <= width,
            bc > 0,
    ;
    if qi == qj {
        assert(mi != mj);
        assert((py + qi) * width * bc == (py + qj) * width * bc);
    } else {
        assert(qi <= qj) by (nonlinear_arith)
            requires
                i < j,
                i == qi * bpl + mi,
                j == qj * bpl + mj,
                0 <= mi < bpl,
                0 <= mj < bpl,
                bpl > 0,
        ;
        assert((py + qj) * width * bc - (py + qi) * width * bc >= width * bc) by (nonlinear_arith)
            requires
                qj >= qi + 1,
                width * bc >= 0,
                width >= 0,
                bc > 0,
        ;
    }
}

} // verus!
