use aetherment::mtrl::Mtrl;

fn u16le(v: u16) -> [u8; 2] {
    v.to_le_bytes()
}

fn u32le(v: u32) -> [u8; 4] {
    v.to_le_bytes()
}

/// A material with one texture, one uv set, no colorset names, a 4-byte
/// unknown block, `rows` colorset data when given, one constant and one
/// sampler naming texture `tex_index`.
fn material(strings: &[u8], shader_offset: u16, tex_index: u32, rows: bool) -> Vec<u8> {
    let mut b = Vec::new();
    b.extend_from_slice(&u32le(0x0102_0300));
    b.extend_from_slice(&u16le(0));
    b.extend_from_slice(&u16le(if rows { 512 } else { 0 }));
    b.extend_from_slice(&u16le(strings.len() as u16));
    b.extend_from_slice(&u16le(shader_offset));
    b.extend_from_slice(&[1, 1, 0, 4]);
    // texture 0: name at 0; uv set 0: name at 5
    b.extend_from_slice(&u16le(0));
    b.extend_from_slice(&u16le(0));
    b.extend_from_slice(&u16le(5));
    b.extend_from_slice(&u16le(0));
    b.extend_from_slice(strings);
    b.extend_from_slice(&[1, 2, 3, 4]);
    if rows {
        for r in 0..16u16 {
            for c in 0..16u16 {
                b.extend_from_slice(&u16le(r * 16 + c));
            }
        }
    }
    b.extend_from_slice(&u16le(4)); // shader values size
    b.extend_from_slice(&u16le(0)); // shader keys
    b.extend_from_slice(&u16le(1)); // constants
    b.extend_from_slice(&u16le(1)); // samplers
    b.extend_from_slice(&u32le(0)); // flags
    b.extend_from_slice(&u32le(7));
    b.extend_from_slice(&u16le(0));
    b.extend_from_slice(&u16le(4));
    b.extend_from_slice(&u32le(9));
    b.extend_from_slice(&u32le(3));
    b.extend_from_slice(&u32le(tex_index));
    b.extend_from_slice(&[0, 0, 0x80, 0x3F]);
    b
}

const STRINGS: &[u8] = b"tex1\0uv1\0shader\0";

#[test]
fn material_reads_names_and_tables() {
    let m = Mtrl::read(&material(STRINGS, 9, 0, false)).unwrap();
    assert_eq!(m.shader, "shader");
    assert_eq!(m.uvsets, vec!["uv1".to_string()]);
    assert!(m.colorsets.is_empty());
    assert_eq!(m.unk, vec![1, 2, 3, 4]);
    assert_eq!(m.colorset_datas.len(), 16);
    assert!(m.colorset_datas.iter().all(|r| r.diffuse_r == 0 && r.material_repeat_y == 0));
    assert_eq!(m.samplers.len(), 1);
    assert_eq!((m.samplers[0].typ, m.samplers[0].flags), (9, 3));
    assert_eq!(m.samplers[0].path, "tex1");
    assert_eq!(m.constants.len(), 1);
    assert_eq!((m.constants[0].typ, m.constants[0].offset, m.constants[0].size), (7, 0, 4));
}

#[test]
fn material_reads_colorset_rows() {
    let m = Mtrl::read(&material(STRINGS, 9, 0, true)).unwrap();
    assert_eq!(m.colorset_datas[0].diffuse_r, 0);
    assert_eq!(m.colorset_datas[0].diffuse_g, 1);
    assert_eq!(m.colorset_datas[2].gloss_strength, 2 * 16 + 7);
    assert_eq!(m.colorset_datas[15].material_repeat_y, 255);
}

#[test]
fn material_string_ends_at_nul_or_block_end() {
    let m = Mtrl::read(&material(b"tex1\0uv1\0shader", 9, 0, false)).unwrap();
    assert_eq!(m.shader, "shader");
}

#[test]
fn material_refuses_truncated_data() {
    let b = material(STRINGS, 9, 0, false);
    assert!(Mtrl::read(&b[..b.len() - 1]).is_none());
    assert!(Mtrl::read(&b[..10]).is_none());
    assert!(Mtrl::read(&[]).is_none());
}

#[test]
fn material_refuses_missing_texture() {
    assert!(Mtrl::read(&material(STRINGS, 9, 1, false)).is_none());
}

#[test]
fn material_refuses_bad_strings() {
    assert!(Mtrl::read(&material(b"tex1\0uv1\0shad\xFFr\0", 9, 0, false)).is_none());
    assert!(Mtrl::read(&material(STRINGS, 17, 0, false)).is_none());
}
