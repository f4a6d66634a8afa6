use aetherment::plugin::{
    join_nul, keys_down, pack_abgr, patch_texture_data, pointer_changes, split_nul, PointerButton, Texture,
    TextureCpuFlags, TextureError, TextureFormat, TextureOptions, TextureUsage,
};

fn tex(width: i32, height: i32, format: TextureFormat) -> Texture {
    Texture::from_resource(
        TextureOptions { width, height, format, usage: TextureUsage::Dynamic, cpu_access_flags: TextureCpuFlags::write() },
        77,
    )
}

#[test]
fn formats_and_usages() {
    assert_eq!(TextureFormat::A8Unorm.byte_count(), 1);
    assert_eq!(TextureFormat::B8g8r8a8Unorm.byte_count(), 4);
    assert_eq!(TextureFormat::Unknown.byte_count(), 0);
    assert_eq!(TextureFormat::R8g8b8a8Unorm.code(), 28);
    assert_eq!(TextureUsage::Staging.code(), 3);
    assert_eq!(TextureCpuFlags::read().bits, 0x20000);
}

#[test]
fn empty_texture_has_no_handle() {
    let t = Texture::empty();
    assert_eq!((t.width, t.height, t.resource()), (0, 0, 0));
    assert_eq!(t.format, TextureFormat::Unknown);
    assert_eq!(t.cpu_access_flags, TextureCpuFlags::none());
}

#[test]
fn uploads_must_fill_the_texture() {
    let t = tex(2, 3, TextureFormat::R8g8b8a8Unorm);
    assert_eq!(t.resource(), 77);
    assert!(t.draw_check(24).is_ok());
    assert_eq!(t.draw_check(23), Err(TextureError::InvalidSize));
    assert_eq!(TextureError::InvalidSize.message(), "Invalid data size for texture dimensions");
}

#[test]
fn section_bytes_go_to_their_rows() {
    let t = tex(4, 3, TextureFormat::A8Unorm);
    // a 2x2 section at (1, 1): rows of 2 bytes
    let v = t.section_targets(1, 1, 2, 2, 4).unwrap();
    assert_eq!(v, vec![3, 4, 7, 8]);
    assert_eq!(t.section_targets(1, 1, 2, 2, 5), Err(TextureError::InvalidSize));
    assert_eq!(t.section_targets(3, 1, 2, 2, 4), Err(TextureError::OutOfBounds));
    assert_eq!(TextureError::OutOfBounds.message(), "Section extends beyond texture borders");
}

#[test]
fn pointer_buttons_from_key_states() {
    let mut last = vec![false; 256];
    let mut now = vec![false; 256];
    now[1] = true;
    now[4] = true;
    last[6] = true;
    now[3] = true;
    assert_eq!(
        pointer_changes(&last, &now),
        vec![(PointerButton::Primary, true), (PointerButton::Middle, true), (PointerButton::Extra2, false)]
    );
    last = now.clone();
    assert!(pointer_changes(&last, &now).is_empty());
}

#[test]
fn key_states_above_one_are_down() {
    assert_eq!(keys_down(&[0, 1, 2, 0x80]), vec![false, false, true, true]);
}

#[test]
fn colours_pack_alpha_first() {
    assert_eq!(pack_abgr(0x11, 0x22, 0x33, 0x44), 0x4433_2211);
    assert_eq!(pack_abgr(255, 255, 255, 255), 0xFFFF_FFFF);
}

#[test]
fn nul_lists_split_and_join() {
    assert_eq!(split_nul("a\0bc\0"), vec!["a".to_string(), "bc".to_string(), String::new()]);
    assert_eq!(split_nul(""), vec![String::new()]);
    let parts = vec!["col".to_string(), "".to_string(), "mod".to_string()];
    let joined = join_nul(&parts);
    assert_eq!(joined, "col\0\0mod");
    assert_eq!(split_nul(&joined), parts);
    assert_eq!(join_nul(&vec![]), "");
}

#[test]
fn texture_updates_patch_the_copy() {
    // a 3 pixel wide texture with 1 byte per pixel, 2 rows
    let mut copy = vec![0u8; 6];
    patch_texture_data(&mut copy, 3, 1, 1, 0, 2, &[7, 8, 9, 10]);
    assert_eq!(copy, vec![0, 7, 8, 0, 9, 10]);
    // 2 pixels wide, 2 bytes per pixel, one pixel written on the second row
    let mut copy = vec![1u8; 8];
    patch_texture_data(&mut copy, 2, 2, 0, 1, 1, &[5, 6]);
    assert_eq!(copy, vec![1, 1, 1, 1, 5, 6, 1, 1]);
}
