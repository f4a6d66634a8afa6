use aetherment::ui_enums::{Col, Cond, DataType, DataTypePrivate, Dir, Key, LayoutType, MouseButton, MouseCursor, NavInput, SortDirection, StyleVar, TableBgTarget};
use aetherment::ui_texture::{Texture, TextureError, TextureOptions};

#[test]
fn enum_numbers_match_the_native_side() {
    assert_eq!(Col::Text.code(), 0);
    assert_eq!(Col::ModalWindowDimBg.code(), 52);
    assert_eq!(Col::COUNT.code(), 53);
    assert_eq!(Cond::FirstUseEver.code(), 4);
    assert_eq!(Cond::Unset.code(), 0);
    assert_eq!(DataType::Double.code(), 9);
    assert_eq!(Dir::Down.code(), 3);
    assert_eq!(Key::NoKey.code(), 0);
    assert_eq!(Key::Tab.code(), 512);
    assert_eq!(Key::A.code(), 546);
    assert_eq!(Key::ModSuper.code(), 644);
    assert_eq!(NavInput::COUNT.code(), 20);
    assert_eq!(MouseButton::COUNT.code(), 5);
    assert_eq!(MouseCursor::NotAllowed.code(), 8);
    assert_eq!(SortDirection::Descending.code(), 2);
    assert_eq!(StyleVar::ItemSpacing.code(), 14);
    assert_eq!(TableBgTarget::CellBg.code(), 3);
    assert_eq!(LayoutType::Vertical.code(), 1);
    assert_eq!(DataTypePrivate::ID.code(), 13);
}

#[test]
fn enum_numbers_read_back() {
    assert_eq!(Key::from_code(546), Some(Key::A));
    assert_eq!(Key::from_code(536), None);
    assert_eq!(Col::from_code(24), Some(Col::Header));
    assert_eq!(Col::from_code(54), None);
    assert_eq!(Cond::from_code(3), None);
    assert_eq!(SortDirection::from_code(0), Some(SortDirection::NoSort));
    for k in [Key::Escape, Key::GamepadRStickRight, Key::KeypadEqual, Key::COUNT] {
        assert_eq!(Key::from_code(k.code()), Some(k));
    }
    for c in [StyleVar::Alpha, StyleVar::SelectableTextAlign, StyleVar::COUNT] {
        assert_eq!(StyleVar::from_code(c.code()), Some(c));
    }
}

#[test]
fn ui_texture_handles() {
    let t = Texture::from_resource(TextureOptions { width: 2, height: 2, format: 28, usage: 2, cpu_access_flags: 0x10000 }, 9);
    assert_eq!((t.width, t.height, t.resource()), (2, 2, 9));
    assert!(t.draw_check(16).is_ok());
    assert_eq!(t.draw_check(15), Err(TextureError::InvalidSize));
    assert_eq!(TextureError::InvalidSize.message(), "Invalid data size for texture dimensions");
    let e = Texture::empty();
    assert_eq!((e.width, e.height, e.resource()), (0, 0, 0));
    assert!(e.draw_check(0).is_ok());
}
