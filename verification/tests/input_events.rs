use aetherment::input::{convert_key, is_printable_char, InputEvent, InputState, Key, Message, Modifiers};

#[test]
fn virtual_keys_convert() {
    assert_eq!(convert_key(0x08), Some(Key::Backspace));
    assert_eq!(convert_key(0x41), Some(Key::A));
    assert_eq!(convert_key(0x83), Some(Key::F20));
    assert_eq!(convert_key(0xBB), Some(Key::PlusEquals));
    assert_eq!(convert_key(0x10), None);
    assert_eq!(convert_key(0x5B), None);
}

#[test]
fn printable_characters() {
    assert!(is_printable_char('a'));
    assert!(is_printable_char('é'));
    assert!(!is_printable_char('\u{7}'));
    assert!(!is_printable_char('\u{7f}'));
    assert!(!is_printable_char('\u{e000}'));
    assert!(!is_printable_char('\u{10fffd}'));
    assert!(is_printable_char('\u{10fffe}'));
}

#[test]
fn modifiers_follow_key_presses() {
    let mut st = InputState::new();
    assert_eq!(st.handle(Message::KeyDown { wparam: 0x10, lparam: 0 }), None);
    assert!(st.modifiers.shift);
    assert_eq!(st.handle(Message::KeyDown { wparam: 0x11, lparam: 0 }), None);
    assert!(st.modifiers.ctrl && st.modifiers.command);
    let ev = st.handle(Message::KeyDown { wparam: 0x41, lparam: 0 });
    assert_eq!(
        ev,
        Some(InputEvent::Key {
            key: Key::A,
            pressed: true,
            repeat: true,
            modifiers: Modifiers { alt: false, ctrl: true, shift: true, mac_cmd: false, command: true },
        })
    );
    assert_eq!(st.handle(Message::KeyUp { wparam: 0x10 }), None);
    assert!(!st.modifiers.shift);
    let ev = st.handle(Message::KeyDown { wparam: 0x41, lparam: 1 << 30 });
    assert!(matches!(ev, Some(InputEvent::Key { repeat: false, .. })));
    st.handle(Message::SetFocus);
    assert_eq!(st.modifiers, Modifiers::none());
}

#[test]
fn key_release_is_never_a_repeat() {
    let mut st = InputState::new();
    let ev = st.handle(Message::KeyUp { wparam: 0x0D });
    assert_eq!(ev, Some(InputEvent::Key { key: Key::Enter, pressed: false, repeat: false, modifiers: Modifiers::none() }));
    assert_eq!(st.handle(Message::KeyUp { wparam: 0xFF }), None);
}

#[test]
fn activation_clears_modifiers_only_when_active() {
    let mut st = InputState::new();
    st.handle(Message::KeyDown { wparam: 0x12, lparam: 0 });
    st.handle(Message::NcActivate { active: false });
    assert!(st.modifiers.alt);
    st.handle(Message::NcActivate { active: true });
    assert!(!st.modifiers.alt);
}

#[test]
fn pointer_moves_and_wheel() {
    let mut st = InputState::new();
    let ev = st.handle(Message::MouseMove { lparam: (200 << 16) | 35 });
    assert_eq!(ev, Some(InputEvent::PointerMoved { x: 35, y: 200 }));
    assert_eq!((st.pos_x, st.pos_y), (35, 200));
    assert_eq!(st.handle(Message::MouseLeave), Some(InputEvent::PointerGone));
    let ev = st.handle(Message::MouseWheel { wparam: 120 << 16 });
    assert_eq!(ev, Some(InputEvent::MouseWheel { horizontal: false, delta: 120, modifiers: Modifiers::none() }));
    let ev = st.handle(Message::MouseHWheel { wparam: (0xFF88 << 16) | 5 });
    assert_eq!(ev, Some(InputEvent::MouseWheel { horizontal: true, delta: 0xFF88, modifiers: Modifiers::none() }));
    assert_eq!(st.handle(Message::Other), None);
}

#[test]
fn typed_characters_and_surrogate_pairs() {
    let mut st = InputState::new();
    assert_eq!(st.handle(Message::Char { wparam: 'x' as usize }), Some(InputEvent::Text('x')));
    assert_eq!(st.handle(Message::Char { wparam: 0x08 }), None);
    // U+1F600 is D83D DE00
    assert_eq!(st.handle(Message::Char { wparam: 0xD83D }), None);
    assert_eq!(st.surrogate, Some(0xD83D));
    assert_eq!(st.handle(Message::Char { wparam: 0xDE00 }), Some(InputEvent::Text('\u{1F600}')));
    assert_eq!(st.surrogate, None);
    // a lone low half gives nothing
    assert_eq!(st.handle(Message::Char { wparam: 0xDE00 }), None);
    // private use pair (U+F0000 is DB80 DC00) is dropped
    st.handle(Message::Char { wparam: 0xDB80 });
    assert_eq!(st.handle(Message::Char { wparam: 0xDC00 }), None);
    // a high half followed by another unit is forgotten
    st.handle(Message::Char { wparam: 0xD83D });
    assert_eq!(st.handle(Message::Char { wparam: 'y' as usize }), Some(InputEvent::Text('y')));
    assert_eq!(st.surrogate, None);
}
