//! Window messages turned into input events: the keyboard modifiers, the
//! pending half of a UTF-16 surrogate pair and the pointer position are the
//! state; each message may give one event.
use vstd::prelude::*;
use crate::text::char_from_u32;

verus! {

/// The keys that are passed on.
#[derive(Copy, Clone, Debug, PartialEq, Eq, Structural)]
pub enum Key {
    Backspace,
    Tab,
    Enter,
    Escape,
    Space,
    PageUp,
    PageDown,
    Home,
    End,
    Insert,
    Delete,
    ArrowLeft,
    ArrowUp,
    ArrowRight,
    ArrowDown,
    Num0,
    Num1,
    Num2,
    Num3,
    Num4,
    Num5,
    Num6,
    Num7,
    Num8,
    Num9,
    A,
    B,
    C,
    D,
    E,
    F,
    G,
    H,
    I,
    J,
    K,
    L,
    M,
    N,
    O,
    P,
    Q,
    R,
    S,
    T,
    U,
    V,
    W,
    X,
    Y,
    Z,
    F1,
    F2,
    F3,
    F4,
    F5,
    F6,
    F7,
    F8,
    F9,
    F10,
    F11,
    F12,
    F13,
    F14,
    F15,
    F16,
    F17,
    F18,
    F19,
    F20,
    Minus,
    PlusEquals,
}

/// The virtual-key code of each key.
pub open spec fn key_code(k: Key) -> u16 {
    match k {
        Key::Backspace => 0x08,
        Key::Tab => 0x09,
        Key::Enter => 0x0D,
        Key::Escape => 0x18,
        Key::Space => 0x20,
        Key::PageUp => 0x21,
        Key::PageDown => 0x22,
        Key::Home => 0x24,
        Key::End => 0x23,
        Key::Insert => 0x2D,
        Key::Delete => 0x2E,
        Key::ArrowLeft => 0x25,
        Key::ArrowUp => 0x26,
        Key::ArrowRight => 0x27,
        Key::ArrowDown => 0x28,
        Key::Num0 => 0x30,
        Key::Num1 => 0x31,
        Key::Num2 => 0x32,
        Key::Num3 => 0x33,
        Key::Num4 => 0x34,
        Key::Num5 => 0x35,
        Key::Num6 => 0x36,
        Key::Num7 => 0x37,
        Key::Num8 => 0x38,
        Key::Num9 => 0x39,
        Key::A => 0x41,
        Key::B => 0x42,
        Key::C => 0x43,
        Key::D => 0x44,
        Key::E => 0x45,
        Key::F => 0x46,
        Key::G => 0x47,
        Key::H => 0x48,
        Key::I => 0x49,
        Key::J => 0x4A,
        Key::K => 0x4B,
        Key::L => 0x4C,
        Key::M => 0x4D,
        Key::N => 0x4E,
        Key::O => 0x4F,
        Key::P => 0x50,
        Key::Q => 0x51,
        Key::R => 0x52,
        Key::S => 0x53,
        Key::T => 0x54,
        Key::U => 0x55,
        Key::V => 0x56,
        Key::W => 0x57,
        Key::X => 0x58,
        Key::Y => 0x59,
        Key::Z => 0x5A,
        Key::F1 => 0x70,
        Key::F2 => 0x71,
        Key::F3 => 0x72,
        Key::F4 => 0x73,
        Key::F5 => 0x74,
        Key::F6 => 0x75,
        Key::F7 => 0x76,
        Key::F8 => 0x77,
        Key::F9 => 0x78,
        Key::F10 => 0x79,
        Key::F11 => 0x7A,
        Key::F12 => 0x7B,
        Key::F13 => 0x7C,
        Key::F14 => 0x7D,
        Key::F15 => 0x7E,
        Key::F16 => 0x7F,
        Key::F17 => 0x80,
        Key::F18 => 0x81,
        Key::F19 => 0x82,
        Key::F20 => 0x83,
        Key::Minus => 0xBD,
        Key::PlusEquals => 0xBB,
    }
}

/// The letter keys, A to Z.
pub open spec fn letter_keys() -> Seq<Key> {
    seq![Key::A, Key::B, Key::C, Key::D, Key::E, Key::F, Key::G, Key::H, Key::I, Key::J, Key::K, Key::L, Key::M, Key::N, Key::O, Key::P, Key::Q, Key::R, Key::S, Key::T, Key::U, Key::V, Key::W, Key::X, Key::Y, Key::Z]
}

/// The digit keys, 0 to 9.
pub open spec fn digit_keys() -> Seq<Key> {
    seq![Key::Num0, Key::Num1, Key::Num2, Key::Num3, Key::Num4, Key::Num5, Key::Num6, Key::Num7, Key::Num8, Key::Num9]
}

/// The function keys, F1 to F20.
pub open spec fn function_keys() -> Seq<Key> {
    seq![Key::F1, Key::F2, Key::F3, Key::F4, Key::F5, Key::F6, Key::F7, Key::F8, Key::F9, Key::F10, Key::F11, Key::F12, Key::F13, Key::F14, Key::F15, Key::F16, Key::F17, Key::F18, Key::F19, Key::F20]
}

/// The Windows virtual-key codes: a letter is 0x41 plus its place in the
/// alphabet (A = 0x41, Z = 0x5A), a digit 0x30 plus its value, F1 to F20
/// are 0x70 to 0x83; the other keys have the codes listed.
pub proof fn lemma_virtual_key_codes()
    ensures
        forall|i: int| 0 <= i < 26 ==> key_code(#[trigger] letter_keys()[i]) == 0x41 + i,
        forall|i: int| 0 <= i < 10 ==> key_code(#[trigger] digit_keys()[i]) == 0x30 + i,
        forall|i: int| 0 <= i < 20 ==> key_code(#[trigger] function_keys()[i]) == 0x70 + i,
        key_code(Key::Backspace) == 0x08,
        key_code(Key::Tab) == 0x09,
        key_code(Key::Enter) == 0x0D,
        key_code(Key::Escape) == 0x18,
        key_code(Key::Space) == 0x20,
        key_code(Key::PageUp) == 0x21,
        key_code(Key::PageDown) == 0x22,
        key_code(Key::End) == 0x23,
        key_code(Key::Home) == 0x24,
        key_code(Key::ArrowLeft) == 0x25,
        key_code(Key::ArrowUp) == 0x26,
        key_code(Key::ArrowRight) == 0x27,
        key_code(Key::ArrowDown) == 0x28,
        key_code(Key::Insert) == 0x2D,
        key_code(Key::Delete) == 0x2E,
        key_code(Key::PlusEquals) == 0xBB,
        key_code(Key::Minus) == 0xBD,
{
    assert forall|i: int| 0 <= i < 26 implies key_code(#[trigger] letter_keys()[i]) == 0x41 + i by {
        assert(key_code(letter_keys()[0]) == 0x41);
        assert(key_code(letter_keys()[1]) == 0x42);
        assert(key_code(letter_keys()[2]) == 0x43);
        assert(key_code(letter_keys()[3]) == 0x44);
        assert(key_code(letter_keys()[4]) == 0x45);
        assert(key_code(letter_keys()[5]) == 0x46);
        assert(key_code(letter_keys()[6]) == 0x47);
        assert(key_code(letter_keys()[7]) == 0x48);
        assert(key_code(letter_keys()[8]) == 0x49);
        assert(key_code(letter_keys()[9]) == 0x4a);
        assert(key_code(letter_keys()[10]) == 0x4b);
        assert(key_code(letter_keys()[11]) == 0x4c);
        assert(key_code(letter_keys()[12]) == 0x4d);
        assert(key_code(letter_keys()[13]) == 0x4e);
        assert(key_code(letter_keys()[14]) == 0x4f);
        assert(key_code(letter_keys()[15]) == 0x50);
        assert(key_code(letter_keys()[16]) == 0x51);
        assert(key_code(letter_keys()[17]) == 0x52);
        assert(key_code(letter_keys()[18]) == 0x53);
        assert(key_code(letter_keys()[19]) == 0x54);
        assert(key_code(letter_keys()[20]) == 0x55);
        assert(key_code(letter_keys()[21]) == 0x56);
        assert(key_code(letter_keys()[22]) == 0x57);
        assert(key_code(letter_keys()[23]) == 0x58);
        assert(key_code(letter_keys()[24]) == 0x59);
        assert(key_code(letter_keys()[25]) == 0x5a);
    }
    assert forall|i: int| 0 <= i < 10 implies key_code(#[trigger] digit_keys()[i]) == 0x30 + i by {
        assert(key_code(digit_keys()[0]) == 0x30);
        assert(key_code(digit_keys()[1]) == 0x31);
        assert(key_code(digit_keys()[2]) == 0x32);
        assert(key_code(digit_keys()[3]) == 0x33);
        assert(key_code(digit_keys()[4]) == 0x34);
        assert(key_code(digit_keys()[5]) == 0x35);
        assert(key_code(digit_keys()[6]) == 0x36);
        assert(key_code(digit_keys()[7]) == 0x37);
        assert(key_code(digit_keys()[8]) == 0x38);
        assert(key_code(digit_keys()[9]) == 0x39);
    }
    assert forall|i: int| 0 <= i < 20 implies key_code(#[trigger] function_keys()[i]) == 0x70 + i by {
        assert(key_code(function_keys()[0]) == 0x70);
        assert(key_code(function_keys()[1]) == 0x71);
        assert(key_code(function_keys()[2]) == 0x72);
        assert(key_code(function_keys()[3]) == 0x73);
        assert(key_code(function_keys()[4]) == 0x74);
        assert(key_code(function_keys()[5]) == 0x75);
        assert(key_code(function_keys()[6]) == 0x76);
        assert(key_code(function_keys()[7]) == 0x77);
        assert(key_code(function_keys()[8]) == 0x78);
        assert(key_code(function_keys()[9]) == 0x79);
        assert(key_code(function_keys()[10]) == 0x7a);
        assert(key_code(function_keys()[11]) == 0x7b);
        assert(key_code(function_keys()[12]) == 0x7c);
        assert(key_code(function_keys()[13]) == 0x7d);
        assert(key_code(function_keys()[14]) == 0x7e);
        assert(key_code(function_keys()[15]) == 0x7f);
        assert(key_code(function_keys()[16]) == 0x80);
        assert(key_code(function_keys()[17]) == 0x81);
        assert(key_code(function_keys()[18]) == 0x82);
        assert(key_code(function_keys()[19]) == 0x83);
    }
}

/// The key with virtual-key code `key`, if it is one that is passed on.
pub fn convert_key(key: u16) -> (r: Option<Key>)
    ensures
        r matches Some(k) ==> key_code(k) == key,
        r is None ==> forall|k: Key| key_code(k) != key,
{
    match key {
        0x08 => Some(Key::Backspace),
        0x09 => Some(Key::Tab),
        0x0D => Some(Key::Enter),
        0x18 => Some(Key::Escape),
        0x20 => Some(Key::Space),
        0x21 => Some(Key::PageUp),
        0x22 => Some(Key::PageDown),
        0x24 => Some(Key::Home),
        0x23 => Some(Key::End),
        0x2D => Some(Key::Insert),
        0x2E => Some(Key::Delete),
        0x25 => Some(Key::ArrowLeft),
        0x26 => Some(Key::ArrowUp),
        0x27 => Some(Key::ArrowRight),
        0x28 => Some(Key::ArrowDown),
        0x30 => Some(Key::Num0),
        0x31 => Some(Key::Num1),
        0x32 => Some(Key::Num2),
        0x33 => Some(Key::Num3),
        0x34 => Some(Key::Num4),
        0x35 => Some(Key::Num5),
        0x36 => Some(Key::Num6),
        0x37 => Some(Key::Num7),
        0x38 => Some(Key::Num8),
        0x39 => Some(Key::Num9),
        0x41 => Some(Key::A),
        0x42 => Some(Key::B),
        0x43 => Some(Key::C),
        0x44 => Some(Key::D),
        0x45 => Some(Key::E),
        0x46 => Some(Key::F),
        0x47 => Some(Key::G),
        0x48 => Some(Key::H),
        0x49 => Some(Key::I),
        0x4A => Some(Key::J),
        0x4B => Some(Key::K),
        0x4C => Some(Key::L),
        0x4D => Some(Key::M),
        0x4E => Some(Key::N),
        0x4F => Some(Key::O),
        0x50 => Some(Key::P),
        0x51 => Some(Key::Q),
        0x52 => Some(Key::R),
        0x53 => Some(Key::S),
        0x54 => Some(Key::T),
        0x55 => Some(Key::U),
        0x56 => Some(Key::V),
        0x57 => Some(Key::W),
        0x58 => Some(Key::X),
        0x59 => Some(Key::Y),
        0x5A => Some(Key::Z),
        0x70 => Some(Key::F1),
        0x71 => Some(Key::F2),
        0x72 => Some(Key::F3),
        0x73 => Some(Key::F4),
        0x74 => Some(Key::F5),
        0x75 => Some(Key::F6),
        0x76 => Some(Key::F7),
        0x77 => Some(Key::F8),
        0x78 => Some(Key::F9),
        0x79 => Some(Key::F10),
        0x7A => Some(Key::F11),
        0x7B => Some(Key::F12),
        0x7C => Some(Key::F13),
        0x7D => Some(Key::F14),
        0x7E => Some(Key::F15),
        0x7F => Some(Key::F16),
        0x80 => Some(Key::F17),
        0x81 => Some(Key::F18),
        0x82 => Some(Key::F19),
        0x83 => Some(Key::F20),
        0xBD => Some(Key::Minus),
        0xBB => Some(Key::PlusEquals),
        _ => None,
    }
}

/// A character from a private use area.
pub open spec fn in_private_use(c: char) -> bool {
    ('\u{e000}' <= c && c <= '\u{f8ff}') || ('\u{f0000}' <= c && c <= '\u{ffffd}') || ('\u{100000}' <= c
        && c <= '\u{10fffd}')
}

/// An ASCII control character.
pub open spec fn ascii_control(c: char) -> bool {
    c <= '\u{1f}' || c == '\u{7f}'
}

/// Typed characters are passed on unless they are private use or control
/// characters.
pub fn is_printable_char(chr: char) -> (r: bool)
    ensures
        r == (!in_private_use(chr) && !ascii_control(chr)),
{
    let is_in_private_use_area = ('\u{e000}' <= chr && chr <= '\u{f8ff}') || ('\u{f0000}' <= chr && chr
        <= '\u{ffffd}') || ('\u{100000}' <= chr && chr <= '\u{10fffd}');
    !is_in_private_use_area && !(chr <= '\u{1f}' || chr == '\u{7f}')
}

/// The keyboard modifiers held.
#[derive(Copy, Clone, Debug, PartialEq, Eq, Structural)]
pub struct Modifiers {
    pub alt: bool,
    pub ctrl: bool,
    pub shift: bool,
    pub mac_cmd: bool,
    pub command: bool,
}

impl Modifiers {
    pub open spec fn released() -> Modifiers {
        Modifiers { alt: false, ctrl: false, shift: false, mac_cmd: false, command: false }
    }

    /// No modifier held.
    pub fn none() -> (r: Modifiers)
        ensures
            r == Modifiers::released(),
    {
        Modifiers { alt: false, ctrl: false, shift: false, mac_cmd: false, command: false }
    }
}

/// A window message, with its raw parameters.
#[derive(Copy, Clone, Debug, PartialEq, Eq, Structural)]
pub enum Message {
    /// The window's non-client area changed; `active` when it became active.
    NcActivate { active: bool },
    SetFocus,
    MouseMove { lparam: isize },
    MouseLeave,
    MouseWheel { wparam: usize },
    MouseHWheel { wparam: usize },
    KeyDown { wparam: usize, lparam: isize },
    KeyUp { wparam: usize },
    Char { wparam: usize },
    Other,
}

/// An input event for the UI.  Wheel deltas are the raw 16-bit amounts, in
/// units of the platform's wheel step; positions are in pixels.
#[derive(Copy, Clone, Debug, PartialEq, Eq, Structural)]
pub enum InputEvent {
    Key { key: Key, pressed: bool, repeat: bool, modifiers: Modifiers },
    Text(char),
    PointerMoved { x: u16, y: u16 },
    PointerGone,
    MouseWheel { horizontal: bool, delta: u16, modifiers: Modifiers },
}

/// The input state kept between messages.
#[derive(Copy, Clone, Debug, PartialEq, Eq, Structural)]
pub struct InputState {
    pub modifiers: Modifiers,
    /// The high half of a surrogate pair waiting for its low half.
    pub surrogate: Option<u16>,
    pub pos_x: u16,
    pub pos_y: u16,
}

pub open spec fn is_high_surrogate(w: usize) -> bool {
    0xD800 <= w && w <= 0xDBFF
}

pub open spec fn is_low_surrogate(w: usize) -> bool {
    0xDC00 <= w && w <= 0xDFFF
}

/// The code point of a surrogate pair.
pub open spec fn pair_code(high: int, low: int) -> int {
    0x10000 + (high - 0xD800) * 0x400 + (low - 0xDC00)
}

/// The modifiers after a key goes down (`down`) or up.
pub open spec fn modifiers_after(m: Modifiers, code: u16, down: bool) -> Modifiers {
    if code == 0x12 {
        Modifiers { alt: down, ..m }
    } else if code == 0x11 {
        Modifiers { ctrl: down, command: down, ..m }
    } else if code == 0x10 {
        Modifiers { shift: down, ..m }
    } else {
        m
    }
}

/// The modifier keys: alt, control, shift.
pub open spec fn is_modifier_key(code: u16) -> bool {
    code == 0x12 || code == 0x11 || code == 0x10
}

/// A key going down or up: modifier keys change the modifiers, other known
/// keys give a key event.
pub open spec fn key_step(s: InputState, code: u16, down: bool, repeat: bool) -> (InputState, Option<InputEvent>) {
    if is_modifier_key(code) {
        (InputState { modifiers: modifiers_after(s.modifiers, code, down), ..s }, None)
    } else if exists|k: Key| key_code(k) == code {
        let k = choose|k: Key| key_code(k) == code;
        (s, Some(InputEvent::Key { key: k, pressed: down, repeat, modifiers: s.modifiers }))
    } else {
        (s, None)
    }
}

/// A typed UTF-16 unit: a high surrogate waits for its low half, a low half
/// completes a waiting pair, anything else stands alone; printable characters
/// give a text event.
pub open spec fn char_step(s: InputState, wparam: usize) -> (InputState, Option<InputEvent>) {
    if is_high_surrogate(wparam) {
        (InputState { surrogate: Some(wparam as u16), ..s }, None)
    } else if is_low_surrogate(wparam) {
        let s2 = InputState { surrogate: None, ..s };
        match s.surrogate {
            Some(high) => {
                let c = pair_code(high as int, wparam as int) as u32;
                if is_high_surrogate(high as usize) && !in_private_use(c as char) && !ascii_control(c as char) {
                    (s2, Some(InputEvent::Text(c as char)))
                } else {
                    (s2, None)
                }
            },
            None => (s2, None),
        }
    } else {
        let s2 = InputState { surrogate: None, ..s };
        let v = wparam as u32;
        if (v <= 0xD7FF || (0xE000 <= v && v <= 0x10FFFF)) && !in_private_use(v as char) && !ascii_control(v as char) {
            (s2, Some(InputEvent::Text(v as char)))
        } else {
            (s2, None)
        }
    }
}

/// The state and event that message `msg` gives in state `s`.
pub open spec fn step(s: InputState, msg: Message) -> (InputState, Option<InputEvent>) {
    match msg {
        Message::NcActivate { active } => (
            if active {
                InputState { modifiers: Modifiers::released(), ..s }
            } else {
                s
            },
            None,
        ),
        Message::SetFocus => (InputState { modifiers: Modifiers::released(), ..s }, None),
        Message::MouseMove { lparam } => {
            let x = ((lparam as u32) & 0xFFFF) as u16;
            let y = (((lparam as u32) >> 16u32) & 0xFFFF) as u16;
            (InputState { pos_x: x, pos_y: y, ..s }, Some(InputEvent::PointerMoved { x, y }))
        },
        Message::MouseLeave => (s, Some(InputEvent::PointerGone)),
        Message::MouseWheel { wparam } => (
            s,
            Some(
                InputEvent::MouseWheel {
                    horizontal: false,
                    delta: ((wparam >> 16usize) & 0xFFFF) as u16,
                    modifiers: s.modifiers,
                },
            ),
        ),
        Message::MouseHWheel { wparam } => (
            s,
            Some(
                InputEvent::MouseWheel {
                    horizontal: true,
                    delta: ((wparam >> 16usize) & 0xFFFF) as u16,
                    modifiers: s.modifiers,
                },
            ),
        ),
        Message::KeyDown { wparam, lparam } => key_step(s, wparam as u16, true, (lparam >> 30isize) & 1 == 0),
        Message::KeyUp { wparam } => key_step(s, wparam as u16, false, false),
        Message::Char { wparam } => char_step(s, wparam),
        Message::Other => (s, None),
    }
}

/// A high surrogate is only ever kept waiting.
pub open spec fn state_wf(s: InputState) -> bool {
    s.surrogate matches Some(h) ==> 0xD800 <= h && h <= 0xDBFF
}

impl InputState {
    /// Nothing held, nothing pending, the pointer at the origin.
    pub fn new() -> (r: InputState)
        ensures
            state_wf(r),
            r.modifiers == Modifiers::released(),
            r.surrogate is None,
            r.pos_x == 0 && r.pos_y == 0,
    {
        InputState { modifiers: Modifiers::none(), surrogate: None, pos_x: 0, pos_y: 0 }
    }

    fn on_key(&mut self, code: u16, down: bool, repeat: bool) -> (ev: Option<InputEvent>)
        requires
            state_wf(*old(self)),
        ensures
            state_wf(*final(self)),
            (*final(self), ev) == key_step(*old(self), code, down, repeat),
    {
        if code == 0x12 {
            self.modifiers.alt = down;
            None
        } else if code == 0x11 {
            self.modifiers.ctrl = down;
            self.modifiers.command = down;
            None
        } else if code == 0x10 {
            self.modifiers.shift = down;
            None
        } else {
            match convert_key(code) {
                Some(key) => {
                    proof {
                        lemma_key_code_injective(key, choose|k: Key| key_code(k) == code);
                    }
                    Some(InputEvent::Key { key, pressed: down, repeat, modifiers: self.modifiers })
                },
                None => None,
            }
        }
    }

    fn on_char(&mut self, wparam: usize) -> (ev: Option<InputEvent>)
        requires
            state_wf(*old(self)),
        ensures
            state_wf(*final(self)),
            (*final(self), ev) == char_step(*old(self), wparam),
    {
        if 0xD800 <= wparam && wparam <= 0xDBFF {
            self.surrogate = Some(wparam as u16);
            None
        } else if 0xDC00 <= wparam && wparam <= 0xDFFF {
            let high = self.surrogate;
            self.surrogate = None;
            match high {
                Some(h) => {
                    let code: u32 = 0x10000 + (h as u32 - 0xD800) * 0x400 + (wparam as u32 - 0xDC00);
                    assert(code as int == pair_code(h as int, wparam as int));
                    match char_from_u32(code) {
                        Some(c) => {
                            proof {
                                vstd::utf8::char_u32_cast(c, code);
                            }
                            if is_printable_char(c) {
                                Some(InputEvent::Text(c))
                            } else {
                                None
                            }
                        },
                        None => None,
                    }
                },
                None => None,
            }
        } else {
            self.surrogate = None;
            let v = wparam as u32;
            match char_from_u32(v) {
                Some(c) => {
                    proof {
                        vstd::utf8::char_u32_cast(c, v);
                    }
                    if is_printable_char(c) {
                        Some(InputEvent::Text(c))
                    } else {
                        None
                    }
                },
                None => None,
            }
        }
    }

    /// Handles one message: the state moves on and at most one event comes out.
    pub fn handle(&mut self, msg: Message) -> (ev: Option<InputEvent>)
        requires
            state_wf(*old(self)),
        ensures
            state_wf(*final(self)),
            (*final(self), ev) == step(*old(self), msg),
    {
        match msg {
            Message::NcActivate { active } => {
                if active {
                    self.modifiers = Modifiers::none();
                }
                None
            },
            Message::SetFocus => {
                self.modifiers = Modifiers::none();
                None
            },
            Message::MouseMove { lparam } => {
                let x = ((lparam as u32) & 0xFFFF) as u16;
                let y = (((lparam as u32) >> 16u32) & 0xFFFF) as u16;
                self.pos_x = x;
                self.pos_y = y;
                Some(InputEvent::PointerMoved { x, y })
            },
            Message::MouseLeave => Some(InputEvent::PointerGone),
            Message::MouseWheel { wparam } => Some(
                InputEvent::MouseWheel {
                    horizontal: false,
                    delta: ((wparam >> 16usize) & 0xFFFF) as u16,
                    modifiers: self.modifiers,
                },
            ),
            Message::MouseHWheel { wparam } => Some(
                InputEvent::MouseWheel {
                    horizontal: true,
                    delta: ((wparam >> 16usize) & 0xFFFF) as u16,
                    modifiers: self.modifiers,
                },
            ),
            Message::KeyDown { wparam, lparam } => self.on_key(wparam as u16, true, (lparam >> 30isize) & 1 == 0),
            Message::KeyUp { wparam } => self.on_key(wparam as u16, false, false),
            Message::Char { wparam } => self.on_char(wparam),
            Message::Other => None,
        }
    }
}

/// Different keys have different codes.
pub proof fn lemma_key_code_injective(a: Key, b: Key)
    requires
        key_code(a) == key_code(b),
    ensures
        a == b,
{
}

/// The two halves of a surrogate pair typed one after the other give the
/// character they encode (when it is printable), and nothing stays pending.
pub proof fn lemma_surrogate_pair(s: InputState, high: usize, low: usize)
    requires
        state_wf(s),
        is_high_surrogate(high),
        is_low_surrogate(low),
    ensures
        ({
            let (s1, e1) = step(s, Message::Char { wparam: high });
            let (s2, e2) = step(s1, Message::Char { wparam: low });
            let c = (pair_code(high as int, low as int) as u32) as char;
            &&& e1 is None
            &&& s2.surrogate is None
            &&& s2.modifiers == s.modifiers
            &&& e2 == if !in_private_use(c) && !ascii_control(c) {
                Some(InputEvent::Text(c))
            } else {
                None
            }
        }),
{
    let s1 = step(s, Message::Char { wparam: high }).0;
    assert(s1.surrogate == Some(high as u16));
    assert((high as u16) as int == high as int);
}

/// Pressing and releasing a modifier key leaves it released, whatever was
/// held before, and gives no event.
pub proof fn lemma_modifier_press_release(s: InputState, code: u16, repeat: bool)
    requires
        is_modifier_key(code),
    ensures
        ({
            let (s1, e1) = key_step(s, code, true, repeat);
            let (s2, e2) = key_step(s1, code, false, false);
            &&& e1 is None && e2 is None
            &&& s2.modifiers == modifiers_after(s.modifiers, code, false)
            &&& s2.surrogate == s.surrogate
        }),
{
}

/// What the window messages carry: a pointer move gives the position in the
/// low (x) and high (y) 16 bits of its `lparam`; a wheel gives the high 16
/// bits of its `wparam` as the delta, vertical for the wheel and horizontal
/// for the tilt wheel; shift (0x10), control (0x11, also the command
/// modifier) and alt (0x12) going down or up only set or clear their
/// modifier; another key going down gives the key whose virtual-key code it
/// is, pressed, and a repeat when bit 30 of `lparam` is clear.
pub proof fn lemma_window_messages(s: InputState, lparam: isize, wparam: usize, down: bool)
    ensures
        step(s, Message::MouseMove { lparam }).1 matches Some(InputEvent::PointerMoved { x, y }) && x as int == (lparam as u32)
            as int % 65536 && y as int == (lparam as u32) as int / 65536,
        step(s, Message::MouseWheel { wparam }).1 matches Some(InputEvent::MouseWheel { horizontal, delta, modifiers })
            && !horizontal && delta as int == (wparam as int / 65536) % 65536 && modifiers == s.modifiers,
        step(s, Message::MouseHWheel { wparam }).1 matches Some(InputEvent::MouseWheel { horizontal, delta, modifiers })
            && horizontal && delta as int == (wparam as int / 65536) % 65536 && modifiers == s.modifiers,
        key_step(s, 0x10, down, false) == (InputState { modifiers: Modifiers { shift: down, ..s.modifiers }, ..s }, None::<InputEvent>),
        key_step(s, 0x11, down, false) == (InputState { modifiers: Modifiers { ctrl: down, command: down, ..s.modifiers }, ..s }, None::<InputEvent>),
        key_step(s, 0x12, down, false) == (InputState { modifiers: Modifiers { alt: down, ..s.modifiers }, ..s }, None::<InputEvent>),
        forall|k: Key|
            #![trigger key_code(k)]
            (wparam as u16) == key_code(k) ==> step(s, Message::KeyDown { wparam, lparam }) == (s, Some(
                InputEvent::Key { key: k, pressed: true, repeat: (lparam as int / 0x4000_0000) % 2 == 0, modifiers: s.modifiers },
            )),
{
    let v = lparam as u32;
    assert((v & 0xFFFF) as int == v as int % 65536 && ((v >> 16u32) & 0xFFFF) as int == v as int / 65536) by (bit_vector);
    assert(((wparam >> 16usize) & 0xFFFF) as int == (wparam as int / 65536) % 65536) by (bit_vector);
    assert(((lparam >> 30isize) & 1 == 0) == ((lparam as int / 0x4000_0000) % 2 == 0)) by (bit_vector);
    assert forall|k: Key|
        #![trigger key_code(k)]
        (wparam as u16) == key_code(k) implies step(s, Message::KeyDown { wparam, lparam }) == (s, Some(
            InputEvent::Key { key: k, pressed: true, repeat: (lparam as int / 0x4000_0000) % 2 == 0, modifiers: s.modifiers },
        )) by {
        let code = wparam as u16;
        assert(!is_modifier_key(code));
        let c = choose|k2: Key| key_code(k2) == code;
        lemma_key_code_injective(c, k);
    }
}

} // verus!
