//! The enumerations of the immediate-mode UI, each with the number that
//! stands for it on the native side.
use vstd::prelude::*;

verus! {

/// Colours of the style.
#[derive(Copy, Clone, Debug, PartialEq, Eq, Structural)]
pub enum Col {
    Text,
    TextDisabled,
    WindowBg,
    ChildBg,
    PopupBg,
    Border,
    BorderShadow,
    FrameBg,
    FrameBgHovered,
    FrameBgActive,
    TitleBg,
    TitleBgActive,
    TitleBgCollapsed,
    MenuBarBg,
    ScrollbarBg,
    ScrollbarGrab,
    ScrollbarGrabHovered,
    ScrollbarGrabActive,
    CheckMark,
    SliderGrab,
    SliderGrabActive,
    Button,
    ButtonHovered,
    ButtonActive,
    Header,
    HeaderHovered,
    HeaderActive,
    Separator,
    SeparatorHovered,
    SeparatorActive,
    ResizeGrip,
    ResizeGripHovered,
    ResizeGripActive,
    Tab,
    TabHovered,
    TabActive,
    TabUnfocused,
    TabUnfocusedActive,
    PlotLines,
    PlotLinesHovered,
    PlotHistogram,
    PlotHistogramHovered,
    TableHeaderBg,
    TableBorderStrong,
    TableBorderLight,
    TableRowBg,
    TableRowBgAlt,
    TextSelectedBg,
    DragDropTarget,
    NavHighlight,
    NavWindowingHighlight,
    NavWindowingDimBg,
    ModalWindowDimBg,
    COUNT,
}

pub open spec fn col_code(e: Col) -> i32 {
    match e {
        Col::Text => 0,
        Col::TextDisabled => 1,
        Col::WindowBg => 2,
        Col::ChildBg => 3,
        Col::PopupBg => 4,
        Col::Border => 5,
        Col::BorderShadow => 6,
        Col::FrameBg => 7,
        Col::FrameBgHovered => 8,
        Col::FrameBgActive => 9,
        Col::TitleBg => 10,
        Col::TitleBgActive => 11,
        Col::TitleBgCollapsed => 12,
        Col::MenuBarBg => 13,
        Col::ScrollbarBg => 14,
        Col::ScrollbarGrab => 15,
        Col::ScrollbarGrabHovered => 16,
        Col::ScrollbarGrabActive => 17,
        Col::CheckMark => 18,
        Col::SliderGrab => 19,
        Col::SliderGrabActive => 20,
        Col::Button => 21,
        Col::ButtonHovered => 22,
        Col::ButtonActive => 23,
        Col::Header => 24,
        Col::HeaderHovered => 25,
        Col::HeaderActive => 26,
        Col::Separator => 27,
        Col::SeparatorHovered => 28,
        Col::SeparatorActive => 29,
        Col::ResizeGrip => 30,
        Col::ResizeGripHovered => 31,
        Col::ResizeGripActive => 32,
        Col::Tab => 33,
        Col::TabHovered => 34,
        Col::TabActive => 35,
        Col::TabUnfocused => 36,
        Col::TabUnfocusedActive => 37,
        Col::PlotLines => 38,
        Col::PlotLinesHovered => 39,
        Col::PlotHistogram => 40,
        Col::PlotHistogramHovered => 41,
        Col::TableHeaderBg => 42,
        Col::TableBorderStrong => 43,
        Col::TableBorderLight => 44,
        Col::TableRowBg => 45,
        Col::TableRowBgAlt => 46,
        Col::TextSelectedBg => 47,
        Col::DragDropTarget => 48,
        Col::NavHighlight => 49,
        Col::NavWindowingHighlight => 50,
        Col::NavWindowingDimBg => 51,
        Col::ModalWindowDimBg => 52,
        Col::COUNT => 53,
    }
}

impl Col {
    /// The number that stands for it.
    pub fn code(&self) -> (r: i32)
        ensures
            r == col_code(*self),
    {
        match self {
            Col::Text => 0,
            Col::TextDisabled => 1,
            Col::WindowBg => 2,
            Col::ChildBg => 3,
            Col::PopupBg => 4,
            Col::Border => 5,
            Col::BorderShadow => 6,
            Col::FrameBg => 7,
            Col::FrameBgHovered => 8,
            Col::FrameBgActive => 9,
            Col::TitleBg => 10,
            Col::TitleBgActive => 11,
            Col::TitleBgCollapsed => 12,
            Col::MenuBarBg => 13,
            Col::ScrollbarBg => 14,
            Col::ScrollbarGrab => 15,
            Col::ScrollbarGrabHovered => 16,
            Col::ScrollbarGrabActive => 17,
            Col::CheckMark => 18,
            Col::SliderGrab => 19,
            Col::SliderGrabActive => 20,
            Col::Button => 21,
            Col::ButtonHovered => 22,
            Col::ButtonActive => 23,
            Col::Header => 24,
            Col::HeaderHovered => 25,
            Col::HeaderActive => 26,
            Col::Separator => 27,
            Col::SeparatorHovered => 28,
            Col::SeparatorActive => 29,
            Col::ResizeGrip => 30,
            Col::ResizeGripHovered => 31,
            Col::ResizeGripActive => 32,
            Col::Tab => 33,
            Col::TabHovered => 34,
            Col::TabActive => 35,
            Col::TabUnfocused => 36,
            Col::TabUnfocusedActive => 37,
            Col::PlotLines => 38,
            Col::PlotLinesHovered => 39,
            Col::PlotHistogram => 40,
            Col::PlotHistogramHovered => 41,
            Col::TableHeaderBg => 42,
            Col::TableBorderStrong => 43,
            Col::TableBorderLight => 44,
            Col::TableRowBg => 45,
            Col::TableRowBgAlt => 46,
            Col::TextSelectedBg => 47,
            Col::DragDropTarget => 48,
            Col::NavHighlight => 49,
            Col::NavWindowingHighlight => 50,
            Col::NavWindowingDimBg => 51,
            Col::ModalWindowDimBg => 52,
            Col::COUNT => 53,
        }
    }

    /// The value that `v` stands for, if any.
    pub fn from_code(v: i32) -> (r: Option<Col>)
        ensures
            r matches Some(e) ==> col_code(e) == v,
            r is None ==> forall|e: Col| col_code(e) != v,
    {
        match v {
            0 => Some(Col::Text),
            1 => Some(Col::TextDisabled),
            2 => Some(Col::WindowBg),
            3 => Some(Col::ChildBg),
            4 => Some(Col::PopupBg),
            5 => Some(Col::Border),
            6 => Some(Col::BorderShadow),
            7 => Some(Col::FrameBg),
            8 => Some(Col::FrameBgHovered),
            9 => Some(Col::FrameBgActive),
            10 => Some(Col::TitleBg),
            11 => Some(Col::TitleBgActive),
            12 => Some(Col::TitleBgCollapsed),
            13 => Some(Col::MenuBarBg),
            14 => Some(Col::ScrollbarBg),
            15 => Some(Col::ScrollbarGrab),
            16 => Some(Col::ScrollbarGrabHovered),
            17 => Some(Col::ScrollbarGrabActive),
            18 => Some(Col::CheckMark),
            19 => Some(Col::SliderGrab),
            20 => Some(Col::SliderGrabActive),
            21 => Some(Col::Button),
            22 => Some(Col::ButtonHovered),
            23 => Some(Col::ButtonActive),
            24 => Some(Col::Header),
            25 => Some(Col::HeaderHovered),
            26 => Some(Col::HeaderActive),
            27 => Some(Col::Separator),
            28 => Some(Col::SeparatorHovered),
            29 => Some(Col::SeparatorActive),
            30 => Some(Col::ResizeGrip),
            31 => Some(Col::ResizeGripHovered),
            32 => Some(Col::ResizeGripActive),
            33 => Some(Col::Tab),
            34 => Some(Col::TabHovered),
            35 => Some(Col::TabActive),
            36 => Some(Col::TabUnfocused),
            37 => Some(Col::TabUnfocusedActive),
            38 => Some(Col::PlotLines),
            39 => Some(Col::PlotLinesHovered),
            40 => Some(Col::PlotHistogram),
            41 => Some(Col::PlotHistogramHovered),
            42 => Some(Col::TableHeaderBg),
            43 => Some(Col::TableBorderStrong),
            44 => Some(Col::TableBorderLight),
            45 => Some(Col::TableRowBg),
            46 => Some(Col::TableRowBgAlt),
            47 => Some(Col::TextSelectedBg),
            48 => Some(Col::DragDropTarget),
            49 => Some(Col::NavHighlight),
            50 => Some(Col::NavWindowingHighlight),
            51 => Some(Col::NavWindowingDimBg),
            52 => Some(Col::ModalWindowDimBg),
            53 => Some(Col::COUNT),
            _ => None,
        }
    }
}

/// Different values of `Col` have different numbers, so `from_code` undoes `code`.
pub proof fn lemma_col_code_injective(a: Col, b: Col)
    requires
        col_code(a) == col_code(b),
    ensures
        a == b,
{
}

/// When a setting applies.
#[derive(Copy, Clone, Debug, PartialEq, Eq, Structural)]
pub enum Cond {
    Unset,
    Always,
    Once,
    FirstUseEver,
    Appearing,
}

pub open spec fn cond_code(e: Cond) -> i32 {
    match e {
        Cond::Unset => 0,
        Cond::Always => 1,
        Cond::Once => 2,
        Cond::FirstUseEver => 4,
        Cond::Appearing => 8,
    }
}

impl Cond {
    /// The number that stands for it.
    pub fn code(&self) -> (r: i32)
        ensures
            r == cond_code(*self),
    {
        match self {
            Cond::Unset => 0,
            Cond::Always => 1,
            Cond::Once => 2,
            Cond::FirstUseEver => 4,
            Cond::Appearing => 8,
        }
    }

    /// The value that `v` stands for, if any.
    pub fn from_code(v: i32) -> (r: Option<Cond>)
        ensures
            r matches Some(e) ==> cond_code(e) == v,
            r is None ==> forall|e: Cond| cond_code(e) != v,
    {
        match v {
            0 => Some(Cond::Unset),
            1 => Some(Cond::Always),
            2 => Some(Cond::Once),
            4 => Some(Cond::FirstUseEver),
            8 => Some(Cond::Appearing),
            _ => None,
        }
    }
}

/// Different values of `Cond` have different numbers, so `from_code` undoes `code`.
pub proof fn lemma_cond_code_injective(a: Cond, b: Cond)
    requires
        cond_code(a) == cond_code(b),
    ensures
        a == b,
{
}

/// Scalar types of the value widgets.
#[derive(Copy, Clone, Debug, PartialEq, Eq, Structural)]
pub enum DataType {
    Float,
    Double,
    COUNT,
}

pub open spec fn data_type_code(e: DataType) -> i32 {
    match e {
        DataType::Float => 8,
        DataType::Double => 9,
        DataType::COUNT => 10,
    }
}

impl DataType {
    /// The number that stands for it.
    pub fn code(&self) -> (r: i32)
        ensures
            r == data_type_code(*self),
    {
        match self {
            DataType::Float => 8,
            DataType::Double => 9,
            DataType::COUNT => 10,
        }
    }

    /// The value that `v` stands for, if any.
    pub fn from_code(v: i32) -> (r: Option<DataType>)
        ensures
            r matches Some(e) ==> data_type_code(e) == v,
            r is None ==> forall|e: DataType| data_type_code(e) != v,
    {
        match v {
            8 => Some(DataType::Float),
            9 => Some(DataType::Double),
            10 => Some(DataType::COUNT),
            _ => None,
        }
    }
}

/// Different values of `DataType` have different numbers, so `from_code` undoes `code`.
pub proof fn lemma_data_type_code_injective(a: DataType, b: DataType)
    requires
        data_type_code(a) == data_type_code(b),
    ensures
        a == b,
{
}

/// Directions.
#[derive(Copy, Clone, Debug, PartialEq, Eq, Structural)]
pub enum Dir {
    Left,
    Right,
    Up,
    Down,
    COUNT,
}

pub open spec fn dir_code(e: Dir) -> i32 {
    match e {
        Dir::Left => 0,
        Dir::Right => 1,
        Dir::Up => 2,
        Dir::Down => 3,
        Dir::COUNT => 4,
    }
}

impl Dir {
    /// The number that stands for it.
    pub fn code(&self) -> (r: i32)
        ensures
            r == dir_code(*self),
    {
        match self {
            Dir::Left => 0,
            Dir::Right => 1,
            Dir::Up => 2,
            Dir::Down => 3,
            Dir::COUNT => 4,
        }
    }

    /// The value that `v` stands for, if any.
    pub fn from_code(v: i32) -> (r: Option<Dir>)
        ensures
            r matches Some(e) ==> dir_code(e) == v,
            r is None ==> forall|e: Dir| dir_code(e) != v,
    {
        match v {
            0 => Some(Dir::Left),
            1 => Some(Dir::Right),
            2 => Some(Dir::Up),
            3 => Some(Dir::Down),
            4 => Some(Dir::COUNT),
            _ => None,
        }
    }
}

/// Different values of `Dir` have different numbers, so `from_code` undoes `code`.
pub proof fn lemma_dir_code_injective(a: Dir, b: Dir)
    requires
        dir_code(a) == dir_code(b),
    ensures
        a == b,
{
}

/// Keys.
#[derive(Copy, Clone, Debug, PartialEq, Eq, Structural)]
pub enum Key {
    NoKey,
    Tab,
    LeftArrow,
    RightArrow,
    UpArrow,
    DownArrow,
    PageUp,
    PageDown,
    Home,
    End,
    Insert,
    Delete,
    Backspace,
    Space,
    Enter,
    Escape,
    LeftCtrl,
    LeftShift,
    LeftAlt,
    LeftSuper,
    RightCtrl,
    RightShift,
    RightAlt,
    RightSuper,
    Menu,
    A,
    B,
    C,
    D,
    E,
    F,
    G,
    H,
    I,
    J,
    K,
    L,
    M,
    N,
    O,
    P,
    Q,
    R,
    S,
    T,
    U,
    V,
    W,
    X,
    Y,
    Z,
    Apostrophe,
    Comma,
    Minus,
    Period,
    Slash,
    Semicolon,
    Equal,
    LeftBracket,
    Backslash,
    RightBracket,
    GraveAccent,
    CapsLock,
    ScrollLock,
    NumLock,
    PrintScreen,
    Pause,
    KeypadDecimal,
    KeypadDivide,
    KeypadMultiply,
    KeypadSubtract,
    KeypadAdd,
    KeypadEnter,
    KeypadEqual,
    GamepadStart,
    GamepadBack,
    GamepadFaceUp,
    GamepadFaceDown,
    GamepadFaceLeft,
    GamepadFaceRight,
    GamepadDpadUp,
    GamepadDpadDown,
    GamepadDpadLeft,
    GamepadDpadRight,
    GamepadLStickUp,
    GamepadLStickDown,
    GamepadLStickLeft,
    GamepadLStickRight,
    GamepadRStickUp,
    GamepadRStickDown,
    GamepadRStickLeft,
    GamepadRStickRight,
    ModCtrl,
    ModShift,
    ModAlt,
    ModSuper,
    COUNT,
}

pub open spec fn key_code(e: Key) -> i32 {
    match e {
        Key::NoKey => 0,
        Key::Tab => 512,
        Key::LeftArrow => 513,
        Key::RightArrow => 514,
        Key::UpArrow => 515,
        Key::DownArrow => 516,
        Key::PageUp => 517,
        Key::PageDown => 518,
        Key::Home => 519,
        Key::End => 520,
        Key::Insert => 521,
        Key::Delete => 522,
        Key::Backspace => 523,
        Key::Space => 524,
        Key::Enter => 525,
        Key::Escape => 526,
        Key::LeftCtrl => 527,
        Key::LeftShift => 528,
        Key::LeftAlt => 529,
        Key::LeftSuper => 530,
        Key::RightCtrl => 531,
        Key::RightShift => 532,
        Key::RightAlt => 533,
        Key::RightSuper => 534,
        Key::Menu => 535,
        Key::A => 546,
        Key::B => 547,
        Key::C => 548,
        Key::D => 549,
        Key::E => 550,
        Key::F => 551,
        Key::G => 552,
        Key::H => 553,
        Key::I => 554,
        Key::J => 555,
        Key::K => 556,
        Key::L => 557,
        Key::M => 558,
        Key::N => 559,
        Key::O => 560,
        Key::P => 561,
        Key::Q => 562,
        Key::R => 563,
        Key::S => 564,
        Key::T => 565,
        Key::U => 566,
        Key::V => 567,
        Key::W => 568,
        Key::X => 569,
        Key::Y => 570,
        Key::Z => 571,
        Key::Apostrophe => 584,
        Key::Comma => 585,
        Key::Minus => 586,
        Key::Period => 587,
        Key::Slash => 588,
        Key::Semicolon => 589,
        Key::Equal => 590,
        Key::LeftBracket => 591,
        Key::Backslash => 592,
        Key::RightBracket => 593,
        Key::GraveAccent => 594,
        Key::CapsLock => 595,
        Key::ScrollLock => 596,
        Key::NumLock => 597,
        Key::PrintScreen => 598,
        Key::Pause => 599,
        Key::KeypadDecimal => 610,
        Key::KeypadDivide => 611,
        Key::KeypadMultiply => 612,
        Key::KeypadSubtract => 613,
        Key::KeypadAdd => 614,
        Key::KeypadEnter => 615,
        Key::KeypadEqual => 616,
        Key::GamepadStart => 617,
        Key::GamepadBack => 618,
        Key::GamepadFaceUp => 619,
        Key::GamepadFaceDown => 620,
        Key::GamepadFaceLeft => 621,
        Key::GamepadFaceRight => 622,
        Key::GamepadDpadUp => 623,
        Key::GamepadDpadDown => 624,
        Key::GamepadDpadLeft => 625,
        Key::GamepadDpadRight => 626,
        Key::GamepadLStickUp => 633,
        Key::GamepadLStickDown => 634,
        Key::GamepadLStickLeft => 635,
        Key::GamepadLStickRight => 636,
        Key::GamepadRStickUp => 637,
        Key::GamepadRStickDown => 638,
        Key::GamepadRStickLeft => 639,
        Key::GamepadRStickRight => 640,
        Key::ModCtrl => 641,
        Key::ModShift => 642,
        Key::ModAlt => 643,
        Key::ModSuper => 644,
        Key::COUNT => 645,
    }
}

impl Key {
    /// The number that stands for it.
    pub fn code(&self) -> (r: i32)
        ensures
            r == key_code(*self),
    {
        match self {
            Key::NoKey => 0,
            Key::Tab => 512,
            Key::LeftArrow => 513,
            Key::RightArrow => 514,
            Key::UpArrow => 515,
            Key::DownArrow => 516,
            Key::PageUp => 517,
            Key::PageDown => 518,
            Key::Home => 519,
            Key::End => 520,
            Key::Insert => 521,
            Key::Delete => 522,
            Key::Backspace => 523,
            Key::Space => 524,
            Key::Enter => 525,
            Key::Escape => 526,
            Key::LeftCtrl => 527,
            Key::LeftShift => 528,
            Key::LeftAlt => 529,
            Key::LeftSuper => 530,
            Key::RightCtrl => 531,
            Key::RightShift => 532,
            Key::RightAlt => 533,
            Key::RightSuper => 534,
            Key::Menu => 535,
            Key::A => 546,
            Key::B => 547,
            Key::C => 548,
            Key::D => 549,
            Key::E => 550,
            Key::F => 551,
            Key::G => 552,
            Key::H => 553,
            Key::I => 554,
            Key::J => 555,
            Key::K => 556,
            Key::L => 557,
            Key::M => 558,
            Key::N => 559,
            Key::O => 560,
            Key::P => 561,
            Key::Q => 562,
            Key::R => 563,
            Key::S => 564,
            Key::T => 565,
            Key::U => 566,
            Key::V => 567,
            Key::W => 568,
            Key::X => 569,
            Key::Y => 570,
            Key::Z => 571,
            Key::Apostrophe => 584,
            Key::Comma => 585,
            Key::Minus => 586,
            Key::Period => 587,
            Key::Slash => 588,
            Key::Semicolon => 589,
            Key::Equal => 590,
            Key::LeftBracket => 591,
            Key::Backslash => 592,
            Key::RightBracket => 593,
            Key::GraveAccent => 594,
            Key::CapsLock => 595,
            Key::ScrollLock => 596,
            Key::NumLock => 597,
            Key::PrintScreen => 598,
            Key::Pause => 599,
            Key::KeypadDecimal => 610,
            Key::KeypadDivide => 611,
            Key::KeypadMultiply => 612,
            Key::KeypadSubtract => 613,
            Key::KeypadAdd => 614,
            Key::KeypadEnter => 615,
            Key::KeypadEqual => 616,
            Key::GamepadStart => 617,
            Key::GamepadBack => 618,
            Key::GamepadFaceUp => 619,
            Key::GamepadFaceDown => 620,
            Key::GamepadFaceLeft => 621,
            Key::GamepadFaceRight => 622,
            Key::GamepadDpadUp => 623,
            Key::GamepadDpadDown => 624,
            Key::GamepadDpadLeft => 625,
            Key::GamepadDpadRight => 626,
            Key::GamepadLStickUp => 633,
            Key::GamepadLStickDown => 634,
            Key::GamepadLStickLeft => 635,
            Key::GamepadLStickRight => 636,
            Key::GamepadRStickUp => 637,
            Key::GamepadRStickDown => 638,
            Key::GamepadRStickLeft => 639,
            Key::GamepadRStickRight => 640,
            Key::ModCtrl => 641,
            Key::ModShift => 642,
            Key::ModAlt => 643,
            Key::ModSuper => 644,
            Key::COUNT => 645,
        }
    }

    /// The value that `v` stands for, if any.
    pub fn from_code(v: i32) -> (r: Option<Key>)
        ensures
            r matches Some(e) ==> key_code(e) == v,
            r is None ==> forall|e: Key| key_code(e) != v,
    {
        match v {
            0 => Some(Key::NoKey),
            512 => Some(Key::Tab),
            513 => Some(Key::LeftArrow),
            514 => Some(Key::RightArrow),
            515 => Some(Key::UpArrow),
            516 => Some(Key::DownArrow),
            517 => Some(Key::PageUp),
            518 => Some(Key::PageDown),
            519 => Some(Key::Home),
            520 => Some(Key::End),
            521 => Some(Key::Insert),
            522 => Some(Key::Delete),
            523 => Some(Key::Backspace),
            524 => Some(Key::Space),
            525 => Some(Key::Enter),
            526 => Some(Key::Escape),
            527 => Some(Key::LeftCtrl),
            528 => Some(Key::LeftShift),
            529 => Some(Key::LeftAlt),
            530 => Some(Key::LeftSuper),
            531 => Some(Key::RightCtrl),
            532 => Some(Key::RightShift),
            533 => Some(Key::RightAlt),
            534 => Some(Key::RightSuper),
            535 => Some(Key::Menu),
            546 => Some(Key::A),
            547 => Some(Key::B),
            548 => Some(Key::C),
            549 => Some(Key::D),
            550 => Some(Key::E),
            551 => Some(Key::F),
            552 => Some(Key::G),
            553 => Some(Key::H),
            554 => Some(Key::I),
            555 => Some(Key::J),
            556 => Some(Key::K),
            557 => Some(Key::L),
            558 => Some(Key::M),
            559 => Some(Key::N),
            560 => Some(Key::O),
            561 => Some(Key::P),
            562 => Some(Key::Q),
            563 => Some(Key::R),
            564 => Some(Key::S),
            565 => Some(Key::T),
            566 => Some(Key::U),
            567 => Some(Key::V),
            568 => Some(Key::W),
            569 => Some(Key::X),
            570 => Some(Key::Y),
            571 => Some(Key::Z),
            584 => Some(Key::Apostrophe),
            585 => Some(Key::Comma),
            586 => Some(Key::Minus),
            587 => Some(Key::Period),
            588 => Some(Key::Slash),
            589 => Some(Key::Semicolon),
            590 => Some(Key::Equal),
            591 => Some(Key::LeftBracket),
            592 => Some(Key::Backslash),
            593 => Some(Key::RightBracket),
            594 => Some(Key::GraveAccent),
            595 => Some(Key::CapsLock),
            596 => Some(Key::ScrollLock),
            597 => Some(Key::NumLock),
            598 => Some(Key::PrintScreen),
            599 => Some(Key::Pause),
            610 => Some(Key::KeypadDecimal),
            611 => Some(Key::KeypadDivide),
            612 => Some(Key::KeypadMultiply),
            613 => Some(Key::KeypadSubtract),
            614 => Some(Key::KeypadAdd),
            615 => Some(Key::KeypadEnter),
            616 => Some(Key::KeypadEqual),
            617 => Some(Key::GamepadStart),
            618 => Some(Key::GamepadBack),
            619 => Some(Key::GamepadFaceUp),
            620 => Some(Key::GamepadFaceDown),
            621 => Some(Key::GamepadFaceLeft),
            622 => Some(Key::GamepadFaceRight),
            623 => Some(Key::GamepadDpadUp),
            624 => Some(Key::GamepadDpadDown),
            625 => Some(Key::GamepadDpadLeft),
            626 => Some(Key::GamepadDpadRight),
            633 => Some(Key::GamepadLStickUp),
            634 => Some(Key::GamepadLStickDown),
            635 => Some(Key::GamepadLStickLeft),
            636 => Some(Key::GamepadLStickRight),
            637 => Some(Key::GamepadRStickUp),
            638 => Some(Key::GamepadRStickDown),
            639 => Some(Key::GamepadRStickLeft),
            640 => Some(Key::GamepadRStickRight),
            641 => Some(Key::ModCtrl),
            642 => Some(Key::ModShift),
            643 => Some(Key::ModAlt),
            644 => Some(Key::ModSuper),
            645 => Some(Key::COUNT),
            _ => None,
        }
    }
}

/// Different values of `Key` have different numbers, so `from_code` undoes `code`.
pub proof fn lemma_key_code_injective(a: Key, b: Key)
    requires
        key_code(a) == key_code(b),
    ensures
        a == b,
{
}

/// Navigation inputs.
#[derive(Copy, Clone, Debug, PartialEq, Eq, Structural)]
pub enum NavInput {
    Activate,
    Cancel,
    Input,
    Menu,
    DpadLeft,
    DpadRight,
    DpadUp,
    DpadDown,
    LStickLeft,
    LStickRight,
    LStickUp,
    LStickDown,
    FocusPrev,
    FocusNext,
    TweakSlow,
    TweakFast,
    COUNT,
}

pub open spec fn nav_input_code(e: NavInput) -> i32 {
    match e {
        NavInput::Activate => 0,
        NavInput::Cancel => 1,
        NavInput::Input => 2,
        NavInput::Menu => 3,
        NavInput::DpadLeft => 4,
        NavInput::DpadRight => 5,
        NavInput::DpadUp => 6,
        NavInput::DpadDown => 7,
        NavInput::LStickLeft => 8,
        NavInput::LStickRight => 9,
        NavInput::LStickUp => 10,
        NavInput::LStickDown => 11,
        NavInput::FocusPrev => 12,
        NavInput::FocusNext => 13,
        NavInput::TweakSlow => 14,
        NavInput::TweakFast => 15,
        NavInput::COUNT => 20,
    }
}

impl NavInput {
    /// The number that stands for it.
    pub fn code(&self) -> (r: i32)
        ensures
            r == nav_input_code(*self),
    {
        match self {
            NavInput::Activate => 0,
            NavInput::Cancel => 1,
            NavInput::Input => 2,
            NavInput::Menu => 3,
            NavInput::DpadLeft => 4,
            NavInput::DpadRight => 5,
            NavInput::DpadUp => 6,
            NavInput::DpadDown => 7,
            NavInput::LStickLeft => 8,
            NavInput::LStickRight => 9,
            NavInput::LStickUp => 10,
            NavInput::LStickDown => 11,
            NavInput::FocusPrev => 12,
            NavInput::FocusNext => 13,
            NavInput::TweakSlow => 14,
            NavInput::TweakFast => 15,
            NavInput::COUNT => 20,
        }
    }

    /// The value that `v` stands for, if any.
    pub fn from_code(v: i32) -> (r: Option<NavInput>)
        ensures
            r matches Some(e) ==> nav_input_code(e) == v,
            r is None ==> forall|e: NavInput| nav_input_code(e) != v,
    {
        match v {
            0 => Some(NavInput::Activate),
            1 => Some(NavInput::Cancel),
            2 => Some(NavInput::Input),
            3 => Some(NavInput::Menu),
            4 => Some(NavInput::DpadLeft),
            5 => Some(NavInput::DpadRight),
            6 => Some(NavInput::DpadUp),
            7 => Some(NavInput::DpadDown),
            8 => Some(NavInput::LStickLeft),
            9 => Some(NavInput::LStickRight),
            10 => Some(NavInput::LStickUp),
            11 => Some(NavInput::LStickDown),
            12 => Some(NavInput::FocusPrev),
            13 => Some(NavInput::FocusNext),
            14 => Some(NavInput::TweakSlow),
            15 => Some(NavInput::TweakFast),
            20 => Some(NavInput::COUNT),
            _ => None,
        }
    }
}

/// Different values of `NavInput` have different numbers, so `from_code` undoes `code`.
pub proof fn lemma_nav_input_code_injective(a: NavInput, b: NavInput)
    requires
        nav_input_code(a) == nav_input_code(b),
    ensures
        a == b,
{
}

/// Mouse buttons.
#[derive(Copy, Clone, Debug, PartialEq, Eq, Structural)]
pub enum MouseButton {
    Left,
    Right,
    Middle,
    COUNT,
}

pub open spec fn mouse_button_code(e: MouseButton) -> i32 {
    match e {
        MouseButton::Left => 0,
        MouseButton::Right => 1,
        MouseButton::Middle => 2,
        MouseButton::COUNT => 5,
    }
}

impl MouseButton {
    /// The number that stands for it.
    pub fn code(&self) -> (r: i32)
        ensures
            r == mouse_button_code(*self),
    {
        match self {
            MouseButton::Left => 0,
            MouseButton::Right => 1,
            MouseButton::Middle => 2,
            MouseButton::COUNT => 5,
        }
    }

    /// The value that `v` stands for, if any.
    pub fn from_code(v: i32) -> (r: Option<MouseButton>)
        ensures
            r matches Some(e) ==> mouse_button_code(e) == v,
            r is None ==> forall|e: MouseButton| mouse_button_code(e) != v,
    {
        match v {
            0 => Some(MouseButton::Left),
            1 => Some(MouseButton::Right),
            2 => Some(MouseButton::Middle),
            5 => Some(MouseButton::COUNT),
            _ => None,
        }
    }
}

/// Different values of `MouseButton` have different numbers, so `from_code` undoes `code`.
pub proof fn lemma_mouse_button_code_injective(a: MouseButton, b: MouseButton)
    requires
        mouse_button_code(a) == mouse_button_code(b),
    ensures
        a == b,
{
}

/// Mouse cursors.
#[derive(Copy, Clone, Debug, PartialEq, Eq, Structural)]
pub enum MouseCursor {
    Arrow,
    TextInput,
    ResizeAll,
    ResizeNS,
    ResizeEW,
    ResizeNESW,
    ResizeNWSE,
    Hand,
    NotAllowed,
    COUNT,
}

pub open spec fn mouse_cursor_code(e: MouseCursor) -> i32 {
    match e {
        MouseCursor::Arrow => 0,
        MouseCursor::TextInput => 1,
        MouseCursor::ResizeAll => 2,
        MouseCursor::ResizeNS => 3,
        MouseCursor::ResizeEW => 4,
        MouseCursor::ResizeNESW => 5,
        MouseCursor::ResizeNWSE => 6,
        MouseCursor::Hand => 7,
        MouseCursor::NotAllowed => 8,
        MouseCursor::COUNT => 9,
    }
}

impl MouseCursor {
    /// The number that stands for it.
    pub fn code(&self) -> (r: i32)
        ensures
            r == mouse_cursor_code(*self),
    {
        match self {
            MouseCursor::Arrow => 0,
            MouseCursor::TextInput => 1,
            MouseCursor::ResizeAll => 2,
            MouseCursor::ResizeNS => 3,
            MouseCursor::ResizeEW => 4,
            MouseCursor::ResizeNESW => 5,
            MouseCursor::ResizeNWSE => 6,
            MouseCursor::Hand => 7,
            MouseCursor::NotAllowed => 8,
            MouseCursor::COUNT => 9,
        }
    }

    /// The value that `v` stands for, if any.
    pub fn from_code(v: i32) -> (r: Option<MouseCursor>)
        ensures
            r matches Some(e) ==> mouse_cursor_code(e) == v,
            r is None ==> forall|e: MouseCursor| mouse_cursor_code(e) != v,
    {
        match v {
            0 => Some(MouseCursor::Arrow),
            1 => Some(MouseCursor::TextInput),
            2 => Some(MouseCursor::ResizeAll),
            3 => Some(MouseCursor::ResizeNS),
            4 => Some(MouseCursor::ResizeEW),
            5 => Some(MouseCursor::ResizeNESW),
            6 => Some(MouseCursor::ResizeNWSE),
            7 => Some(MouseCursor::Hand),
            8 => Some(MouseCursor::NotAllowed),
            9 => Some(MouseCursor::COUNT),
            _ => None,
        }
    }
}

/// Different values of `MouseCursor` have different numbers, so `from_code` undoes `code`.
pub proof fn lemma_mouse_cursor_code_injective(a: MouseCursor, b: MouseCursor)
    requires
        mouse_cursor_code(a) == mouse_cursor_code(b),
    ensures
        a == b,
{
}

/// Directions a table column sorts in.
#[derive(Copy, Clone, Debug, PartialEq, Eq, Structural)]
pub enum SortDirection {
    NoSort,
    Ascending,
    Descending,
}

pub open spec fn sort_direction_code(e: SortDirection) -> i32 {
    match e {
        SortDirection::NoSort => 0,
        SortDirection::Ascending => 1,
        SortDirection::Descending => 2,
    }
}

impl SortDirection {
    /// The number that stands for it.
    pub fn code(&self) -> (r: i32)
        ensures
            r == sort_direction_code(*self),
    {
        match self {
            SortDirection::NoSort => 0,
            SortDirection::Ascending => 1,
            SortDirection::Descending => 2,
        }
    }

    /// The value that `v` stands for, if any.
    pub fn from_code(v: i32) -> (r: Option<SortDirection>)
        ensures
            r matches Some(e) ==> sort_direction_code(e) == v,
            r is None ==> forall|e: SortDirection| sort_direction_code(e) != v,
    {
        match v {
            0 => Some(SortDirection::NoSort),
            1 => Some(SortDirection::Ascending),
            2 => Some(SortDirection::Descending),
            _ => None,
        }
    }
}

/// Different values of `SortDirection` have different numbers, so `from_code` undoes `code`.
pub proof fn lemma_sort_direction_code_injective(a: SortDirection, b: SortDirection)
    requires
        sort_direction_code(a) == sort_direction_code(b),
    ensures
        a == b,
{
}

/// Variables of the style.
#[derive(Copy, Clone, Debug, PartialEq, Eq, Structural)]
pub enum StyleVar {
    Alpha,
    DisabledAlpha,
    WindowPadding,
    WindowRounding,
    WindowBorderSize,
    WindowMinSize,
    WindowTitleAlign,
    ChildRounding,
    ChildBorderSize,
    PopupRounding,
    PopupBorderSize,
    FramePadding,
    FrameRounding,
    FrameBorderSize,
    ItemSpacing,
    ItemInnerSpacing,
    IndentSpacing,
    CellPadding,
    ScrollbarSize,
    ScrollbarRounding,
    GrabMinSize,
    GrabRounding,
    TabRounding,
    ButtonTextAlign,
    SelectableTextAlign,
    COUNT,
}

pub open spec fn style_var_code(e: StyleVar) -> i32 {
    match e {
        StyleVar::Alpha => 0,
        StyleVar::DisabledAlpha => 1,
        StyleVar::WindowPadding => 2,
        StyleVar::WindowRounding => 3,
        StyleVar::WindowBorderSize => 4,
        StyleVar::WindowMinSize => 5,
        StyleVar::WindowTitleAlign => 6,
        StyleVar::ChildRounding => 7,
        StyleVar::ChildBorderSize => 8,
        StyleVar::PopupRounding => 9,
        StyleVar::PopupBorderSize => 10,
        StyleVar::FramePadding => 11,
        StyleVar::FrameRounding => 12,
        StyleVar::FrameBorderSize => 13,
        StyleVar::ItemSpacing => 14,
        StyleVar::ItemInnerSpacing => 15,
        StyleVar::IndentSpacing => 16,
        StyleVar::CellPadding => 17,
        StyleVar::ScrollbarSize => 18,
        StyleVar::ScrollbarRounding => 19,
        StyleVar::GrabMinSize => 20,
        StyleVar::GrabRounding => 21,
        StyleVar::TabRounding => 22,
        StyleVar::ButtonTextAlign => 23,
        StyleVar::SelectableTextAlign => 24,
        StyleVar::COUNT => 25,
    }
}

impl StyleVar {
    /// The number that stands for it.
    pub fn code(&self) -> (r: i32)
        ensures
            r == style_var_code(*self),
    {
        match self {
            StyleVar::Alpha => 0,
            StyleVar::DisabledAlpha => 1,
            StyleVar::WindowPadding => 2,
            StyleVar::WindowRounding => 3,
            StyleVar::WindowBorderSize => 4,
            StyleVar::WindowMinSize => 5,
            StyleVar::WindowTitleAlign => 6,
            StyleVar::ChildRounding => 7,
            StyleVar::ChildBorderSize => 8,
            StyleVar::PopupRounding => 9,
            StyleVar::PopupBorderSize => 10,
            StyleVar::FramePadding => 11,
            StyleVar::FrameRounding => 12,
            StyleVar::FrameBorderSize => 13,
            StyleVar::ItemSpacing => 14,
            StyleVar::ItemInnerSpacing => 15,
            StyleVar::IndentSpacing => 16,
            StyleVar::CellPadding => 17,
            StyleVar::ScrollbarSize => 18,
            StyleVar::ScrollbarRounding => 19,
            StyleVar::GrabMinSize => 20,
            StyleVar::GrabRounding => 21,
            StyleVar::TabRounding => 22,
            StyleVar::ButtonTextAlign => 23,
            StyleVar::SelectableTextAlign => 24,
            StyleVar::COUNT => 25,
        }
    }

    /// The value that `v` stands for, if any.
    pub fn from_code(v: i32) -> (r: Option<StyleVar>)
        ensures
            r matches Some(e) ==> style_var_code(e) == v,
            r is None ==> forall|e: StyleVar| style_var_code(e) != v,
    {
        match v {
            0 => Some(StyleVar::Alpha),
            1 => Some(StyleVar::DisabledAlpha),
            2 => Some(StyleVar::WindowPadding),
            3 => Some(StyleVar::WindowRounding),
            4 => Some(StyleVar::WindowBorderSize),
            5 => Some(StyleVar::WindowMinSize),
            6 => Some(StyleVar::WindowTitleAlign),
            7 => Some(StyleVar::ChildRounding),
            8 => Some(StyleVar::ChildBorderSize),
            9 => Some(StyleVar::PopupRounding),
            10 => Some(StyleVar::PopupBorderSize),
            11 => Some(StyleVar::FramePadding),
            12 => Some(StyleVar::FrameRounding),
            13 => Some(StyleVar::FrameBorderSize),
            14 => Some(StyleVar::ItemSpacing),
            15 => Some(StyleVar::ItemInnerSpacing),
            16 => Some(StyleVar::IndentSpacing),
            17 => Some(StyleVar::CellPadding),
            18 => Some(StyleVar::ScrollbarSize),
            19 => Some(StyleVar::ScrollbarRounding),
            20 => Some(StyleVar::GrabMinSize),
            21 => Some(StyleVar::GrabRounding),
            22 => Some(StyleVar::TabRounding),
            23 => Some(StyleVar::ButtonTextAlign),
            24 => Some(StyleVar::SelectableTextAlign),
            25 => Some(StyleVar::COUNT),
            _ => None,
        }
    }
}

/// Different values of `StyleVar` have different numbers, so `from_code` undoes `code`.
pub proof fn lemma_style_var_code_injective(a: StyleVar, b: StyleVar)
    requires
        style_var_code(a) == style_var_code(b),
    ensures
        a == b,
{
}

/// Where a table background colour applies.
#[derive(Copy, Clone, Debug, PartialEq, Eq, Structural)]
pub enum TableBgTarget {
    NoTarget,
    CellBg,
}

pub open spec fn table_bg_target_code(e: TableBgTarget) -> i32 {
    match e {
        TableBgTarget::NoTarget => 0,
        TableBgTarget::CellBg => 3,
    }
}

impl TableBgTarget {
    /// The number that stands for it.
    pub fn code(&self) -> (r: i32)
        ensures
            r == table_bg_target_code(*self),
    {
        match self {
            TableBgTarget::NoTarget => 0,
            TableBgTarget::CellBg => 3,
        }
    }

    /// The value that `v` stands for, if any.
    pub fn from_code(v: i32) -> (r: Option<TableBgTarget>)
        ensures
            r matches Some(e) ==> table_bg_target_code(e) == v,
            r is None ==> forall|e: TableBgTarget| table_bg_target_code(e) != v,
    {
        match v {
            0 => Some(TableBgTarget::NoTarget),
            3 => Some(TableBgTarget::CellBg),
            _ => None,
        }
    }
}

/// Different values of `TableBgTarget` have different numbers, so `from_code` undoes `code`.
pub proof fn lemma_table_bg_target_code_injective(a: TableBgTarget, b: TableBgTarget)
    requires
        table_bg_target_code(a) == table_bg_target_code(b),
    ensures
        a == b,
{
}

/// Directions items are laid out in.
#[derive(Copy, Clone, Debug, PartialEq, Eq, Structural)]
pub enum LayoutType {
    Horizontal,
    Vertical,
}

pub open spec fn layout_type_code(e: LayoutType) -> i32 {
    match e {
        LayoutType::Horizontal => 0,
        LayoutType::Vertical => 1,
    }
}

impl LayoutType {
    /// The number that stands for it.
    pub fn code(&self) -> (r: i32)
        ensures
            r == layout_type_code(*self),
    {
        match self {
            LayoutType::Horizontal => 0,
            LayoutType::Vertical => 1,
        }
    }

    /// The value that `v` stands for, if any.
    pub fn from_code(v: i32) -> (r: Option<LayoutType>)
        ensures
            r matches Some(e) ==> layout_type_code(e) == v,
            r is None ==> forall|e: LayoutType| layout_type_code(e) != v,
    {
        match v {
            0 => Some(LayoutType::Horizontal),
            1 => Some(LayoutType::Vertical),
            _ => None,
        }
    }
}

/// Different values of `LayoutType` have different numbers, so `from_code` undoes `code`.
pub proof fn lemma_layout_type_code_injective(a: LayoutType, b: LayoutType)
    requires
        layout_type_code(a) == layout_type_code(b),
    ensures
        a == b,
{
}

/// Scalar types of the value widgets used internally.
#[derive(Copy, Clone, Debug, PartialEq, Eq, Structural)]
pub enum DataTypePrivate {
    String,
    Pointer,
    ID,
}

pub open spec fn data_type_private_code(e: DataTypePrivate) -> i32 {
    match e {
        DataTypePrivate::String => 11,
        DataTypePrivate::Pointer => 12,
        DataTypePrivate::ID => 13,
    }
}

impl DataTypePrivate {
    /// The number that stands for it.
    pub fn code(&self) -> (r: i32)
        ensures
            r == data_type_private_code(*self),
    {
        match self {
            DataTypePrivate::String => 11,
            DataTypePrivate::Pointer => 12,
            DataTypePrivate::ID => 13,
        }
    }

    /// The value that `v` stands for, if any.
    pub fn from_code(v: i32) -> (r: Option<DataTypePrivate>)
        ensures
            r matches Some(e) ==> data_type_private_code(e) == v,
            r is None ==> forall|e: DataTypePrivate| data_type_private_code(e) != v,
    {
        match v {
            11 => Some(DataTypePrivate::String),
            12 => Some(DataTypePrivate::Pointer),
            13 => Some(DataTypePrivate::ID),
            _ => None,
        }
    }
}

/// Different values of `DataTypePrivate` have different numbers, so `from_code` undoes `code`.
pub proof fn lemma_data_type_private_code_injective(a: DataTypePrivate, b: DataTypePrivate)
    requires
        data_type_private_code(a) == data_type_private_code(b),
    ensures
        a == b,
{
}

/// How text lines up in its area.
#[derive(Copy, Clone, Debug, PartialEq, Eq, Structural)]
pub enum TextAlign {
    Left,
    Center,
    Right,
}

/// The native numbers of `Col`, as the UI library declares them.
pub proof fn lemma_col_native_numbers()
    ensures
        col_code(Col::Text) == 0,
        col_code(Col::TextDisabled) == 1,
        col_code(Col::WindowBg) == 2,
        col_code(Col::ChildBg) == 3,
        col_code(Col::PopupBg) == 4,
        col_code(Col::Border) == 5,
        col_code(Col::BorderShadow) == 6,
        col_code(Col::FrameBg) == 7,
        col_code(Col::FrameBgHovered) == 8,
        col_code(Col::FrameBgActive) == 9,
        col_code(Col::TitleBg) == 10,
        col_code(Col::TitleBgActive) == 11,
        col_code(Col::TitleBgCollapsed) == 12,
        col_code(Col::MenuBarBg) == 13,
        col_code(Col::ScrollbarBg) == 14,
        col_code(Col::ScrollbarGrab) == 15,
        col_code(Col::ScrollbarGrabHovered) == 16,
        col_code(Col::ScrollbarGrabActive) == 17,
        col_code(Col::CheckMark) == 18,
        col_code(Col::SliderGrab) == 19,
        col_code(Col::SliderGrabActive) == 20,
        col_code(Col::Button) == 21,
        col_code(Col::ButtonHovered) == 22,
        col_code(Col::ButtonActive) == 23,
        col_code(Col::Header) == 24,
        col_code(Col::HeaderHovered) == 25,
        col_code(Col::HeaderActive) == 26,
        col_code(Col::Separator) == 27,
        col_code(Col::SeparatorHovered) == 28,
        col_code(Col::SeparatorActive) == 29,
        col_code(Col::ResizeGrip) == 30,
        col_code(Col::ResizeGripHovered) == 31,
        col_code(Col::ResizeGripActive) == 32,
        col_code(Col::Tab) == 33,
        col_code(Col::TabHovered) == 34,
        col_code(Col::TabActive) == 35,
        col_code(Col::TabUnfocused) == 36,
        col_code(Col::TabUnfocusedActive) == 37,
        col_code(Col::PlotLines) == 38,
        col_code(Col::PlotLinesHovered) == 39,
        col_code(Col::PlotHistogram) == 40,
        col_code(Col::PlotHistogramHovered) == 41,
        col_code(Col::TableHeaderBg) == 42,
        col_code(Col::TableBorderStrong) == 43,
        col_code(Col::TableBorderLight) == 44,
        col_code(Col::TableRowBg) == 45,
        col_code(Col::TableRowBgAlt) == 46,
        col_code(Col::TextSelectedBg) == 47,
        col_code(Col::DragDropTarget) == 48,
        col_code(Col::NavHighlight) == 49,
        col_code(Col::NavWindowingHighlight) == 50,
        col_code(Col::NavWindowingDimBg) == 51,
        col_code(Col::ModalWindowDimBg) == 52,
        col_code(Col::COUNT) == 53,
{
}

/// The native numbers of `Cond`, as the UI library declares them.
pub proof fn lemma_cond_native_numbers()
    ensures
        cond_code(Cond::Unset) == 0,
        cond_code(Cond::Always) == 1,
        cond_code(Cond::Once) == 2,
        cond_code(Cond::FirstUseEver) == 4,
        cond_code(Cond::Appearing) == 8,
{
}

/// The native numbers of `DataType`, as the UI library declares them.
pub proof fn lemma_data_type_native_numbers()
    ensures
        data_type_code(DataType::Float) == 8,
        data_type_code(DataType::Double) == 9,
        data_type_code(DataType::COUNT) == 10,
{
}

/// The native numbers of `Dir`, as the UI library declares them.
pub proof fn lemma_dir_native_numbers()
    ensures
        dir_code(Dir::Left) == 0,
        dir_code(Dir::Right) == 1,
        dir_code(Dir::Up) == 2,
        dir_code(Dir::Down) == 3,
        dir_code(Dir::COUNT) == 4,
{
}

/// The native numbers of `Key`, as the UI library declares them.
pub proof fn lemma_key_native_numbers()
    ensures
        key_code(Key::NoKey) == 0,
        key_code(Key::Tab) == 512,
        key_code(Key::LeftArrow) == 513,
        key_code(Key::RightArrow) == 514,
        key_code(Key::UpArrow) == 515,
        key_code(Key::DownArrow) == 516,
        key_code(Key::PageUp) == 517,
        key_code(Key::PageDown) == 518,
        key_code(Key::Home) == 519,
        key_code(Key::End) == 520,
        key_code(Key::Insert) == 521,
        key_code(Key::Delete) == 522,
        key_code(Key::Backspace) == 523,
        key_code(Key::Space) == 524,
        key_code(Key::Enter) == 525,
        key_code(Key::Escape) == 526,
        key_code(Key::LeftCtrl) == 527,
        key_code(Key::LeftShift) == 528,
        key_code(Key::LeftAlt) == 529,
        key_code(Key::LeftSuper) == 530,
        key_code(Key::RightCtrl) == 531,
        key_code(Key::RightShift) == 532,
        key_code(Key::RightAlt) == 533,
        key_code(Key::RightSuper) == 534,
        key_code(Key::Menu) == 535,
        key_code(Key::A) == 546,
        key_code(Key::B) == 547,
        key_code(Key::C) == 548,
        key_code(Key::D) == 549,
        key_code(Key::E) == 550,
        key_code(Key::F) == 551,
        key_code(Key::G) == 552,
        key_code(Key::H) == 553,
        key_code(Key::I) == 554,
        key_code(Key::J) == 555,
        key_code(Key::K) == 556,
        key_code(Key::L) == 557,
        key_code(Key::M) == 558,
        key_code(Key::N) == 559,
        key_code(Key::O) == 560,
        key_code(Key::P) == 561,
        key_code(Key::Q) == 562,
        key_code(Key::R) == 563,
        key_code(Key::S) == 564,
        key_code(Key::T) == 565,
        key_code(Key::U) == 566,
        key_code(Key::V) == 567,
        key_code(Key::W) == 568,
        key_code(Key::X) == 569,
        key_code(Key::Y) == 570,
        key_code(Key::Z) == 571,
        key_code(Key::Apostrophe) == 584,
        key_code(Key::Comma) == 585,
        key_code(Key::Minus) == 586,
        key_code(Key::Period) == 587,
        key_code(Key::Slash) == 588,
        key_code(Key::Semicolon) == 589,
        key_code(Key::Equal) == 590,
        key_code(Key::LeftBracket) == 591,
        key_code(Key::Backslash) == 592,
        key_code(Key::RightBracket) == 593,
        key_code(Key::GraveAccent) == 594,
        key_code(Key::CapsLock) == 595,
        key_code(Key::ScrollLock) == 596,
        key_code(Key::NumLock) == 597,
        key_code(Key::PrintScreen) == 598,
        key_code(Key::Pause) == 599,
        key_code(Key::KeypadDecimal) == 610,
        key_code(Key::KeypadDivide) == 611,
        key_code(Key::KeypadMultiply) == 612,
        key_code(Key::KeypadSubtract) == 613,
        key_code(Key::KeypadAdd) == 614,
        key_code(Key::KeypadEnter) == 615,
        key_code(Key::KeypadEqual) == 616,
        key_code(Key::GamepadStart) == 617,
        key_code(Key::GamepadBack) == 618,
        key_code(Key::GamepadFaceUp) == 619,
        key_code(Key::GamepadFaceDown) == 620,
        key_code(Key::GamepadFaceLeft) == 621,
        key_code(Key::GamepadFaceRight) == 622,
        key_code(Key::GamepadDpadUp) == 623,
        key_code(Key::GamepadDpadDown) == 624,
        key_code(Key::GamepadDpadLeft) == 625,
        key_code(Key::GamepadDpadRight) == 626,
        key_code(Key::GamepadLStickUp) == 633,
        key_code(Key::GamepadLStickDown) == 634,
        key_code(Key::GamepadLStickLeft) == 635,
        key_code(Key::GamepadLStickRight) == 636,
        key_code(Key::GamepadRStickUp) == 637,
        key_code(Key::GamepadRStickDown) == 638,
        key_code(Key::GamepadRStickLeft) == 639,
        key_code(Key::GamepadRStickRight) == 640,
        key_code(Key::ModCtrl) == 641,
        key_code(Key::ModShift) == 642,
        key_code(Key::ModAlt) == 643,
        key_code(Key::ModSuper) == 644,
        key_code(Key::COUNT) == 645,
{
}

/// The native numbers of `NavInput`, as the UI library declares them.
pub proof fn lemma_nav_input_native_numbers()
    ensures
        nav_input_code(NavInput::Activate) == 0,
        nav_input_code(NavInput::Cancel) == 1,
        nav_input_code(NavInput::Input) == 2,
        nav_input_code(NavInput::Menu) == 3,
        nav_input_code(NavInput::DpadLeft) == 4,
        nav_input_code(NavInput::DpadRight) == 5,
        nav_input_code(NavInput::DpadUp) == 6,
        nav_input_code(NavInput::DpadDown) == 7,
        nav_input_code(NavInput::LStickLeft) == 8,
        nav_input_code(NavInput::LStickRight) == 9,
        nav_input_code(NavInput::LStickUp) == 10,
        nav_input_code(NavInput::LStickDown) == 11,
        nav_input_code(NavInput::FocusPrev) == 12,
        nav_input_code(NavInput::FocusNext) == 13,
        nav_input_code(NavInput::TweakSlow) == 14,
        nav_input_code(NavInput::TweakFast) == 15,
        nav_input_code(NavInput::COUNT) == 20,
{
}

/// The native numbers of `MouseButton`, as the UI library declares them.
pub proof fn lemma_mouse_button_native_numbers()
    ensures
        mouse_button_code(MouseButton::Left) == 0,
        mouse_button_code(MouseButton::Right) == 1,
        mouse_button_code(MouseButton::Middle) == 2,
        mouse_button_code(MouseButton::COUNT) == 5,
{
}

/// The native numbers of `MouseCursor`, as the UI library declares them.
pub proof fn lemma_mouse_cursor_native_numbers()
    ensures
        mouse_cursor_code(MouseCursor::Arrow) == 0,
        mouse_cursor_code(MouseCursor::TextInput) == 1,
        mouse_cursor_code(MouseCursor::ResizeAll) == 2,
        mouse_cursor_code(MouseCursor::ResizeNS) == 3,
        mouse_cursor_code(MouseCursor::ResizeEW) == 4,
        mouse_cursor_code(MouseCursor::ResizeNESW) == 5,
        mouse_cursor_code(MouseCursor::ResizeNWSE) == 6,
        mouse_cursor_code(MouseCursor::Hand) == 7,
        mouse_cursor_code(MouseCursor::NotAllowed) == 8,
        mouse_cursor_code(MouseCursor::COUNT) == 9,
{
}

/// The native numbers of `SortDirection`, as the UI library declares them.
pub proof fn lemma_sort_direction_native_numbers()
    ensures
        sort_direction_code(SortDirection::NoSort) == 0,
        sort_direction_code(SortDirection::Ascending) == 1,
        sort_direction_code(SortDirection::Descending) == 2,
{
}

/// The native numbers of `StyleVar`, as the UI library declares them.
pub proof fn lemma_style_var_native_numbers()
    ensures
        style_var_code(StyleVar::Alpha) == 0,
        style_var_code(StyleVar::DisabledAlpha) == 1,
        style_var_code(StyleVar::WindowPadding) == 2,
        style_var_code(StyleVar::WindowRounding) == 3,
        style_var_code(StyleVar::WindowBorderSize) == 4,
        style_var_code(StyleVar::WindowMinSize) == 5,
        style_var_code(StyleVar::WindowTitleAlign) == 6,
        style_var_code(StyleVar::ChildRounding) == 7,
        style_var_code(StyleVar::ChildBorderSize) == 8,
        style_var_code(StyleVar::PopupRounding) == 9,
        style_var_code(StyleVar::PopupBorderSize) == 10,
        style_var_code(StyleVar::FramePadding) == 11,
        style_var_code(StyleVar::FrameRounding) == 12,
        style_var_code(StyleVar::FrameBorderSize) == 13,
        style_var_code(StyleVar::ItemSpacing) == 14,
        style_var_code(StyleVar::ItemInnerSpacing) == 15,
        style_var_code(StyleVar::IndentSpacing) == 16,
        style_var_code(StyleVar::CellPadding) == 17,
        style_var_code(StyleVar::ScrollbarSize) == 18,
        style_var_code(StyleVar::ScrollbarRounding) == 19,
        style_var_code(StyleVar::GrabMinSize) == 20,
        style_var_code(StyleVar::GrabRounding) == 21,
        style_var_code(StyleVar::TabRounding) == 22,
        style_var_code(StyleVar::ButtonTextAlign) == 23,
        style_var_code(StyleVar::SelectableTextAlign) == 24,
        style_var_code(StyleVar::COUNT) == 25,
{
}

/// The native numbers of `TableBgTarget`, as the UI library declares them.
pub proof fn lemma_table_bg_target_native_numbers()
    ensures
        table_bg_target_code(TableBgTarget::NoTarget) == 0,
        table_bg_target_code(TableBgTarget::CellBg) == 3,
{
}

/// The native numbers of `LayoutType`, as the UI library declares them.
pub proof fn lemma_layout_type_native_numbers()
    ensures
        layout_type_code(LayoutType::Horizontal) == 0,
        layout_type_code(LayoutType::Vertical) == 1,
{
}

/// The native numbers of `DataTypePrivate`, as the UI library declares them.
pub proof fn lemma_data_type_private_native_numbers()
    ensures
        data_type_private_code(DataTypePrivate::String) == 11,
        data_type_private_code(DataTypePrivate::Pointer) == 12,
        data_type_private_code(DataTypePrivate::ID) == 13,
{
}

} // verus!
