//! The names the layout editor shows for the enumerations of a UI layout,
//! and the values it offers to choose from.
use vstd::prelude::*;
use crate::text::{str_chars, string_from_chars, decimal, decimal_chars};

verus! {

/// Where a node is anchored.
#[derive(Copy, Clone, Debug, PartialEq, Eq, Structural)]
pub enum AlignmentType {
    TopLeft,
    Top,
    TopRight,
    Left,
    Center,
    Right,
    BottomLeft,
    Bottom,
    BottomRight,
    Unk(u8),
}

/// The name shown for each value.
pub open spec fn alignment_type_label(e: AlignmentType) -> Seq<char> {
    match e {
        AlignmentType::TopLeft => "Top Left"@,
        AlignmentType::Top => "Top"@,
        AlignmentType::TopRight => "Top Right"@,
        AlignmentType::Left => "Left"@,
        AlignmentType::Center => "Center"@,
        AlignmentType::Right => "Right"@,
        AlignmentType::BottomLeft => "Bottom Left"@,
        AlignmentType::Bottom => "Bottom"@,
        AlignmentType::BottomRight => "Bottom Right"@,
        AlignmentType::Unk(_) => "Unknown"@,
    }
}

/// The values offered, in order.
pub open spec fn alignment_type_values() -> Seq<AlignmentType> {
    seq![
        AlignmentType::TopLeft,
        AlignmentType::Top,
        AlignmentType::TopRight,
        AlignmentType::Left,
        AlignmentType::Center,
        AlignmentType::Right,
        AlignmentType::BottomLeft,
        AlignmentType::Bottom,
        AlignmentType::BottomRight,
    ]
}

impl AlignmentType {
    pub fn to_str(&self) -> (r: &'static str)
        ensures
            r@ == alignment_type_label(*self),
    {
        match self {
            AlignmentType::TopLeft => "Top Left",
            AlignmentType::Top => "Top",
            AlignmentType::TopRight => "Top Right",
            AlignmentType::Left => "Left",
            AlignmentType::Center => "Center",
            AlignmentType::Right => "Right",
            AlignmentType::BottomLeft => "Bottom Left",
            AlignmentType::Bottom => "Bottom",
            AlignmentType::BottomRight => "Bottom Right",
            AlignmentType::Unk(_) => "Unknown",
        }
    }

    pub fn iter() -> (r: Vec<AlignmentType>)
        ensures
            r@ == alignment_type_values(),
    {
        let mut r: Vec<AlignmentType> = Vec::new();
        r.push(AlignmentType::TopLeft);
        r.push(AlignmentType::Top);
        r.push(AlignmentType::TopRight);
        r.push(AlignmentType::Left);
        r.push(AlignmentType::Center);
        r.push(AlignmentType::Right);
        r.push(AlignmentType::BottomLeft);
        r.push(AlignmentType::Bottom);
        r.push(AlignmentType::BottomRight);
        assert(r@ =~= alignment_type_values());
        r
    }

    /// The name shown, with the number of an unknown value.
    pub fn to_string(&self) -> (r: String)
        ensures
            r@ == match *self {
                AlignmentType::Unk(v) => "Unknown ("@ + decimal(v as nat) + ")"@,
                _ => alignment_type_label(*self),
            },
    {
        match self {
            AlignmentType::Unk(v) => {
                let mut cs = str_chars("Unknown (");
                let ds = decimal_chars(*v as u64);
                let ghost pre = cs@;
                let mut i: usize = 0;
                while i < ds.len()
                    invariant
                        i <= ds@.len(),
                        cs@ == pre + ds@.take(i as int),
                    decreases ds@.len() - i,
                {
                    cs.push(ds[i]);
                    proof {
                        assert(ds@.take(i + 1) =~= ds@.take(i as int).push(ds@[i as int]));
                    }
                    i = i + 1;
                }
                cs.push(')');
                proof {
                    reveal_strlit(")");
                    assert(")"@ =~= seq![')']);
                    assert(ds@.take(ds@.len() as int) =~= ds@);
                    assert(cs@ =~= "Unknown ("@ + decimal(*v as nat) + ")"@);
                }
                string_from_chars(cs.as_slice())
            },
            _ => self.to_str().to_owned(),
        }
    }
}

/// Kinds of layout components.
#[derive(Copy, Clone, Debug, PartialEq, Eq, Structural)]
pub enum ComponentType {
    Custom,
    Button,
    Window,
    CheckBox,
    RadioButton,
    Gauge,
    Slider,
    TextInput,
    NumericInput,
    List,
    DropDown,
    Tabbed,
    TreeList,
    ScrollBar,
    ListItem,
    Icon,
    IconWithText,
    DragDrop,
    LeveCard,
    NineGridText,
    Journal,
    Multipurpose,
    MapView,
    Preview,
    Unknown25,
}

/// The name shown for each value.
pub open spec fn component_type_label(e: ComponentType) -> Seq<char> {
    match e {
        ComponentType::Custom => "Custom"@,
        ComponentType::Button => "Button"@,
        ComponentType::Window => "Window"@,
        ComponentType::CheckBox => "CheckBox"@,
        ComponentType::RadioButton => "RadioButton"@,
        ComponentType::Gauge => "Gauge"@,
        ComponentType::Slider => "Slider"@,
        ComponentType::TextInput => "TextInput"@,
        ComponentType::NumericInput => "NumericInput"@,
        ComponentType::List => "List"@,
        ComponentType::DropDown => "DropDown"@,
        ComponentType::Tabbed => "Tabbed"@,
        ComponentType::TreeList => "TreeList"@,
        ComponentType::ScrollBar => "ScrollBar"@,
        ComponentType::ListItem => "ListItem"@,
        ComponentType::Icon => "Icon"@,
        ComponentType::IconWithText => "IconWithText"@,
        ComponentType::DragDrop => "DragDrop"@,
        ComponentType::LeveCard => "LeveCard"@,
        ComponentType::NineGridText => "NineGridText"@,
        ComponentType::Journal => "Journal"@,
        ComponentType::Multipurpose => "Multipurpose"@,
        ComponentType::MapView => "Map"@,
        ComponentType::Preview => "Preview"@,
        ComponentType::Unknown25 => "Unknown25"@,
    }
}

/// The values offered, in order.
pub open spec fn component_type_values() -> Seq<ComponentType> {
    seq![
        ComponentType::Custom,
        ComponentType::Button,
        ComponentType::Window,
        ComponentType::CheckBox,
        ComponentType::RadioButton,
        ComponentType::Gauge,
        ComponentType::Slider,
        ComponentType::TextInput,
        ComponentType::NumericInput,
        ComponentType::List,
        ComponentType::DropDown,
        ComponentType::Tabbed,
        ComponentType::TreeList,
        ComponentType::ScrollBar,
        ComponentType::ListItem,
        ComponentType::Icon,
        ComponentType::IconWithText,
        ComponentType::DragDrop,
        ComponentType::LeveCard,
        ComponentType::NineGridText,
        ComponentType::Journal,
        ComponentType::Multipurpose,
        ComponentType::MapView,
        ComponentType::Preview,
        ComponentType::Unknown25,
    ]
}

impl ComponentType {
    pub fn to_str(&self) -> (r: &'static str)
        ensures
            r@ == component_type_label(*self),
    {
        match self {
            ComponentType::Custom => "Custom",
            ComponentType::Button => "Button",
            ComponentType::Window => "Window",
            ComponentType::CheckBox => "CheckBox",
            ComponentType::RadioButton => "RadioButton",
            ComponentType::Gauge => "Gauge",
            ComponentType::Slider => "Slider",
            ComponentType::TextInput => "TextInput",
            ComponentType::NumericInput => "NumericInput",
            ComponentType::List => "List",
            ComponentType::DropDown => "DropDown",
            ComponentType::Tabbed => "Tabbed",
            ComponentType::TreeList => "TreeList",
            ComponentType::ScrollBar => "ScrollBar",
            ComponentType::ListItem => "ListItem",
            ComponentType::Icon => "Icon",
            ComponentType::IconWithText => "IconWithText",
            ComponentType::DragDrop => "DragDrop",
            ComponentType::LeveCard => "LeveCard",
            ComponentType::NineGridText => "NineGridText",
            ComponentType::Journal => "Journal",
            ComponentType::Multipurpose => "Multipurpose",
            ComponentType::MapView => "Map",
            ComponentType::Preview => "Preview",
            ComponentType::Unknown25 => "Unknown25",
        }
    }

    pub fn iter() -> (r: Vec<ComponentType>)
        ensures
            r@ == component_type_values(),
    {
        let mut r: Vec<ComponentType> = Vec::new();
        r.push(ComponentType::Custom);
        r.push(ComponentType::Button);
        r.push(ComponentType::Window);
        r.push(ComponentType::CheckBox);
        r.push(ComponentType::RadioButton);
        r.push(ComponentType::Gauge);
        r.push(ComponentType::Slider);
        r.push(ComponentType::TextInput);
        r.push(ComponentType::NumericInput);
        r.push(ComponentType::List);
        r.push(ComponentType::DropDown);
        r.push(ComponentType::Tabbed);
        r.push(ComponentType::TreeList);
        r.push(ComponentType::ScrollBar);
        r.push(ComponentType::ListItem);
        r.push(ComponentType::Icon);
        r.push(ComponentType::IconWithText);
        r.push(ComponentType::DragDrop);
        r.push(ComponentType::LeveCard);
        r.push(ComponentType::NineGridText);
        r.push(ComponentType::Journal);
        r.push(ComponentType::Multipurpose);
        r.push(ComponentType::MapView);
        r.push(ComponentType::Preview);
        r.push(ComponentType::Unknown25);
        assert(r@ =~= component_type_values());
        r
    }
}

/// Fonts of text nodes.
#[derive(Copy, Clone, Debug, PartialEq, Eq, Structural)]
pub enum FontType {
    Axis,
    MiedingerMed,
    Miedinger,
    TrumpGothic,
    Jupiter,
    JupiterLarge,
}

/// The name shown for each value.
pub open spec fn font_type_label(e: FontType) -> Seq<char> {
    match e {
        FontType::Axis => "Axis"@,
        FontType::MiedingerMed => "MiedingerMed"@,
        FontType::Miedinger => "Miedinger"@,
        FontType::TrumpGothic => "TrumpGothic"@,
        FontType::Jupiter => "Jupiter"@,
        FontType::JupiterLarge => "JupiterLarge"@,
    }
}

/// The values offered, in order.
pub open spec fn font_type_values() -> Seq<FontType> {
    seq![
        FontType::Axis,
        FontType::MiedingerMed,
        FontType::Miedinger,
        FontType::TrumpGothic,
        FontType::Jupiter,
        FontType::JupiterLarge,
    ]
}

impl FontType {
    pub fn to_str(&self) -> (r: &'static str)
        ensures
            r@ == font_type_label(*self),
    {
        match self {
            FontType::Axis => "Axis",
            FontType::MiedingerMed => "MiedingerMed",
            FontType::Miedinger => "Miedinger",
            FontType::TrumpGothic => "TrumpGothic",
            FontType::Jupiter => "Jupiter",
            FontType::JupiterLarge => "JupiterLarge",
        }
    }

    pub fn iter() -> (r: Vec<FontType>)
        ensures
            r@ == font_type_values(),
    {
        let mut r: Vec<FontType> = Vec::new();
        r.push(FontType::Axis);
        r.push(FontType::MiedingerMed);
        r.push(FontType::Miedinger);
        r.push(FontType::TrumpGothic);
        r.push(FontType::Jupiter);
        r.push(FontType::JupiterLarge);
        assert(r@ =~= font_type_values());
        r
    }
}

/// Kinds of collision nodes.
#[derive(Copy, Clone, Debug, PartialEq, Eq, Structural)]
pub enum CollisionType {
    Hit,
    Focus,
    Move,
}

/// The name shown for each value.
pub open spec fn collision_type_label(e: CollisionType) -> Seq<char> {
    match e {
        CollisionType::Hit => "Hit"@,
        CollisionType::Focus => "Focus"@,
        CollisionType::Move => "Move"@,
    }
}

/// The values offered, in order.
pub open spec fn collision_type_values() -> Seq<CollisionType> {
    seq![
        CollisionType::Hit,
        CollisionType::Focus,
        CollisionType::Move,
    ]
}

impl CollisionType {
    pub fn to_str(&self) -> (r: &'static str)
        ensures
            r@ == collision_type_label(*self),
    {
        match self {
            CollisionType::Hit => "Hit",
            CollisionType::Focus => "Focus",
            CollisionType::Move => "Move",
        }
    }

    pub fn iter() -> (r: Vec<CollisionType>)
        ensures
            r@ == collision_type_values(),
    {
        let mut r: Vec<CollisionType> = Vec::new();
        r.push(CollisionType::Hit);
        r.push(CollisionType::Focus);
        r.push(CollisionType::Move);
        assert(r@ =~= collision_type_values());
        r
    }
}

/// How a nine-grid node takes its parts.
#[derive(Copy, Clone, Debug, PartialEq, Eq, Structural)]
pub enum GridPartsType {
    Divide,
    Compose,
}

/// The name shown for each value.
pub open spec fn grid_parts_type_label(e: GridPartsType) -> Seq<char> {
    match e {
        GridPartsType::Divide => "Divide"@,
        GridPartsType::Compose => "Compose"@,
    }
}

/// The values offered, in order.
pub open spec fn grid_parts_type_values() -> Seq<GridPartsType> {
    seq![
        GridPartsType::Divide,
        GridPartsType::Compose,
    ]
}

impl GridPartsType {
    pub fn to_str(&self) -> (r: &'static str)
        ensures
            r@ == grid_parts_type_label(*self),
    {
        match self {
            GridPartsType::Divide => "Divide",
            GridPartsType::Compose => "Compose",
        }
    }

    pub fn iter() -> (r: Vec<GridPartsType>)
        ensures
            r@ == grid_parts_type_values(),
    {
        let mut r: Vec<GridPartsType> = Vec::new();
        r.push(GridPartsType::Divide);
        r.push(GridPartsType::Compose);
        assert(r@ =~= grid_parts_type_values());
        r
    }
}

/// How a nine-grid node fills its middle.
#[derive(Copy, Clone, Debug, PartialEq, Eq, Structural)]
pub enum GridRenderType {
    Scale,
    Tile,
}

/// The name shown for each value.
pub open spec fn grid_render_type_label(e: GridRenderType) -> Seq<char> {
    match e {
        GridRenderType::Scale => "Scale"@,
        GridRenderType::Tile => "Tile"@,
    }
}

/// The values offered, in order.
pub open spec fn grid_render_type_values() -> Seq<GridRenderType> {
    seq![
        GridRenderType::Scale,
        GridRenderType::Tile,
    ]
}

impl GridRenderType {
    pub fn to_str(&self) -> (r: &'static str)
        ensures
            r@ == grid_render_type_label(*self),
    {
        match self {
            GridRenderType::Scale => "Scale",
            GridRenderType::Tile => "Tile",
        }
    }

    pub fn iter() -> (r: Vec<GridRenderType>)
        ensures
            r@ == grid_render_type_values(),
    {
        let mut r: Vec<GridRenderType> = Vec::new();
        r.push(GridRenderType::Scale);
        r.push(GridRenderType::Tile);
        assert(r@ =~= grid_render_type_values());
        r
    }
}

/// Kinds of layout sheets.
#[derive(Copy, Clone, Debug, PartialEq, Eq, Structural)]
pub enum SheetType {
    Addon,
    Lobby,
}

/// The name shown for each value.
pub open spec fn sheet_type_label(e: SheetType) -> Seq<char> {
    match e {
        SheetType::Addon => "Addon"@,
        SheetType::Lobby => "Lobby"@,
    }
}

/// The values offered, in order.
pub open spec fn sheet_type_values() -> Seq<SheetType> {
    seq![
        SheetType::Addon,
        SheetType::Lobby,
    ]
}

impl SheetType {
    pub fn to_str(&self) -> (r: &'static str)
        ensures
            r@ == sheet_type_label(*self),
    {
        match self {
            SheetType::Addon => "Addon",
            SheetType::Lobby => "Lobby",
        }
    }

    pub fn iter() -> (r: Vec<SheetType>)
        ensures
            r@ == sheet_type_values(),
    {
        let mut r: Vec<SheetType> = Vec::new();
        r.push(SheetType::Addon);
        r.push(SheetType::Lobby);
        assert(r@ =~= sheet_type_values());
        r
    }
}

/// What a keyframe group animates.
#[derive(Copy, Clone, Debug, PartialEq, Eq, Structural)]
pub enum KeyUsage {
    Position,
    Rotation,
    Scale,
    Alpha,
    NodeColor,
    TextColor,
    EdgeColor,
    Number,
}

/// The name shown for each value.
pub open spec fn key_usage_label(e: KeyUsage) -> Seq<char> {
    match e {
        KeyUsage::Position => "Position"@,
        KeyUsage::Rotation => "Rotation"@,
        KeyUsage::Scale => "Scale"@,
        KeyUsage::Alpha => "Alpha"@,
        KeyUsage::NodeColor => "Node Color"@,
        KeyUsage::TextColor => "Text Color"@,
        KeyUsage::EdgeColor => "Edge Color"@,
        KeyUsage::Number => "Number"@,
    }
}

/// The values offered, in order.
pub open spec fn key_usage_values() -> Seq<KeyUsage> {
    seq![
        KeyUsage::Position,
        KeyUsage::Rotation,
        KeyUsage::Scale,
        KeyUsage::Alpha,
        KeyUsage::NodeColor,
        KeyUsage::TextColor,
        KeyUsage::EdgeColor,
        KeyUsage::Number,
    ]
}

impl KeyUsage {
    pub fn to_str(&self) -> (r: &'static str)
        ensures
            r@ == key_usage_label(*self),
    {
        match self {
            KeyUsage::Position => "Position",
            KeyUsage::Rotation => "Rotation",
            KeyUsage::Scale => "Scale",
            KeyUsage::Alpha => "Alpha",
            KeyUsage::NodeColor => "Node Color",
            KeyUsage::TextColor => "Text Color",
            KeyUsage::EdgeColor => "Edge Color",
            KeyUsage::Number => "Number",
        }
    }

    pub fn iter() -> (r: Vec<KeyUsage>)
        ensures
            r@ == key_usage_values(),
    {
        let mut r: Vec<KeyUsage> = Vec::new();
        r.push(KeyUsage::Position);
        r.push(KeyUsage::Rotation);
        r.push(KeyUsage::Scale);
        r.push(KeyUsage::Alpha);
        r.push(KeyUsage::NodeColor);
        r.push(KeyUsage::TextColor);
        r.push(KeyUsage::EdgeColor);
        r.push(KeyUsage::Number);
        assert(r@ =~= key_usage_values());
        r
    }
}

/// Value types of keyframe groups.
#[derive(Copy, Clone, Debug, PartialEq, Eq, Structural)]
pub enum KeyGroupType {
    Float1,
    Float2,
    Float3,
    SByte1,
    SByte2,
    SByte3,
    Byte1,
    Byte2,
    Byte3,
    Short1,
    Short2,
    Short3,
    UShort1,
    UShort2,
    UShort3,
    Int1,
    Int2,
    Int3,
    UInt1,
    UInt2,
    UInt3,
    Bool1,
    Bool2,
    Bool3,
    Color,
    Label,
}

/// The name shown for each value.
pub open spec fn key_group_type_label(e: KeyGroupType) -> Seq<char> {
    match e {
        KeyGroupType::Float1 => "Float1"@,
        KeyGroupType::Float2 => "Float2"@,
        KeyGroupType::Float3 => "Float3"@,
        KeyGroupType::SByte1 => "SByte1"@,
        KeyGroupType::SByte2 => "SByte2"@,
        KeyGroupType::SByte3 => "SByte3"@,
        KeyGroupType::Byte1 => "Byte1"@,
        KeyGroupType::Byte2 => "Byte2"@,
        KeyGroupType::Byte3 => "Byte3"@,
        KeyGroupType::Short1 => "Short1"@,
        KeyGroupType::Short2 => "Short2"@,
        KeyGroupType::Short3 => "Short3"@,
        KeyGroupType::UShort1 => "UShort1"@,
        KeyGroupType::UShort2 => "UShort2"@,
        KeyGroupType::UShort3 => "UShort3"@,
        KeyGroupType::Int1 => "Int1"@,
        KeyGroupType::Int2 => "Int2"@,
        KeyGroupType::Int3 => "Int3"@,
        KeyGroupType::UInt1 => "UInt1"@,
        KeyGroupType::UInt2 => "UInt2"@,
        KeyGroupType::UInt3 => "UInt3"@,
        KeyGroupType::Bool1 => "Bool1"@,
        KeyGroupType::Bool2 => "Bool2"@,
        KeyGroupType::Bool3 => "Bool3"@,
        KeyGroupType::Color => "Color"@,
        KeyGroupType::Label => "Label"@,
    }
}

/// The values offered, in order.
pub open spec fn key_group_type_values() -> Seq<KeyGroupType> {
    seq![
        KeyGroupType::Float1,
        KeyGroupType::Float2,
        KeyGroupType::Float3,
        KeyGroupType::SByte1,
        KeyGroupType::SByte2,
        KeyGroupType::SByte3,
        KeyGroupType::Byte1,
        KeyGroupType::Byte2,
        KeyGroupType::Byte3,
        KeyGroupType::Short1,
        KeyGroupType::Short2,
        KeyGroupType::Short3,
        KeyGroupType::UShort1,
        KeyGroupType::UShort2,
        KeyGroupType::UShort3,
        KeyGroupType::Int1,
        KeyGroupType::Int2,
        KeyGroupType::Int3,
        KeyGroupType::UInt1,
        KeyGroupType::UInt2,
        KeyGroupType::UInt3,
        KeyGroupType::Bool1,
        KeyGroupType::Bool2,
        KeyGroupType::Bool3,
        KeyGroupType::Color,
        KeyGroupType::Label,
    ]
}

impl KeyGroupType {
    pub fn to_str(&self) -> (r: &'static str)
        ensures
            r@ == key_group_type_label(*self),
    {
        match self {
            KeyGroupType::Float1 => "Float1",
            KeyGroupType::Float2 => "Float2",
            KeyGroupType::Float3 => "Float3",
            KeyGroupType::SByte1 => "SByte1",
            KeyGroupType::SByte2 => "SByte2",
            KeyGroupType::SByte3 => "SByte3",
            KeyGroupType::Byte1 => "Byte1",
            KeyGroupType::Byte2 => "Byte2",
            KeyGroupType::Byte3 => "Byte3",
            KeyGroupType::Short1 => "Short1",
            KeyGroupType::Short2 => "Short2",
            KeyGroupType::Short3 => "Short3",
            KeyGroupType::UShort1 => "UShort1",
            KeyGroupType::UShort2 => "UShort2",
            KeyGroupType::UShort3 => "UShort3",
            KeyGroupType::Int1 => "Int1",
            KeyGroupType::Int2 => "Int2",
            KeyGroupType::Int3 => "Int3",
            KeyGroupType::UInt1 => "UInt1",
            KeyGroupType::UInt2 => "UInt2",
            KeyGroupType::UInt3 => "UInt3",
            KeyGroupType::Bool1 => "Bool1",
            KeyGroupType::Bool2 => "Bool2",
            KeyGroupType::Bool3 => "Bool3",
            KeyGroupType::Color => "Color",
            KeyGroupType::Label => "Label",
        }
    }

    pub fn iter() -> (r: Vec<KeyGroupType>)
        ensures
            r@ == key_group_type_values(),
    {
        let mut r: Vec<KeyGroupType> = Vec::new();
        r.push(KeyGroupType::Float1);
        r.push(KeyGroupType::Float2);
        r.push(KeyGroupType::Float3);
        r.push(KeyGroupType::SByte1);
        r.push(KeyGroupType::SByte2);
        r.push(KeyGroupType::SByte3);
        r.push(KeyGroupType::Byte1);
        r.push(KeyGroupType::Byte2);
        r.push(KeyGroupType::Byte3);
        r.push(KeyGroupType::Short1);
        r.push(KeyGroupType::Short2);
        r.push(KeyGroupType::Short3);
        r.push(KeyGroupType::UShort1);
        r.push(KeyGroupType::UShort2);
        r.push(KeyGroupType::UShort3);
        r.push(KeyGroupType::Int1);
        r.push(KeyGroupType::Int2);
        r.push(KeyGroupType::Int3);
        r.push(KeyGroupType::UInt1);
        r.push(KeyGroupType::UInt2);
        r.push(KeyGroupType::UInt3);
        r.push(KeyGroupType::Bool1);
        r.push(KeyGroupType::Bool2);
        r.push(KeyGroupType::Bool3);
        r.push(KeyGroupType::Color);
        r.push(KeyGroupType::Label);
        assert(r@ =~= key_group_type_values());
        r
    }
}

/// The kind of a layout node, with what its name shows of it: the id and
/// component type of a component node, and the type number of a node of a
/// kind the editor does not know.
#[derive(Copy, Clone, Debug, PartialEq, Eq, Structural)]
pub enum NodeKind {
    Image,
    Text,
    NineGrid,
    Counter,
    Collision,
    Component { component_id: u32, component_type: ComponentType },
    Unknown,
    Other(u32),
}

/// The name shown for each kind of node.
pub open spec fn node_kind_label(e: NodeKind) -> Seq<char> {
    match e {
        NodeKind::Image => "Image"@,
        NodeKind::Text => "Text"@,
        NodeKind::NineGrid => "Nine Grid"@,
        NodeKind::Counter => "Counter"@,
        NodeKind::Collision => "Collision"@,
        NodeKind::Component { .. } => "Component"@,
        NodeKind::Unknown => "Unknown"@,
        NodeKind::Other(_) => "Other"@,
    }
}

/// The name shown for a node in the node list.
pub open spec fn node_title(e: NodeKind) -> Seq<char> {
    match e {
        NodeKind::Component { component_id, component_type } => "Component ("@ + decimal(component_id as nat) + ") "@
            + component_type_label(component_type),
        NodeKind::Other(v) => "Other ("@ + decimal(v as nat) + ")"@,
        _ => node_kind_label(e),
    }
}

fn append_chars(cs: &mut Vec<char>, more: &Vec<char>)
    ensures
        final(cs)@ == old(cs)@ + more@,
{
    let mut i: usize = 0;
    while i < more.len()
        invariant
            i <= more@.len(),
            cs@ == old(cs)@ + more@.take(i as int),
        decreases more@.len() - i,
    {
        cs.push(more[i]);
        proof {
            assert(more@.take(i + 1) =~= more@.take(i as int).push(more@[i as int]));
        }
        i = i + 1;
    }
    assert(more@.take(more@.len() as int) =~= more@);
}

impl NodeKind {
    pub fn to_str(&self) -> (r: &'static str)
        ensures
            r@ == node_kind_label(*self),
    {
        match self {
            NodeKind::Image => "Image",
            NodeKind::Text => "Text",
            NodeKind::NineGrid => "Nine Grid",
            NodeKind::Counter => "Counter",
            NodeKind::Collision => "Collision",
            NodeKind::Component { .. } => "Component",
            NodeKind::Unknown => "Unknown",
            NodeKind::Other(_) => "Other",
        }
    }

    /// The name shown in the node list: a component node with its id and
    /// component type, an unknown kind with its type number.
    pub fn to_string(&self) -> (r: String)
        ensures
            r@ == node_title(*self),
    {
        match self {
            NodeKind::Component { component_id, component_type } => {
                let mut cs = str_chars("Component (");
                append_chars(&mut cs, &decimal_chars(*component_id as u64));
                append_chars(&mut cs, &str_chars(") "));
                append_chars(&mut cs, &str_chars(component_type.to_str()));
                string_from_chars(cs.as_slice())
            },
            NodeKind::Other(v) => {
                let mut cs = str_chars("Other (");
                append_chars(&mut cs, &decimal_chars(*v as u64));
                append_chars(&mut cs, &str_chars(")"));
                string_from_chars(cs.as_slice())
            },
            _ => self.to_str().to_owned(),
        }
    }
}

/// The names the editor shows for `AlignmentType`.
pub proof fn lemma_alignment_type_names()
    ensures
        alignment_type_label(AlignmentType::TopLeft) == "Top Left"@,
        alignment_type_label(AlignmentType::Top) == "Top"@,
        alignment_type_label(AlignmentType::TopRight) == "Top Right"@,
        alignment_type_label(AlignmentType::Left) == "Left"@,
        alignment_type_label(AlignmentType::Center) == "Center"@,
        alignment_type_label(AlignmentType::Right) == "Right"@,
        alignment_type_label(AlignmentType::BottomLeft) == "Bottom Left"@,
        alignment_type_label(AlignmentType::Bottom) == "Bottom"@,
        alignment_type_label(AlignmentType::BottomRight) == "Bottom Right"@,
{
}

/// The names the editor shows for `ComponentType`.
pub proof fn lemma_component_type_names()
    ensures
        component_type_label(ComponentType::Custom) == "Custom"@,
        component_type_label(ComponentType::Button) == "Button"@,
        component_type_label(ComponentType::Window) == "Window"@,
        component_type_label(ComponentType::CheckBox) == "CheckBox"@,
        component_type_label(ComponentType::RadioButton) == "RadioButton"@,
        component_type_label(ComponentType::Gauge) == "Gauge"@,
        component_type_label(ComponentType::Slider) == "Slider"@,
        component_type_label(ComponentType::TextInput) == "TextInput"@,
        component_type_label(ComponentType::NumericInput) == "NumericInput"@,
        component_type_label(ComponentType::List) == "List"@,
        component_type_label(ComponentType::DropDown) == "DropDown"@,
        component_type_label(ComponentType::Tabbed) == "Tabbed"@,
        component_type_label(ComponentType::TreeList) == "TreeList"@,
        component_type_label(ComponentType::ScrollBar) == "ScrollBar"@,
        component_type_label(ComponentType::ListItem) == "ListItem"@,
        component_type_label(ComponentType::Icon) == "Icon"@,
        component_type_label(ComponentType::IconWithText) == "IconWithText"@,
        component_type_label(ComponentType::DragDrop) == "DragDrop"@,
        component_type_label(ComponentType::LeveCard) == "LeveCard"@,
        component_type_label(ComponentType::NineGridText) == "NineGridText"@,
        component_type_label(ComponentType::Journal) == "Journal"@,
        component_type_label(ComponentType::Multipurpose) == "Multipurpose"@,
        component_type_label(ComponentType::MapView) == "Map"@,
        component_type_label(ComponentType::Preview) == "Preview"@,
        component_type_label(ComponentType::Unknown25) == "Unknown25"@,
{
}

/// The names the editor shows for `FontType`.
pub proof fn lemma_font_type_names()
    ensures
        font_type_label(FontType::Axis) == "Axis"@,
        font_type_label(FontType::MiedingerMed) == "MiedingerMed"@,
        font_type_label(FontType::Miedinger) == "Miedinger"@,
        font_type_label(FontType::TrumpGothic) == "TrumpGothic"@,
        font_type_label(FontType::Jupiter) == "Jupiter"@,
        font_type_label(FontType::JupiterLarge) == "JupiterLarge"@,
{
}

/// The names the editor shows for `CollisionType`.
pub proof fn lemma_collision_type_names()
    ensures
        collision_type_label(CollisionType::Hit) == "Hit"@,
        collision_type_label(CollisionType::Focus) == "Focus"@,
        collision_type_label(CollisionType::Move) == "Move"@,
{
}

/// The names the editor shows for `GridPartsType`.
pub proof fn lemma_grid_parts_type_names()
    ensures
        grid_parts_type_label(GridPartsType::Divide) == "Divide"@,
        grid_parts_type_label(GridPartsType::Compose) == "Compose"@,
{
}

/// The names the editor shows for `GridRenderType`.
pub proof fn lemma_grid_render_type_names()
    ensures
        grid_render_type_label(GridRenderType::Scale) == "Scale"@,
        grid_render_type_label(GridRenderType::Tile) == "Tile"@,
{
}

/// The names the editor shows for `SheetType`.
pub proof fn lemma_sheet_type_names()
    ensures
        sheet_type_label(SheetType::Addon) == "Addon"@,
        sheet_type_label(SheetType::Lobby) == "Lobby"@,
{
}

/// The names the editor shows for `KeyUsage`.
pub proof fn lemma_key_usage_names()
    ensures
        key_usage_label(KeyUsage::Position) == "Position"@,
        key_usage_label(KeyUsage::Rotation) == "Rotation"@,
        key_usage_label(KeyUsage::Scale) == "Scale"@,
        key_usage_label(KeyUsage::Alpha) == "Alpha"@,
        key_usage_label(KeyUsage::NodeColor) == "Node Color"@,
        key_usage_label(KeyUsage::TextColor) == "Text Color"@,
        key_usage_label(KeyUsage::EdgeColor) == "Edge Color"@,
        key_usage_label(KeyUsage::Number) == "Number"@,
{
}

/// The names the editor shows for `KeyGroupType`.
pub proof fn lemma_key_group_type_names()
    ensures
        key_group_type_label(KeyGroupType::Float1) == "Float1"@,
        key_group_type_label(KeyGroupType::Float2) == "Float2"@,
        key_group_type_label(KeyGroupType::Float3) == "Float3"@,
        key_group_type_label(KeyGroupType::SByte1) == "SByte1"@,
        key_group_type_label(KeyGroupType::SByte2) == "SByte2"@,
        key_group_type_label(KeyGroupType::SByte3) == "SByte3"@,
        key_group_type_label(KeyGroupType::Byte1) == "Byte1"@,
        key_group_type_label(KeyGroupType::Byte2) == "Byte2"@,
        key_group_type_label(KeyGroupType::Byte3) == "Byte3"@,
        key_group_type_label(KeyGroupType::Short1) == "Short1"@,
        key_group_type_label(KeyGroupType::Short2) == "Short2"@,
        key_group_type_label(KeyGroupType::Short3) == "Short3"@,
        key_group_type_label(KeyGroupType::UShort1) == "UShort1"@,
        key_group_type_label(KeyGroupType::UShort2) == "UShort2"@,
        key_group_type_label(KeyGroupType::UShort3) == "UShort3"@,
        key_group_type_label(KeyGroupType::Int1) == "Int1"@,
        key_group_type_label(KeyGroupType::Int2) == "Int2"@,
        key_group_type_label(KeyGroupType::Int3) == "Int3"@,
        key_group_type_label(KeyGroupType::UInt1) == "UInt1"@,
        key_group_type_label(KeyGroupType::UInt2) == "UInt2"@,
        key_group_type_label(KeyGroupType::UInt3) == "UInt3"@,
        key_group_type_label(KeyGroupType::Bool1) == "Bool1"@,
        key_group_type_label(KeyGroupType::Bool2) == "Bool2"@,
        key_group_type_label(KeyGroupType::Bool3) == "Bool3"@,
        key_group_type_label(KeyGroupType::Color) == "Color"@,
        key_group_type_label(KeyGroupType::Label) == "Label"@,
{
}

/// The names the editor shows for kinds of nodes.
pub proof fn lemma_node_kind_names(id: u32, t: ComponentType, v: u32)
    ensures
        node_kind_label(NodeKind::Image) == "Image"@,
        node_kind_label(NodeKind::Text) == "Text"@,
        node_kind_label(NodeKind::NineGrid) == "Nine Grid"@,
        node_kind_label(NodeKind::Counter) == "Counter"@,
        node_kind_label(NodeKind::Collision) == "Collision"@,
        node_kind_label(NodeKind::Component { component_id: id, component_type: t }) == "Component"@,
        node_kind_label(NodeKind::Unknown) == "Unknown"@,
        node_kind_label(NodeKind::Other(v)) == "Other"@,
{
}

} // verus!
