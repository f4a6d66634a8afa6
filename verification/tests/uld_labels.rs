use aetherment::uld_enums::{
    AlignmentType, CollisionType, ComponentType, FontType, GridPartsType, GridRenderType, KeyGroupType, KeyUsage, NodeKind,
    SheetType,
};

#[test]
fn alignment_names() {
    assert_eq!(AlignmentType::TopLeft.to_str(), "Top Left");
    assert_eq!(AlignmentType::Unk(7).to_str(), "Unknown");
    assert_eq!(AlignmentType::Unk(7).to_string(), "Unknown (7)");
    assert_eq!(AlignmentType::Unk(42).to_string(), "Unknown (42)");
    assert_eq!(AlignmentType::Unk(255).to_string(), "Unknown (255)");
    assert_eq!(AlignmentType::Unk(100).to_string(), "Unknown (100)");
    assert_eq!(AlignmentType::Center.to_string(), "Center");
    let all = AlignmentType::iter();
    assert_eq!(all.len(), 9);
    assert_eq!(all[8], AlignmentType::BottomRight);
}

#[test]
fn component_names() {
    assert_eq!(ComponentType::MapView.to_str(), "Map");
    assert_eq!(ComponentType::Unknown25.to_str(), "Unknown25");
    let all = ComponentType::iter();
    assert_eq!(all.len(), 25);
    assert_eq!(all[0], ComponentType::Custom);
}

#[test]
fn node_and_timeline_names() {
    assert_eq!(FontType::iter().len(), 6);
    assert_eq!(FontType::TrumpGothic.to_str(), "TrumpGothic");
    assert_eq!(CollisionType::iter(), vec![CollisionType::Hit, CollisionType::Focus, CollisionType::Move]);
    assert_eq!(GridPartsType::Compose.to_str(), "Compose");
    assert_eq!(GridRenderType::Tile.to_str(), "Tile");
    assert_eq!(SheetType::iter(), vec![SheetType::Addon, SheetType::Lobby]);
    assert_eq!(KeyUsage::NodeColor.to_str(), "Node Color");
    assert_eq!(KeyGroupType::iter().len(), 26);
    assert_eq!(KeyGroupType::UShort2.to_str(), "UShort2");
}

#[test]
fn node_names() {
    assert_eq!(NodeKind::NineGrid.to_str(), "Nine Grid");
    assert_eq!(NodeKind::Image.to_string(), "Image");
    let c = NodeKind::Component { component_id: 1004, component_type: ComponentType::Button };
    assert_eq!(c.to_str(), "Component");
    assert_eq!(c.to_string(), "Component (1004) Button");
    assert_eq!(NodeKind::Other(17).to_string(), "Other (17)");
    assert_eq!(NodeKind::Unknown.to_string(), "Unknown");
}
