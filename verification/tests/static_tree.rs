use aetherment::static_tree::StaticTree;

#[test]
fn paths_build_folders_once() {
    let mut t = StaticTree::new();
    t.add_path("ui/icon/a.tex", "hash1", None);
    t.add_path("ui/b.tex", "hash2", Some(("opt".to_string(), "sub".to_string())));
    t.add_path("ui/icon/B.tex", "hash3", None);
    assert_eq!(t.branches.len(), 1);
    let ui = &t.branches[0];
    assert_eq!(ui.name, "ui");
    assert!(ui.real_path.is_none());
    assert_eq!(ui.branches.len(), 2);
    // folders first
    assert_eq!(ui.branches[0].name, "icon");
    assert_eq!(ui.branches[1].name, "b.tex");
    assert_eq!(ui.branches[1].real_path.as_deref(), Some("hash2"));
    assert_eq!(ui.branches[1].option, Some(("opt".to_string(), "sub".to_string())));
    let icon = &ui.branches[0];
    let names: Vec<&str> = icon.branches.iter().map(|b| b.name.as_str()).collect();
    // case-insensitive order
    assert_eq!(names, vec!["a.tex", "B.tex"]);
    assert!(!icon.branches[0].disabled);
}

#[test]
fn same_path_twice_gives_two_files() {
    let mut t = StaticTree::new();
    t.add_path("x.tex", "h1", None);
    t.add_path("x.tex", "h2", None);
    assert_eq!(t.branches.len(), 2);
    assert_eq!(t.branches[0].real_path.as_deref(), Some("h1"));
    assert_eq!(t.branches[1].real_path.as_deref(), Some("h2"));
}
