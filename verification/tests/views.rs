use aetherment::views::{channel_preview, placement, tex_exts, viewer_kind, Error, Generic, ModManage, Placement, Settings, ViewerKind};

#[test]
fn error_view_names_itself_after_the_file() {
    let e = Error::new("chara/x/skin.tex", Some("/mods/a/files/h".to_string()), "not found".to_string());
    assert_eq!(e.name, "skin.tex");
    assert_eq!(e.path, "chara/x/skin.tex");
    assert_eq!(e.real_path.as_deref(), Some("/mods/a/files/h"));
    assert_eq!(e.err, "not found");
    assert_eq!(e.exts(), vec!["tex".to_string()]);
}

#[test]
fn generic_view_holds_data() {
    let g = Generic::new("a/b.bin", None, vec![1, 2]);
    assert_eq!(g.name, "b.bin");
    assert_eq!(g.data, Some(vec![1, 2]));
    assert!(g.real_path.is_none());
    assert_eq!(g.exts(), vec!["bin".to_string()]);
    let g = Generic::new("noext", None, vec![]);
    assert_eq!(g.exts(), vec!["noext".to_string()]);
}

#[test]
fn mod_views() {
    let m = ModManage::new("My Mod".to_string(), "/mods/my".to_string());
    assert_eq!((m.name.as_str(), m.path.as_str()), ("My Mod", "/mods/my"));
    assert!(m.notif.is_none());
    let _ = Settings::new();
}

#[test]
fn paths_open_in_their_viewer() {
    assert_eq!(viewer_kind("chara/skin.tex"), ViewerKind::Tex);
    assert_eq!(viewer_kind("vfx/a.atex"), ViewerKind::Tex);
    assert_eq!(viewer_kind("chara/skin.tex.comp"), ViewerKind::Tex);
    assert_eq!(viewer_kind("x.tex.comp.comp"), ViewerKind::Tex);
    assert_eq!(viewer_kind("ui/uld/a.uld"), ViewerKind::Uld);
    assert_eq!(viewer_kind("a.mtrl"), ViewerKind::Generic);
    assert_eq!(viewer_kind("tex"), ViewerKind::Tex);
    assert_eq!(viewer_kind(".comp"), ViewerKind::Generic);
}

#[test]
fn new_tabs_find_their_place() {
    assert_eq!(placement(1, true), Placement::SplitRight);
    assert_eq!(placement(3, true), Placement::ReplaceActive);
    assert_eq!(placement(3, false), Placement::Append);
}

#[test]
fn channel_preview_filters() {
    let px = [10u8, 20, 30, 40, 1, 2, 3, 4, 99];
    assert_eq!(channel_preview(&px, true, true, true, true), vec![10, 20, 30, 40, 1, 2, 3, 4]);
    assert_eq!(channel_preview(&px, true, false, true, false), vec![10, 0, 30, 255, 1, 0, 3, 255]);
    assert_eq!(channel_preview(&px, false, false, false, true), vec![40, 40, 40, 255, 4, 4, 4, 255]);
    assert_eq!(channel_preview(&px, false, false, false, false), vec![0, 0, 0, 255, 0, 0, 0, 255]);
}

#[test]
fn texture_views_export_more_formats() {
    assert_eq!(tex_exts("skin.atex"), vec!["atex", "dds", "png", "tiff", "tga"]);
}

#[test]
fn custom_install_checkbox() {
    let mut loc: Option<String> = None;
    Settings::set_custom_install(&mut loc, true);
    assert_eq!(loc.as_deref(), Some(""));
    loc = Some("Z:/game".to_string());
    Settings::set_custom_install(&mut loc, true);
    assert_eq!(loc.as_deref(), Some("Z:/game"));
    Settings::set_custom_install(&mut loc, false);
    assert_eq!(loc, None);
    Settings::set_custom_install(&mut loc, false);
    assert_eq!(loc, None);
}
