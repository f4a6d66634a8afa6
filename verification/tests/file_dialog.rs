use aetherment::file_dialog::{FileDialog, FileDialogResult, Listing, Timestamp};
use aetherment::ui_enums::SortDirection;

fn s(v: &str) -> String {
    v.to_string()
}

fn t(secs: i64) -> Timestamp {
    Timestamp { secs, nanos: 0 }
}

fn file(name: &str, modified: i64, size: u64) -> Listing {
    Listing {
        path: format!("/d/{name}"),
        name: s(name),
        is_dir: false,
        is_file: true,
        created: t(-modified),
        modified: t(modified),
        size,
    }
}

fn dir(name: &str) -> Listing {
    Listing { path: format!("/d/{name}"), name: s(name), is_dir: true, is_file: false, created: t(0), modified: t(0), size: 0 }
}

fn names(d: &FileDialog) -> Vec<String> {
    d.cur_files.iter().map(|f| f.name.clone()).collect()
}

#[test]
fn builder_defaults() {
    let b = FileDialog::new(s("/d"), s("out.png"), vec![(s("/"), s("\u{f0a0}"), s("/"))]);
    assert_eq!(b.limit, 1);
    assert!(b.open && b.allow_files && !b.allow_dirs);
    assert!(b.allowed_extensions.is_empty());
    assert_eq!(b.pinned.len(), 1);
}

#[test]
fn extensions_group_by_name_in_order() {
    let b = FileDialog::new(s("/d"), s("a"), vec![])
        .add_extension(s(".png"), Some(s("Image")))
        .add_extension(s(".dds"), None)
        .add_extension(s(".tga"), Some(s("Image")))
        .add_extension(s(".atex"), Some(s("Game")));
    let groups: Vec<(String, Vec<String>)> = b.allowed_extensions.clone();
    assert_eq!(
        groups,
        vec![
            (s(".dds"), vec![s(".dds")]),
            (s("Game"), vec![s(".atex")]),
            (s("Image"), vec![s(".png"), s(".tga")]),
        ]
    );
}

#[test]
fn limit_and_save_mode() {
    let b = FileDialog::new(s("/d"), s("a"), vec![]);
    assert_eq!(b.limit(0).limit, usize::MAX);
    let b = FileDialog::new(s("/d"), s("a"), vec![]);
    assert_eq!(b.limit(3).limit, 3);
    let b = FileDialog::new(s("/d"), s("a"), vec![]).limit(5).save_mode(true);
    assert!(!b.open);
    assert_eq!(b.limit, 1);
    assert_eq!(b.limit(7).limit, 1);
    let b = FileDialog::new(s("/d"), s("a"), vec![]).allow_directories(true).allow_files(false);
    assert!(b.allow_dirs && !b.allow_files);
}

#[test]
fn pins_are_appended() {
    let b = FileDialog::new(s("/d"), s("a"), vec![]).add_pin(s("/home"), '\u{f007}', s("Home"));
    assert_eq!(b.pinned, vec![(s("/home"), s("\u{f007}"), s("Home"))]);
}

#[test]
fn finish_picks_the_extension_of_the_name() {
    let d = FileDialog::new(s("/d"), s("x.tga"), vec![])
        .add_extension(s(".png"), Some(s("Image")))
        .add_extension(s(".tga"), Some(s("Image")))
        .finish();
    assert_eq!(d.file_ext, "Image");
    assert_eq!(d.prev_path, "/d");
    let d = FileDialog::new(s("/d"), s("x.bmp"), vec![]).add_extension(s(".png"), None).finish();
    assert_eq!(d.file_ext, "");
}

#[test]
fn listing_filters_and_gives_icons() {
    let mut d = FileDialog::new(s("/d"), s(""), vec![]).add_extension(s(".png"), None).add_extension(s(".amp"), None).finish();
    d.load_entries(vec![file("b.png", 2, 10), dir("Zeta"), file("notes.txt", 1, 5), file("a.amp", 3, 1), dir("alpha")]);
    let dirs: Vec<String> = d.cur_dirs.iter().map(|e| e.name.clone()).collect();
    assert_eq!(dirs, vec![s("alpha"), s("Zeta")]);
    assert_eq!(names(&d), vec![s("a.amp"), s("b.png")]);
    assert_eq!((d.cur_files[0].icon, d.cur_files[0].icon_clr), ('\u{f570}', 0xFF7EB182));
    assert_eq!((d.cur_files[1].icon, d.cur_files[1].icon_clr), ('\u{f1c5}', 0xFFFF_FFFF));
    assert!(d.selected.is_empty());
}

#[test]
fn unknown_extensions_get_the_plain_icon() {
    let mut d = FileDialog::new(s("/d"), s(""), vec![]).finish();
    d.load_entries(vec![file("data.bin", 1, 1), file("pack.tar.gz", 1, 1)]);
    assert_eq!(d.cur_files[0].icon, '\u{f15b}');
    assert_eq!(d.cur_files[1].icon, '\u{f1c6}');
}

#[test]
fn files_hidden_when_only_directories_wanted() {
    let mut d = FileDialog::new(s("/d"), s(""), vec![]).allow_files(false).finish();
    d.load_entries(vec![file("b.png", 2, 10), dir("x")]);
    assert!(d.cur_files.is_empty());
    assert_eq!(d.cur_dirs.len(), 1);
}

#[test]
fn sort_by_columns_and_direction() {
    let mut d = FileDialog::new(s("/d"), s(""), vec![]).finish();
    d.load_entries(vec![file("b", 5, 30), file("C", 9, 10), file("a", 1, 20)]);
    assert_eq!(names(&d), vec![s("a"), s("b"), s("C")]);
    d.set_sort(1, SortDirection::Ascending);
    assert_eq!(names(&d), vec![s("a"), s("b"), s("C")]);
    d.set_sort(2, SortDirection::Ascending);
    assert_eq!(names(&d), vec![s("C"), s("b"), s("a")]);
    d.set_sort(3, SortDirection::Ascending);
    assert_eq!(names(&d), vec![s("C"), s("a"), s("b")]);
    d.set_sort(3, SortDirection::Descending);
    assert_eq!(names(&d), vec![s("b"), s("a"), s("C")]);
}

#[test]
fn equal_keys_keep_their_order() {
    let mut d = FileDialog::new(s("/d"), s(""), vec![]).finish();
    d.load_entries(vec![file("x", 1, 7), file("y", 2, 7), file("z", 3, 7)]);
    d.set_sort(3, SortDirection::Ascending);
    assert_eq!(names(&d), vec![s("x"), s("y"), s("z")]);
}

#[test]
fn search_is_case_insensitive() {
    let mut d = FileDialog::new(s("/d"), s(""), vec![]).finish();
    assert!(d.shows("Anything"));
    d.search = s("TeX");
    assert!(d.shows("my_texture.tex"));
    assert!(!d.shows("image.png"));
    d.search = s("Ä");
    assert!(d.shows("bär"));
}

#[test]
fn clicks_select_and_name() {
    let mut d = FileDialog::new(s("/d"), s("old.png"), vec![]).add_extension(s(".png"), None).limit(2).finish();
    d.load_entries(vec![file("a.png", 1, 1), file("b.png", 2, 1), file("c.png", 3, 1), dir("sub")]);
    assert!(d.click_file(0, false));
    assert_eq!(d.selected, vec![s("/d/a.png")]);
    assert_eq!(d.file_name, "a.png");
    assert_eq!(d.file_ext, ".png");
    assert!(!d.click_file(1, true));
    assert_eq!(d.selected, vec![s("/d/b.png"), s("/d/a.png")]);
    assert!(!d.click_file(2, true));
    assert_eq!(d.selected, vec![s("/d/c.png"), s("/d/b.png")]);
    assert_eq!(d.file_name, "a.png");
    d.click_dir(0, false);
    assert_eq!(d.selected, vec![s("/d/c.png"), s("/d/b.png")]);
}

#[test]
fn directories_selectable_when_allowed() {
    let mut d = FileDialog::new(s("/d"), s(""), vec![]).allow_directories(true).finish();
    d.load_entries(vec![dir("sub")]);
    d.click_dir(0, false);
    assert_eq!(d.selected, vec![s("/d/sub")]);
}

#[test]
fn choosing_an_extension_renames() {
    let mut d = FileDialog::new(s("/d"), s("pic.tar.gz"), vec![])
        .add_extension(s(".png"), Some(s("Image")))
        .add_extension(s(".dds"), None)
        .finish();
    // groups: ".dds", "Image"
    d.choose_ext(1);
    assert_eq!(d.file_name, "pic.png");
    assert_eq!(d.file_ext, "Image");
    d.choose_ext(1);
    assert_eq!(d.file_name, "pic.png");
    d.file_name = s(".hidden");
    d.choose_ext(0);
    assert_eq!(d.file_name, "");
    assert_eq!(d.file_ext, ".dds");
}

#[test]
fn extension_labels() {
    let d = FileDialog::new(s("/d"), s(""), vec![])
        .add_extension(s(".png"), Some(s("Image")))
        .add_extension(s(".tga"), Some(s("Image")))
        .add_extension(s(".dds"), None)
        .finish();
    assert_eq!(d.ext_label(0), ".dds");
    assert_eq!(d.ext_label(1), "Image (.png, .tga)");
}

#[test]
fn confirm_answers_with_the_selection() {
    let mut d = FileDialog::new(s("/d"), s("new.png"), vec![]).finish();
    assert!(matches!(d.confirm(s("/d/new.png"), false), FileDialogResult::Busy));
    match d.confirm(s("/d/new.png"), true) {
        FileDialogResult::Success(v) => assert_eq!(v, vec![s("/d/new.png")]),
        _ => panic!("expected a selection"),
    }
    match d.confirm(s("/d/new.png"), true) {
        FileDialogResult::Success(v) => assert_eq!(v, vec![s("/d/new.png")]),
        _ => panic!("expected a selection"),
    }
}

#[test]
fn saving_takes_a_new_name() {
    let mut d = FileDialog::new(s("/d"), s("out.dds"), vec![]).save_mode(true).finish();
    match d.confirm(s("/d/out.dds"), false) {
        FileDialogResult::Success(v) => assert_eq!(v, vec![s("/d/out.dds")]),
        _ => panic!("expected a selection"),
    }
}

#[test]
fn pinned_places_are_roots_then_user_folders() {
    let dirs = aetherment::file_dialog::UserDirs {
        home: "/home/u".to_string(),
        desktop: "/home/u/Desktop".to_string(),
        downloads: "/home/u/Downloads".to_string(),
        documents: "/home/u/Documents".to_string(),
        pictures: "/home/u/Pictures".to_string(),
        videos: "/home/u/Videos".to_string(),
        music: "/home/u/Music".to_string(),
    };
    let p = aetherment::file_dialog::pinned_places(vec!["/".to_string()], dirs);
    let names: Vec<&str> = p.iter().map(|v| v.2.as_str()).collect();
    assert_eq!(names, vec!["/", "Home", "Desktop", "Downloads", "Documents", "Pictures", "Videos", "Music"]);
    assert_eq!(p[0].0, "/");
    assert_eq!(p[0].1, "\u{f0a0}");
    assert_eq!(p[1].0, "/home/u");
    assert_eq!(p[1].1, "\u{f007}");
    assert_eq!(p[7].0, "/home/u/Music");
    assert_eq!(p[7].1, "\u{f001}");
}

#[test]
fn navigation_keeps_a_path_to_come_back_to() {
    let mut d = FileDialog::new(s("/d"), s(""), vec![]).finish();
    d.load_entries(vec![dir("sub")]);
    d.go_to(s("/home"));
    assert_eq!((d.path.as_str(), d.prev_path.as_str()), ("/home", "/home"));
    d.load_entries(vec![dir("sub")]);
    assert!(d.enter_dir(0));
    assert_eq!(d.prev_path, "/home");
    assert!(d.path.ends_with("sub"));
    d.listed(false);
    assert_eq!(d.path, "/home");
    assert!(!d.enter_dir(5));
    assert_eq!(d.path, "/home");
    d.editing_path = true;
    d.begin_path_edit();
    d.path = s("/nowhere");
    d.leave_path_bar(false);
    assert!(!d.editing_path);
    assert_eq!(d.path, "/home");
    d.path = s("/tmp");
    d.leave_path_bar(true);
    assert_eq!(d.path, "/tmp");
}
