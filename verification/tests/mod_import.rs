use aetherment::mod_tree::{
    forget_mod_path, open_mod_step, register_import, set_file, DialogStatus, ModFiles, OptionFiles, SubOptionFiles, TreeAction,
    TreeEvent,
};
use aetherment::static_tree::StaticTree;

fn f(game: &str, real: &str) -> (String, String) {
    (game.to_string(), real.to_string())
}

fn mod_files() -> ModFiles {
    ModFiles {
        files: vec![f("chara/a.tex", "h1")],
        options: vec![
            OptionFiles { name: "Colour".to_string(), sub_options: None },
            OptionFiles {
                name: "Style".to_string(),
                sub_options: Some(vec![
                    SubOptionFiles { name: "Short".to_string(), files: vec![] },
                    SubOptionFiles { name: "Long".to_string(), files: vec![f("ui/c.tex", "h3")] },
                ]),
            },
        ],
    }
}

#[test]
fn set_file_replaces_or_appends() {
    let mut files = vec![f("a", "1"), f("b", "2")];
    set_file(&mut files, "b", "3");
    assert_eq!(files, vec![f("a", "1"), f("b", "3")]);
    set_file(&mut files, "c", "4");
    assert_eq!(files, vec![f("a", "1"), f("b", "3"), f("c", "4")]);
}

#[test]
fn import_without_target_is_a_mod_file() {
    let mut m = mod_files();
    let mut t = StaticTree::new();
    register_import(&mut m, &mut t, "chara/new.tex", "h9", None);
    assert_eq!(m.files, vec![f("chara/a.tex", "h1"), f("chara/new.tex", "h9")]);
    assert_eq!(t.branches.len(), 1);
    assert_eq!(t.branches[0].name, "chara");
    assert_eq!(t.branches[0].branches[0].name, "new.tex");
    assert_eq!(t.branches[0].branches[0].real_path.as_deref(), Some("h9"));
    assert!(t.branches[0].branches[0].option.is_none());
}

#[test]
fn import_into_sub_option() {
    let mut m = mod_files();
    let mut t = StaticTree::new();
    register_import(&mut m, &mut t, "ui/c.tex", "h7", Some((1, 1)));
    assert_eq!(m.files, vec![f("chara/a.tex", "h1")]);
    let subs = m.options[1].sub_options.as_ref().unwrap();
    assert_eq!(subs[1].files, vec![f("ui/c.tex", "h7")]);
    assert!(subs[0].files.is_empty());
    assert_eq!(t.branches[0].branches[0].option, Some(("Style".to_string(), "Long".to_string())));
}

#[test]
fn import_into_option_without_files_changes_nothing() {
    let mut m = mod_files();
    let mut t = StaticTree::new();
    register_import(&mut m, &mut t, "ui/x.tex", "h8", Some((0, 0)));
    assert_eq!(m.files, vec![f("chara/a.tex", "h1")]);
    assert!(m.options[0].sub_options.is_none());
    assert!(t.branches.is_empty());
}

#[test]
fn forgotten_mod_path_is_removed_everywhere() {
    let mut paths = vec!["/m/a".to_string(), "/m/b".to_string(), "/m/a".to_string()];
    forget_mod_path(&mut paths, "/m/a");
    assert_eq!(paths, vec!["/m/b".to_string()]);
    forget_mod_path(&mut paths, "/m/z");
    assert_eq!(paths, vec!["/m/b".to_string()]);
}

#[test]
fn opening_a_folder_with_a_mod() {
    let (s, a) = open_mod_step(DialogStatus::Idle, TreeEvent::OpenClicked);
    assert!(matches!(s, DialogStatus::Dialog));
    assert!(matches!(a, TreeAction::ShowFolderDialog));
    // a second click while the dialog is up does nothing
    let (s, a) = open_mod_step(s, TreeEvent::OpenClicked);
    assert!(matches!(s, DialogStatus::Dialog));
    assert!(matches!(a, TreeAction::Nothing));
    let (s, a) = open_mod_step(s, TreeEvent::FolderChosen { path: "/m/x".to_string(), has_meta: true });
    assert!(matches!(s, DialogStatus::Dialog));
    assert!(matches!(a, TreeAction::OpenMod(p) if p == "/m/x"));
}

#[test]
fn opening_a_folder_without_a_mod_asks_to_create_one() {
    let (s, a) = open_mod_step(DialogStatus::Dialog, TreeEvent::FolderChosen { path: "/new".to_string(), has_meta: false });
    assert!(matches!(&s, DialogStatus::CreateReq(p) if p == "/new"));
    assert!(matches!(a, TreeAction::Nothing));
    let (s2, a2) = open_mod_step(s, TreeEvent::CreateClicked);
    assert!(matches!(s2, DialogStatus::Idle));
    assert!(matches!(a2, TreeAction::CreateMod(p) if p == "/new"));
    let (s3, a3) = open_mod_step(DialogStatus::CreateReq("/new".to_string()), TreeEvent::CancelClicked);
    assert!(matches!(s3, DialogStatus::Idle));
    assert!(matches!(a3, TreeAction::Nothing));
}
