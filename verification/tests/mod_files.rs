use aetherment::mod_tree::{mod_tree, remember_mod_path, ModFiles, OptionFiles, SubOptionFiles};

fn f(game: &str, real: &str) -> (String, String) {
    (game.to_string(), real.to_string())
}

#[test]
fn mod_files_fill_the_tree() {
    let m = ModFiles {
        files: vec![f("chara/a.tex", "h1")],
        options: vec![
            OptionFiles { name: "Colour".to_string(), sub_options: None },
            OptionFiles {
                name: "Style".to_string(),
                sub_options: Some(vec![
                    SubOptionFiles { name: "Short".to_string(), files: vec![f("chara/b.tex", "h2")] },
                    SubOptionFiles { name: "Long".to_string(), files: vec![f("ui/c.tex", "h3")] },
                ]),
            },
        ],
    };
    let t = mod_tree(&m);
    let top: Vec<&str> = t.branches.iter().map(|b| b.name.as_str()).collect();
    assert_eq!(top, vec!["chara", "ui"]);
    let chara = &t.branches[0];
    assert_eq!(chara.branches.len(), 2);
    assert_eq!(chara.branches[0].name, "a.tex");
    assert!(chara.branches[0].option.is_none());
    assert_eq!(chara.branches[1].option, Some(("Style".to_string(), "Short".to_string())));
    assert_eq!(t.branches[1].branches[0].real_path.as_deref(), Some("h3"));
}

#[test]
fn mod_paths_are_remembered_once() {
    let mut paths = vec!["/mods/a".to_string()];
    assert!(remember_mod_path(&mut paths, "/mods/b".to_string()));
    assert!(!remember_mod_path(&mut paths, "/mods/a".to_string()));
    assert_eq!(paths, vec!["/mods/a".to_string(), "/mods/b".to_string()]);
}
