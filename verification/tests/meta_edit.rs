use aetherment::meta_edit::{
    add_blank, add_option, add_sub_option, default_label, delete_chosen, is_default, toggle_default, ErrorPopup, Meta, MetaOption,
    ModMeta, OptionKind, SubOption,
};

fn meta() -> Meta {
    Meta {
        name: "Mod".to_string(),
        description: "d".to_string(),
        version: "1.0".to_string(),
        author: "me".to_string(),
        website: String::new(),
        tags: vec!["a".to_string(), "b".to_string()],
        dependencies: vec![],
    }
}

#[test]
fn mod_meta_view_holds_the_meta() {
    let v = ModMeta::new("Mod".to_string(), "/mods/m/meta.json".to_string(), meta());
    assert_eq!(v.name, "Mod");
    assert_eq!(v.path, "/mods/m/meta.json");
    assert_eq!(v.meta.tags.len(), 2);
}

#[test]
fn list_entries_are_deleted_and_added() {
    let mut m = meta();
    delete_chosen(&mut m.tags, Some(0));
    assert_eq!(m.tags, vec!["b".to_string()]);
    delete_chosen(&mut m.tags, None);
    assert_eq!(m.tags, vec!["b".to_string()]);
    add_blank(&mut m.dependencies);
    assert_eq!(m.dependencies, vec![String::new()]);
}

#[test]
fn default_bits_toggle() {
    assert!(is_default(0b101, 2));
    assert!(!is_default(0b101, 1));
    assert_eq!(toggle_default(0b101, 1), 0b111);
    assert_eq!(toggle_default(0b101, 0), 0b100);
    assert_eq!(toggle_default(0, 31), 0x8000_0000);
}

#[test]
fn default_labels() {
    let names = vec!["Short".to_string(), "Long".to_string()];
    assert_eq!(default_label(1, &names), "(1) Long");
    assert_eq!(default_label(2, &names), "Invalid");
}

#[test]
fn error_popup_shows_and_closes() {
    let mut p = ErrorPopup::new();
    assert!(p.current.is_none());
    p.show_error("Title".to_string(), "Body".to_string());
    assert_eq!(p.current, Some(("Title".to_string(), "Body".to_string())));
    p.show_error("Other".to_string(), "B2".to_string());
    assert_eq!(p.current.as_ref().unwrap().0, "Other");
    p.close();
    assert!(p.current.is_none());
}

#[test]
fn options_are_added_and_deleted() {
    let mut opts: Vec<MetaOption> = Vec::new();
    add_option(&mut opts);
    add_option(&mut opts);
    assert_eq!(opts.len(), 2);
    assert_eq!(opts[1].name, "New option");
    assert_eq!(opts[1].kind, OptionKind::SingleFiles);
    assert!(opts[1].description.is_empty() && opts[1].sub_options.is_empty());
    opts[0].name = "Colour".to_string();
    delete_chosen(&mut opts, Some(1));
    assert_eq!(opts.len(), 1);
    assert_eq!(opts[0].name, "Colour");
    add_sub_option(&mut opts[0].sub_options);
    assert_eq!(opts[0].sub_options.len(), 1);
    assert!(opts[0].sub_options[0].name.is_empty());
    let mut subs = vec![SubOption { name: "a".to_string(), description: String::new() }];
    delete_chosen(&mut subs, Some(0));
    assert!(subs.is_empty());
}
