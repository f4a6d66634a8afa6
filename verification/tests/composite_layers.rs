use aetherment::composite::{
    file_name_of, new_layer, path_options, resolve_path, textures_to_load, Composite, Layer, LayerModifier, ModOption,
    SettingValue, TexPath, TexSource,
};

fn show(s: &TexSource) -> String {
    match s {
        TexSource::Mod(p) => format!("mod:{p}"),
        TexSource::Game(p) => format!("game:{p}"),
    }
}

fn shown(v: &[TexSource]) -> Vec<String> {
    v.iter().map(show).collect()
}

fn options() -> Vec<ModOption> {
    vec![
        ModOption { name: "Colour".to_string(), path_choices: None },
        ModOption {
            name: "Skin".to_string(),
            path_choices: Some(vec![
                ("Light".to_string(), TexPath::Mod("skin/light.tex".to_string())),
                ("Dark".to_string(), TexPath::Game("chara/skin/dark.tex".to_string())),
                ("Nested".to_string(), TexPath::Option("Colour".to_string())),
            ]),
        },
    ]
}

fn layer(path: TexPath, modifiers: Vec<LayerModifier>) -> Layer {
    Layer { name: "l".to_string(), path, modifiers }
}

#[test]
fn layers_and_masks_are_loaded_in_order() {
    let layers = vec![
        layer(
            TexPath::Mod("base.tex".to_string()),
            vec![
                LayerModifier::AlphaMask { path: TexPath::Game("chara/mask.tex".to_string()) },
                LayerModifier::Color,
                LayerModifier::AlphaMask { path: TexPath::Option("Skin".to_string()) },
            ],
        ),
        layer(TexPath::Option("Skin".to_string()), vec![]),
    ];
    let settings = vec![("Skin".to_string(), SettingValue::Path(1))];
    let r = textures_to_load(&layers, &options(), &settings);
    assert_eq!(
        shown(&r),
        vec!["mod:base.tex", "game:chara/mask.tex", "game:chara/skin/dark.tex", "game:chara/skin/dark.tex"]
    );
}

#[test]
fn option_paths_that_choose_no_file_are_skipped() {
    let p = TexPath::Option("Skin".to_string());
    // index past the choices
    assert!(resolve_path(&p, &options(), &vec![("Skin".to_string(), SettingValue::Path(3))]).is_none());
    // setting of another kind
    assert!(resolve_path(&p, &options(), &vec![("Skin".to_string(), SettingValue::Other)]).is_none());
    // no setting at all
    assert!(resolve_path(&p, &options(), &vec![]).is_none());
    // the choice is itself an option path
    assert!(resolve_path(&p, &options(), &vec![("Skin".to_string(), SettingValue::Path(2))]).is_none());
    // the option is not a path option
    let q = TexPath::Option("Colour".to_string());
    assert!(resolve_path(&q, &options(), &vec![("Colour".to_string(), SettingValue::Path(0))]).is_none());
    // the first choice
    let r = resolve_path(&p, &options(), &vec![("Skin".to_string(), SettingValue::Path(0))]).unwrap();
    assert_eq!(show(&r), "mod:skin/light.tex");
}

#[test]
fn the_first_setting_of_an_option_counts() {
    let p = TexPath::Option("Skin".to_string());
    let settings = vec![
        ("Other".to_string(), SettingValue::Path(0)),
        ("Skin".to_string(), SettingValue::Path(1)),
        ("Skin".to_string(), SettingValue::Path(0)),
    ];
    let r = resolve_path(&p, &options(), &settings).unwrap();
    assert_eq!(show(&r), "game:chara/skin/dark.tex");
}

#[test]
fn empty_composite_needs_nothing() {
    assert!(textures_to_load(&vec![], &options(), &vec![]).is_empty());
}

#[test]
fn file_name_is_after_the_last_separator() {
    assert_eq!(file_name_of("mods/my mod\\files/ui/icon.tex"), "icon.tex");
    assert_eq!(file_name_of("icon.tex"), "icon.tex");
    assert_eq!(file_name_of("dir/"), "");
    assert_eq!(file_name_of(""), "");
}

#[test]
fn texture_becomes_single_layer_composite() {
    let c = Composite::from_texture("C:\\mods\\m\\files/ui/icon.tex");
    assert_eq!(c.layers.len(), 1);
    assert_eq!(c.layers[0].name, "New layer");
    assert!(matches!(&c.layers[0].path, TexPath::Mod(p) if p == "icon.tex"));
    assert!(c.layers[0].modifiers.is_empty());
}

#[test]
fn added_layer_is_blank_and_on_top() {
    let mut c = Composite { layers: vec![new_layer(TexPath::Game("a.tex".to_string()))] };
    c.add_layer();
    assert_eq!(c.layers.len(), 2);
    assert!(matches!(&c.layers[0].path, TexPath::Game(p) if p == "a.tex"));
    assert_eq!(c.layers[1].name, "New layer");
    assert!(matches!(&c.layers[1].path, TexPath::Mod(p) if p.is_empty()));
}

#[test]
fn only_path_options_can_be_bound() {
    assert_eq!(path_options(&options()), vec!["Skin".to_string()]);
}
