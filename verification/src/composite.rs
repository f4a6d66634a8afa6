//! Composite textures: the layers that make one up, which texture files a
//! composite needs loaded before it can be drawn, and a new composite made
//! from a single texture.
use vstd::prelude::*;
use crate::text::{str_chars, chars_eq, string_from_chars};

verus! {

/// Where a layer or a mask takes its texture from: a file of the mod, a file
/// of the game, or the path option of the mod (by its name) whose chosen
/// value names the file.
#[derive(Debug)]
pub enum TexPath {
    Mod(String),
    Game(String),
    Option(String),
}

/// A texture file to load: one of the mod's files or one of the game's.
#[derive(Debug)]
pub enum TexSource {
    Mod(String),
    Game(String),
}

/// A texture file to load, as text.
pub enum SourceModel {
    Mod(Seq<char>),
    Game(Seq<char>),
}

impl View for TexSource {
    type V = SourceModel;

    open spec fn view(&self) -> SourceModel {
        match self {
            TexSource::Mod(s) => SourceModel::Mod(s@),
            TexSource::Game(s) => SourceModel::Game(s@),
        }
    }
}

/// A modifier of a layer, as far as loading goes: an alpha mask reads a
/// texture of its own, a colour does not.
pub enum LayerModifier {
    AlphaMask { path: TexPath },
    Color,
}

/// One layer of a composite texture.
pub struct Layer {
    pub name: String,
    pub path: TexPath,
    pub modifiers: Vec<LayerModifier>,
}

/// A composite texture: its layers, bottom first.
pub struct Composite {
    pub layers: Vec<Layer>,
}

/// An option of a mod: its name and, for a path option, its choices
/// (a label and a path each).
pub struct ModOption {
    pub name: String,
    pub path_choices: Option<Vec<(String, TexPath)>>,
}

/// What a setting holds: the index of the chosen path of a path option, or
/// a value of another kind.
#[derive(Clone, Copy, PartialEq, Eq, Structural)]
pub enum SettingValue {
    Path(u32),
    Other,
}

/// The value set for option `id`: the first setting with that name.
pub open spec fn setting_of(settings: Seq<(String, SettingValue)>, id: Seq<char>) -> Option<SettingValue>
    decreases settings.len(),
{
    if settings.len() == 0 {
        None
    } else if settings[0].0@ == id {
        Some(settings[0].1)
    } else {
        setting_of(settings.drop_first(), id)
    }
}

/// The first option named `id`.
pub open spec fn option_named(options: Seq<ModOption>, id: Seq<char>) -> Option<ModOption>
    decreases options.len(),
{
    if options.len() == 0 {
        None
    } else if options[0].name@ == id {
        Some(options[0])
    } else {
        option_named(options.drop_first(), id)
    }
}

/// The file that a path stands for under the given options and settings:
/// mod and game files stand for themselves; an option path stands for the
/// mod or game file chosen in its setting, when the setting chooses a path,
/// the option is a path option and the choice exists.
pub open spec fn resolved(p: TexPath, options: Seq<ModOption>, settings: Seq<(String, SettingValue)>) -> Option<SourceModel> {
    match p {
        TexPath::Mod(s) => Some(SourceModel::Mod(s@)),
        TexPath::Game(s) => Some(SourceModel::Game(s@)),
        TexPath::Option(id) => match setting_of(settings, id@) {
            Some(SettingValue::Path(i)) => match option_named(options, id@) {
                Some(o) => match o.path_choices {
                    Some(v) => if i < v@.len() {
                        match v@[i as int].1 {
                            TexPath::Mod(s) => Some(SourceModel::Mod(s@)),
                            TexPath::Game(s) => Some(SourceModel::Game(s@)),
                            TexPath::Option(_) => None,
                        }
                    } else {
                        None
                    },
                    None => None,
                },
                None => None,
            },
            _ => None,
        },
    }
}

/// The paths that the alpha masks among `mods` read, in order.
pub open spec fn mask_paths(mods: Seq<LayerModifier>) -> Seq<TexPath>
    decreases mods.len(),
{
    if mods.len() == 0 {
        Seq::empty()
    } else {
        match mods.last() {
            LayerModifier::AlphaMask { path } => mask_paths(mods.drop_last()).push(path),
            LayerModifier::Color => mask_paths(mods.drop_last()),
        }
    }
}

/// The paths a layer reads: its own, then those of its masks.
pub open spec fn layer_paths(l: Layer) -> Seq<TexPath> {
    seq![l.path] + mask_paths(l.modifiers@)
}

/// The paths that the layers read, layer by layer.
pub open spec fn all_paths(layers: Seq<Layer>) -> Seq<TexPath>
    decreases layers.len(),
{
    if layers.len() == 0 {
        Seq::empty()
    } else {
        all_paths(layers.drop_last()) + layer_paths(layers.last())
    }
}

/// The files that `paths` stand for, in order, leaving out those that stand
/// for none.
pub open spec fn wanted(paths: Seq<TexPath>, options: Seq<ModOption>, settings: Seq<(String, SettingValue)>) -> Seq<SourceModel>
    decreases paths.len(),
{
    if paths.len() == 0 {
        Seq::empty()
    } else {
        match resolved(paths.last(), options, settings) {
            Some(f) => wanted(paths.drop_last(), options, settings).push(f),
            None => wanted(paths.drop_last(), options, settings),
        }
    }
}

/// The files a composite needs loaded, in the order they are loaded.
pub open spec fn needed_textures(layers: Seq<Layer>, options: Seq<ModOption>, settings: Seq<(String, SettingValue)>) -> Seq<SourceModel> {
    wanted(all_paths(layers), options, settings)
}

fn find_setting(settings: &Vec<(String, SettingValue)>, id: &Vec<char>) -> (r: Option<SettingValue>)
    ensures
        r == setting_of(settings@, id@),
{
    let mut k: usize = 0;
    assert(settings@.skip(0) =~= settings@);
    while k < settings.len()
        invariant
            k <= settings@.len(),
            setting_of(settings@, id@) == setting_of(settings@.skip(k as int), id@),
        decreases settings@.len() - k,
    {
        let name = str_chars(settings[k].0.as_str());
        assert(settings@.skip(k as int)[0] == settings@[k as int]);
        if chars_eq(&name, id) {
            return Some(settings[k].1);
        }
        assert(settings@.skip(k as int).drop_first() =~= settings@.skip(k + 1));
        k = k + 1;
    }
    assert(settings@.skip(k as int) =~= Seq::<(String, SettingValue)>::empty());
    None
}

fn find_option(options: &Vec<ModOption>, id: &Vec<char>) -> (r: Option<usize>)
    ensures
        match r {
            Some(k) => k < options@.len() && option_named(options@, id@) == Some(options@[k as int]),
            None => option_named(options@, id@) is None,
        },
{
    let mut k: usize = 0;
    assert(options@.skip(0) =~= options@);
    while k < options.len()
        invariant
            k <= options@.len(),
            option_named(options@, id@) == option_named(options@.skip(k as int), id@),
        decreases options@.len() - k,
    {
        let name = str_chars(options[k].name.as_str());
        assert(options@.skip(k as int)[0] == options@[k as int]);
        if chars_eq(&name, id) {
            return Some(k);
        }
        assert(options@.skip(k as int).drop_first() =~= options@.skip(k + 1));
        k = k + 1;
    }
    assert(options@.skip(k as int) =~= Seq::<ModOption>::empty());
    None
}

/// The file that `p` stands for under `options` and `settings`, if any.
pub fn resolve_path(p: &TexPath, options: &Vec<ModOption>, settings: &Vec<(String, SettingValue)>) -> (r: Option<TexSource>)
    ensures
        match r {
            Some(f) => resolved(*p, options@, settings@) == Some(f@),
            None => resolved(*p, options@, settings@) is None,
        },
{
    match p {
        TexPath::Mod(s) => Some(TexSource::Mod(s.clone())),
        TexPath::Game(s) => Some(TexSource::Game(s.clone())),
        TexPath::Option(id) => {
            let idc = str_chars(id.as_str());
            match find_setting(settings, &idc) {
                Some(SettingValue::Path(i)) => match find_option(options, &idc) {
                    Some(k) => match &options[k].path_choices {
                        Some(v) => {
                            if (i as usize) < v.len() {
                                match &v[i as usize].1 {
                                    TexPath::Mod(s) => Some(TexSource::Mod(s.clone())),
                                    TexPath::Game(s) => Some(TexSource::Game(s.clone())),
                                    TexPath::Option(_) => None,
                                }
                            } else {
                                None
                            }
                        },
                        None => None,
                    },
                    None => None,
                },
                _ => None,
            }
        },
    }
}

fn push_resolved(r: &mut Vec<TexSource>, p: &TexPath, options: &Vec<ModOption>, settings: &Vec<(String, SettingValue)>, Ghost(acc): Ghost<Seq<TexPath>>)
    requires
        old(r)@.map_values(|f: TexSource| f@) == wanted(acc, options@, settings@),
    ensures
        final(r)@.map_values(|f: TexSource| f@) == wanted(acc.push(*p), options@, settings@),
{
    let f = resolve_path(p, options, settings);
    assert(acc.push(*p).drop_last() =~= acc);
    assert(acc.push(*p).last() == *p);
    match f {
        Some(f) => {
            r.push(f);
            assert(r@.map_values(|f: TexSource| f@) =~= old(r)@.map_values(|f: TexSource| f@).push(r@.last()@));
        },
        None => {},
    }
}

/// The files that a composite with these layers needs loaded (before it
/// is drawn), given the mod's options and the current settings: for each
/// layer, its own path and then the paths of its alpha masks, each taken
/// to the file it stands for; paths that stand for no file are left out.
pub fn textures_to_load(layers: &Vec<Layer>, options: &Vec<ModOption>, settings: &Vec<(String, SettingValue)>) -> (r: Vec<TexSource>)
    ensures
        r@.map_values(|f: TexSource| f@) == needed_textures(layers@, options@, settings@),
{
    let mut r: Vec<TexSource> = Vec::new();
    let ghost mut acc: Seq<TexPath> = Seq::empty();
    assert(r@.map_values(|f: TexSource| f@) =~= Seq::<SourceModel>::empty());
    let mut i: usize = 0;
    while i < layers.len()
        invariant
            i <= layers@.len(),
            acc == all_paths(layers@.take(i as int)),
            r@.map_values(|f: TexSource| f@) == wanted(acc, options@, settings@),
        decreases layers@.len() - i,
    {
        let layer = &layers[i];
        let ghost start = acc;
        push_resolved(&mut r, &layer.path, options, settings, Ghost(acc));
        proof {
            acc = acc.push(layer.path);
        }
        let mut j: usize = 0;
        while j < layer.modifiers.len()
            invariant
                j <= layer.modifiers@.len(),
                acc == start + seq![layer.path] + mask_paths(layer.modifiers@.take(j as int)),
                r@.map_values(|f: TexSource| f@) == wanted(acc, options@, settings@),
            decreases layer.modifiers@.len() - j,
        {
            let ghost before = layer.modifiers@.take(j as int);
            assert(layer.modifiers@.take(j + 1).drop_last() =~= before);
            assert(layer.modifiers@.take(j + 1).last() == layer.modifiers@[j as int]);
            match &layer.modifiers[j] {
                LayerModifier::AlphaMask { path } => {
                    push_resolved(&mut r, path, options, settings, Ghost(acc));
                    proof {
                        acc = acc.push(*path);
                    }
                },
                LayerModifier::Color => {},
            }
            j = j + 1;
        }
        proof {
            assert(layer.modifiers@.take(j as int) =~= layer.modifiers@);
            assert(layers@.take(i + 1).drop_last() =~= layers@.take(i as int));
            assert(layers@.take(i + 1).last() == layers@[i as int]);
            assert(acc =~= all_paths(layers@.take(i + 1)));
        }
        i = i + 1;
    }
    assert(layers@.take(i as int) =~= layers@);
    r
}

/// The characters of `s` after its last `/` or `\` (all of `s` when it
/// has neither): the name of the file that a path names.
pub open spec fn file_name(s: Seq<char>) -> Seq<char>
    decreases s.len(),
{
    if s.len() == 0 {
        s
    } else if s.last() == '/' || s.last() == '\\' {
        Seq::empty()
    } else {
        file_name(s.drop_last()).push(s.last())
    }
}

/// The name of the file that `path` names: what follows its last `/` or
/// `\`.
pub fn file_name_of(path: &str) -> (r: String)
    ensures
        r@ == file_name(path@),
{
    let s = str_chars(path);
    let mut start: usize = s.len();
    assert(s@.take(start as int) =~= s@);
    assert(file_name(s@) + s@.subrange(start as int, s@.len() as int) =~= file_name(s@));
    while start > 0 && s[start - 1] != '/' && s[start - 1] != '\\'
        invariant
            start <= s@.len(),
            file_name(s@) == file_name(s@.take(start as int)) + s@.subrange(start as int, s@.len() as int),
        decreases start,
    {
        proof {
            let t = s@.take(start as int);
            assert(t.drop_last() =~= s@.take(start - 1));
            assert(t.last() == s@[start - 1]);
            assert(file_name(s@.take(start - 1)).push(s@[start - 1]) + s@.subrange(start as int, s@.len() as int)
                =~= file_name(s@.take(start - 1)) + s@.subrange(start - 1, s@.len() as int));
        }
        start = start - 1;
    }
    proof {
        let t = s@.take(start as int);
        if start > 0 {
            assert(t.last() == s@[start - 1]);
        }
        assert(file_name(t) =~= Seq::<char>::empty());
        assert(file_name(s@) =~= s@.subrange(start as int, s@.len() as int));
    }
    let mut r: Vec<char> = Vec::new();
    let mut i = start;
    while i < s.len()
        invariant
            start <= i <= s@.len(),
            r@ == s@.subrange(start as int, i as int),
        decreases s@.len() - i,
    {
        r.push(s[i]);
        proof {
            assert(s@.subrange(start as int, i + 1) =~= s@.subrange(start as int, i as int).push(s@[i as int]));
        }
        i = i + 1;
    }
    string_from_chars(r.as_slice())
}

/// The name a new layer gets.
pub open spec fn new_layer_name() -> Seq<char> {
    "New layer"@
}

/// A new layer that reads `path`, with no modifiers.
pub fn new_layer(path: TexPath) -> (l: Layer)
    ensures
        l.name@ == new_layer_name(),
        l.path == path,
        l.modifiers@.len() == 0,
{
    Layer { name: "New layer".to_string(), path, modifiers: Vec::new() }
}

impl Composite {
    /// The composite that a texture of a mod becomes: a single new layer
    /// that reads the texture's own file from the mod, named by the last
    /// piece of its path.
    pub fn from_texture(real_path: &str) -> (c: Composite)
        ensures
            c.layers@.len() == 1,
            c.layers@[0].name@ == new_layer_name(),
            c.layers@[0].path matches TexPath::Mod(f) && f@ == file_name(real_path@),
            c.layers@[0].modifiers@.len() == 0,
    {
        let name = file_name_of(real_path);
        let mut layers: Vec<Layer> = Vec::new();
        layers.push(new_layer(TexPath::Mod(name)));
        Composite { layers }
    }

    /// Adds a new layer on top that reads an empty mod path.
    pub fn add_layer(&mut self)
        ensures
            final(self).layers@.len() == old(self).layers@.len() + 1,
            final(self).layers@.drop_last() == old(self).layers@,
            final(self).layers@.last().name@ == new_layer_name(),
            final(self).layers@.last().path matches TexPath::Mod(f) && f@.len() == 0,
            final(self).layers@.last().modifiers@.len() == 0,
    {
        self.layers.push(new_layer(TexPath::Mod(String::new())));
        assert(self.layers@.drop_last() =~= old(self).layers@);
    }
}

/// The names of the mod's path options, in order: those a path can be
/// bound to.
pub open spec fn path_option_names(options: Seq<ModOption>) -> Seq<Seq<char>>
    decreases options.len(),
{
    if options.len() == 0 {
        Seq::empty()
    } else if options.last().path_choices is Some {
        path_option_names(options.drop_last()).push(options.last().name@)
    } else {
        path_option_names(options.drop_last())
    }
}

/// The names of the options that an option path can be bound to.
pub fn path_options(options: &Vec<ModOption>) -> (r: Vec<String>)
    ensures
        r@.map_values(|s: String| s@) == path_option_names(options@),
{
    let mut r: Vec<String> = Vec::new();
    let mut i: usize = 0;
    assert(r@.map_values(|s: String| s@) =~= path_option_names(options@.take(0)));
    while i < options.len()
        invariant
            i <= options@.len(),
            r@.map_values(|s: String| s@) == path_option_names(options@.take(i as int)),
        decreases options@.len() - i,
    {
        assert(options@.take(i + 1).drop_last() =~= options@.take(i as int));
        assert(options@.take(i + 1).last() == options@[i as int]);
        if options[i].path_choices.is_some() {
            let ghost before = r@.map_values(|s: String| s@);
            r.push(options[i].name.clone());
            assert(r@.map_values(|s: String| s@) =~= before.push(options@[i as int].name@));
        }
        i = i + 1;
    }
    assert(options@.take(i as int) =~= options@);
    r
}

/// A composite made of one layer without modifiers that reads a file of the
/// mod needs exactly that file loaded, whatever the options and settings
/// (so a texture turned into a composite needs only itself).
pub proof fn lemma_single_layer_needs_its_file(l: Layer, options: Seq<ModOption>, settings: Seq<(String, SettingValue)>)
    requires
        l.path is Mod,
        l.modifiers@.len() == 0,
    ensures
        l.path matches TexPath::Mod(f) && needed_textures(seq![l], options, settings) == seq![SourceModel::Mod(f@)],
{
    let ls = seq![l];
    assert(ls.drop_last() =~= Seq::<Layer>::empty());
    assert(ls.last() == l);
    assert(all_paths(Seq::<Layer>::empty()) == Seq::<TexPath>::empty());
    assert(mask_paths(l.modifiers@) == Seq::<TexPath>::empty());
    assert(layer_paths(l) =~= seq![l.path]);
    assert(all_paths(ls) =~= seq![l.path]);
    let ps = seq![l.path];
    assert(ps.drop_last() =~= Seq::<TexPath>::empty());
    assert(ps.last() == l.path);
    assert(wanted(Seq::<TexPath>::empty(), options, settings) == Seq::<SourceModel>::empty());
    assert(wanted(ps, options, settings) =~= seq![resolved(l.path, options, settings).unwrap()]);
}

} // verus!
