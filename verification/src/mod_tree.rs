//! Opening a mod in the explorer: the mod is remembered in the list of mod
//! paths, and the file tree shows every file it replaces, those of its
//! options marked with the option and sub option they belong to.
use vstd::prelude::*;
use crate::static_tree::{StaticTree, StaticModel, smodels, path_added, option_model};
use crate::text::split_chars;

verus! {

/// The files of one sub option: game path and file in the mod.
pub struct SubOptionFiles {
    pub name: String,
    pub files: Vec<(String, String)>,
}

/// An option of a mod; `sub_options` is `None` for options that hold no
/// files (colour and value settings).
pub struct OptionFiles {
    pub name: String,
    pub sub_options: Option<Vec<SubOptionFiles>>,
}

/// What a mod's meta says of its files.
pub struct ModFiles {
    pub files: Vec<(String, String)>,
    pub options: Vec<OptionFiles>,
}

/// One file put into the tree: game path, file in the mod, and the option
/// and sub option it belongs to.
pub type Addition = (Seq<char>, Seq<char>, Option<(Seq<char>, Seq<char>)>);

pub open spec fn plain_adds(files: Seq<(String, String)>) -> Seq<Addition> {
    files.map_values(|f: (String, String)| (f.0@, f.1@, None::<(Seq<char>, Seq<char>)>))
}

pub open spec fn option_adds(files: Seq<(String, String)>, option: Seq<char>, sub: Seq<char>) -> Seq<Addition> {
    files.map_values(|f: (String, String)| (f.0@, f.1@, Some((option, sub))))
}

/// The files of sub options, one sub option after the other.
pub open spec fn subs_adds(subs: Seq<SubOptionFiles>, option: Seq<char>) -> Seq<Addition>
    decreases subs.len(),
{
    if subs.len() == 0 {
        Seq::empty()
    } else {
        subs_adds(subs.drop_last(), option) + option_adds(subs.last().files@, option, subs.last().name@)
    }
}

/// The files of options, one option after the other.
pub open spec fn options_adds(options: Seq<OptionFiles>) -> Seq<Addition>
    decreases options.len(),
{
    if options.len() == 0 {
        Seq::empty()
    } else {
        options_adds(options.drop_last()) + match options.last().sub_options {
            Some(subs) => subs_adds(subs@, options.last().name@),
            None => Seq::empty(),
        }
    }
}

/// Every file a mod puts into its tree, in order: its own files, then those
/// of each option.
pub open spec fn mod_additions(m: ModFiles) -> Seq<Addition> {
    plain_adds(m.files@) + options_adds(m.options@)
}

/// Step `k`: `states[k + 1]` is `states[k]` with addition `k` added.
pub open spec fn step_ok(adds: Seq<Addition>, states: Seq<Seq<StaticModel>>, k: int) -> bool {
    path_added(states[k], states[k + 1], split_chars(adds[k].0, '/'), adds[k].1, adds[k].2)
}

/// `states` are the trees after each of `adds` was added in turn to an
/// empty tree.
pub open spec fn built_through(adds: Seq<Addition>, states: Seq<Seq<StaticModel>>) -> bool {
    &&& states.len() == adds.len() + 1
    &&& states[0].len() == 0
    &&& forall|k: int| 0 <= k < adds.len() ==> #[trigger] step_ok(adds, states, k)
}

/// `t` is the tree made by adding `adds` in turn to an empty tree.
pub open spec fn built_by(adds: Seq<Addition>, t: Seq<StaticModel>) -> bool {
    exists|states: Seq<Seq<StaticModel>>| #[trigger] built_through(adds, states) && states.last() == t
}

fn add_files(
    tree: &mut StaticTree,
    files: &Vec<(String, String)>,
    option: &Option<(String, String)>,
    Ghost(done): Ghost<Seq<Addition>>,
    Ghost(states): Ghost<Seq<Seq<StaticModel>>>,
) -> (out: Ghost<Seq<Seq<StaticModel>>>)
    requires
        built_through(done, states),
        states.last() == smodels(old(tree).branches@),
    ensures
        built_through(
            done + files@.map_values(|f: (String, String)| (f.0@, f.1@, option_model(*option))),
            out@,
        ),
        out@.last() == smodels(final(tree).branches@),
{
    let ghost adds = files@.map_values(|f: (String, String)| (f.0@, f.1@, option_model(*option)));
    let ghost mut st = states;
    let mut i: usize = 0;
    assert(done + adds.take(0) =~= done);
    while i < files.len()
        invariant
            adds == files@.map_values(|f: (String, String)| (f.0@, f.1@, option_model(*option))),
            i <= files@.len(),
            built_through(done + adds.take(i as int), st),
            st.last() == smodels(tree.branches@),
        decreases files@.len() - i,
    {
        let ghost prev = smodels(tree.branches@);
        let opt = match option {
            Some((a, b)) => Some((a.clone(), b.clone())),
            None => None,
        };
        assert(option_model(opt) == option_model(*option));
        tree.add_path(files[i].0.as_str(), files[i].1.as_str(), opt);
        proof {
            let cur = done + adds.take(i as int);
            let next = done + adds.take(i + 1);
            assert(next =~= cur.push(adds[i as int]));
            assert(adds[i as int] == (files@[i as int].0@, files@[i as int].1@, option_model(*option)));
            let st2 = st.push(smodels(tree.branches@));
            assert forall|k: int| 0 <= k < next.len() implies #[trigger] step_ok(next, st2, k) by {
                if k < cur.len() {
                    assert(step_ok(cur, st, k));
                    assert(next[k] == cur[k]);
                    assert(st2[k] == st[k] && st2[k + 1] == st[k + 1]);
                } else {
                    assert(k == cur.len());
                    assert(st2[k] == prev);
                }
            }
            st = st2;
        }
        i = i + 1;
    }
    assert(adds.take(files@.len() as int) =~= adds);
    Ghost(st)
}

/// The file tree of a mod.
pub fn mod_tree(m: &ModFiles) -> (t: StaticTree)
    ensures
        built_by(mod_additions(*m), smodels(t.branches@)),
{
    let mut t = StaticTree::new();
    assert(smodels(t.branches@) =~= Seq::<StaticModel>::empty());
    let ghost mut done: Seq<Addition> = Seq::empty();
    let ghost st0: Seq<Seq<StaticModel>> = seq![smodels(t.branches@)];
    let Ghost(mut st) = add_files(&mut t, &m.files, &None, Ghost(done), Ghost(st0));
    proof {
        done = plain_adds(m.files@);
        assert(Seq::<Addition>::empty() + m.files@.map_values(|f: (String, String)| (f.0@, f.1@, option_model(None))) =~= done);
    }
    let mut k: usize = 0;
    while k < m.options.len()
        invariant
            k <= m.options@.len(),
            done == plain_adds(m.files@) + options_adds(m.options@.take(k as int)),
            built_through(done, st),
            st.last() == smodels(t.branches@),
        decreases m.options@.len() - k,
    {
        let ghost before_option = done;
        proof {
            assert(m.options@.take(k + 1).drop_last() =~= m.options@.take(k as int));
            assert(m.options@.take(k + 1).last() == m.options@[k as int]);
        }
        match &m.options[k].sub_options {
            Some(subs) => {
                let mut j: usize = 0;
                proof {
                    assert(subs@.take(0) =~= Seq::<SubOptionFiles>::empty());
                    assert(before_option + subs_adds(subs@.take(0), m.options@[k as int].name@) =~= before_option);
                }
                while j < subs.len()
                    invariant
                        j <= subs@.len(),
                        k < m.options@.len(),
                        m.options@[k as int].sub_options == Some(*subs),
                        done == before_option + subs_adds(subs@.take(j as int), m.options@[k as int].name@),
                        built_through(done, st),
                        st.last() == smodels(t.branches@),
                    decreases subs@.len() - j,
                {
                    let opt = Some((m.options[k].name.clone(), subs[j].name.clone()));
                    let Ghost(st2) = add_files(&mut t, &subs[j].files, &opt, Ghost(done), Ghost(st));
                    proof {
                        st = st2;
                        let oname = m.options@[k as int].name@;
                        let added = subs@[j as int].files@.map_values(
                            |f: (String, String)| (f.0@, f.1@, option_model(opt)),
                        );
                        assert(added =~= option_adds(subs@[j as int].files@, oname, subs@[j as int].name@));
                        assert(subs@.take(j + 1).drop_last() =~= subs@.take(j as int));
                        assert(subs@.take(j + 1).last() == subs@[j as int]);
                        assert(before_option + subs_adds(subs@.take(j + 1), oname) =~= done + added);
                        done = done + added;
                    }
                    j = j + 1;
                }
                proof {
                    assert(subs@.take(subs@.len() as int) =~= subs@);
                    assert(plain_adds(m.files@) + options_adds(m.options@.take(k + 1)) =~= done);
                }
            },
            None => {
                proof {
                    assert(plain_adds(m.files@) + options_adds(m.options@.take(k + 1)) =~= done);
                }
            },
        }
        k = k + 1;
    }
    proof {
        assert(m.options@.take(m.options@.len() as int) =~= m.options@);
        assert(built_through(mod_additions(*m), st));
    }
    t
}

pub open spec fn path_views(v: Seq<String>) -> Seq<Seq<char>> {
    v.map_values(|p: String| p@)
}

/// Remembers a mod's path: it is added to the list unless it is there
/// already.  Answers whether it was added (and the list must be saved).
pub fn remember_mod_path(paths: &mut Vec<String>, path: String) -> (added: bool)
    ensures
        added == !path_views(old(paths)@).contains(path@),
        added ==> final(paths)@ == old(paths)@.push(path),
        !added ==> final(paths)@ == old(paths)@,
{
    let mut i: usize = 0;
    while i < paths.len()
        invariant
            *paths == *old(paths),
            i <= paths@.len(),
            forall|k: int| 0 <= k < i ==> (#[trigger] paths@[k])@ != path@,
        decreases paths@.len() - i,
    {
        if paths[i] == path {
            proof {
                assert(path_views(paths@)[i as int] == path@);
            }
            return false;
        }
        i = i + 1;
    }
    proof {
        assert forall|k: int| 0 <= k < paths@.len() implies #[trigger] path_views(paths@)[k] != path@ by {
            assert(path_views(paths@)[k] == paths@[k]@);
        }
    }
    paths.push(path);
    true
}

/// A list of files (game path, file in the mod) as text.
pub open spec fn pair_views(v: Seq<(String, String)>) -> Seq<(Seq<char>, Seq<char>)> {
    v.map_values(|f: (String, String)| (f.0@, f.1@))
}

/// The list `v` with game path `k` mapped to file `x`: each pair for `k`
/// gets the new file; when there is none, the pair is added at the end.
pub open spec fn with_file(v: Seq<(Seq<char>, Seq<char>)>, k: Seq<char>, x: Seq<char>) -> Seq<(Seq<char>, Seq<char>)> {
    if exists|i: int| 0 <= i < v.len() && (#[trigger] v[i]).0 == k {
        v.map_values(|p: (Seq<char>, Seq<char>)| if p.0 == k { (k, x) } else { p })
    } else {
        v.push((k, x))
    }
}

/// Maps game path `game_path` to `file` in a list of files.
pub fn set_file(files: &mut Vec<(String, String)>, game_path: &str, file: &str)
    ensures
        pair_views(final(files)@) == with_file(pair_views(old(files)@), game_path@, file@),
{
    let ghost ov = pair_views(old(files)@);
    let key = game_path.to_string();
    let mut found = false;
    let mut i: usize = 0;
    while i < files.len()
        invariant
            ov == pair_views(old(files)@),
            key@ == game_path@,
            files@.len() == old(files)@.len(),
            i <= files@.len(),
            forall|j: int| 0 <= j < i ==> #[trigger] pair_views(files@)[j] == (if ov[j].0 == game_path@ { (game_path@, file@) } else { ov[j] }),
            forall|j: int| i <= j < files@.len() ==> #[trigger] files@[j] == old(files)@[j],
            found <==> exists|j: int| 0 <= j < i && (#[trigger] ov[j]).0 == game_path@,
        decreases files@.len() - i,
    {
        assert(pair_views(files@)[i as int] == ov[i as int]);
        if files[i].0 == key {
            let ghost before = files@;
            files.set(i, (key.clone(), file.to_string()));
            found = true;
            assert forall|j: int| 0 <= j <= i implies #[trigger] pair_views(files@)[j] == (if ov[j].0 == game_path@ { (game_path@, file@) } else { ov[j] }) by {
                if j < i {
                    assert(files@[j] == before[j]);
                    assert(pair_views(before)[j] == pair_views(files@)[j]);
                }
            }
        }
        i = i + 1;
    }
    if !found {
        let ghost before = files@;
        files.push((key, file.to_string()));
        assert(pair_views(files@) =~= ov.push((game_path@, file@))) by {
            assert forall|j: int| 0 <= j < ov.len() implies pair_views(files@)[j] == ov[j] by {
                assert(files@[j] == before[j]);
                assert(pair_views(before)[j] == (if ov[j].0 == game_path@ { (game_path@, file@) } else { ov[j] }));
            }
        }
    } else {
        assert(pair_views(files@) =~= ov.map_values(|p: (Seq<char>, Seq<char>)| if p.0 == game_path@ { (game_path@, file@) } else { p }));
    }
}

/// The option lists `a` and `b` agree except at option `i`, which in `b`
/// keeps its name and sub options except sub option `j`, whose name stays
/// and whose files are those of `a`'s mapped from `game_path` to `file`.
pub open spec fn option_file_set(a: Seq<OptionFiles>, b: Seq<OptionFiles>, i: int, j: int, game_path: Seq<char>, file: Seq<char>) -> bool {
    &&& b.len() == a.len()
    &&& forall|k: int| 0 <= k < a.len() && k != i ==> #[trigger] b[k] == a[k]
    &&& b[i].name == a[i].name
    &&& a[i].sub_options matches Some(subs) && b[i].sub_options matches Some(nsubs) && {
        &&& nsubs@.len() == subs@.len()
        &&& forall|l: int| 0 <= l < subs@.len() && l != j ==> #[trigger] nsubs@[l] == subs@[l]
        &&& nsubs@[j].name == subs@[j].name
        &&& pair_views(nsubs@[j].files@) == with_file(pair_views(subs@[j].files@), game_path, file)
    }
}

/// Records a file imported into a mod, stored in the mod as `file`, at game
/// path `game_path`: with no target it becomes one of the mod's own files;
/// with target (option `i`, sub option `j`) it becomes a file of that sub
/// option, when option `i` holds files (otherwise nothing changes).  The
/// mod's file tree gets the file too, marked with the option and sub option.
pub fn register_import(m: &mut ModFiles, tree: &mut StaticTree, game_path: &str, file: &str, target: Option<(u32, u32)>)
    requires
        target matches Some((i, j)) ==> i < old(m).options@.len() && (old(m).options@[i as int].sub_options matches Some(
            subs,
        ) ==> j < subs@.len()),
    ensures
        match target {
            None => {
                &&& pair_views(final(m).files@) == with_file(pair_views(old(m).files@), game_path@, file@)
                &&& final(m).options@ == old(m).options@
                &&& path_added(
                    smodels(old(tree).branches@),
                    smodels(final(tree).branches@),
                    split_chars(game_path@, '/'),
                    file@,
                    None,
                )
            },
            Some((i, j)) => match old(m).options@[i as int].sub_options {
                Some(subs) => {
                    &&& final(m).files@ == old(m).files@
                    &&& option_file_set(old(m).options@, final(m).options@, i as int, j as int, game_path@, file@)
                    &&& path_added(
                        smodels(old(tree).branches@),
                        smodels(final(tree).branches@),
                        split_chars(game_path@, '/'),
                        file@,
                        Some((old(m).options@[i as int].name@, subs@[j as int].name@)),
                    )
                },
                None => {
                    &&& final(m).files@ == old(m).files@
                    &&& final(m).options@ == old(m).options@
                    &&& final(tree).branches@ == old(tree).branches@
                },
            },
        },
{
    match target {
        None => {
            tree.add_path(game_path, file, None);
            set_file(&mut m.files, game_path, file);
        },
        Some((i, j)) => {
            let i = i as usize;
            let j = j as usize;
            let mut opt = OptionFiles { name: String::new(), sub_options: None };
            m.options.set_and_swap(i, &mut opt);
            let ghost taken = m.options@;
            let OptionFiles { name, sub_options } = opt;
            match sub_options {
                Some(mut subs) => {
                    let ghost old_subs = subs@;
                    let mut sub = SubOptionFiles { name: String::new(), files: Vec::new() };
                    subs.set_and_swap(j, &mut sub);
                    tree.add_path(game_path, file, Some((name.clone(), sub.name.clone())));
                    set_file(&mut sub.files, game_path, file);
                    let ghost new_sub = sub;
                    subs.set(j, sub);
                    let mut back = OptionFiles { name, sub_options: Some(subs) };
                    m.options.set_and_swap(i, &mut back);
                    proof {
                        assert(m.options@ =~= taken.update(i as int, m.options@[i as int]));
                        assert(m.options@[i as int].sub_options == Some(subs));
                        assert(subs@ =~= old_subs.update(j as int, new_sub));
                    }
                },
                None => {
                    let mut back = OptionFiles { name, sub_options: None };
                    m.options.set_and_swap(i, &mut back);
                    assert(m.options@ =~= old(m).options@);
                },
            }
        },
    }
}

/// Mapping a game path to a file: afterwards the list has that pair, every
/// pair for that game path names that file, and the pairs of the other game
/// paths are the ones there were.
pub proof fn lemma_with_file_maps(v: Seq<(Seq<char>, Seq<char>)>, k: Seq<char>, x: Seq<char>, other: (Seq<char>, Seq<char>))
    ensures
        with_file(v, k, x).contains((k, x)),
        forall|i: int| 0 <= i < with_file(v, k, x).len() && (#[trigger] with_file(v, k, x)[i]).0 == k ==> with_file(v, k, x)[i].1 == x,
        other.0 != k ==> (with_file(v, k, x).contains(other) <==> v.contains(other)),
{
    let w = with_file(v, k, x);
    if exists|i: int| 0 <= i < v.len() && (#[trigger] v[i]).0 == k {
        let i = choose|i: int| 0 <= i < v.len() && (#[trigger] v[i]).0 == k;
        assert(w[i] == (k, x));
        if other.0 != k {
            if v.contains(other) {
                let j = choose|j: int| 0 <= j < v.len() && v[j] == other;
                assert(w[j] == other);
            }
            if w.contains(other) {
                let j = choose|j: int| 0 <= j < w.len() && w[j] == other;
                assert(v[j] == other);
            }
        }
    } else {
        assert(w[v.len() as int] == (k, x));
        if other.0 != k {
            if v.contains(other) {
                let j = choose|j: int| 0 <= j < v.len() && v[j] == other;
                assert(w[j] == other);
            }
            if w.contains(other) {
                let j = choose|j: int| 0 <= j < w.len() && w[j] == other;
                assert(j < v.len());
                assert(v[j] == other);
            }
        }
    }
}

/// Forgets a mod's path ("Remove from list"): every entry equal to it goes.
pub fn forget_mod_path(paths: &mut Vec<String>, path: &str)
    ensures
        path_views(final(paths)@) == path_views(old(paths)@).filter(|p: Seq<char>| p != path@),
{
    let ghost ov = path_views(old(paths)@);
    let key = path.to_string();
    let mut kept: Vec<String> = Vec::new();
    let mut i: usize = 0;
    while i < paths.len()
        invariant
            *paths == *old(paths),
            ov == path_views(old(paths)@),
            key@ == path@,
            i <= paths@.len(),
            path_views(kept@) == ov.take(i as int).filter(|p: Seq<char>| p != path@),
        decreases paths@.len() - i,
    {
        proof {
            assert(ov.take(i + 1).drop_last() =~= ov.take(i as int));
            assert(ov.take(i + 1).last() == paths@[i as int]@);
            reveal(Seq::filter);
        }
        if paths[i] != key {
            let ghost before = path_views(kept@);
            kept.push(paths[i].clone());
            assert(path_views(kept@) =~= before.push(paths@[i as int]@));
        }
        i = i + 1;
    }
    assert(ov.take(i as int) =~= ov);
    *paths = kept;
}

/// Where opening a mod folder stands: nothing under way, the folder dialog
/// open, or a chosen folder that is not a mod yet, waiting for the answer
/// to "create one there?".
pub enum DialogStatus {
    Idle,
    Dialog,
    CreateReq(String),
}

/// What happens in the file tree's mod opening.
pub enum TreeEvent {
    /// The "Open mod" button.
    OpenClicked,
    /// The folder dialog gave a folder; `has_meta` says whether the folder
    /// holds a `meta.json`.
    FolderChosen { path: String, has_meta: bool },
    /// "Create mod" in the window that asks.
    CreateClicked,
    /// "Cancel" in the window that asks.
    CancelClicked,
}

/// What the file tree does in answer.
pub enum TreeAction {
    Nothing,
    /// Open the folder dialog.
    ShowFolderDialog,
    /// Open the mod in this folder.
    OpenMod(String),
    /// Write a default `meta.json` into this folder, then open the mod.
    CreateMod(String),
}

/// The next status and the action for an event.  A folder that holds a mod
/// is opened and the dialog status stays as it was; one that does not asks
/// whether to create a mod there.
pub open spec fn tree_step(s: DialogStatus, e: TreeEvent) -> (DialogStatus, TreeAction) {
    match e {
        TreeEvent::OpenClicked => if s is Idle {
            (DialogStatus::Dialog, TreeAction::ShowFolderDialog)
        } else {
            (s, TreeAction::Nothing)
        },
        TreeEvent::FolderChosen { path, has_meta } => if s is Dialog {
            if has_meta {
                (DialogStatus::Dialog, TreeAction::OpenMod(path))
            } else {
                (DialogStatus::CreateReq(path), TreeAction::Nothing)
            }
        } else {
            (s, TreeAction::Nothing)
        },
        TreeEvent::CreateClicked => match s {
            DialogStatus::CreateReq(p) => (DialogStatus::Idle, TreeAction::CreateMod(p)),
            _ => (s, TreeAction::Nothing),
        },
        TreeEvent::CancelClicked => if s is CreateReq {
            (DialogStatus::Idle, TreeAction::Nothing)
        } else {
            (s, TreeAction::Nothing)
        },
    }
}

/// Takes the file tree's mod opening one event further.
pub fn open_mod_step(s: DialogStatus, e: TreeEvent) -> (r: (DialogStatus, TreeAction))
    ensures
        r == tree_step(s, e),
{
    match e {
        TreeEvent::OpenClicked => match s {
            DialogStatus::Idle => (DialogStatus::Dialog, TreeAction::ShowFolderDialog),
            _ => (s, TreeAction::Nothing),
        },
        TreeEvent::FolderChosen { path, has_meta } => match s {
            DialogStatus::Dialog => if has_meta {
                (DialogStatus::Dialog, TreeAction::OpenMod(path))
            } else {
                (DialogStatus::CreateReq(path), TreeAction::Nothing)
            },
            _ => (s, TreeAction::Nothing),
        },
        TreeEvent::CreateClicked => match s {
            DialogStatus::CreateReq(p) => (DialogStatus::Idle, TreeAction::CreateMod(p)),
            _ => (s, TreeAction::Nothing),
        },
        TreeEvent::CancelClicked => match s {
            DialogStatus::CreateReq(_) => (DialogStatus::Idle, TreeAction::Nothing),
            _ => (s, TreeAction::Nothing),
        },
    }
}

/// Forgetting a mod's path leaves no entry of it and keeps every other
/// path that was there; so remembering a path and then forgetting it leaves
/// the other paths as they were.
pub proof fn lemma_forget_mod_path(paths: Seq<Seq<char>>, path: Seq<char>, other: Seq<char>)
    ensures
        !paths.filter(|p: Seq<char>| p != path).contains(path),
        other != path ==> (paths.filter(|p: Seq<char>| p != path).contains(other) <==> paths.contains(other)),
        other != path ==> (paths.push(path).filter(|p: Seq<char>| p != path).contains(other) <==> paths.contains(other)),
{
    let pred = |p: Seq<char>| p != path;
    let f = paths.filter(pred);
    if f.contains(path) {
        let i = choose|i: int| 0 <= i < f.len() && f[i] == path;
        paths.lemma_filter_pred(pred, i);
    }
    if other != path {
        if f.contains(other) {
            paths.lemma_filter_contains_rev(pred, other);
        }
        if paths.contains(other) {
            let i = choose|i: int| 0 <= i < paths.len() && paths[i] == other;
            paths.lemma_filter_contains(pred, i);
        }
        let q = paths.push(path);
        assert(q.drop_last() =~= paths);
        assert(q.filter(pred) == f) by {
            reveal(Seq::filter);
        }
    }
}

} // verus!
