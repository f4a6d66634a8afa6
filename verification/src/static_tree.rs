//! The file tree of a mod: every game path the mod replaces, split at `/`,
//! with the entries of each level kept sorted (folders first, then by name
//! with ASCII letters lowercased).
use vstd::prelude::*;
use crate::sort::{is_stable_sort_by, is_stable_sort_perm, stable_sort_pairs, pair_key};
use crate::text::{str_chars, string_from_chars, split_chars, split_char_vec, lemma_split_chars_nonempty, chars_eq};

verus! {

/// One entry of a mod's file tree.
pub struct StaticBranch {
    pub name: String,
    /// The option and sub option the file belongs to, if any.
    pub option: Option<(String, String)>,
    /// Where the file is stored in the mod (only for files).
    pub real_path: Option<String>,
    pub disabled: bool,
    pub branches: Vec<StaticBranch>,
}

/// Model of an entry.
pub struct StaticModel {
    pub name: Seq<char>,
    pub option: Option<(Seq<char>, Seq<char>)>,
    pub real_path: Option<Seq<char>>,
    pub disabled: bool,
    pub children: Seq<StaticModel>,
}

pub open spec fn option_model(o: Option<(String, String)>) -> Option<(Seq<char>, Seq<char>)> {
    match o {
        Some((a, b)) => Some((a@, b@)),
        None => None,
    }
}

pub open spec fn real_model(o: Option<String>) -> Option<Seq<char>> {
    match o {
        Some(a) => Some(a@),
        None => None,
    }
}

pub open spec fn smodels(nodes: Seq<StaticBranch>) -> Seq<StaticModel>
    decreases nodes,
{
    if nodes.len() == 0 {
        Seq::empty()
    } else {
        smodels(nodes.subrange(0, nodes.len() - 1)).push(nodes[nodes.len() - 1].model())
    }
}

impl StaticBranch {
    pub open spec fn model(self) -> StaticModel
        decreases self,
    {
        StaticModel {
            name: self.name@,
            option: option_model(self.option),
            real_path: real_model(self.real_path),
            disabled: self.disabled,
            children: smodels(self.branches@),
        }
    }
}

proof fn lemma_smodels_len(nodes: Seq<StaticBranch>)
    ensures
        smodels(nodes).len() == nodes.len(),
    decreases nodes.len(),
{
    if nodes.len() > 0 {
        lemma_smodels_len(nodes.subrange(0, nodes.len() - 1));
    }
}

proof fn lemma_smodels_index(nodes: Seq<StaticBranch>, i: int)
    requires
        0 <= i < nodes.len(),
    ensures
        smodels(nodes).len() == nodes.len(),
        smodels(nodes)[i] == nodes[i].model(),
    decreases nodes.len(),
{
    lemma_smodels_len(nodes);
    if i < nodes.len() - 1 {
        lemma_smodels_index(nodes.subrange(0, nodes.len() - 1), i);
    }
}

pub open spec fn lower_code(c: char) -> u64 {
    if 'A' <= c <= 'Z' {
        ((c as u64) + 32) as u64
    } else {
        c as u64
    }
}

/// Sort key of an entry: folders first, then the name with ASCII letters
/// lowercased.  Comparing code points orders names as comparing their UTF-8
/// bytes does.
pub open spec fn static_key(m: StaticModel) -> Seq<u64> {
    Seq::new(
        m.name.len() + 1,
        |i: int|
            if i == 0 {
                if m.children.len() == 0 {
                    1u64
                } else {
                    0u64
                }
            } else {
                lower_code(m.name[i - 1])
            },
    )
}

pub open spec fn static_key_fn() -> spec_fn(StaticModel) -> Seq<u64> {
    |m: StaticModel| static_key(m)
}

pub open spec fn find_name(b: Seq<StaticModel>, name: Seq<char>, start: int) -> int
    decreases b.len() - start,
{
    if start < 0 || start >= b.len() {
        -1
    } else if b[start].name == name {
        start
    } else {
        find_name(b, name, start + 1)
    }
}

proof fn lemma_find_name_props(b: Seq<StaticModel>, name: Seq<char>, start: int)
    requires
        0 <= start,
    ensures
        find_name(b, name, start) == -1 || (start <= find_name(b, name, start) < b.len()
            && b[find_name(b, name, start)].name == name),
        find_name(b, name, start) == -1 ==> forall|k: int| start <= k < b.len() ==> #[trigger] b[k].name != name,
    decreases b.len() - start,
{
    if start < b.len() && b[start].name != name {
        lemma_find_name_props(b, name, start + 1);
    }
}

pub open spec fn folder_node(name: Seq<char>) -> StaticModel {
    StaticModel { name, option: None, real_path: None, disabled: false, children: Seq::empty() }
}

pub open spec fn file_node(
    name: Seq<char>,
    real_path: Seq<char>,
    option: Option<(Seq<char>, Seq<char>)>,
) -> StaticModel {
    StaticModel { name, option, real_path: Some(real_path), disabled: false, children: Seq::empty() }
}

/// `new_b` is `old_b` after adding the file at `segs` (`StaticTree::add_path`):
/// each missing folder on the way is appended and its level re-sorted, then
/// the file is appended to the last level and that level re-sorted.  A level
/// is only re-sorted when something is appended to it.
pub open spec fn path_added(
    old_b: Seq<StaticModel>,
    new_b: Seq<StaticModel>,
    segs: Seq<Seq<char>>,
    real_path: Seq<char>,
    option: Option<(Seq<char>, Seq<char>)>,
) -> bool
    decreases segs.len(),
{
    if segs.len() <= 1 {
        segs.len() == 1 && is_stable_sort_by(
            old_b.push(file_node(segs[0], real_path, option)),
            new_b,
            static_key_fn(),
        )
    } else {
        exists|b1: Seq<StaticModel>|
            {
                &&& #[trigger] folder_step(old_b, b1, segs[0])
                &&& {
                    let i = find_name(b1, segs[0], 0);
                    &&& 0 <= i < b1.len()
                    &&& new_b.len() == b1.len()
                    &&& forall|j: int| 0 <= j < b1.len() && j != i ==> new_b[j] == b1[j]
                    &&& new_b[i].name == b1[i].name
                    &&& new_b[i].option == b1[i].option
                    &&& new_b[i].real_path == b1[i].real_path
                    &&& new_b[i].disabled == b1[i].disabled
                    &&& path_added(b1[i].children, new_b[i].children, segs.drop_first(), real_path, option)
                }
            }
    }
}

/// The level after making sure a folder called `name` is in it.
pub open spec fn folder_step(old_b: Seq<StaticModel>, b1: Seq<StaticModel>, name: Seq<char>) -> bool {
    if find_name(old_b, name, 0) >= 0 {
        b1 == old_b
    } else {
        is_stable_sort_by(old_b.push(folder_node(name)), b1, static_key_fn())
    }
}

fn lower_code_exec(c: char) -> (r: u64)
    ensures
        r == lower_code(c),
{
    if 'A' <= c && c <= 'Z' {
        ((c as u64) + 32) as u64
    } else {
        c as u64
    }
}

fn static_key_exec(b: &StaticBranch) -> (key: Vec<u64>)
    ensures
        key@ == static_key(b.model()),
{
    let chars = str_chars(b.name.as_str());
    proof {
        lemma_smodels_len(b.branches@);
    }
    let mut key: Vec<u64> = Vec::new();
    key.push(if b.branches.len() == 0 { 1 } else { 0 });
    let mut i: usize = 0;
    while i < chars.len()
        invariant
            chars@ == b.name@,
            smodels(b.branches@).len() == b.branches@.len(),
            i <= chars@.len(),
            key@.len() == i + 1,
            forall|j: int| 0 <= j < i + 1 ==> #[trigger] key@[j] == static_key(b.model())[j],
        decreases chars@.len() - i,
    {
        let k = lower_code_exec(chars[i]);
        key.push(k);
        i = i + 1;
    }
    assert(key@ =~= static_key(b.model()));
    key
}

/// Stably sorts a level by `static_key` (`sort_branch`).
fn sort_level(b: Vec<StaticBranch>) -> (res: Vec<StaticBranch>)
    ensures
        is_stable_sort_by(smodels(b@), smodels(res@), static_key_fn()),
{
    let ghost orig = b@;
    let mut b = b;
    let mut items: Vec<(Vec<u64>, StaticBranch)> = Vec::new();
    let n = b.len();
    let mut i: usize = 0;
    while i < n
        invariant
            n == orig.len(),
            i <= n,
            b@ == orig.skip(i as int),
            items@.len() == i,
            forall|j: int| 0 <= j < i ==> (#[trigger] items@[j]).1 == orig[j] && items@[j].0@ == static_key(orig[j].model()),
        decreases n - i,
    {
        let x = b.remove(0);
        let k = static_key_exec(&x);
        items.push((k, x));
        proof {
            assert(b@ =~= orig.skip(i + 1));
        }
        i = i + 1;
    }
    let sorted = stable_sort_pairs(items);
    let ghost sv = sorted@;
    let mut sorted = sorted;
    let mut res: Vec<StaticBranch> = Vec::new();
    let mut i: usize = 0;
    while i < n
        invariant
            n == sv.len(),
            i <= n,
            sorted@ == sv.skip(i as int),
            res@.len() == i,
            forall|j: int| 0 <= j < i ==> #[trigger] res@[j] == sv[j].1,
        decreases n - i,
    {
        let (_, x) = sorted.remove(0);
        res.push(x);
        proof {
            assert(sorted@ =~= sv.skip(i + 1));
        }
        i = i + 1;
    }
    proof {
        let keyf = |x: (Vec<u64>, StaticBranch)| pair_key(x);
        let p = choose|p: Seq<int>|
            {
                &&& #[trigger] is_stable_sort_perm(items@.map_values(keyf), p)
                &&& sv.len() == items@.len()
                &&& forall|i: int| 0 <= i < sv.len() ==> sv[i] == items@[p[i]]
            };
        let om = smodels(orig);
        let rm = smodels(res@);
        lemma_smodels_len(orig);
        lemma_smodels_len(res@);
        assert forall|j: int| 0 <= j < n implies #[trigger] om[j] == orig[j].model() by {
            lemma_smodels_index(orig, j);
        }
        assert(om.map_values(static_key_fn()) =~= items@.map_values(keyf));
        assert forall|j: int| 0 <= j < n implies #[trigger] rm[j] == om[p[j]] by {
            lemma_smodels_index(res@, j);
            assert(res@[j] == items@[p[j]].1);
        }
        assert(is_stable_sort_perm(om.map_values(static_key_fn()), p));
    }
    res
}

fn find_name_exec(b: &Vec<StaticBranch>, name: &Vec<char>) -> (r: Option<usize>)
    ensures
        smodels(b@).len() == b@.len(),
        match r {
            Some(i) => find_name(smodels(b@), name@, 0) == i as int && i < b@.len(),
            None => find_name(smodels(b@), name@, 0) == -1,
        },
{
    proof {
        lemma_smodels_len(b@);
    }
    let mut i: usize = 0;
    while i < b.len()
        invariant
            i <= b@.len(),
            smodels(b@).len() == b@.len(),
            find_name(smodels(b@), name@, 0) == find_name(smodels(b@), name@, i as int),
        decreases b@.len() - i,
    {
        proof {
            lemma_smodels_index(b@, i as int);
        }
        let c = str_chars(b[i].name.as_str());
        if chars_eq(&c, name) {
            return Some(i);
        }
        i = i + 1;
    }
    None
}



proof fn lemma_smodels_push(s: Seq<StaticBranch>, x: StaticBranch)
    ensures
        smodels(s.push(x)) == smodels(s).push(x.model()),
{
    assert(s.push(x).subrange(0, s.len() as int) =~= s);
}

pub open spec fn seg_views(segs: Seq<Vec<char>>) -> Seq<Seq<char>> {
    segs.map_values(|v: Vec<char>| v@)
}

fn add_rec(
    b: &mut Vec<StaticBranch>,
    segs: Vec<Vec<char>>,
    real_path: Vec<char>,
    option: Option<(String, String)>,
)
    requires
        segs@.len() >= 1,
    ensures
        path_added(
            smodels(old(b)@),
            smodels(final(b)@),
            seg_views(segs@),
            real_path@,
            option_model(option),
        ),
    decreases segs@.len(),
{
    let ghost sv = seg_views(segs@);
    let ghost old_m = smodels(b@);
    let mut segs = segs;
    if segs.len() == 1 {
        let name = string_from_chars(segs[0].as_slice());
        let real_s = string_from_chars(real_path.as_slice());
        let leaf = StaticBranch {
            name,
            option,
            real_path: Some(real_s),
            disabled: false,
            branches: Vec::new(),
        };
        proof {
            assert(smodels(leaf.branches@) =~= Seq::<StaticModel>::empty());
            assert(leaf.model() == file_node(sv[0], real_path@, option_model(option)));
            lemma_smodels_push(b@, leaf);
        }
        let mut v: Vec<StaticBranch> = Vec::new();
        std::mem::swap(&mut v, b);
        v.push(leaf);
        *b = sort_level(v);
        return;
    }
    let seg = segs.remove(0);
    proof {
        assert(seg_views(segs@) =~= sv.drop_first());
        assert(seg@ == sv[0]);
    }
    if find_name_exec(b, &seg).is_none() {
        let name = string_from_chars(seg.as_slice());
        let folder = StaticBranch {
            name,
            option: None,
            real_path: None,
            disabled: false,
            branches: Vec::new(),
        };
        proof {
            assert(smodels(folder.branches@) =~= Seq::<StaticModel>::empty());
            assert(folder.model() == folder_node(sv[0]));
            lemma_smodels_push(b@, folder);
        }
        let mut v: Vec<StaticBranch> = Vec::new();
        std::mem::swap(&mut v, b);
        v.push(folder);
        *b = sort_level(v);
    }
    let ghost b1 = smodels(b@);
    let ghost b1v = b@;
    assert(folder_step(old_m, b1, sv[0]));
    let i = match find_name_exec(b, &seg) {
        Some(i) => i,
        None => {
            proof {
                // the folder is now in the level
                let p = choose|p: Seq<int>|
                    {
                        &&& #[trigger] is_stable_sort_perm(
                            old_m.push(folder_node(sv[0])).map_values(static_key_fn()),
                            p,
                        )
                        &&& b1.len() == old_m.len() + 1
                        &&& forall|i: int| 0 <= i < b1.len() ==> b1[i] == old_m.push(folder_node(sv[0]))[p[i]]
                    };
                assert(exists|j: int| 0 <= j < b1.len() && p[j] == old_m.len()) by {
                    lemma_perm_hits(p, old_m.len() as int + 1, old_m.len() as int);
                }
                let j = choose|j: int| 0 <= j < b1.len() && p[j] == old_m.len();
                assert(b1[j].name == sv[0]);
                lemma_find_name_props(b1, sv[0], 0);
            }
            return;  // unreachable
        },
    };
    proof {
        lemma_find_name_props(b1, sv[0], 0);
        lemma_smodels_index(b1v, i as int);
    }
    let mut child = b.remove(i);
    let ghost old_child = child;
    add_rec(&mut child.branches, segs, real_path, option);
    b.insert(i, child);
    proof {
        lemma_smodels_len(b1v);
        lemma_smodels_len(b@);
        assert(b@ =~= b1v.update(i as int, child));
        let nb = smodels(b@);
        assert forall|j: int| 0 <= j < b1.len() && j != i implies nb[j] == b1[j] by {
            lemma_smodels_index(b@, j);
            lemma_smodels_index(b1v, j);
        }
        lemma_smodels_index(b@, i as int);
        assert(nb[i as int] == child.model());
    }
}

/// A permutation of `0..n` hits every position below `n`.
proof fn lemma_perm_hits(p: Seq<int>, n: int, x: int)
    requires
        p.len() == n,
        forall|i: int| 0 <= i < p.len() ==> 0 <= #[trigger] p[i] < n,
        forall|i: int, j: int| 0 <= i < j < p.len() ==> p[i] != p[j],
        0 <= x < n,
    ensures
        exists|j: int| 0 <= j < n && p[j] == x,
{
    if !(exists|j: int| 0 <= j < n && p[j] == x) {
        // p maps n positions injectively into n - 1 values
        let s = Set::new(|v: int| 0 <= v < n && v != x);
        let img = Set::new(|v: int| exists|i: int| 0 <= i < n && p[i] == v);
        assert(s =~= vstd::set_lib::set_int_range(0, n).remove(x));
        vstd::set_lib::lemma_int_range(0, n);
        assert(img.subset_of(s));
        lemma_injective_image_len(p, n);
        vstd::set_lib::lemma_len_subset(img, s);
    }
}

proof fn lemma_injective_image_len(p: Seq<int>, n: int)
    requires
        p.len() == n,
        n >= 0,
        forall|i: int, j: int| 0 <= i < j < p.len() ==> p[i] != p[j],
    ensures
        Set::new(|v: int| exists|i: int| 0 <= i < n && p[i] == v).finite(),
        Set::new(|v: int| exists|i: int| 0 <= i < n && p[i] == v).len() == n,
    decreases n,
{
    let img = Set::new(|v: int| exists|i: int| 0 <= i < n && p[i] == v);
    if n == 0 {
        assert(img =~= Set::empty());
    } else {
        let q = p.subrange(0, n - 1);
        lemma_injective_image_len(q, n - 1);
        let img2 = Set::new(|v: int| exists|i: int| 0 <= i < n - 1 && q[i] == v);
        assert forall|v: int| img.contains(v) implies #[trigger] img2.insert(p[n - 1]).contains(v) by {
            let i = choose|i: int| 0 <= i < n && p[i] == v;
            if i < n - 1 {
                assert(q[i] == v);
            }
        }
        assert forall|v: int| img2.insert(p[n - 1]).contains(v) implies #[trigger] img.contains(v) by {
            if v != p[n - 1] {
                let i = choose|i: int| 0 <= i < n - 1 && q[i] == v;
                assert(p[i] == v);
            }
        }
        assert(img =~= img2.insert(p[n - 1]));
        assert(!img2.contains(p[n - 1]));
    }
}

/// The file tree of a mod.
pub struct StaticTree {
    pub branches: Vec<StaticBranch>,
}

impl StaticTree {
    pub fn new() -> (res: Self)
        ensures
            res.branches@.len() == 0,
    {
        StaticTree { branches: Vec::new() }
    }

    /// Adds the file at game path `path`, stored at `real_path` in the mod.
    pub fn add_path(&mut self, path: &str, real_path: &str, option: Option<(String, String)>)
        ensures
            path_added(
                smodels(old(self).branches@),
                smodels(final(self).branches@),
                split_chars(path@, '/'),
                real_path@,
                option_model(option),
            ),
            holds_file(smodels(final(self).branches@), split_chars(path@, '/'), real_path@, option_model(option)),
    {
        let ghost opt_m = option_model(option);
        let chars = str_chars(path);
        let segs = split_char_vec(&chars, '/');
        let real_chars = str_chars(real_path);
        proof {
            assert(seg_views(segs@) =~= split_chars(path@, '/'));
        }
        add_rec(&mut self.branches, segs, real_chars, option);
        proof {
            lemma_add_path_holds(
                smodels(old(self).branches@),
                smodels(self.branches@),
                split_chars(path@, '/'),
                real_path@,
                opt_m,
            );
        }
    }
}

/// The tree holds the file `real_path` (with `option`) at the path `segs`:
/// the folders on the way are found by name.
pub open spec fn holds_file(
    b: Seq<StaticModel>,
    segs: Seq<Seq<char>>,
    real_path: Seq<char>,
    option: Option<(Seq<char>, Seq<char>)>,
) -> bool
    decreases segs.len(),
{
    if segs.len() <= 1 {
        segs.len() == 1 && exists|i: int| 0 <= i < b.len() && #[trigger] b[i] == file_node(segs[0], real_path, option)
    } else {
        exists|i: int|
            0 <= i < b.len() && (#[trigger] b[i]).name == segs[0] && holds_file(
                b[i].children,
                segs.drop_first(),
                real_path,
                option,
            )
    }
}

/// After a path is added, the tree holds the file at that path.
pub proof fn lemma_add_path_holds(
    old_b: Seq<StaticModel>,
    new_b: Seq<StaticModel>,
    segs: Seq<Seq<char>>,
    real_path: Seq<char>,
    option: Option<(Seq<char>, Seq<char>)>,
)
    requires
        path_added(old_b, new_b, segs, real_path, option),
    ensures
        holds_file(new_b, segs, real_path, option),
    decreases segs.len(),
{
    if segs.len() <= 1 {
        let input = old_b.push(file_node(segs[0], real_path, option));
        let p = choose|p: Seq<int>|
            {
                &&& #[trigger] is_stable_sort_perm(input.map_values(static_key_fn()), p)
                &&& new_b.len() == input.len()
                &&& forall|i: int| 0 <= i < new_b.len() ==> new_b[i] == input[p[i]]
            };
        lemma_perm_hits(p, input.len() as int, old_b.len() as int);
        let j = choose|j: int| 0 <= j < input.len() && p[j] == old_b.len();
        assert(new_b[j] == input[old_b.len() as int]);
    } else {
        let b1 = choose|b1: Seq<StaticModel>|
            {
                &&& #[trigger] folder_step(old_b, b1, segs[0])
                &&& {
                    let i = find_name(b1, segs[0], 0);
                    &&& 0 <= i < b1.len()
                    &&& new_b.len() == b1.len()
                    &&& forall|j: int| 0 <= j < b1.len() && j != i ==> new_b[j] == b1[j]
                    &&& new_b[i].name == b1[i].name
                    &&& new_b[i].option == b1[i].option
                    &&& new_b[i].real_path == b1[i].real_path
                    &&& new_b[i].disabled == b1[i].disabled
                    &&& path_added(b1[i].children, new_b[i].children, segs.drop_first(), real_path, option)
                }
            };
        let i = find_name(b1, segs[0], 0);
        lemma_find_name_props(b1, segs[0], 0);
        lemma_add_path_holds(b1[i].children, new_b[i].children, segs.drop_first(), real_path, option);
        assert(new_b[i].name == segs[0]);
    }
}

} // verus!
