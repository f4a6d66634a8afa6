//! The game path list: a newline-separated list of `/`-separated paths is
//! turned into a tree of path segments, which is stored in a compact binary
//! form and read back one level at a time.
//!
//! Layout of one level (a "branch") at some offset of the file: a `u16` count,
//! then for each entry a `u8` name length, the name's bytes, and a `u32` offset
//! of the entry's own branch (0 when the entry has no children).  All integers
//! are little endian.  The branches of the children follow the list, one after
//! the other.
use vstd::prelude::*;
use crate::sort::{is_stable_sort_perm, stable_sort_pairs, pair_key};
use crate::text::utf8_to_string;
use crate::le::{u16le, u32le, rd_u16, rd_u32, lemma_u16_roundtrip, lemma_u32_roundtrip, push_u16};
use vstd::utf8::{valid_utf8, decode_utf8};
use std::io::Read;

verus! {

// ---------------------------------------------------------------------------
// The tree and its model

/// One segment of the path tree with the segments that follow it.
pub struct PathNode {
    pub name: Vec<u8>,
    pub children: Vec<PathNode>,
}

/// Mathematical model of a tree node.
pub struct NodeModel {
    pub name: Seq<u8>,
    pub children: Seq<NodeModel>,
}

pub open spec fn models(nodes: Seq<PathNode>) -> Seq<NodeModel>
    decreases nodes,
{
    if nodes.len() == 0 {
        Seq::empty()
    } else {
        models(nodes.subrange(0, nodes.len() - 1)).push(nodes[nodes.len() - 1].model())
    }
}

impl PathNode {
    pub open spec fn model(self) -> NodeModel
        decreases self,
    {
        NodeModel { name: self.name@, children: models(self.children@) }
    }
}

pub proof fn lemma_models_len(nodes: Seq<PathNode>)
    ensures
        models(nodes).len() == nodes.len(),
    decreases nodes.len(),
{
    if nodes.len() > 0 {
        lemma_models_len(nodes.subrange(0, nodes.len() - 1));
    }
}

pub proof fn lemma_models_index(nodes: Seq<PathNode>, i: int)
    requires
        0 <= i < nodes.len(),
    ensures
        models(nodes).len() == nodes.len(),
        models(nodes)[i] == nodes[i].model(),
    decreases nodes.len(),
{
    lemma_models_len(nodes);
    if i < nodes.len() - 1 {
        let pre = nodes.subrange(0, nodes.len() - 1);
        lemma_models_index(pre, i);
    }
}

pub proof fn lemma_models_ext(nodes: Seq<PathNode>, m: Seq<NodeModel>)
    requires
        m.len() == nodes.len(),
        forall|i: int| 0 <= i < nodes.len() ==> m[i] == #[trigger] nodes[i].model(),
    ensures
        models(nodes) == m,
{
    lemma_models_len(nodes);
    assert forall|i: int| 0 <= i < nodes.len() implies models(nodes)[i] == m[i] by {
        lemma_models_index(nodes, i);
    }
    assert(models(nodes) =~= m);
}

// ---------------------------------------------------------------------------
// Splitting

/// `str::split` on a single separator byte: `n` separators give `n + 1`
/// pieces, empty pieces included.
pub open spec fn split_on(s: Seq<u8>, sep: u8) -> Seq<Seq<u8>>
    decreases s.len(),
{
    if s.len() == 0 {
        seq![Seq::<u8>::empty()]
    } else {
        let rest = split_on(s.drop_last(), sep);
        if s.last() == sep {
            rest.push(Seq::<u8>::empty())
        } else {
            rest.update(rest.len() - 1, rest.last().push(s.last()))
        }
    }
}

pub proof fn lemma_split_on_nonempty(s: Seq<u8>, sep: u8)
    ensures
        split_on(s, sep).len() >= 1,
    decreases s.len(),
{
    if s.len() > 0 {
        lemma_split_on_nonempty(s.drop_last(), sep);
    }
}

/// Splits `s` at every `sep`, as `str::split` does.
pub fn split_bytes(s: &[u8], sep: u8) -> (res: Vec<Vec<u8>>)
    ensures
        res@.len() == split_on(s@, sep).len(),
        forall|i: int| 0 <= i < res@.len() ==> #[trigger] res@[i]@ == split_on(s@, sep)[i],
{
    let mut done: Vec<Vec<u8>> = Vec::new();
    let mut cur: Vec<u8> = Vec::new();
    let n = s.len();
    let mut i: usize = 0;
    while i < n
        invariant
            n == s@.len(),
            i <= n,
            done@.len() + 1 == split_on(s@.take(i as int), sep).len(),
            forall|k: int| 0 <= k < done@.len() ==> #[trigger] done@[k]@ == split_on(s@.take(i as int), sep)[k],
            cur@ == split_on(s@.take(i as int), sep).last(),
        decreases n - i,
    {
        proof {
            lemma_split_on_nonempty(s@.take(i as int), sep);
            assert(s@.take(i + 1).drop_last() =~= s@.take(i as int));
        }
        if s[i] == sep {
            let mut piece: Vec<u8> = Vec::new();
            std::mem::swap(&mut piece, &mut cur);
            done.push(piece);
        } else {
            cur.push(s[i]);
        }
        i = i + 1;
    }
    proof {
        assert(s@.take(n as int) =~= s@);
        lemma_split_on_nonempty(s@, sep);
    }
    done.push(cur);
    done
}

// ---------------------------------------------------------------------------
// Building the tree

/// Position of the first node called `name`, from `start` on; `-1` when none.
pub open spec fn find_child(b: Seq<NodeModel>, name: Seq<u8>, start: int) -> int
    decreases b.len() - start,
{
    if start < 0 || start >= b.len() {
        -1
    } else if b[start].name == name {
        start
    } else {
        find_child(b, name, start + 1)
    }
}

/// The branch after walking `segs` from it, creating each missing segment
/// (`HashMap::entry(..).or_insert_with(..)` at every level).
pub open spec fn insert_segs(b: Seq<NodeModel>, segs: Seq<Seq<u8>>) -> Seq<NodeModel>
    decreases segs.len(),
{
    if segs.len() == 0 {
        b
    } else {
        let i = find_child(b, segs[0], 0);
        if i >= 0 {
            b.update(
                i,
                NodeModel { name: segs[0], children: insert_segs(b[i].children, segs.drop_first()) },
            )
        } else {
            b.push(
                NodeModel {
                    name: segs[0],
                    children: insert_segs(Seq::empty(), segs.drop_first()),
                },
            )
        }
    }
}

/// The tree of all the paths of `lines`, each split at `/`.
pub open spec fn build_tree(lines: Seq<Seq<u8>>) -> Seq<NodeModel>
    decreases lines.len(),
{
    if lines.len() == 0 {
        Seq::empty()
    } else {
        insert_segs(build_tree(lines.drop_last()), split_on(lines.last(), 0x2Fu8))
    }
}

/// The tree of the paths of a path list (one path per line).
pub open spec fn path_list_tree(text: Seq<u8>) -> Seq<NodeModel> {
    build_tree(split_on(text, 0x0Au8))
}

proof fn lemma_find_child_props(b: Seq<NodeModel>, name: Seq<u8>, start: int)
    requires
        0 <= start,
    ensures
        find_child(b, name, start) == -1 || (start <= find_child(b, name, start) < b.len()
            && b[find_child(b, name, start)].name == name),
        find_child(b, name, start) == -1 ==> forall|k: int| start <= k < b.len() ==> #[trigger] b[k].name != name,
        find_child(b, name, start) >= 0 ==> forall|k: int|
            start <= k < find_child(b, name, start) ==> #[trigger] b[k].name != name,
    decreases b.len() - start,
{
    if start < b.len() && b[start].name != name {
        lemma_find_child_props(b, name, start + 1);
    }
}

fn find_child_exec(b: &Vec<PathNode>, name: &Vec<u8>) -> (r: Option<usize>)
    ensures
        models(b@).len() == b@.len(),
        match r {
            Some(i) => find_child(models(b@), name@, 0) == i as int && i < b@.len(),
            None => find_child(models(b@), name@, 0) == -1,
        },
{
    proof {
        lemma_models_len(b@);
    }
    let mut i: usize = 0;
    while i < b.len()
        invariant
            i <= b@.len(),
            models(b@).len() == b@.len(),
            find_child(models(b@), name@, 0) == find_child(models(b@), name@, i as int),
        decreases b@.len() - i,
    {
        proof {
            lemma_models_index(b@, i as int);
        }
        if bytes_eq(&b[i].name, name) {
            return Some(i);
        }
        i = i + 1;
    }
    None
}

pub fn bytes_eq(a: &Vec<u8>, b: &Vec<u8>) -> (r: bool)
    ensures
        r == (a@ == b@),
{
    if a.len() != b.len() {
        return false;
    }
    let mut i: usize = 0;
    while i < a.len()
        invariant
            a@.len() == b@.len(),
            i <= a@.len(),
            forall|k: int| 0 <= k < i ==> a@[k] == b@[k],
        decreases a@.len() - i,
    {
        if a[i] != b[i] {
            return false;
        }
        i = i + 1;
    }
    assert(a@ =~= b@);
    true
}

fn insert_segs_exec(b: &mut Vec<PathNode>, segs: Vec<Vec<u8>>)
    ensures
        models(final(b)@) == insert_segs(models(old(b)@), segs@.map_values(|v: Vec<u8>| v@)),
    decreases segs@.len(),
{
    let ghost sv = segs@.map_values(|v: Vec<u8>| v@);
    if segs.len() == 0 {
        assert(sv.len() == 0);
        return;
    }
    let mut segs = segs;
    let name = segs.remove(0);
    proof {
        assert(segs@.map_values(|v: Vec<u8>| v@) =~= sv.drop_first());
        assert(sv[0] == name@);
    }
    let ghost old_b = b@;
    match find_child_exec(b, &name) {
        Some(i) => {
            let mut child = b.remove(i);
            let ghost old_child = child;
            proof {
                lemma_models_index(old_b, i as int);
                lemma_find_child_props(models(old_b), name@, 0);
            }
            insert_segs_exec(&mut child.children, segs);
            b.insert(i, child);
            proof {
                let newm = insert_segs(models(old_b), sv);
                lemma_models_len(old_b);
                assert(b@ =~= old_b.update(i as int, child));
                assert forall|k: int| 0 <= k < b@.len() implies newm[k] == #[trigger] b@[k].model() by {
                    lemma_models_index(old_b, k);
                    if k == i {
                        assert(child.name@ == name@);
                    }
                }
                lemma_models_ext(b@, newm);
            }
        },
        None => {
            let mut children: Vec<PathNode> = Vec::new();
            insert_segs_exec(&mut children, segs);
            proof {
                assert(models(Seq::<PathNode>::empty()) =~= Seq::<NodeModel>::empty());
            }
            let node = PathNode { name, children };
            b.push(node);
            proof {
                let newm = insert_segs(models(old_b), sv);
                lemma_models_len(old_b);
                assert forall|k: int| 0 <= k < b@.len() implies newm[k] == #[trigger] b@[k].model() by {
                    if k < old_b.len() {
                        lemma_models_index(old_b, k);
                        assert(b@[k] == old_b[k]);
                    }
                }
                lemma_models_ext(b@, newm);
            }
        },
    }
}

/// The tree of all the paths in a path list (`update_paths` builds it from the
/// downloaded list before storing it).
pub fn build_path_tree(text: &[u8]) -> (res: Vec<PathNode>)
    ensures
        models(res@) == path_list_tree(text@),
{
    let mut lines = split_bytes(text, 0x0A);
    let ghost all = split_on(text@, 0x0Au8);
    let mut tree: Vec<PathNode> = Vec::new();
    let n = lines.len();
    let mut i: usize = 0;
    proof {
        assert(models(Seq::<PathNode>::empty()) =~= Seq::<NodeModel>::empty());
        assert(all.take(0) =~= Seq::<Seq<u8>>::empty());
    }
    while i < n
        invariant
            n == all.len(),
            i <= n,
            lines@.len() == n - i,
            forall|k: int| 0 <= k < lines@.len() ==> #[trigger] lines@[k]@ == all[k + i],
            models(tree@) == build_tree(all.take(i as int)),
        decreases n - i,
    {
        let line = lines.remove(0);
        let segs = split_bytes(line.as_slice(), 0x2F);
        proof {
            assert(line@ == all[i as int]);
            assert(all.take(i + 1).drop_last() =~= all.take(i as int));
            assert(segs@.map_values(|v: Vec<u8>| v@) =~= split_on(all[i as int], 0x2Fu8));
        }
        insert_segs_exec(&mut tree, segs);
        i = i + 1;
    }
    assert(all.take(n as int) =~= all);
    tree
}


// ---------------------------------------------------------------------------
// Encoding

pub open spec fn entry_len(c: NodeModel) -> int {
    5 + c.name.len() as int
}

/// Bytes taken by the first `k` entries of a list.
pub open spec fn entries_len(b: Seq<NodeModel>, k: int) -> int
    decreases k,
{
    if k <= 0 {
        0
    } else {
        entries_len(b, k - 1) + entry_len(b[k - 1])
    }
}

/// Bytes taken by the list of a branch.
pub open spec fn list_len(b: Seq<NodeModel>) -> int {
    2 + entries_len(b, b.len() as int)
}

/// Bytes taken by a branch with everything below it.
pub open spec fn enc_size(b: Seq<NodeModel>) -> int
    decreases b, 1int,
{
    list_len(b) + subs_size(b, b.len() as int)
}

/// Bytes taken by the branches of the first `k` children of `b`.
pub open spec fn subs_size(b: Seq<NodeModel>, k: int) -> int
    decreases b, 0int, k,
{
    if k <= 0 || k > b.len() {
        0
    } else {
        subs_size(b, k - 1) + if b[k - 1].children.len() > 0 {
            enc_size(b[k - 1].children)
        } else {
            0
        }
    }
}

/// Where the branch of child `i` of `b` starts when `b` starts at `base`
/// (0 for a child without children).
pub open spec fn child_off(b: Seq<NodeModel>, i: int, base: int) -> int {
    if b[i].children.len() > 0 {
        base + list_len(b) + subs_size(b, i)
    } else {
        0
    }
}

/// The first `k` entries of a list, the offset of entry `j` being `offs(j)`.
pub open spec fn entries_with(b: Seq<NodeModel>, k: int, offs: spec_fn(int) -> int) -> Seq<u8>
    decreases k,
{
    if k <= 0 {
        Seq::empty()
    } else {
        entries_with(b, k - 1, offs) + seq![(b[k - 1].name.len() % 256) as u8] + b[k - 1].name
            + u32le(offs(k - 1))
    }
}

pub open spec fn offs_of(b: Seq<NodeModel>, base: int) -> spec_fn(int) -> int {
    |j: int| child_off(b, j, base)
}

/// The bytes of branch `b` written at position `base` of the file.
pub open spec fn enc(b: Seq<NodeModel>, base: int) -> Seq<u8>
    decreases b, 1int,
{
    u16le(b.len() as int) + entries_with(b, b.len() as int, offs_of(b, base)) + subs_bytes(
        b,
        b.len() as int,
        base + list_len(b),
    )
}

/// The branches of the first `k` children of `b`, starting at `pos`.
pub open spec fn subs_bytes(b: Seq<NodeModel>, k: int, pos: int) -> Seq<u8>
    decreases b, 0int, k,
{
    if k <= 0 || k > b.len() {
        Seq::empty()
    } else {
        subs_bytes(b, k - 1, pos) + if b[k - 1].children.len() > 0 {
            enc(b[k - 1].children, pos + subs_size(b, k - 1))
        } else {
            Seq::empty()
        }
    }
}

proof fn lemma_entries_with_len(b: Seq<NodeModel>, k: int, offs: spec_fn(int) -> int)
    requires
        0 <= k <= b.len(),
    ensures
        entries_with(b, k, offs).len() == entries_len(b, k),
    decreases k,
{
    if k > 0 {
        lemma_entries_with_len(b, k - 1, offs);
    }
}

proof fn lemma_enc_len(b: Seq<NodeModel>, base: int)
    ensures
        enc(b, base).len() == enc_size(b),
    decreases b, 1int,
{
    lemma_entries_with_len(b, b.len() as int, offs_of(b, base));
    lemma_subs_bytes_len(b, b.len() as int, base + list_len(b));
}

proof fn lemma_subs_bytes_len(b: Seq<NodeModel>, k: int, pos: int)
    ensures
        subs_bytes(b, k, pos).len() == subs_size(b, k),
    decreases b, 0int, k,
{
    if 0 < k <= b.len() {
        lemma_subs_bytes_len(b, k - 1, pos);
        if b[k - 1].children.len() > 0 {
            lemma_enc_len(b[k - 1].children, pos + subs_size(b, k - 1));
        }
    }
}


pub open spec fn offs_upto(b: Seq<NodeModel>, base: int, i: int) -> spec_fn(int) -> int {
    |j: int| if j < i { child_off(b, j, base) } else { 0 }
}

proof fn lemma_entries_with_agree(
    b: Seq<NodeModel>,
    k: int,
    f: spec_fn(int) -> int,
    g: spec_fn(int) -> int,
)
    requires
        forall|j: int| 0 <= j < k ==> #[trigger] f(j) == g(j),
    ensures
        entries_with(b, k, f) == entries_with(b, k, g),
    decreases k,
{
    if k > 0 {
        lemma_entries_with_agree(b, k - 1, f, g);
    }
}

/// Changing the offset of entry `i` changes exactly its four offset bytes.
proof fn lemma_entries_with_patch(
    b: Seq<NodeModel>,
    k: int,
    i: int,
    f: spec_fn(int) -> int,
    g: spec_fn(int) -> int,
)
    requires
        0 <= i < k <= b.len(),
        forall|j: int| 0 <= j < k && j != i ==> #[trigger] f(j) == g(j),
    ensures
        ({
            let rel = entries_len(b, i) + 1 + b[i].name.len();
            let ef = entries_with(b, k, f);
            let eg = entries_with(b, k, g);
            &&& ef.len() == eg.len()
            &&& rel + 4 <= ef.len()
            &&& forall|x: int|
                0 <= x < eg.len() ==> #[trigger] eg[x] == if rel <= x < rel + 4 {
                    u32le(g(i))[x - rel]
                } else {
                    ef[x]
                }
        }),
    decreases k,
{
    lemma_entries_with_len(b, k, f);
    lemma_entries_with_len(b, k, g);
    lemma_entries_len_mono(b, i + 1, k);
    if k == i + 1 {
        lemma_entries_with_agree(b, i, f, g);
        lemma_entries_with_len(b, i, f);
    } else {
        lemma_entries_with_patch(b, k - 1, i, f, g);
        lemma_entries_with_len(b, k - 1, f);
        assert(f(k - 1) == g(k - 1));
    }
}

proof fn lemma_entries_len_mono(b: Seq<NodeModel>, j: int, k: int)
    requires
        0 <= j <= k <= b.len(),
    ensures
        entries_len(b, j) <= entries_len(b, k),
    decreases k - j,
{
    if j < k {
        lemma_entries_len_mono(b, j, k - 1);
    }
}

/// Writes branch `b` at the end of `out` the way `update_paths` stores the
/// path list: the list with placeholder offsets first, then, child after
/// child, the offset is patched to the current end and the child's branch is
/// appended.
pub fn write_branch(b: &Vec<PathNode>, out: &mut Vec<u8>)
    ensures
        final(out)@ == old(out)@ + enc(models(b@), old(out)@.len() as int),
    decreases b@,
{
    let ghost bm = models(b@);
    let ghost base = old(out)@.len() as int;
    let ghost start = old(out)@;
    proof {
        lemma_models_len(b@);
    }
    let n = b.len();
    push_u16(out, n);
    let mut slots: Vec<usize> = Vec::new();
    let ghost zero = offs_upto(bm, base, 0);
    let mut i: usize = 0;
    while i < n
        invariant
            n == b@.len(),
            bm == models(b@),
            bm.len() == n,
            start.len() == base,
            zero == offs_upto(bm, base, 0),
            i <= n,
            out@ == start + u16le(n as int) + entries_with(bm, i as int, zero),
            slots@.len() == i,
            forall|j: int| 0 <= j < i ==> #[trigger] slots@[j] == base + 2 + entries_len(bm, j) + 1 + bm[j].name.len(),
        decreases n - i,
    {
        proof {
            lemma_models_index(b@, i as int);
            lemma_entries_with_len(bm, i as int, zero);
        }
        let nm = &b[i].name;
        out.push((nm.len() % 256) as u8);
        let ghost mid = out@;
        let mut k: usize = 0;
        while k < nm.len()
            invariant
                k <= nm@.len(),
                out@ == mid + nm@.take(k as int),
            decreases nm@.len() - k,
        {
            out.push(nm[k]);
            proof {
                assert(nm@.take(k + 1) =~= nm@.take(k as int).push(nm@[k as int]));
            }
            k = k + 1;
        }
        proof {
            assert(nm@ == bm[i as int].name);
            assert(mid.len() == base + 2 + entries_len(bm, i as int) + 1);
            assert(nm@.take(nm@.len() as int) =~= nm@);
        }
        slots.push(out.len());
        out.push(0);
        out.push(0);
        out.push(0);
        out.push(0);
        proof {
            assert(nm@.take(nm@.len() as int) =~= nm@);
            assert(u32le(zero(i as int)) =~= seq![0u8, 0u8, 0u8, 0u8]);
            assert(out@ =~= start + u16le(n as int) + entries_with(bm, i + 1, zero));
        }
        i = i + 1;
    }
    proof {
        lemma_entries_with_len(bm, n as int, zero);
        lemma_subs_bytes_len(bm, 0, base + list_len(bm));
        assert(subs_bytes(bm, 0, base + list_len(bm)) =~= Seq::<u8>::empty());
        assert(out@ =~= start + u16le(n as int) + entries_with(bm, n as int, offs_upto(bm, base, 0))
            + subs_bytes(bm, 0, base + list_len(bm)));
    }
    let mut i: usize = 0;
    while i < n
        invariant
            n == b@.len(),
            bm == models(b@),
            bm.len() == n,
            start.len() == base,
            i <= n,
            slots@.len() == n,
            forall|j: int| 0 <= j < n ==> #[trigger] slots@[j] == base + 2 + entries_len(bm, j) + 1 + bm[j].name.len(),
            out@ == start + u16le(n as int) + entries_with(bm, n as int, offs_upto(bm, base, i as int))
                + subs_bytes(bm, i as int, base + list_len(bm)),
        decreases n - i,
    {
        proof {
            lemma_models_index(b@, i as int);
            lemma_entries_with_len(bm, n as int, offs_upto(bm, base, i as int));
            lemma_subs_bytes_len(bm, i as int, base + list_len(bm));
        }
        let ghost before = out@;
        let ghost f = offs_upto(bm, base, i as int);
        let ghost g = offs_upto(bm, base, i + 1);
        if b[i].children.len() > 0 {
            let pos = out.len();
            let s = slots[i];
            proof {
                lemma_models_len(b@[i as int].children@);
                assert(bm[i as int].children.len() > 0);
                assert(u16le(n as int).len() == 2);
                assert(before.len() == base + 2 + entries_len(bm, n as int) + subs_size(bm, i as int));
                assert(pos == child_off(bm, i as int, base));
                lemma_entries_with_patch(bm, n as int, i as int, f, g);
                lemma_entries_len_mono(bm, i + 1, n as int);
            }
            let b0 = (pos % 256) as u8;
            let b1 = ((pos / 256) % 256) as u8;
            let b2 = ((pos / 65536) % 256) as u8;
            let b3 = ((pos / 16777216) % 256) as u8;
            out.set(s, b0);
            out.set(s + 1, b1);
            out.set(s + 2, b2);
            out.set(s + 3, b3);
            proof {
                assert(u32le(pos as int) =~= seq![b0, b1, b2, b3]);
                assert forall|x: int| 0 <= x < before.len() implies #[trigger] out@[x] == if s <= x < s + 4 {
                    u32le(pos as int)[x - s]
                } else {
                    before[x]
                } by {}
            }
            proof {
                let hdr = start + u16le(n as int);
                let ef = entries_with(bm, n as int, f);
                let eg = entries_with(bm, n as int, g);
                let sb = subs_bytes(bm, i as int, base + list_len(bm));
                let target = hdr + eg + sb;
                let hl = hdr.len() as int;
                let rel = entries_len(bm, i as int) + 1 + bm[i as int].name.len();
                assert(hl == base + 2);
                assert(s == hl + rel);
                lemma_entries_len_mono(bm, 0, i as int);
                assert(g(i as int) == pos as int);
                assert(before =~= hdr + ef + sb);
                assert forall|x: int| 0 <= x < target.len() implies #[trigger] out@[x] == target[x] by {
                    assert(out@[x] == if s <= x < s + 4 { u32le(pos as int)[x - s] } else { before[x] });
                    if x < hl {
                        assert(target[x] == hdr[x]);
                        assert(before[x] == hdr[x]);
                    } else if x < hl + ef.len() {
                        assert(out@[x] == if s <= x < s + 4 { u32le(pos as int)[x - s] } else { before[x] });
                        assert(target[x] == eg[x - hl]);
                        assert(before[x] == ef[x - hl]);
                        if hl + rel <= x < hl + rel + 4 {
                            assert(eg[x - hl] == u32le(g(i as int))[x - hl - rel]);
                            assert(out@[x] == target[x]);
                        } else {
                            assert(eg[x - hl] == ef[x - hl]);
                            assert(out@[x] == target[x]);
                        }
                    } else {
                        assert(target[x] == sb[x - hl - ef.len()]);
                        assert(before[x] == sb[x - hl - ef.len()]);
                        assert(out@[x] == target[x]);
                    }
                }
                assert(out@ =~= target);
            }
            write_branch(&b[i].children, out);
            proof {
                assert(out@ =~= start + u16le(n as int) + entries_with(bm, n as int, g)
                    + subs_bytes(bm, i + 1, base + list_len(bm)));
            }
        } else {
            proof {
                lemma_models_len(b@[i as int].children@);
                lemma_entries_with_agree(bm, n as int, f, g);
                assert(subs_bytes(bm, i + 1, base + list_len(bm)) =~= subs_bytes(bm, i as int, base + list_len(bm)));
            }
        }
        i = i + 1;
    }
    proof {
        lemma_entries_with_agree(bm, n as int, offs_upto(bm, base, n as int), offs_of(bm, base));
        assert(out@ =~= start + enc(bm, base));
    }
}


// ---------------------------------------------------------------------------
// Decoding

/// Position of entry `k` of the list at `off`.
pub open spec fn entry_at(d: Seq<u8>, off: int, k: int) -> int
    decreases k,
{
    if k <= 0 {
        off + 2
    } else {
        entry_at(d, off, k - 1) + 5 + d[entry_at(d, off, k - 1)] as int
    }
}

/// The list at `off` lies within `d`.
pub open spec fn branch_fits(d: Seq<u8>, off: int) -> bool {
    &&& 0 <= off
    &&& off + 2 <= d.len()
    &&& forall|k: int|
        0 <= k < rd_u16(d, off) ==> #[trigger] entry_at(d, off, k) + 5 + d[entry_at(d, off, k)] as int
            <= d.len()
}

pub open spec fn entry_count(d: Seq<u8>, off: int) -> int {
    rd_u16(d, off)
}

pub open spec fn entry_name(d: Seq<u8>, off: int, k: int) -> Seq<u8> {
    let p = entry_at(d, off, k);
    d.subrange(p + 1, p + 1 + d[p] as int)
}

pub open spec fn entry_offset(d: Seq<u8>, off: int, k: int) -> int {
    let p = entry_at(d, off, k);
    rd_u32(d, p + 1 + d[p] as int)
}

pub open spec fn ascii_lower(b: u8) -> u8 {
    if 65 <= b <= 90 {
        (b + 32) as u8
    } else {
        b
    }
}

/// Sort key of an entry: entries with a branch first, then by name with ASCII
/// letters lowercased.
pub open spec fn lazy_key(name: Seq<u8>, offset: int) -> Seq<u64> {
    Seq::new(
        name.len() + 1,
        |i: int|
            if i == 0 {
                if offset == 0 {
                    1u64
                } else {
                    0u64
                }
            } else {
                ascii_lower(name[i - 1]) as u64
            },
    )
}

pub open spec fn entry_keys(d: Seq<u8>, off: int) -> Seq<Seq<u64>> {
    Seq::new(
        entry_count(d, off) as nat,
        |k: int| lazy_key(entry_name(d, off, k), entry_offset(d, off, k)),
    )
}

pub open spec fn names_utf8(d: Seq<u8>, off: int) -> bool {
    forall|k: int| 0 <= k < entry_count(d, off) ==> valid_utf8(#[trigger] entry_name(d, off, k))
}

/// One entry of a loaded level of the path tree; its own level is loaded on
/// demand.
pub struct LazyBranch {
    pub name: String,
    pub offset: u32,
    pub branches: Option<Vec<LazyBranch>>,
}

/// `v` is the list at `off`, sorted with entries that have a branch first and
/// then by lowercased name, equal keys in file order.
pub open spec fn loaded_as(d: Seq<u8>, off: int, v: Seq<LazyBranch>) -> bool {
    exists|p: Seq<int>|
        {
            &&& #[trigger] is_stable_sort_perm(entry_keys(d, off), p)
            &&& v.len() == entry_count(d, off)
            &&& forall|i: int|
                0 <= i < v.len() ==> {
                    &&& (#[trigger] v[i]).name@ == decode_utf8(entry_name(d, off, p[i]))
                    &&& v[i].offset as int == entry_offset(d, off, p[i])
                    &&& v[i].branches is None
                }
        }
}

/// Why a level of the path tree could not be loaded.
#[derive(Debug)]
pub enum PathsError {
    /// A name in the list is not valid UTF-8.
    InvalidName,
}

/// Whether the list at `offset` lies within `data` (reading it otherwise
/// would index out of bounds).
pub fn branch_in_bounds(data: &[u8], offset: u32) -> (r: bool)
    ensures
        r == branch_fits(data@, offset as int),
{
    let len = data.len();
    let off = offset as usize;
    if off > len || len - off < 2 {
        return false;
    }
    let count = data[off] as usize + 256 * data[off + 1] as usize;
    let mut p = off + 2;
    let mut k: usize = 0;
    while k < count
        invariant
            len == data@.len(),
            off == offset,
            off + 2 <= len,
            count == rd_u16(data@, off as int),
            k <= count,
            p == entry_at(data@, off as int, k as int),
            p <= len,
            forall|j: int| 0 <= j < k ==> #[trigger] entry_at(data@, off as int, j) + 5 + data@[entry_at(data@, off as int, j)] as int <= len,
        decreases count - k,
    {
        if p >= len {
            proof {
                assert(!(entry_at(data@, off as int, k as int) + 5 + data@[entry_at(data@, off as int, k as int)] as int <= len));
            }
            return false;
        }
        let nl = data[p] as usize;
        if len - p < 5 + nl {
            return false;
        }
        p = p + 5 + nl;
        k = k + 1;
    }
    true
}

fn lazy_key_exec(name: &Vec<u8>, offset: u32) -> (key: Vec<u64>)
    ensures
        key@ == lazy_key(name@, offset as int),
{
    let mut key: Vec<u64> = Vec::new();
    key.push(if offset == 0 { 1 } else { 0 });
    let mut i: usize = 0;
    while i < name.len()
        invariant
            i <= name@.len(),
            key@.len() == i + 1,
            forall|j: int| 0 <= j < i + 1 ==> #[trigger] key@[j] == lazy_key(name@, offset as int)[j],
        decreases name@.len() - i,
    {
        let c = name[i];
        let l: u8 = if 65 <= c && c <= 90 { c + 32 } else { c };
        key.push(l as u64);
        i = i + 1;
    }
    assert(key@ =~= lazy_key(name@, offset as int));
    key
}

/// Reads the list at `offset` (`LazyTree::load_branch`): the entries, sorted
/// with entries that have a branch first and then by lowercased name.
pub fn load_branch(data: &[u8], offset: u32) -> (res: Result<Vec<LazyBranch>, PathsError>)
    requires
        branch_fits(data@, offset as int),
    ensures
        match res {
            Ok(v) => names_utf8(data@, offset as int) && loaded_as(data@, offset as int, v@),
            Err(_) => !names_utf8(data@, offset as int),
        },
{
    let ghost d = data@;
    let ghost o = offset as int;
    let _len = data.len();
    let off = offset as usize;
    let count = data[off] as usize + 256 * data[off + 1] as usize;
    let mut items: Vec<(Vec<u64>, LazyBranch)> = Vec::new();
    let mut p = off + 2;
    let mut k: usize = 0;
    while k < count
        invariant
            d == data@,
            d.len() <= usize::MAX,
            o == off as int,
            o == offset as int,
            branch_fits(d, o),
            count == entry_count(d, o),
            k <= count,
            p == entry_at(d, o, k as int),
            items@.len() == k,
            forall|j: int| 0 <= j < k ==> valid_utf8(#[trigger] entry_name(d, o, j)),
            forall|j: int|
                0 <= j < k ==> {
                    &&& (#[trigger] items@[j]).0@ == entry_keys(d, o)[j]
                    &&& items@[j].1.name@ == decode_utf8(entry_name(d, o, j))
                    &&& items@[j].1.offset as int == entry_offset(d, o, j)
                    &&& items@[j].1.branches is None
                },
        decreases count - k,
    {
        proof {
            assert(entry_at(d, o, k as int) + 5 + d[entry_at(d, o, k as int)] as int <= d.len());
        }
        let nl = data[p] as usize;
        let mut name: Vec<u8> = Vec::new();
        let mut i: usize = 0;
        while i < nl
            invariant
                d == data@,
                d.len() <= usize::MAX,
                p + 5 + nl <= d.len(),
                i <= nl,
                name@ == d.subrange(p + 1, p + 1 + i),
            decreases nl - i,
        {
            name.push(data[p + 1 + i]);
            proof {
                assert(d.subrange(p + 1, p + 1 + i + 1) =~= d.subrange(p + 1, p + 1 + i).push(d[p + 1 + i]));
            }
            i = i + 1;
        }
        let q = p + 1 + nl;
        let sub = data[q] as u32 + 256 * data[q + 1] as u32 + 65536 * data[q + 2] as u32 + 16777216 * data[q + 3] as u32;
        let s = match utf8_to_string(name.as_slice()) {
            Some(s) => s,
            None => {
                proof {
                    assert(name@ == entry_name(d, o, k as int));
                    assert(!valid_utf8(entry_name(d, o, k as int)));
                    assert(!names_utf8(d, o));
                }
                return Err(PathsError::InvalidName);
            },
        };
        let key = lazy_key_exec(&name, sub);
        proof {
            assert(name@ == entry_name(d, o, k as int));
            assert(sub as int == entry_offset(d, o, k as int));
        }
        items.push((key, LazyBranch { name: s, offset: sub, branches: None }));
        p = q + 4;
        k = k + 1;
    }
    let sorted = stable_sort_pairs(items);
    let ghost keyf = |x: (Vec<u64>, LazyBranch)| pair_key(x);
    proof {
        assert(items@.map_values(keyf) =~= entry_keys(d, o));
    }
    let mut res: Vec<LazyBranch> = Vec::new();
    let mut sorted = sorted;
    let ghost sv = sorted@;
    let n = sorted.len();
    let mut i: usize = 0;
    while i < n
        invariant
            n == sv.len(),
            i <= n,
            sorted@ == sv.skip(i as int),
            res@.len() == i,
            forall|j: int| 0 <= j < i ==> #[trigger] res@[j] == sv[j].1,
        decreases n - i,
    {
        let (_, b) = sorted.remove(0);
        res.push(b);
        proof {
            assert(sorted@ =~= sv.skip(i + 1));
        }
        i = i + 1;
    }
    proof {
        let p = choose|p: Seq<int>|
            {
                &&& #[trigger] is_stable_sort_perm(items@.map_values(keyf), p)
                &&& sv.len() == items@.len()
                &&& forall|i: int| 0 <= i < sv.len() ==> sv[i] == items@[p[i]]
            };
        assert(is_stable_sort_perm(entry_keys(d, o), p));
        assert forall|i: int| 0 <= i < res@.len() implies {
            &&& (#[trigger] res@[i]).name@ == decode_utf8(entry_name(d, o, p[i]))
            &&& res@[i].offset as int == entry_offset(d, o, p[i])
            &&& res@[i].branches is None
        } by {
            assert(res@[i] == items@[p[i]].1);
        }
        assert(loaded_as(d, o, res@));
    }
    Ok(res)
}


// ---------------------------------------------------------------------------
// What the stored form reads back as

/// Every branch has fewer than 65536 entries and every name fewer than 256
/// bytes, so that counts and name lengths fit their fields.
pub open spec fn well_sized(b: Seq<NodeModel>) -> bool
    decreases b,
{
    &&& b.len() < 65536
    &&& forall|k: int|
        0 <= k < b.len() ==> (#[trigger] b[k]).name.len() < 256 && well_sized(b[k].children)
}

/// The list at `off` holds exactly the entries of `b`, in order, and the
/// branch of each entry with children holds that entry's children.
pub open spec fn decodes_as(d: Seq<u8>, off: int, b: Seq<NodeModel>) -> bool
    decreases b,
{
    &&& branch_fits(d, off)
    &&& entry_count(d, off) == b.len()
    &&& forall|k: int|
        0 <= k < b.len() ==> {
            &&& entry_name(d, off, k) == (#[trigger] b[k]).name
            &&& (entry_offset(d, off, k) == 0 <==> b[k].children.len() == 0)
            &&& (b[k].children.len() > 0 ==> decodes_as(d, entry_offset(d, off, k), b[k].children))
        }
}

/// `s` is found in `d` at `base`.
pub open spec fn placed(d: Seq<u8>, base: int, s: Seq<u8>) -> bool {
    &&& 0 <= base
    &&& base + s.len() <= d.len()
    &&& forall|i: int| 0 <= i < s.len() ==> d[base + i] == #[trigger] s[i]
}

proof fn lemma_placed_split(d: Seq<u8>, base: int, a: Seq<u8>, b: Seq<u8>)
    requires
        placed(d, base, a + b),
    ensures
        placed(d, base, a),
        placed(d, base + a.len(), b),
{
    assert forall|i: int| 0 <= i < a.len() implies d[base + i] == #[trigger] a[i] by {
        assert((a + b)[i] == a[i]);
    }
    assert forall|i: int| 0 <= i < b.len() implies d[base + a.len() + i] == #[trigger] b[i] by {
        assert((a + b)[a.len() + i] == b[i]);
    }
}

proof fn lemma_entry_bytes(b: Seq<NodeModel>, n: int, f: spec_fn(int) -> int, k: int)
    requires
        0 <= k < n <= b.len(),
    ensures
        ({
            let e = entries_with(b, n, f);
            let q = entries_len(b, k);
            let len = b[k].name.len() as int;
            &&& 0 <= q
            &&& q + 5 + len <= e.len()
            &&& e[q] == (len % 256) as u8
            &&& forall|i: int| 0 <= i < len ==> e[q + 1 + i] == #[trigger] b[k].name[i]
            &&& forall|i: int| 0 <= i < 4 ==> e[q + 1 + len + i] == #[trigger] u32le(f(k))[i]
        }),
    decreases n,
{
    lemma_entries_with_len(b, n, f);
    lemma_entries_with_len(b, n - 1, f);
    lemma_entries_len_mono(b, 0, k);
    lemma_entries_len_mono(b, k + 1, n);
    if k < n - 1 {
        lemma_entry_bytes(b, n - 1, f, k);
    }
}

proof fn lemma_header_decodes(d: Seq<u8>, base: int, b: Seq<NodeModel>, f: spec_fn(int) -> int)
    requires
        placed(d, base, u16le(b.len() as int) + entries_with(b, b.len() as int, f)),
        b.len() < 65536,
        forall|k: int| 0 <= k < b.len() ==> (#[trigger] b[k]).name.len() < 256,
        forall|k: int| 0 <= k < b.len() ==> 0 <= #[trigger] f(k) < 0x1_0000_0000,
    ensures
        branch_fits(d, base),
        entry_count(d, base) == b.len(),
        forall|k: int|
            0 <= k < b.len() ==> {
                &&& #[trigger] entry_name(d, base, k) == b[k].name
                &&& entry_offset(d, base, k) == f(k)
            },
{
    let n = b.len() as int;
    let e = entries_with(b, n, f);
    lemma_placed_split(d, base, u16le(n), e);
    lemma_u16_roundtrip(n);
    assert(d[base] == u16le(n)[0]);
    assert(d[base + 1] == u16le(n)[1]);
    assert(entry_count(d, base) == n);
    assert forall|k: int| 0 <= k <= n implies #[trigger] entry_at(d, base, k) == base + 2 + entries_len(b, k) by {
        lemma_entry_at(d, base, b, f, k);
    }
    assert forall|k: int| 0 <= k < n implies {
        &&& #[trigger] entry_name(d, base, k) == b[k].name
        &&& entry_offset(d, base, k) == f(k)
        &&& entry_at(d, base, k) + 5 + d[entry_at(d, base, k)] as int <= d.len()
    } by {
        lemma_entry_bytes(b, n, f, k);
        let q = entries_len(b, k);
        let p = entry_at(d, base, k);
        let len = b[k].name.len() as int;
        assert(p == base + 2 + q);
        assert(d[p] == e[q]);
        assert(d[p] as int == len);
        assert forall|i: int| 0 <= i < len implies #[trigger] entry_name(d, base, k)[i] == b[k].name[i] by {
            assert(d[p + 1 + i] == e[q + 1 + i]);
        }
        assert(entry_name(d, base, k) =~= b[k].name);
        let w = u32le(f(k));
        assert forall|i: int| 0 <= i < 4 implies d[p + 1 + len + i] == #[trigger] w[i] by {
            assert(d[p + 1 + len + i] == e[q + 1 + len + i]);
        }
        lemma_u32_roundtrip(f(k));
        assert(d[p + 1 + len] == w[0]);
        assert(d[p + 1 + len + 1] == w[1]);
        assert(d[p + 1 + len + 2] == w[2]);
        assert(d[p + 1 + len + 3] == w[3]);
        assert(entry_offset(d, base, k) == rd_u32(w, 0));
    }
    assert forall|k: int| 0 <= k < rd_u16(d, base) implies #[trigger] entry_at(d, base, k) + 5
        + d[entry_at(d, base, k)] as int <= d.len() by {
        assert(entry_name(d, base, k) == b[k].name);
    }
    assert(u16le(n).len() == 2);
}

proof fn lemma_entry_at(d: Seq<u8>, base: int, b: Seq<NodeModel>, f: spec_fn(int) -> int, k: int)
    requires
        placed(d, base, u16le(b.len() as int) + entries_with(b, b.len() as int, f)),
        forall|j: int| 0 <= j < b.len() ==> (#[trigger] b[j]).name.len() < 256,
        0 <= k <= b.len(),
    ensures
        entry_at(d, base, k) == base + 2 + entries_len(b, k),
    decreases k,
{
    if k > 0 {
        lemma_entry_at(d, base, b, f, k - 1);
        let n = b.len() as int;
        let e = entries_with(b, n, f);
        lemma_placed_split(d, base, u16le(n), e);
        lemma_entry_bytes(b, n, f, k - 1);
        let q = entries_len(b, k - 1);
        assert(d[base + 2 + q] == e[q]);
    }
}

proof fn lemma_subs_placed(d: Seq<u8>, b: Seq<NodeModel>, n: int, pos: int, k: int)
    requires
        placed(d, pos, subs_bytes(b, n, pos)),
        0 <= k < n <= b.len(),
        b[k].children.len() > 0,
    ensures
        placed(d, pos + subs_size(b, k), enc(b[k].children, pos + subs_size(b, k))),
        subs_size(b, k) + enc_size(b[k].children) <= subs_size(b, n),
    decreases n,
{
    let last = if b[n - 1].children.len() > 0 {
        enc(b[n - 1].children, pos + subs_size(b, n - 1))
    } else {
        Seq::empty()
    };
    assert(subs_bytes(b, n, pos) == subs_bytes(b, n - 1, pos) + last);
    lemma_placed_split(d, pos, subs_bytes(b, n - 1, pos), last);
    lemma_subs_bytes_len(b, n - 1, pos);
    lemma_subs_bytes_len(b, n, pos);
    if k == n - 1 {
        lemma_enc_len(b[k].children, pos + subs_size(b, k));
    } else {
        lemma_subs_placed(d, b, n - 1, pos, k);
        if b[n - 1].children.len() > 0 {
            lemma_enc_len(b[n - 1].children, pos + subs_size(b, n - 1));
        }
    }
}

/// The stored form of a branch reads back as that branch: counts, names,
/// which entries have children, and (recursively) the children themselves.
pub proof fn lemma_enc_decodes(d: Seq<u8>, base: int, b: Seq<NodeModel>)
    requires
        placed(d, base, enc(b, base)),
        well_sized(b),
        base + enc_size(b) <= 0x1_0000_0000,
    ensures
        decodes_as(d, base, b),
    decreases b,
{
    let n = b.len() as int;
    let f = offs_of(b, base);
    let hdr = u16le(n) + entries_with(b, n, f);
    let subs = subs_bytes(b, n, base + list_len(b));
    assert(enc(b, base) == hdr + subs);
    lemma_placed_split(d, base, hdr, subs);
    lemma_entries_with_len(b, n, f);
    lemma_enc_len(b, base);
    lemma_subs_bytes_len(b, n, base + list_len(b));
    assert forall|k: int| 0 <= k < n implies 0 <= #[trigger] f(k) < 0x1_0000_0000 && (f(k) == 0
        <==> b[k].children.len() == 0) by {
        if b[k].children.len() > 0 {
            lemma_subs_placed(d, b, n, base + list_len(b), k);
            lemma_subs_bytes_len(b, k, base + list_len(b));
            lemma_enc_len(b[k].children, 0);
        }
    }
    assert forall|k: int| 0 <= k < n implies (#[trigger] b[k]).name.len() < 256 by {}
    lemma_header_decodes(d, base, b, f);
    assert forall|k: int| 0 <= k < n implies {
        &&& entry_name(d, base, k) == (#[trigger] b[k]).name
        &&& (entry_offset(d, base, k) == 0 <==> b[k].children.len() == 0)
        &&& (b[k].children.len() > 0 ==> decodes_as(d, entry_offset(d, base, k), b[k].children))
    } by {
        if b[k].children.len() > 0 {
            let o = base + list_len(b) + subs_size(b, k);
            lemma_subs_placed(d, b, n, base + list_len(b), k);
            lemma_subs_bytes_len(b, k, base + list_len(b));
            lemma_enc_decodes(d, o, b[k].children);
        }
    }
}

/// The bytes that `update_paths` stores for a tree read back as that tree.
pub proof fn lemma_paths_roundtrip(b: Seq<NodeModel>)
    requires
        well_sized(b),
        enc_size(b) <= 0x1_0000_0000,
    ensures
        decodes_as(enc(b, 0), 0, b),
{
    lemma_enc_len(b, 0);
    lemma_enc_decodes(enc(b, 0), 0, b);
}


// ---------------------------------------------------------------------------
// Membership

/// The path `segs` leads from branch `b` to an existing entry.
pub open spec fn has_path(b: Seq<NodeModel>, segs: Seq<Seq<u8>>) -> bool
    decreases segs.len(),
{
    segs.len() == 0 || exists|k: int|
        0 <= k < b.len() && (#[trigger] b[k]).name == segs[0] && has_path(
            b[k].children,
            segs.drop_first(),
        )
}

/// Inserting a path makes it present and keeps every path already present.
pub proof fn lemma_insert_segs_has_path(b: Seq<NodeModel>, segs: Seq<Seq<u8>>, other: Seq<Seq<u8>>)
    ensures
        has_path(insert_segs(b, segs), segs),
        has_path(b, other) ==> has_path(insert_segs(b, segs), other),
    decreases segs.len(), other.len(),
{
    if segs.len() > 0 {
        lemma_find_child_props(b, segs[0], 0);
        let i = find_child(b, segs[0], 0);
        let nb = insert_segs(b, segs);
        if i >= 0 {
            lemma_insert_segs_has_path(b[i].children, segs.drop_first(), segs.drop_first());
            assert(nb[i].name == segs[0]);
        } else {
            lemma_insert_segs_has_path(Seq::empty(), segs.drop_first(), segs.drop_first());
            assert(nb[b.len() as int].name == segs[0]);
        }
        if has_path(b, other) && other.len() > 0 {
            let k = choose|k: int|
                0 <= k < b.len() && (#[trigger] b[k]).name == other[0] && has_path(
                    b[k].children,
                    other.drop_first(),
                );
            if i >= 0 && k == i {
                lemma_insert_segs_has_path(b[i].children, segs.drop_first(), other.drop_first());
                assert(nb[k].name == other[0]);
            } else {
                assert(nb[k] == b[k]);
            }
        }
    }
}

/// Every path of the list is in the tree built from it.
pub proof fn lemma_build_tree_has_lines(lines: Seq<Seq<u8>>, j: int)
    requires
        0 <= j < lines.len(),
    ensures
        has_path(build_tree(lines), split_on(lines[j], 0x2Fu8)),
    decreases lines.len(),
{
    let last = split_on(lines.last(), 0x2Fu8);
    if j == lines.len() - 1 {
        lemma_insert_segs_has_path(build_tree(lines.drop_last()), last, last);
    } else {
        lemma_build_tree_has_lines(lines.drop_last(), j);
        lemma_insert_segs_has_path(build_tree(lines.drop_last()), last, split_on(lines[j], 0x2Fu8));
    }
}

// ---------------------------------------------------------------------------
// The stored path list

/// What `flate2`'s gzip decoder yields for `data` (`None` when it fails).
pub uninterp spec fn gunzip_result(data: Seq<u8>) -> Option<Seq<u8>>;

/// `flate2::read::GzDecoder` read to the end: the decompressed bytes of the
/// first gzip member of `data`, or `None` on a decoding error.  Nothing is
/// stated of the decompression itself beyond it being a function of `data`.
#[verifier::external_body]
fn gunzip(data: &[u8]) -> (res: Option<Vec<u8>>)
    ensures
        res is Some <==> gunzip_result(data@) is Some,
        res matches Some(v) ==> gunzip_result(data@) == Some(v@),
{
    let mut decoder = flate2::read::GzDecoder::new(data);
    let mut out = Vec::new();
    match decoder.read_to_end(&mut out) {
        Ok(_) => Some(out),
        Err(_) => None,
    }
}

/// Why the downloaded path list could not be turned into the stored form.
#[derive(Debug)]
pub enum PathListError {
    /// The download is not gzip data.
    Decompress,
    /// The list is not UTF-8 text.
    NotText,
}

/// The stored path tree made from the gzip-compressed path list (the work
/// `update_paths` does between downloading the list and writing the file).
pub fn paths_file_from_gz(gz: &[u8]) -> (res: Result<Vec<u8>, PathListError>)
    ensures
        match res {
            Ok(out) => gunzip_result(gz@) is Some && valid_utf8(gunzip_result(gz@)->0) && out@ == enc(
                path_list_tree(gunzip_result(gz@)->0),
                0,
            ),
            Err(PathListError::Decompress) => gunzip_result(gz@) is None,
            Err(PathListError::NotText) => gunzip_result(gz@) is Some && !valid_utf8(
                gunzip_result(gz@)->0,
            ),
        },
{
    let text = match gunzip(gz) {
        Some(t) => t,
        None => return Err(PathListError::Decompress),
    };
    if utf8_to_string(text.as_slice()).is_none() {
        return Err(PathListError::NotText);
    }
    let tree = build_path_tree(text.as_slice());
    let mut out: Vec<u8> = Vec::new();
    write_branch(&tree, &mut out);
    assert(out@ =~= enc(path_list_tree(text@), 0));
    Ok(out)
}

/// The game paths, loaded one level at a time from the stored path tree.
pub struct LazyTree {
    pub data: Vec<u8>,
    pub branches: Vec<LazyBranch>,
}

impl LazyTree {
    pub fn new() -> (res: Self)
        ensures
            res.data@.len() == 0,
            res.branches@.len() == 0,
    {
        LazyTree { data: Vec::new(), branches: Vec::new() }
    }

    /// Takes the stored path tree and reads its top level.  On an error the
    /// tree is left as it was.
    pub fn load(&mut self, data: Vec<u8>) -> (res: Result<(), PathsError>)
        requires
            branch_fits(data@, 0),
        ensures
            match res {
                Ok(()) => final(self).data@ == data@ && names_utf8(data@, 0) && loaded_as(
                    data@,
                    0,
                    final(self).branches@,
                ),
                Err(_) => !names_utf8(data@, 0) && *final(self) == *old(self),
            },
    {
        let branches = load_branch(data.as_slice(), 0)?;
        self.branches = branches;
        self.data = data;
        Ok(())
    }
}

} // verus!
