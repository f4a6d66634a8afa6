//! Naming helpers of the UI layout viewer: the short name of a texture path,
//! the longest common piece of several names, and the names of the textures
//! that parts use.
use vstd::prelude::*;
use crate::text::{str_chars, string_from_chars, last_piece, chars_last_piece, before_first, chars_before_first, decimal, decimal_chars};

verus! {

/// A texture of a layout: its id and the path of its file.
pub struct UldTexture {
    pub id: u32,
    pub path: String,
}

/// A part of a layout: the rectangle (`u`, `v`, `w`, `h`) cut from the
/// texture with id `texture_id`.
pub struct UldPart {
    pub texture_id: u32,
    pub u: u16,
    pub v: u16,
    pub w: u16,
    pub h: u16,
}

/// A list of parts.
pub struct UldPartsList {
    pub id: u32,
    pub parts: Vec<UldPart>,
}

/// The file name of a path without any extension: the last `/` piece up to its
/// first dot.
pub open spec fn path_name_of(path: Seq<char>) -> Seq<char> {
    before_first(last_piece(path, '/'), '.')
}

pub fn path_name(path: &str) -> (r: String)
    ensures
        r@ == path_name_of(path@),
{
    let cs = str_chars(path);
    let last = chars_last_piece(&cs, '/');
    let stem = chars_before_first(&last, '.');
    string_from_chars(stem.as_slice())
}

/// The length of the common start of `a` from `i` and `b` from `j`.
pub open spec fn common_len(a: Seq<char>, b: Seq<char>, i: int, j: int) -> nat
    decreases a.len() - i,
{
    if 0 <= i < a.len() && 0 <= j < b.len() && a[i] == b[j] {
        1 + common_len(a, b, i + 1, j + 1)
    } else {
        0
    }
}

/// `r` starts at `i0` in `a`, is as long as any piece `a` and `b` share, is
/// shared, and no piece as long starts earlier.
pub open spec fn best_at(a: Seq<char>, b: Seq<char>, r: Seq<char>, i0: int) -> bool {
    &&& 0 <= i0 <= a.len()
    &&& i0 + r.len() <= a.len()
    &&& r == a.subrange(i0, i0 + r.len())
    &&& r.len() > 0 ==> exists|j0: int| 0 <= j0 < b.len() && #[trigger] common_len(a, b, i0, j0) == r.len()
    &&& forall|i: int, j: int| 0 <= i < a.len() && 0 <= j < b.len() ==> #[trigger] common_len(a, b, i, j) <= r.len()
    &&& forall|i: int, j: int| 0 <= i < i0 && 0 <= j < b.len() ==> #[trigger] common_len(a, b, i, j) < r.len()
}

/// `r` is the longest piece that `a` and `b` share, the one that starts
/// first in `a` where several are as long (empty when they share nothing).
pub open spec fn is_first_longest(a: Seq<char>, b: Seq<char>, r: Seq<char>) -> bool {
    exists|i0: int| #[trigger] best_at(a, b, r, i0)
}

/// The longest common piece of `a` and `b`.
pub open spec fn lcs_of(a: Seq<char>, b: Seq<char>) -> Seq<char> {
    choose|r: Seq<char>| is_first_longest(a, b, r)
}

/// Only one piece is the first longest.
pub proof fn lemma_first_longest_unique(a: Seq<char>, b: Seq<char>, r1: Seq<char>, r2: Seq<char>)
    requires
        is_first_longest(a, b, r1),
        is_first_longest(a, b, r2),
    ensures
        r1 == r2,
{
    let i1 = choose|i0: int| #[trigger] best_at(a, b, r1, i0);
    let i2 = choose|i0: int| #[trigger] best_at(a, b, r2, i0);
    if r1.len() > 0 {
        let j1 = choose|j0: int| 0 <= j0 < b.len() && #[trigger] common_len(a, b, i1, j0) == r1.len();
        assert(common_len(a, b, i1, j1) <= r2.len());
    }
    if r2.len() > 0 {
        let j2 = choose|j0: int| 0 <= j0 < b.len() && #[trigger] common_len(a, b, i2, j0) == r2.len();
        assert(common_len(a, b, i2, j2) <= r1.len());
    }
    assert(r1.len() == r2.len());
    if r1.len() == 0 {
        assert(r1 =~= r2);
    } else {
        let j1 = choose|j0: int| 0 <= j0 < b.len() && #[trigger] common_len(a, b, i1, j0) == r1.len();
        let j2 = choose|j0: int| 0 <= j0 < b.len() && #[trigger] common_len(a, b, i2, j0) == r2.len();
        if i1 < i2 {
            assert(common_len(a, b, i1, j1) < r2.len());
        }
        if i2 < i1 {
            assert(common_len(a, b, i2, j2) < r1.len());
        }
        assert(i1 == i2);
    }
}

/// A common start can be no longer than what is left of either side.
proof fn lemma_common_len_bound(a: Seq<char>, b: Seq<char>, i: int, j: int)
    requires
        0 <= i,
        0 <= j,
    ensures
        i + common_len(a, b, i, j) <= a.len() || common_len(a, b, i, j) == 0,
        j + common_len(a, b, i, j) <= b.len() || common_len(a, b, i, j) == 0,
        common_len(a, b, i, j) > 0 ==> i + common_len(a, b, i, j) <= a.len() && j + common_len(a, b, i, j) <= b.len(),
    decreases a.len() - i,
{
    if 0 <= i < a.len() && 0 <= j < b.len() && a[i] == b[j] {
        lemma_common_len_bound(a, b, i + 1, j + 1);
    }
}

fn common_len_exec(a: &Vec<char>, b: &Vec<char>, i: usize, j: usize) -> (k: usize)
    requires
        i <= a@.len(),
        j <= b@.len(),
    ensures
        k == common_len(a@, b@, i as int, j as int),
        i + k <= a@.len(),
        j + k <= b@.len(),
{
    let an = a.len();
    let bn = b.len();
    let mut k: usize = 0;
    while i + k < an && j + k < bn && a[i + k] == b[j + k]
        invariant
            an == a@.len(),
            bn == b@.len(),
            i + k <= a@.len(),
            j + k <= b@.len(),
            common_len(a@, b@, i as int, j as int) == k + common_len(a@, b@, i + k, j + k),
        decreases a@.len() - i - k,
    {
        k = k + 1;
    }
    k
}

/// The longest piece that `a` and `b` share, the first in `a` of those that
/// are as long (the strings are ASCII, so characters and bytes agree).
pub fn longest_common_substring(a: &str, b: &str) -> (r: String)
    requires
        a.is_ascii(),
        b.is_ascii(),
    ensures
        is_first_longest(a@, b@, r@),
        r@ == lcs_of(a@, b@),
{
    let ac = str_chars(a);
    let bc = str_chars(b);
    let n = ac.len();
    let m = bc.len();
    let mut best_i: usize = 0;
    let mut best_len: usize = 0;
    let mut i: usize = 0;
    while i < n
        invariant
            n == ac@.len(),
            m == bc@.len(),
            ac@ == a@,
            bc@ == b@,
            i <= n,
            best_i <= n,
            best_i + best_len <= n,
            best_len > 0 ==> best_i < i && exists|j0: int| 0 <= j0 < m && #[trigger] common_len(a@, b@, best_i as int, j0) == best_len,
            forall|x: int, y: int| 0 <= x < i && 0 <= y < m ==> #[trigger] common_len(a@, b@, x, y) <= best_len,
            forall|x: int, y: int| 0 <= x < best_i && 0 <= y < m ==> #[trigger] common_len(a@, b@, x, y) < best_len,
            best_len == 0 ==> best_i == 0,
        decreases n - i,
    {
        let mut j: usize = 0;
        while j < m
            invariant
                n == ac@.len(),
                m == bc@.len(),
                ac@ == a@,
                bc@ == b@,
                i < n,
                j <= m,
                best_i <= n,
                best_i + best_len <= n,
                best_len > 0 ==> best_i <= i && exists|j0: int| 0 <= j0 < m && #[trigger] common_len(a@, b@, best_i as int, j0) == best_len,
                forall|x: int, y: int| 0 <= x < i && 0 <= y < m ==> #[trigger] common_len(a@, b@, x, y) <= best_len,
                forall|y: int| 0 <= y < j ==> #[trigger] common_len(a@, b@, i as int, y) <= best_len,
                forall|x: int, y: int| 0 <= x < best_i && 0 <= y < m ==> #[trigger] common_len(a@, b@, x, y) < best_len,
                best_len == 0 ==> best_i == 0,
            decreases m - j,
        {
            let k = common_len_exec(&ac, &bc, i, j);
            if k > best_len {
                proof {
                    assert forall|x: int, y: int| 0 <= x < i && 0 <= y < m implies #[trigger] common_len(a@, b@, x, y) < k by {
                        assert(common_len(a@, b@, x, y) <= best_len);
                    }
                    assert(common_len(a@, b@, i as int, j as int) == k);
                }
                best_i = i;
                best_len = k;
            }
            j = j + 1;
        }
        i = i + 1;
    }
    let mut out: Vec<char> = Vec::new();
    let mut k: usize = 0;
    while k < best_len
        invariant
            ac@ == a@,
            n == ac@.len(),
            best_i + best_len <= ac@.len(),
            k <= best_len,
            out@ == a@.subrange(best_i as int, best_i + k),
        decreases best_len - k,
    {
        out.push(ac[best_i + k]);
        proof {
            assert(a@.subrange(best_i as int, best_i + k + 1) =~= a@.subrange(best_i as int, best_i + k).push(a@[best_i + k]));
        }
        k = k + 1;
    }
    let r = string_from_chars(out.as_slice());
    proof {
        assert(best_at(a@, b@, r@, best_i as int));
        assert(is_first_longest(a@, b@, r@));
        lemma_first_longest_unique(a@, b@, r@, lcs_of(a@, b@));
    }
    r
}

pub open spec fn is_alnum(c: char) -> bool {
    ('0' <= c && c <= '9') || ('A' <= c && c <= 'Z') || ('a' <= c && c <= 'z')
}

/// `s` without its leading characters that are not letters or digits.
pub open spec fn trim_front(s: Seq<char>) -> Seq<char>
    decreases s.len(),
{
    if s.len() > 0 && !is_alnum(s[0]) {
        trim_front(s.drop_first())
    } else {
        s
    }
}

/// `s` without its trailing characters that are not letters or digits.
pub open spec fn trim_back(s: Seq<char>) -> Seq<char>
    decreases s.len(),
{
    if s.len() > 0 && !is_alnum(s.last()) {
        trim_back(s.drop_last())
    } else {
        s
    }
}

pub open spec fn trimmed(s: Seq<char>) -> Seq<char> {
    trim_back(trim_front(s))
}

/// The shortest piece worth keeping as a common name.
pub const MINLEN: usize = 5;

/// The common piece of the first `n` names: each next name narrows it to
/// what they share, when that is at least `MINLEN` long.
pub open spec fn common_of(names: Seq<Seq<char>>, n: int) -> Seq<char>
    decreases n,
{
    if n <= 1 {
        names[0]
    } else {
        let prev = common_of(names, n - 1);
        let sub = lcs_of(prev, names[n - 1]);
        if sub.len() >= MINLEN {
            sub
        } else {
            prev
        }
    }
}

pub open spec fn names_view(v: Seq<String>) -> Seq<Seq<char>> {
    v.map_values(|s: String| s@)
}

pub open spec fn common_name_of(names: Seq<Seq<char>>) -> Seq<char> {
    if names.len() == 0 {
        Seq::empty()
    } else {
        trimmed(common_of(names, names.len() as int))
    }
}

fn trim_exec(s: &Vec<char>) -> (r: Vec<char>)
    ensures
        r@ == trimmed(s@),
{
    let n = s.len();
    let mut a: usize = 0;
    assert(s@.skip(0) =~= s@);
    while a < n && !(('0' <= s[a] && s[a] <= '9') || ('A' <= s[a] && s[a] <= 'Z') || ('a' <= s[a] && s[a] <= 'z'))
        invariant
            n == s@.len(),
            a <= n,
            trim_front(s@) == trim_front(s@.skip(a as int)),
        decreases n - a,
    {
        assert(s@.skip(a as int).drop_first() =~= s@.skip(a + 1));
        a = a + 1;
    }
    let ghost f = s@.skip(a as int);
    assert(trim_front(s@) == f);
    let mut b: usize = n;
    assert(f.take(f.len() as int) =~= f);
    while b > a && !(('0' <= s[b - 1] && s[b - 1] <= '9') || ('A' <= s[b - 1] && s[b - 1] <= 'Z') || ('a' <= s[b - 1] && s[b - 1] <= 'z'))
        invariant
            n == s@.len(),
            a <= b <= n,
            f == s@.skip(a as int),
            trim_back(f) == trim_back(f.take(b - a)),
        decreases b,
    {
        assert(f.take(b - a).drop_last() =~= f.take(b - 1 - a));
        assert(f.take(b - a).last() == s@[b - 1]);
        b = b - 1;
    }
    let mut r: Vec<char> = Vec::new();
    let mut k = a;
    while k < b
        invariant
            a <= k <= b <= n,
            n == s@.len(),
            r@ == s@.subrange(a as int, k as int),
        decreases b - k,
    {
        r.push(s[k]);
        proof {
            assert(s@.subrange(a as int, k + 1) =~= s@.subrange(a as int, k as int).push(s@[k as int]));
        }
        k = k + 1;
    }
    proof {
        assert(r@ =~= f.take(b - a));
        if b > a {
            assert(f.take(b - a).last() == s@[b - 1]);
        }
        assert(trim_back(f.take(b - a)) == f.take(b - a));
    }
    r
}

/// A piece of an ASCII string is ASCII.
proof fn lemma_sub_ascii(a: Seq<char>, r: Seq<char>, b: Seq<char>)
    requires
        vstd::utf8::is_ascii_chars(a),
        is_first_longest(a, b, r),
    ensures
        vstd::utf8::is_ascii_chars(r),
{
    let i0 = choose|i0: int| #[trigger] best_at(a, b, r, i0);
    assert forall|i: int| 0 <= i < r.len() implies '\0' <= #[trigger] r[i] <= '\u{7f}' by {
        assert(r[i] == a[i0 + i]);
    }
}

/// The name the names share most (`longest_common_substring_all`): the first
/// name narrowed by each next one, then trimmed to letters and digits.
pub fn longest_common_substring_all(names: &Vec<String>) -> (r: String)
    requires
        forall|i: int| 0 <= i < names@.len() ==> (#[trigger] names@[i]).is_ascii(),
    ensures
        r@ == common_name_of(names_view(names@)),
{
    if names.len() == 0 {
        return String::new();
    }
    let ghost nv = names_view(names@);
    let mut max = names[0].clone();
    let mut i: usize = 1;
    while i < names.len()
        invariant
            nv == names_view(names@),
            1 <= i <= names@.len(),
            forall|k: int| 0 <= k < names@.len() ==> (#[trigger] names@[k]).is_ascii(),
            max@ == common_of(nv, i as int),
            vstd::utf8::is_ascii_chars(max@),
        decreases names@.len() - i,
    {
        proof {
            assert(nv[i as int] == names@[i as int]@);
            assert(names@[i as int].is_ascii());
        }
        let sub = longest_common_substring(max.as_str(), names[i].as_str());
        proof {
            lemma_sub_ascii(max@, sub@, names@[i as int]@);
        }
        let sub_len = str_chars(sub.as_str()).len();
        assert(sub_len == sub@.len());
        assert(sub@ == lcs_of(common_of(nv, i as int), nv[i as int]));
        assert(common_of(nv, i + 1) == (if sub@.len() >= MINLEN { sub@ } else { common_of(nv, i as int) }));
        if sub_len >= MINLEN {
            max = sub;
        }
        i = i + 1;
    }
    let cs = str_chars(max.as_str());
    let t = trim_exec(&cs);
    string_from_chars(t.as_slice())
}

/// The short name of the first texture with id `id`, or `Invalid` where
/// there is none.
pub open spec fn texture_name_of(assets: Seq<UldTexture>, id: u32) -> Seq<char> {
    if exists|i: int| 0 <= i < assets.len() && (#[trigger] assets[i]).id == id {
        path_name_of(assets[first_with_id(assets, id)].path@)
    } else {
        "Invalid"@
    }
}

/// The position of the first texture with id `id`.
pub open spec fn first_with_id(assets: Seq<UldTexture>, id: u32) -> int
    decreases assets.len(),
{
    if assets.len() == 0 {
        0
    } else if assets[0].id == id {
        0
    } else {
        1 + first_with_id(assets.drop_first(), id)
    }
}

proof fn lemma_first_with_id(assets: Seq<UldTexture>, id: u32)
    requires
        exists|i: int| 0 <= i < assets.len() && (#[trigger] assets[i]).id == id,
    ensures
        0 <= first_with_id(assets, id) < assets.len(),
        assets[first_with_id(assets, id)].id == id,
        forall|i: int| 0 <= i < first_with_id(assets, id) ==> (#[trigger] assets[i]).id != id,
    decreases assets.len(),
{
    if assets[0].id != id {
        let i = choose|i: int| 0 <= i < assets.len() && (#[trigger] assets[i]).id == id;
        assert(assets.drop_first()[i - 1].id == id);
        lemma_first_with_id(assets.drop_first(), id);
        assert forall|k: int| 0 <= k < first_with_id(assets, id) implies (#[trigger] assets[k]).id != id by {
            if k > 0 {
                assert(assets[k] == assets.drop_first()[k - 1]);
            }
        }
    }
}

/// The name of the texture a part is cut from.
pub fn name_from_part(part: &UldPart, assets: &Vec<UldTexture>) -> (r: String)
    ensures
        r@ == texture_name_of(assets@, part.texture_id),
{
    let mut i: usize = 0;
    while i < assets.len()
        invariant
            i <= assets@.len(),
            forall|k: int| 0 <= k < i ==> (#[trigger] assets@[k]).id != part.texture_id,
        decreases assets@.len() - i,
    {
        if assets[i].id == part.texture_id {
            proof {
                lemma_first_with_id(assets@, part.texture_id);
                let f = first_with_id(assets@, part.texture_id);
                if f < i {
                    assert(assets@[f].id != part.texture_id);
                }
                if f > i {
                    assert(assets@[i as int].id != part.texture_id);
                }
            }
            return path_name(assets[i].path.as_str());
        }
        i = i + 1;
    }
    "Invalid".to_string()
}

/// The names of the textures of each part of a list.
pub fn names_from_parts_list(parts: &UldPartsList, assets: &Vec<UldTexture>) -> (r: Vec<String>)
    ensures
        r@.len() == parts.parts@.len(),
        forall|i: int| 0 <= i < r@.len() ==> (#[trigger] r@[i])@ == texture_name_of(assets@, parts.parts@[i].texture_id),
{
    let mut r: Vec<String> = Vec::new();
    let mut i: usize = 0;
    while i < parts.parts.len()
        invariant
            i <= parts.parts@.len(),
            r@.len() == i,
            forall|k: int| 0 <= k < i ==> (#[trigger] r@[k])@ == texture_name_of(assets@, parts.parts@[k].texture_id),
        decreases parts.parts@.len() - i,
    {
        r.push(name_from_part(&parts.parts[i], assets));
        i = i + 1;
    }
    r
}

/// The id for a new entry: one above the largest id in use, or above
/// `default` when none is.
pub fn next_id(ids: &Vec<u32>, default: u32) -> (r: u32)
    requires
        forall|i: int| 0 <= i < ids@.len() ==> #[trigger] ids@[i] < u32::MAX,
        default < u32::MAX,
    ensures
        ids@.len() == 0 ==> r == default + 1,
        ids@.len() > 0 ==> (exists|i: int| 0 <= i < ids@.len() && r == #[trigger] ids@[i] + 1),
        forall|i: int| 0 <= i < ids@.len() ==> #[trigger] ids@[i] < r,
{
    if ids.len() == 0 {
        return default + 1;
    }
    let mut m = ids[0];
    let mut i: usize = 1;
    while i < ids.len()
        invariant
            1 <= i <= ids@.len(),
            exists|k: int| 0 <= k < i && m == #[trigger] ids@[k],
            forall|k: int| 0 <= k < i ==> #[trigger] ids@[k] <= m,
            forall|k: int| 0 <= k < ids@.len() ==> #[trigger] ids@[k] < u32::MAX,
        decreases ids@.len() - i,
    {
        if ids[i] > m {
            m = ids[i];
        }
        i = i + 1;
    }
    m + 1
}

/// `(id) name`, as the editor labels entries.
pub open spec fn id_label(id: u32, name: Seq<char>) -> Seq<char> {
    seq!['('] + decimal(id as nat) + seq![')', ' '] + name
}

fn id_label_exec(id: u32, name: &str) -> (r: String)
    ensures
        r@ == id_label(id, name@),
{
    let mut cs: Vec<char> = Vec::new();
    cs.push('(');
    let ds = decimal_chars(id as u64);
    let mut i: usize = 0;
    while i < ds.len()
        invariant
            i <= ds@.len(),
            cs@ == seq!['('] + ds@.take(i as int),
        decreases ds@.len() - i,
    {
        cs.push(ds[i]);
        proof {
            assert(ds@.take(i + 1) =~= ds@.take(i as int).push(ds@[i as int]));
        }
        i = i + 1;
    }
    cs.push(')');
    cs.push(' ');
    let ns = str_chars(name);
    let ghost pre = cs@;
    let mut k: usize = 0;
    while k < ns.len()
        invariant
            k <= ns@.len(),
            cs@ == pre + ns@.take(k as int),
        decreases ns@.len() - k,
    {
        cs.push(ns[k]);
        proof {
            assert(ns@.take(k + 1) =~= ns@.take(k as int).push(ns@[k as int]));
        }
        k = k + 1;
    }
    proof {
        assert(ds@.take(ds@.len() as int) =~= ds@);
        assert(ns@.take(ns@.len() as int) =~= ns@);
        assert(cs@ =~= id_label(id, name@));
    }
    string_from_chars(cs.as_slice())
}

pub open spec fn names_of_parts(parts: Seq<UldPart>, assets: Seq<UldTexture>) -> Seq<Seq<char>> {
    parts.map_values(|p: UldPart| texture_name_of(assets, p.texture_id))
}

/// The heading of a parts list: its id and the name its textures share.
pub fn parts_list_label(list: &UldPartsList, assets: &Vec<UldTexture>) -> (r: String)
    requires
        forall|i: int| 0 <= i < assets@.len() ==> (#[trigger] assets@[i]).path.is_ascii(),
    ensures
        r@ == id_label(list.id, common_name_of(names_of_parts(list.parts@, assets@))),
{
    let names = names_from_parts_list(list, assets);
    proof {
        assert forall|i: int| 0 <= i < names@.len() implies (#[trigger] names@[i]).is_ascii() by {
            lemma_texture_name_ascii(assets@, list.parts@[i].texture_id);
        }
        assert(names_view(names@) =~= names_of_parts(list.parts@, assets@));
    }
    let common = longest_common_substring_all(&names);
    id_label_exec(list.id, common.as_str())
}

/// The name of a texture with an ASCII path is ASCII.
proof fn lemma_texture_name_ascii(assets: Seq<UldTexture>, id: u32)
    requires
        forall|i: int| 0 <= i < assets.len() ==> (#[trigger] assets[i]).path.is_ascii(),
    ensures
        vstd::utf8::is_ascii_chars(texture_name_of(assets, id)),
{
    if exists|i: int| 0 <= i < assets.len() && (#[trigger] assets[i]).id == id {
        lemma_first_with_id(assets, id);
        let p = assets[first_with_id(assets, id)].path@;
        assert(assets[first_with_id(assets, id)].path.is_ascii());
        lemma_last_piece_within(p, '/');
        lemma_before_first_within(last_piece(p, '/'), '.');
    } else {
        reveal_strlit("Invalid");
    }
}

/// The last piece of `s` is made of characters of `s`.
proof fn lemma_last_piece_within(s: Seq<char>, c: char)
    ensures
        forall|i: int| 0 <= i < last_piece(s, c).len() ==> s.contains(#[trigger] last_piece(s, c)[i]),
    decreases s.len(),
{
    if s.len() > 0 && s.last() != c {
        lemma_last_piece_within(s.drop_last(), c);
        let r = last_piece(s.drop_last(), c);
        assert forall|i: int| 0 <= i < last_piece(s, c).len() implies s.contains(#[trigger] last_piece(s, c)[i]) by {
            if i < r.len() {
                let j = choose|j: int| 0 <= j < s.drop_last().len() && s.drop_last()[j] == r[i];
                assert(s[j] == r[i]);
            } else {
                assert(s[s.len() - 1] == s.last());
            }
        }
    }
}

/// The start of `s` up to a character is made of characters of `s`.
proof fn lemma_before_first_within(s: Seq<char>, c: char)
    ensures
        forall|i: int| 0 <= i < before_first(s, c).len() ==> s.contains(#[trigger] before_first(s, c)[i]),
    decreases s.len(),
{
    if s.len() > 0 && s[0] != c {
        lemma_before_first_within(s.drop_first(), c);
        let r = before_first(s.drop_first(), c);
        assert forall|i: int| 0 <= i < before_first(s, c).len() implies s.contains(#[trigger] before_first(s, c)[i]) by {
            if i > 0 {
                let j = choose|j: int| 0 <= j < s.drop_first().len() && s.drop_first()[j] == r[i - 1];
                assert(s[j + 1] == r[i - 1]);
            } else {
                assert(s[0] == before_first(s, c)[0]);
            }
        }
    }
}

/// The label of a part: its texture's id and name.
pub fn part_label(part: &UldPart, assets: &Vec<UldTexture>) -> (r: String)
    ensures
        r@ == id_label(part.texture_id, texture_name_of(assets@, part.texture_id)),
{
    let name = name_from_part(part, assets);
    id_label_exec(part.texture_id, name.as_str())
}

/// The lists without the one with id `id` (every list with that id goes).
pub open spec fn without_id(lists: Seq<UldPartsList>, id: u32) -> Seq<UldPartsList>
    decreases lists.len(),
{
    if lists.len() == 0 {
        lists
    } else if lists.last().id == id {
        without_id(lists.drop_last(), id)
    } else {
        without_id(lists.drop_last(), id).push(lists.last())
    }
}

/// Deletes the parts lists with id `id`.
pub fn delete_parts_list(lists: &mut Vec<UldPartsList>, id: u32)
    ensures
        final(lists)@ == without_id(old(lists)@, id),
{
    let mut kept: Vec<UldPartsList> = Vec::new();
    let ghost orig = lists@;
    let n = lists.len();
    let mut i: usize = 0;
    while i < n
        invariant
            n == orig.len(),
            i <= n,
            lists@ == orig.skip(i as int),
            kept@ == without_id(orig.take(i as int), id),
        decreases n - i,
    {
        let l = lists.remove(0);
        proof {
            assert(orig.take(i + 1).drop_last() =~= orig.take(i as int));
            assert(orig.take(i + 1).last() == l);
        }
        if l.id != id {
            kept.push(l);
        }
        proof {
            assert(lists@ =~= orig.skip(i + 1));
        }
        i = i + 1;
    }
    assert(orig.take(n as int) =~= orig);
    *lists = kept;
}

/// Adds an empty parts list with an id above all others (1 when there are
/// none).
pub fn add_parts_list(lists: &mut Vec<UldPartsList>)
    requires
        forall|i: int| 0 <= i < old(lists)@.len() ==> (#[trigger] old(lists)@[i]).id < u32::MAX,
    ensures
        final(lists)@.len() == old(lists)@.len() + 1,
        final(lists)@.drop_last() == old(lists)@,
        final(lists)@.last().parts@.len() == 0,
        forall|i: int| 0 <= i < old(lists)@.len() ==> (#[trigger] old(lists)@[i]).id < final(lists)@.last().id,
        old(lists)@.len() == 0 ==> final(lists)@.last().id == 1,
        old(lists)@.len() > 0 ==> exists|i: int|
            0 <= i < old(lists)@.len() && final(lists)@.last().id == (#[trigger] old(lists)@[i]).id + 1,
{
    let mut ids: Vec<u32> = Vec::new();
    let mut i: usize = 0;
    while i < lists.len()
        invariant
            *lists == *old(lists),
            i <= lists@.len(),
            ids@.len() == i,
            forall|k: int| 0 <= k < i ==> #[trigger] ids@[k] == lists@[k].id,
        decreases lists@.len() - i,
    {
        ids.push(lists[i].id);
        i = i + 1;
    }
    let id = next_id(&ids, 0);
    proof {
        if lists@.len() > 0 {
            let k = choose|k: int| 0 <= k < ids@.len() && id == #[trigger] ids@[k] + 1;
            assert(id == lists@[k].id + 1);
        }
        assert forall|k: int| 0 <= k < lists@.len() implies (#[trigger] lists@[k]).id < id by {
            assert(ids@[k] < id);
        }
    }
    lists.push(UldPartsList { id, parts: Vec::new() });
    assert(lists@.drop_last() =~= old(lists)@);
}

} // verus!
