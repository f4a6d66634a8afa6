use vstd::prelude::*;

verus! {

/// Lexicographic order on sequences of integers; a proper prefix comes first.
/// Rust orders strings (byte- or code-point-wise), `bool`s and integers this way,
/// so every sort key of the library is written as such a sequence.
pub open spec fn lex_le(a: Seq<u64>, b: Seq<u64>) -> bool
    decreases a.len(),
{
    if a.len() == 0 {
        true
    } else if b.len() == 0 {
        false
    } else if a[0] < b[0] {
        true
    } else if a[0] > b[0] {
        false
    } else {
        lex_le(a.drop_first(), b.drop_first())
    }
}

pub open spec fn lex_lt(a: Seq<u64>, b: Seq<u64>) -> bool {
    !lex_le(b, a)
}

pub proof fn lemma_lex_total(a: Seq<u64>, b: Seq<u64>)
    ensures
        lex_le(a, b) || lex_le(b, a),
    decreases a.len(),
{
    if a.len() > 0 && b.len() > 0 && a[0] == b[0] {
        lemma_lex_total(a.drop_first(), b.drop_first());
    }
}

pub proof fn lemma_lex_refl(a: Seq<u64>)
    ensures
        lex_le(a, a),
    decreases a.len(),
{
    if a.len() > 0 {
        lemma_lex_refl(a.drop_first());
    }
}

pub proof fn lemma_lex_trans(a: Seq<u64>, b: Seq<u64>, c: Seq<u64>)
    requires
        lex_le(a, b),
        lex_le(b, c),
    ensures
        lex_le(a, c),
    decreases a.len(),
{
    if a.len() > 0 && b.len() > 0 && c.len() > 0 && a[0] == b[0] && b[0] == c[0] {
        lemma_lex_trans(a.drop_first(), b.drop_first(), c.drop_first());
    }
}

pub proof fn lemma_lex_antisym(a: Seq<u64>, b: Seq<u64>)
    requires
        lex_le(a, b),
        lex_le(b, a),
    ensures
        a == b,
    decreases a.len(),
{
    if a.len() > 0 && b.len() > 0 {
        lemma_lex_antisym(a.drop_first(), b.drop_first());
        assert(a =~= seq![a[0]] + a.drop_first());
        assert(b =~= seq![b[0]] + b.drop_first());
    } else {
        assert(a.len() == 0 && b.len() == 0);
        assert(a =~= b);
    }
}

/// `p` lists the positions of `keys` in the order a stable sort puts them:
/// a permutation along which the keys never decrease, and in which equal keys
/// keep their relative order.  Exactly one such `p` exists.
pub open spec fn is_stable_sort_perm(keys: Seq<Seq<u64>>, p: Seq<int>) -> bool {
    &&& p.len() == keys.len()
    &&& forall|i: int| 0 <= i < p.len() ==> 0 <= #[trigger] p[i] < keys.len()
    &&& forall|i: int, j: int| 0 <= i < j < p.len() ==> p[i] != p[j]
    &&& forall|i: int, j: int|
        0 <= i < j < p.len() ==> lex_le(#[trigger] keys[p[i]], #[trigger] keys[p[j]])
    &&& forall|i: int, j: int|
        0 <= i < j < p.len() && keys[p[i]] == keys[p[j]] ==> p[i] < p[j]
}

/// `output` is `input` stably sorted by `key`.
pub open spec fn is_stable_sort_by<T>(
    input: Seq<T>,
    output: Seq<T>,
    key: spec_fn(T) -> Seq<u64>,
) -> bool {
    exists|p: Seq<int>|
        {
            &&& #[trigger] is_stable_sort_perm(input.map_values(key), p)
            &&& output.len() == input.len()
            &&& forall|i: int| 0 <= i < output.len() ==> output[i] == input[p[i]]
        }
}

pub open spec fn pair_key<T>(x: (Vec<u64>, T)) -> Seq<u64> {
    x.0@
}

pub fn lex_le_exec(a: &Vec<u64>, b: &Vec<u64>) -> (r: bool)
    ensures
        r == lex_le(a@, b@),
{
    let mut i: usize = 0;
    assert(a@.skip(0) =~= a@);
    assert(b@.skip(0) =~= b@);
    while i < a.len() && i < b.len()
        invariant
            i <= a@.len(),
            i <= b@.len(),
            forall|k: int| 0 <= k < i ==> a@[k] == b@[k],
            lex_le(a@, b@) == lex_le(a@.skip(i as int), b@.skip(i as int)),
        decreases a@.len() - i,
    {
        if a[i] < b[i] {
            return true;
        }
        if a[i] > b[i] {
            return false;
        }
        assert(a@.skip(i as int).drop_first() =~= a@.skip(i + 1));
        assert(b@.skip(i as int).drop_first() =~= b@.skip(i + 1));
        i = i + 1;
    }
    i == a.len()
}

/// Sorts pairs by their first component, keeping the order of pairs
/// with equal keys.
pub fn stable_sort_pairs<T>(items: Vec<(Vec<u64>, T)>) -> (res: Vec<(Vec<u64>, T)>)
    ensures
        is_stable_sort_by(items@, res@, |x: (Vec<u64>, T)| pair_key(x)),
{
    let ghost keyf = |x: (Vec<u64>, T)| pair_key(x);
    let ghost keys = items@.map_values(keyf);
    let ghost orig = items@;
    let n = items.len();
    let mut rest = items;
    let mut sorted: Vec<(Vec<u64>, T)> = Vec::new();
    let ghost mut p: Seq<int> = Seq::empty();
    let mut i: usize = 0;
    while i < n
        invariant
            n == orig.len(),
            keys == orig.map_values(keyf),
            keyf == (|x: (Vec<u64>, T)| pair_key(x)),
            i <= n,
            rest@ == orig.skip(i as int),
            sorted@.len() == i,
            p.len() == i,
            forall|k: int| 0 <= k < i ==> 0 <= #[trigger] p[k] < i,
            forall|a: int, b: int| 0 <= a < b < i ==> p[a] != p[b],
            forall|a: int, b: int| 0 <= a < b < i ==> lex_le(#[trigger] keys[p[a]], #[trigger] keys[p[b]]),
            forall|a: int, b: int| 0 <= a < b < i && keys[p[a]] == keys[p[b]] ==> p[a] < p[b],
            forall|k: int| 0 <= k < i ==> #[trigger] sorted@[k] == orig[p[k]],
        decreases n - i,
    {
        let x = rest.remove(0);
        assert(x == orig[i as int]);
        assert(keys[i as int] == x.0@);
        let mut j: usize = 0;
        while j < sorted.len() && lex_le_exec(&sorted[j].0, &x.0)
            invariant
                j <= sorted@.len(),
                sorted@.len() == i,
                forall|k: int| 0 <= k < j ==> lex_le(#[trigger] sorted@[k].0@, x.0@),
            decreases sorted@.len() - j,
        {
            j = j + 1;
        }
        proof {
            // everything from j on is strictly greater than x
            if j < sorted@.len() {
                assert forall|k: int| j <= k < i implies !lex_le(#[trigger] keys[p[k]], keys[i as int]) by {
                    assert(!lex_le(sorted@[j as int].0@, x.0@));
                    assert(sorted@[j as int].0@ == keys[p[j as int]]);
                    if k > j {
                        assert(lex_le(keys[p[j as int]], keys[p[k]]));
                        if lex_le(keys[p[k]], keys[i as int]) {
                            lemma_lex_trans(keys[p[j as int]], keys[p[k]], keys[i as int]);
                        }
                    }
                }
            }
            assert forall|k: int| 0 <= k < j implies lex_le(#[trigger] keys[p[k]], keys[i as int]) by {
                assert(sorted@[k].0@ == keys[p[k]]);
            }
        }
        let ghost old_sorted = sorted@;
        let ghost old_p = p;
        sorted.insert(j, x);
        proof {
            p = old_p.insert(j as int, i as int);
            let ii = i as int;
            let jj = j as int;
            assert forall|k: int| 0 <= k < ii + 1 implies 0 <= #[trigger] p[k] < ii + 1 by {
                if k < jj {
                    assert(p[k] == old_p[k]);
                } else if k > jj {
                    assert(p[k] == old_p[k - 1]);
                }
            }
            assert forall|a: int, b: int| 0 <= a < b < ii + 1 implies p[a] != p[b] by {
                if a < jj && b < jj {
                } else if a < jj && b == jj {
                    assert(p[a] == old_p[a]);
                } else if a < jj && b > jj {
                    assert(p[a] == old_p[a]);
                    assert(p[b] == old_p[b - 1]);
                } else if a == jj {
                    assert(p[b] == old_p[b - 1]);
                } else {
                    assert(p[a] == old_p[a - 1]);
                    assert(p[b] == old_p[b - 1]);
                }
            }
            assert forall|a: int, b: int| 0 <= a < b < ii + 1 implies lex_le(
                #[trigger] keys[p[a]],
                #[trigger] keys[p[b]],
            ) by {
                if a < jj && b < jj {
                } else if a < jj && b == jj {
                    assert(p[a] == old_p[a]);
                } else if a < jj && b > jj {
                    assert(p[a] == old_p[a]);
                    assert(p[b] == old_p[b - 1]);
                } else if a == jj {
                    assert(p[b] == old_p[b - 1]);
                    lemma_lex_total(keys[ii], keys[old_p[b - 1]]);
                } else {
                    assert(p[a] == old_p[a - 1]);
                    assert(p[b] == old_p[b - 1]);
                }
            }
            assert forall|a: int, b: int|
                0 <= a < b < ii + 1 && keys[p[a]] == keys[p[b]] implies p[a] < p[b] by {
                if a < jj && b < jj {
                } else if a < jj && b == jj {
                    assert(p[a] == old_p[a]);
                } else if a < jj && b > jj {
                    assert(p[a] == old_p[a]);
                    assert(p[b] == old_p[b - 1]);
                } else if a == jj {
                    assert(p[b] == old_p[b - 1]);
                    lemma_lex_refl(keys[ii]);
                } else {
                    assert(p[a] == old_p[a - 1]);
                    assert(p[b] == old_p[b - 1]);
                }
            }
            assert forall|k: int| 0 <= k < ii + 1 implies #[trigger] sorted@[k] == orig[p[k]] by {
                if k < jj {
                    assert(sorted@[k] == old_sorted[k]);
                } else if k > jj {
                    assert(sorted@[k] == old_sorted[k - 1]);
                }
            }
            assert(rest@ =~= orig.skip(ii + 1));
        }
        i = i + 1;
    }
    proof {
        assert(is_stable_sort_perm(keys, p));
    }
    sorted
}


/// `output` is `input` stably sorted by the keys `keys` (one per item).
pub open spec fn is_stable_sort_with<T>(input: Seq<T>, output: Seq<T>, keys: Seq<Seq<u64>>) -> bool {
    exists|p: Seq<int>|
        {
            &&& #[trigger] is_stable_sort_perm(keys, p)
            &&& output.len() == input.len()
            &&& forall|i: int| 0 <= i < output.len() ==> output[i] == input[p[i]]
        }
}

/// The views of a list of keys.
pub open spec fn key_views(keys: Seq<Vec<u64>>) -> Seq<Seq<u64>> {
    keys.map_values(|k: Vec<u64>| k@)
}

/// Sorts `items` stably by `keys`, the key of each item at the same position.
pub fn sort_by_keys<T>(items: Vec<T>, keys: Vec<Vec<u64>>) -> (res: Vec<T>)
    requires
        keys@.len() == items@.len(),
    ensures
        is_stable_sort_with(items@, res@, key_views(keys@)),
{
    let ghost orig = items@;
    let ghost kv = key_views(keys@);
    let n = items.len();
    let mut items = items;
    let mut keys = keys;
    let mut pairs: Vec<(Vec<u64>, T)> = Vec::new();
    let mut i: usize = 0;
    while i < n
        invariant
            n == orig.len(),
            kv.len() == n,
            i <= n,
            items@ == orig.skip(i as int),
            keys@.len() == n - i,
            key_views(keys@) == kv.skip(i as int),
            pairs@.len() == i,
            forall|j: int| 0 <= j < i ==> (#[trigger] pairs@[j]).1 == orig[j] && pairs@[j].0@ == kv[j],
        decreases n - i,
    {
        let x = items.remove(0);
        let ghost kseq = keys@;
        let k = keys.remove(0);
        proof {
            assert(key_views(kseq)[0] == kseq[0]@);
            assert(k@ == kv.skip(i as int)[0]);
        }
        pairs.push((k, x));
        proof {
            assert(items@ =~= orig.skip(i + 1));
            assert forall|j: int| 0 <= j < keys@.len() implies #[trigger] key_views(keys@)[j] == kv.skip(i + 1)[j] by {
                assert(keys@[j] == kseq[j + 1]);
                assert(key_views(kseq)[j + 1] == kseq[j + 1]@);
            }
            assert(key_views(keys@) =~= kv.skip(i + 1));
        }
        i = i + 1;
    }
    let sorted = stable_sort_pairs(pairs);
    let ghost sv = sorted@;
    let mut sorted = sorted;
    let mut res: Vec<T> = Vec::new();
    let mut i: usize = 0;
    while i < n
        invariant
            n == sv.len(),
            i <= n,
            sorted@ == sv.skip(i as int),
            res@.len() == i,
            forall|j: int| 0 <= j < i ==> #[trigger] res@[j] == sv[j].1,
        decreases n - i,
    {
        let (_, x) = sorted.remove(0);
        res.push(x);
        proof {
            assert(sorted@ =~= sv.skip(i + 1));
        }
        i = i + 1;
    }
    proof {
        let keyf = |x: (Vec<u64>, T)| pair_key(x);
        let p = choose|p: Seq<int>|
            {
                &&& #[trigger] is_stable_sort_perm(pairs@.map_values(keyf), p)
                &&& sv.len() == pairs@.len()
                &&& forall|i: int| 0 <= i < sv.len() ==> sv[i] == pairs@[p[i]]
            };
        assert(pairs@.map_values(keyf) =~= kv);
        assert forall|j: int| 0 <= j < n implies #[trigger] res@[j] == orig[p[j]] by {
            assert(res@[j] == pairs@[p[j]].1);
        }
        assert(is_stable_sort_perm(kv, p));
    }
    res
}

/// The items of `v` in reverse order.
pub fn reversed<T>(v: Vec<T>) -> (res: Vec<T>)
    ensures
        res@ == v@.reverse(),
{
    let ghost orig = v@;
    let mut v = v;
    let mut res: Vec<T> = Vec::new();
    while v.len() > 0
        invariant
            v@.len() + res@.len() == orig.len(),
            v@ == orig.take(v@.len() as int),
            forall|j: int| 0 <= j < res@.len() ==> #[trigger] res@[j] == orig[orig.len() - 1 - j],
        decreases v@.len(),
    {
        let x = v.pop().unwrap();
        proof {
            assert(x == orig[v@.len() as int]);
            assert(v@ =~= orig.take(v@.len() as int));
        }
        res.push(x);
    }
    assert(res@ =~= orig.reverse());
    res
}

} // verus!
