//! Moving an entry of a list to another place, as dragging it in an
//! orderable list does.
use vstd::prelude::*;

verus! {

/// `v` with the entry at `from` taken out and put back at `to`.
pub open spec fn moved<T>(v: Seq<T>, from: int, to: int) -> Seq<T> {
    v.remove(from).insert(to, v[from])
}

/// Moves the entry at `from` to `to`, the entries between shifting by one
/// towards where it was; answers whether anything moved.
pub fn move_entry<T>(v: &mut Vec<T>, from: usize, to: usize) -> (changed: bool)
    requires
        from < old(v)@.len(),
        to < old(v)@.len(),
    ensures
        changed == (from != to),
        final(v)@ == moved(old(v)@, from as int, to as int),
{
    if from == to {
        proof {
            assert(old(v)@.remove(from as int).insert(to as int, old(v)@[from as int]) =~= old(v)@);
        }
        return false;
    }
    let x = v.remove(from);
    v.insert(to, x);
    true
}

/// A move keeps every entry: the moved one lands at `to`, those between
/// shift by one, the others stay.
pub proof fn lemma_moved_entries<T>(v: Seq<T>, from: int, to: int)
    requires
        0 <= from < v.len(),
        0 <= to < v.len(),
    ensures
        moved(v, from, to).len() == v.len(),
        moved(v, from, to)[to] == v[from],
        forall|i: int|
            0 <= i < v.len() && i != to ==> #[trigger] moved(v, from, to)[i] == if from < to && from <= i < to {
                v[i + 1]
            } else if to < from && to < i <= from {
                v[i - 1]
            } else {
                v[i]
            },
        moved(v, from, to).to_multiset() == v.to_multiset(),
{
    let m = moved(v, from, to);
    let r = v.remove(from);
    assert forall|i: int| 0 <= i < v.len() && i != to implies #[trigger] m[i] == if from < to && from <= i < to {
        v[i + 1]
    } else if to < from && to < i <= from {
        v[i - 1]
    } else {
        v[i]
    } by {
        if i < to {
            assert(m[i] == r[i]);
        } else {
            assert(m[i] == r[i - 1]);
        }
    }
    vstd::seq_lib::to_multiset_remove(v, from);
    vstd::seq_lib::to_multiset_insert(r, to, v[from]);
    assert(v.to_multiset().remove(v[from]).insert(v[from]) =~= v.to_multiset()) by {
        broadcast use vstd::multiset::group_multiset_axioms;
        vstd::seq_lib::to_multiset_contains(v, v[from]);
    }
    r.insert_ensures(to, v[from]);
}

} // verus!
