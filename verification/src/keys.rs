//! Ordered views of integer-keyed maps and sets.
//!
//! Every resource kind is keyed by small integers (group ids, batch sizes).
//! Actions are always applied in ascending key order, so the engine reads its
//! maps through the functions of this module, which hand the keys out as an
//! ascending sequence.

use std::collections::BTreeMap;
use std::collections::BTreeSet;
use vstd::prelude::*;
use vstd::std_specs::btree::increasing_seq;
use vstd::std_specs::btree::spec_btree_keys_iter;
use vstd::std_specs::btree::spec_keys_iter;
use vstd::std_specs::cmp::OrdSpec;
use vstd::std_specs::iter::IteratorSpec;

verus! {

/// `s` is strictly ascending: sorted and free of duplicates.
pub open spec fn ascending(s: Seq<usize>) -> bool {
    forall|i: int, j: int| 0 <= i < j < s.len() ==> s[i] < s[j]
}

/// The items of `s` in ascending order: the one ascending sequence whose set
/// of items is `s`.
pub open spec fn ordered(s: Set<usize>) -> Seq<usize> {
    choose|q: Seq<usize>| ascending(q) && q.to_set() == s
}

/// `a` comes before `b`: pairs are ordered by their first part, then by
/// their second.
pub open spec fn precedes(a: (usize, usize), b: (usize, usize)) -> bool {
    a.0 < b.0 || (a.0 == b.0 && a.1 < b.1)
}

/// `s` is strictly ascending in the order of pairs.
pub open spec fn ascending_pairs(s: Seq<(usize, usize)>) -> bool {
    forall|i: int, j: int| 0 <= i < j < s.len() ==> precedes(s[i], s[j])
}

/// The pairs of `s` in ascending order.
pub open spec fn ordered_pairs(s: Set<(usize, usize)>) -> Seq<(usize, usize)> {
    choose|q: Seq<(usize, usize)>| ascending_pairs(q) && q.to_set() == s
}

/// References to integers are ordered as the integers are.
proof fn lemma_ref_order()
    ensures
        vstd::laws_cmp::obeys_cmp::<&usize>(),
{
    broadcast use vstd::laws_eq::group_laws_eq;
    broadcast use vstd::laws_cmp::group_laws_cmp;

    reveal(vstd::laws_eq::obeys_eq_spec_properties);
    reveal(vstd::laws_cmp::obeys_partial_cmp_spec_properties);
    reveal(vstd::laws_cmp::obeys_cmp_partial_ord);
    reveal(vstd::laws_cmp::obeys_cmp_ord);
    assert(vstd::laws_cmp::obeys_cmp::<usize>());
}

/// A sequence of references that the standard library calls increasing is
/// strictly ascending once the references are followed.
proof fn lemma_increasing_is_ascending(s: Seq<&usize>)
    requires
        increasing_seq(s),
    ensures
        ascending(s.unref()),
{
    lemma_ref_order();
    vstd::std_specs::btree::axiom_increasing_seq_meaning::<&usize>(s);
    assert forall|i: int, j: int| 0 <= i < j < s.unref().len() implies s.unref()[i] < s.unref()[j] by {
        assert(OrdSpec::cmp_spec(&s[i], &s[j]) is Less);
    }
}

/// References to pairs of integers are ordered as the pairs are.
proof fn lemma_ref_pair_order()
    ensures
        vstd::laws_cmp::obeys_cmp::<&(usize, usize)>(),
{
    broadcast use vstd::laws_eq::group_laws_eq;
    broadcast use vstd::laws_cmp::group_laws_cmp;

    reveal(vstd::laws_eq::obeys_eq_spec_properties);
    reveal(vstd::laws_cmp::obeys_partial_cmp_spec_properties);
    reveal(vstd::laws_cmp::obeys_cmp_partial_ord);
    reveal(vstd::laws_cmp::obeys_cmp_ord);
    assert(vstd::laws_cmp::obeys_cmp::<(usize, usize)>());
}

/// A sequence of references to pairs that the standard library calls
/// increasing is strictly ascending once the references are followed.
proof fn lemma_increasing_is_ascending_pairs(s: Seq<&(usize, usize)>)
    requires
        increasing_seq(s),
    ensures
        ascending_pairs(s.unref()),
{
    lemma_ref_pair_order();
    vstd::std_specs::btree::axiom_increasing_seq_meaning::<&(usize, usize)>(s);
    assert forall|i: int, j: int| 0 <= i < j < s.unref().len() implies precedes(s.unref()[i], s.unref()[j]) by {
        assert(OrdSpec::cmp_spec(&s[i], &s[j]) is Less);
    }
}

/// The keys of `m` in ascending order.
pub fn sorted_keys<V>(m: &BTreeMap<usize, V>) -> (r: Vec<usize>)
    ensures
        ascending(r@),
        r@.to_set() == m@.dom(),
        r@ == ordered(m@.dom()),
{
    broadcast use vstd::std_specs::btree::group_btree_axioms;

    let mut out: Vec<usize> = Vec::new();
    for k in it: m.keys()
        invariant
            out@.len() == it.index(),
            it.seq() == spec_keys_iter(m).remaining(),
            forall|i: int| 0 <= i < out@.len() ==> out@[i] == *it.seq()[i],
    {
        out.push(*k);
    }
    proof {
        let s = spec_keys_iter(m).remaining();
        assert(out@ =~= s.unref());
        lemma_increasing_is_ascending(s);
        lemma_ordered(out@);
    }
    out
}

/// The elements of `s` in ascending order.
pub fn sorted_elements(s: &BTreeSet<usize>) -> (r: Vec<usize>)
    ensures
        ascending(r@),
        r@.to_set() == s@,
        r@ == ordered(s@),
{
    broadcast use vstd::std_specs::btree::group_btree_axioms;

    let mut out: Vec<usize> = Vec::new();
    for k in it: s.iter()
        invariant
            out@.len() == it.index(),
            it.seq() == spec_btree_keys_iter(s).remaining(),
            forall|i: int| 0 <= i < out@.len() ==> out@[i] == *it.seq()[i],
    {
        out.push(*k);
    }
    proof {
        let all = spec_btree_keys_iter(s).remaining();
        assert(out@ =~= all.unref());
        lemma_increasing_is_ascending(all);
        lemma_ordered(out@);
    }
    out
}

/// The keys of `m` in ascending order, where the keys are pairs.
pub fn sorted_pair_keys<V>(m: &BTreeMap<(usize, usize), V>) -> (r: Vec<(usize, usize)>)
    ensures
        ascending_pairs(r@),
        r@.to_set() == m@.dom(),
        r@ == ordered_pairs(m@.dom()),
{
    broadcast use vstd::std_specs::btree::group_btree_axioms;
    broadcast use vstd::laws_cmp::group_laws_cmp;

    let mut out: Vec<(usize, usize)> = Vec::new();
    for k in it: m.keys()
        invariant
            out@.len() == it.index(),
            it.seq() == spec_keys_iter(m).remaining(),
            forall|i: int| 0 <= i < out@.len() ==> out@[i] == *it.seq()[i],
    {
        out.push(*k);
    }
    proof {
        let all = spec_keys_iter(m).remaining();
        assert(out@ =~= all.unref());
        lemma_increasing_is_ascending_pairs(all);
        lemma_ordered_pairs(out@);
    }
    out
}

/// The pairs of `s` in ascending order.
pub fn sorted_pairs(s: &BTreeSet<(usize, usize)>) -> (r: Vec<(usize, usize)>)
    ensures
        ascending_pairs(r@),
        r@.to_set() == s@,
        r@ == ordered_pairs(s@),
{
    broadcast use vstd::std_specs::btree::group_btree_axioms;
    broadcast use vstd::laws_cmp::group_laws_cmp;

    let mut out: Vec<(usize, usize)> = Vec::new();
    for k in it: s.iter()
        invariant
            out@.len() == it.index(),
            it.seq() == spec_btree_keys_iter(s).remaining(),
            forall|i: int| 0 <= i < out@.len() ==> out@[i] == *it.seq()[i],
    {
        out.push(*k);
    }
    proof {
        let all = spec_btree_keys_iter(s).remaining();
        assert(out@ =~= all.unref());
        lemma_increasing_is_ascending_pairs(all);
        lemma_ordered_pairs(out@);
    }
    out
}

/// The set of keys of `m`.
pub fn key_set<V>(m: &BTreeMap<usize, V>) -> (r: BTreeSet<usize>)
    ensures
        r@ == m@.dom(),
{
    broadcast use vstd::std_specs::btree::group_btree_axioms;

    let keys = sorted_keys(m);
    let r = collect(&keys);
    r
}

/// The set of the items of `items`, whatever their order and however often
/// each occurs.
pub fn collect(items: &Vec<usize>) -> (r: BTreeSet<usize>)
    ensures
        r@ == items@.to_set(),
{
    broadcast use vstd::std_specs::btree::group_btree_axioms;

    let mut r: BTreeSet<usize> = BTreeSet::new();
    let mut i: usize = 0;
    while i < items.len()
        invariant
            0 <= i <= items.len(),
            forall|k: usize| r@.contains(k) <==> exists|j: int| 0 <= j < i && items@[j] == k,
        decreases items.len() - i,
    {
        let ghost before = r@;
        r.insert(items[i]);
        i += 1;
        assert forall|k: usize| r@.contains(k) <==> exists|j: int| 0 <= j < i && items@[j] == k by {
            if r@.contains(k) {
                if before.contains(k) {
                    let j = choose|j: int| 0 <= j < i - 1 && items@[j] == k;
                    assert(0 <= j < i && items@[j] == k);
                } else {
                    assert(items@[i - 1] == k);
                }
            }
            if exists|j: int| 0 <= j < i && items@[j] == k {
                let j = choose|j: int| 0 <= j < i && items@[j] == k;
                if j < i - 1 {
                    assert(before.contains(k));
                }
            }
        }
    }
    assert(r@ =~= items@.to_set()) by {
        assert forall|k: usize| r@.contains(k) <==> items@.to_set().contains(k) by {
            if r@.contains(k) {
                let j = choose|j: int| 0 <= j < i && items@[j] == k;
                assert(items@[j] == k);
                assert(items@.contains(k));
            }
            if items@.contains(k) {
                let j = choose|j: int| 0 <= j < items@.len() && items@[j] == k;
                assert(0 <= j < i && items@[j] == k);
            }
        }
    }
    r
}

/// Adds `pair` to `set`; tells whether it was new.
pub fn insert_pair(set: &mut BTreeSet<(usize, usize)>, pair: (usize, usize)) -> (added: bool)
    ensures
        final(set)@ == old(set)@.insert(pair),
        added == !old(set)@.contains(pair),
{
    broadcast use vstd::std_specs::btree::group_btree_axioms;
    broadcast use vstd::laws_cmp::group_laws_cmp;

    set.insert(pair)
}

/// Whether `set` holds `pair`.
pub fn contains_pair(set: &BTreeSet<(usize, usize)>, pair: (usize, usize)) -> (r: bool)
    ensures
        r == set@.contains(pair),
{
    broadcast use vstd::std_specs::btree::group_btree_axioms;
    broadcast use vstd::laws_cmp::group_laws_cmp;

    set.contains(&pair)
}

/// The value that `m` holds under `pair`, if any.
pub fn get_pair<V>(m: &BTreeMap<(usize, usize), V>, pair: (usize, usize)) -> (r: Option<&V>)
    ensures
        match r {
            Some(v) => m@.contains_key(pair) && *v == m@[pair],
            None => !m@.contains_key(pair),
        },
{
    broadcast use vstd::std_specs::btree::group_btree_axioms;
    broadcast use vstd::laws_cmp::group_laws_cmp;

    m.get(&pair)
}

/// Puts `value` under `pair`; hands back what was there before.
pub fn put_pair<V>(m: &mut BTreeMap<(usize, usize), V>, pair: (usize, usize), value: V) -> (r: Option<V>)
    ensures
        final(m)@ == old(m)@.insert(pair, value),
        match r {
            Some(v) => old(m)@.contains_key(pair) && v == old(m)@[pair],
            None => !old(m)@.contains_key(pair),
        },
{
    broadcast use vstd::std_specs::btree::group_btree_axioms;
    broadcast use vstd::laws_cmp::group_laws_cmp;

    m.insert(pair, value)
}

/// An ascending sequence is determined by the set of its items: two ascending
/// sequences over the same set are the same sequence.
pub proof fn lemma_ascending_unique(a: Seq<usize>, b: Seq<usize>)
    requires
        ascending(a),
        ascending(b),
        a.to_set() == b.to_set(),
    ensures
        a == b,
    decreases a.len(),
{
    if a.len() == 0 {
        if b.len() > 0 {
            assert(b.to_set().contains(b[0]));
            assert(a.to_set().contains(b[0]));
        }
        assert(a =~= b);
    } else {
        let x = a.last();
        assert(a.to_set().contains(x));
        assert(b.to_set().contains(x));
        assert(b.len() > 0);
        let y = b.last();
        assert(b.to_set().contains(y));
        assert(a.to_set().contains(y));
        let ix = choose|i: int| 0 <= i < b.len() && b[i] == x;
        let iy = choose|i: int| 0 <= i < a.len() && a[i] == y;
        assert(x == y);
        let a0 = a.drop_last();
        let b0 = b.drop_last();
        assert(a0.to_set() =~= b0.to_set()) by {
            assert forall|k: usize| a0.to_set().contains(k) <==> b0.to_set().contains(k) by {
                if a0.to_set().contains(k) {
                    let i = choose|i: int| 0 <= i < a0.len() && a0[i] == k;
                    assert(a[i] == k);
                    assert(k < x);
                    assert(a.to_set().contains(k));
                    assert(b.to_set().contains(k));
                    let j = choose|j: int| 0 <= j < b.len() && b[j] == k;
                    assert(j < b.len() - 1);
                    assert(b0[j] == k);
                }
                if b0.to_set().contains(k) {
                    let i = choose|i: int| 0 <= i < b0.len() && b0[i] == k;
                    assert(b[i] == k);
                    assert(k < y);
                    assert(b.to_set().contains(k));
                    assert(a.to_set().contains(k));
                    let j = choose|j: int| 0 <= j < a.len() && a[j] == k;
                    assert(j < a.len() - 1);
                    assert(a0[j] == k);
                }
            }
        }
        lemma_ascending_unique(a0, b0);
        assert(a =~= a0.push(x));
        assert(b =~= b0.push(y));
    }
}

/// An ascending sequence is the ordered form of its own set of items.
pub proof fn lemma_ordered(q: Seq<usize>)
    requires
        ascending(q),
    ensures
        ordered(q.to_set()) == q,
{
    let o = ordered(q.to_set());
    assert(ascending(o) && o.to_set() == q.to_set());
    lemma_ascending_unique(o, q);
}

/// The ordered form of a finite set is ascending and holds exactly the set.
pub proof fn lemma_ordered_holds(s: Set<usize>)
    requires
        s.finite(),
    ensures
        ascending(ordered(s)),
        ordered(s).to_set() == s,
    decreases s.len(),
{
    if s.len() == 0 {
        let q = Seq::<usize>::empty();
        assert(q.to_set() =~= s);
        assert(ascending(q));
    } else {
        let x = choose|x: usize| s.contains(x) && forall|y: usize| s.contains(y) ==> y <= x;
        lemma_has_greatest(s);
        let rest = s.remove(x);
        lemma_ordered_holds(rest);
        let q = ordered(rest).push(x);
        assert forall|i: int, j: int| 0 <= i < j < q.len() implies q[i] < q[j] by {
            assert(ordered(rest).to_set().contains(q[i]));
            if j < q.len() - 1 {
                assert(ordered(rest)[j] == q[j]);
            }
        }
        assert forall|k: usize| q.to_set().contains(k) <==> s.contains(k) by {
            if q.contains(k) {
                let i = choose|i: int| 0 <= i < q.len() && q[i] == k;
                if i < q.len() - 1 {
                    assert(ordered(rest).to_set().contains(ordered(rest)[i]));
                }
            }
            if s.contains(k) {
                if k == x {
                    assert(q[q.len() - 1] == k);
                } else {
                    assert(rest.contains(k));
                    assert(ordered(rest).to_set().contains(k));
                    let i = choose|i: int| 0 <= i < ordered(rest).len() && ordered(rest)[i] == k;
                    assert(q[i] == k);
                }
            }
        }
        assert(q.to_set() =~= s);
    }
}

/// A finite set of integers that is not empty has a greatest item.
proof fn lemma_has_greatest(s: Set<usize>)
    requires
        s.finite(),
        s.len() > 0,
    ensures
        exists|x: usize| s.contains(x) && forall|y: usize| s.contains(y) ==> y <= x,
    decreases s.len(),
{
    let a = s.choose();
    let rest = s.remove(a);
    if rest.len() == 0 {
        assert forall|y: usize| s.contains(y) implies y <= a by {
            if y != a {
                assert(rest.contains(y));
            }
        }
    } else {
        lemma_has_greatest(rest);
        let b = choose|x: usize| rest.contains(x) && forall|y: usize| rest.contains(y) ==> y <= x;
        let top = if a <= b {
            b
        } else {
            a
        };
        assert forall|y: usize| s.contains(y) implies y <= top by {
            if y != a {
                assert(rest.contains(y));
            }
        }
        assert(s.contains(top));
    }
}

/// A sequence of pairs that ascends is determined by the set of its items.
pub proof fn lemma_ascending_pairs_unique(a: Seq<(usize, usize)>, b: Seq<(usize, usize)>)
    requires
        ascending_pairs(a),
        ascending_pairs(b),
        a.to_set() == b.to_set(),
    ensures
        a == b,
    decreases a.len(),
{
    if a.len() == 0 {
        if b.len() > 0 {
            assert(b.to_set().contains(b[0]));
            assert(a.to_set().contains(b[0]));
        }
        assert(a =~= b);
    } else {
        let x = a.last();
        assert(a.to_set().contains(x));
        assert(b.to_set().contains(x));
        let y = b.last();
        assert(b.to_set().contains(y));
        assert(a.to_set().contains(y));
        let ix = choose|i: int| 0 <= i < b.len() && b[i] == x;
        let iy = choose|i: int| 0 <= i < a.len() && a[i] == y;
        if ix < b.len() - 1 {
            assert(precedes(b[ix], b[b.len() - 1]));
        }
        if iy < a.len() - 1 {
            assert(precedes(a[iy], a[a.len() - 1]));
        }
        assert(x == y);
        let a0 = a.drop_last();
        let b0 = b.drop_last();
        assert forall|k: (usize, usize)| a0.to_set().contains(k) <==> b0.to_set().contains(k) by {
            if a0.to_set().contains(k) {
                let i = choose|i: int| 0 <= i < a0.len() && a0[i] == k;
                assert(a[i] == k);
                assert(precedes(a[i], a[a.len() - 1]));
                assert(a.to_set().contains(k));
                assert(b.to_set().contains(k));
                let j = choose|j: int| 0 <= j < b.len() && b[j] == k;
                assert(b0[j] == k);
            }
            if b0.to_set().contains(k) {
                let i = choose|i: int| 0 <= i < b0.len() && b0[i] == k;
                assert(b[i] == k);
                assert(precedes(b[i], b[b.len() - 1]));
                assert(b.to_set().contains(k));
                assert(a.to_set().contains(k));
                let j = choose|j: int| 0 <= j < a.len() && a[j] == k;
                assert(a0[j] == k);
            }
        }
        assert(a0.to_set() =~= b0.to_set());
        lemma_ascending_pairs_unique(a0, b0);
        assert(a =~= a0.push(x));
        assert(b =~= b0.push(y));
    }
}

/// An ascending sequence of pairs is the ordered form of its own set.
pub proof fn lemma_ordered_pairs(q: Seq<(usize, usize)>)
    requires
        ascending_pairs(q),
    ensures
        ordered_pairs(q.to_set()) == q,
{
    let o = ordered_pairs(q.to_set());
    assert(ascending_pairs(o) && o.to_set() == q.to_set());
    lemma_ascending_pairs_unique(o, q);
}

} // verus!
