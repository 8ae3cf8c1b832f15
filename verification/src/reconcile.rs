//! The reconciliation engine: the difference between the keys that the
//! configuration asks for and the keys that the report records.

use crate::keys::ascending;
use crate::keys::collect;
use crate::keys::lemma_ascending_unique;
use crate::keys::lemma_ordered;
use crate::keys::lemma_ordered_holds;
use crate::keys::ordered;
use crate::keys::sorted_elements;
use crate::keys::sorted_keys;
use crate::types::Address;
use std::collections::BTreeMap;
use std::collections::BTreeSet;
use vstd::prelude::*;

verus! {

/// What has to happen to one resource kind, each list in ascending key order.
#[derive(Debug, PartialEq, Eq)]
pub struct KeyDiff {
    /// Keys that the configuration asks for and the report lacks.
    pub to_create_or_update: Vec<usize>,
    /// Keys that the report records and the configuration no longer asks for.
    pub to_remove: Vec<usize>,
    /// Keys on which configuration and report agree: nothing is done for them.
    pub unchanged: Vec<usize>,
}

impl KeyDiff {
    /// The diff is the one of `desired` against `existing`: its three lists
    /// are ascending and hold `desired - existing`, `existing - desired` and
    /// `desired & existing`.
    pub open spec fn is_diff_of(&self, desired: Set<usize>, existing: Set<usize>) -> bool {
        &&& ascending(self.to_create_or_update@)
        &&& ascending(self.to_remove@)
        &&& ascending(self.unchanged@)
        &&& self.to_create_or_update@.to_set() == desired.difference(existing)
        &&& self.to_remove@.to_set() == existing.difference(desired)
        &&& self.unchanged@.to_set() == desired.intersect(existing)
    }

    /// The key set that results from `existing` once every creation and
    /// every removal of the diff has been carried out.
    pub open spec fn applied_to(&self, existing: Set<usize>) -> Set<usize> {
        existing.union(self.to_create_or_update@.to_set()).difference(self.to_remove@.to_set())
    }

    /// Whether the diff asks for no action at all.
    pub open spec fn spec_is_settled(&self) -> bool {
        self.to_create_or_update@.len() == 0 && self.to_remove@.len() == 0
    }

    /// Whether the diff asks for no action at all.
    #[verifier::when_used_as_spec(spec_is_settled)]
    pub fn is_settled(&self) -> (r: bool)
        ensures
            r == self.spec_is_settled(),
    {
        self.to_create_or_update.len() == 0 && self.to_remove.len() == 0
    }
}

/// The keys of `keys` that `other` holds (`present`) or lacks (`!present`),
/// in the order of `keys`.
fn select(keys: &Vec<usize>, other: &BTreeSet<usize>, present: bool) -> (r: Vec<usize>)
    requires
        ascending(keys@),
    ensures
        ascending(r@),
        forall|k: usize| r@.contains(k) <==> (keys@.contains(k) && other@.contains(k) == present),
{
    broadcast use vstd::std_specs::btree::group_btree_axioms;

    let mut out: Vec<usize> = Vec::new();
    let mut i: usize = 0;
    while i < keys.len()
        invariant
            0 <= i <= keys.len(),
            ascending(keys@),
            ascending(out@),
            forall|j: int| 0 <= j < out@.len() ==> exists|n: int| 0 <= n < i && keys@[n] == #[trigger] out@[j],
            forall|n: int| 0 <= n < i && other@.contains(#[trigger] keys@[n]) == present ==> out@.contains(keys@[n]),
            forall|j: int| 0 <= j < out@.len() ==> other@.contains(#[trigger] out@[j]) == present,
        decreases keys.len() - i,
    {
        let k = keys[i];
        if other.contains(&k) == present {
            let ghost before = out@;
            out.push(k);
            assert forall|a: int, b: int| 0 <= a < b < out@.len() implies out@[a] < out@[b] by {
                if b == out@.len() - 1 {
                    let n = choose|n: int| 0 <= n < i && keys@[n] == before[a];
                    assert(keys@[n] < keys@[i as int]);
                }
            }
            assert forall|n: int| 0 <= n < i + 1 && other@.contains(#[trigger] keys@[n]) == present implies out@.contains(keys@[n]) by {
                if n < i {
                    assert(before.contains(keys@[n]));
                    let j = choose|j: int| 0 <= j < before.len() && before[j] == keys@[n];
                    assert(out@[j] == keys@[n]);
                } else {
                    assert(out@[out@.len() - 1] == keys@[n]);
                }
            }
            assert forall|j: int| 0 <= j < out@.len() implies exists|n: int| 0 <= n < i + 1 && keys@[n] == #[trigger] out@[j] by {
                if j < before.len() {
                    let n = choose|n: int| 0 <= n < i && keys@[n] == before[j];
                    assert(0 <= n < i + 1 && keys@[n] == out@[j]);
                } else {
                    assert(keys@[i as int] == out@[j]);
                }
            }
        }
        i += 1;
    }
    assert forall|k: usize| out@.contains(k) <==> (keys@.contains(k) && other@.contains(k) == present) by {
        if out@.contains(k) {
            let j = choose|j: int| 0 <= j < out@.len() && out@[j] == k;
            let n = choose|n: int| 0 <= n < i && keys@[n] == out@[j];
            assert(keys@[n] == k);
        }
        if keys@.contains(k) && other@.contains(k) == present {
            let n = choose|n: int| 0 <= n < keys@.len() && keys@[n] == k;
            assert(out@.contains(keys@[n]));
        }
    }
    out
}

/// Diffs the desired key set against the existing one.
///
/// `to_create_or_update` is `desired - existing`, `to_remove` is
/// `existing - desired`, `unchanged` is their intersection; each list is in
/// ascending key order.
pub fn diff(desired: &BTreeSet<usize>, existing: &BTreeSet<usize>) -> (r: KeyDiff)
    ensures
        r.is_diff_of(desired@, existing@),
{
    let wanted = sorted_elements(desired);
    let recorded = sorted_elements(existing);
    let to_create_or_update = select(&wanted, existing, false);
    let to_remove = select(&recorded, desired, false);
    let unchanged = select(&wanted, existing, true);
    assert(to_create_or_update@.to_set() =~= desired@.difference(existing@));
    assert(to_remove@.to_set() =~= existing@.difference(desired@));
    assert(unchanged@.to_set() =~= desired@.intersect(existing@));
    KeyDiff { to_create_or_update, to_remove, unchanged }
}

/// Diffs two key lists, in whatever order they come and however often a key
/// is repeated in them.
pub fn diff_lists(desired: &Vec<usize>, existing: &Vec<usize>) -> (r: KeyDiff)
    ensures
        r.is_diff_of(desired@.to_set(), existing@.to_set()),
{
    let d = collect(desired);
    let e = collect(existing);
    diff(&d, &e)
}

/// Carries a diff out on a key set: adds what is to be created and drops
/// what is to be removed.
pub fn apply(existing: &mut BTreeSet<usize>, changes: &KeyDiff)
    ensures
        final(existing)@ == changes.applied_to(old(existing)@),
{
    broadcast use vstd::std_specs::btree::group_btree_axioms;

    let mut i: usize = 0;
    while i < changes.to_create_or_update.len()
        invariant
            0 <= i <= changes.to_create_or_update.len(),
            existing@ == old(existing)@.union(changes.to_create_or_update@.take(i as int).to_set()),
        decreases changes.to_create_or_update.len() - i,
    {
        existing.insert(changes.to_create_or_update[i]);
        proof {
            let s = changes.to_create_or_update@;
            assert(s.take(i + 1) =~= s.take(i as int).push(s[i as int]));
            lemma_push_to_set(s.take(i as int), s[i as int]);
            assert(existing@ =~= old(existing)@.union(s.take(i + 1).to_set()));
        }
        i += 1;
    }
    assert(changes.to_create_or_update@.take(i as int) =~= changes.to_create_or_update@);
    let ghost grown = existing@;
    let mut j: usize = 0;
    while j < changes.to_remove.len()
        invariant
            0 <= j <= changes.to_remove.len(),
            existing@ == grown.difference(changes.to_remove@.take(j as int).to_set()),
        decreases changes.to_remove.len() - j,
    {
        existing.remove(&changes.to_remove[j]);
        proof {
            let s = changes.to_remove@;
            assert(s.take(j + 1) =~= s.take(j as int).push(s[j as int]));
            lemma_push_to_set(s.take(j as int), s[j as int]);
            assert(existing@ =~= grown.difference(s.take(j + 1).to_set()));
        }
        j += 1;
    }
    assert(changes.to_remove@.take(j as int) =~= changes.to_remove@);
}

/// The set of a sequence with one more item is the set of the sequence with
/// that item added.
proof fn lemma_push_to_set(s: Seq<usize>, x: usize)
    ensures
        s.push(x).to_set() == s.to_set().insert(x),
{
    assert forall|k: usize| s.push(x).to_set().contains(k) <==> s.to_set().insert(x).contains(k) by {
        if s.push(x).contains(k) {
            let i = choose|i: int| 0 <= i < s.push(x).len() && s.push(x)[i] == k;
            if i < s.len() {
                assert(s[i] == k);
            }
        }
        if s.contains(k) {
            let i = choose|i: int| 0 <= i < s.len() && s[i] == k;
            assert(s.push(x)[i] == k);
        }
        if k == x {
            assert(s.push(x)[s.len() as int] == k);
        }
    }
    assert(s.push(x).to_set() =~= s.to_set().insert(x));
}

/// Determinism: the diff depends on the two key sets alone. Whatever the
/// order in which the keys were handed in, the same lists come out, each in
/// ascending key order.
pub proof fn lemma_diff_is_determined(a: KeyDiff, b: KeyDiff, desired: Set<usize>, existing: Set<usize>)
    requires
        a.is_diff_of(desired, existing),
        b.is_diff_of(desired, existing),
    ensures
        a.to_create_or_update@ == b.to_create_or_update@,
        a.to_remove@ == b.to_remove@,
        a.unchanged@ == b.unchanged@,
{
    lemma_ascending_unique(a.to_create_or_update@, b.to_create_or_update@);
    lemma_ascending_unique(a.to_remove@, b.to_remove@);
    lemma_ascending_unique(a.unchanged@, b.unchanged@);
}

/// Carrying a diff out yields exactly the desired key set.
pub proof fn lemma_applied_is_desired(changes: KeyDiff, desired: Set<usize>, existing: Set<usize>)
    requires
        changes.is_diff_of(desired, existing),
    ensures
        changes.applied_to(existing) == desired,
{
    assert(changes.applied_to(existing) =~= desired);
}

/// Idempotence: once a diff has been carried out, diffing the same desired
/// set against the result asks for nothing: no creation, no removal, and
/// every desired key unchanged.
pub proof fn lemma_second_diff_is_settled(
    first: KeyDiff,
    second: KeyDiff,
    desired: Set<usize>,
    existing: Set<usize>,
)
    requires
        first.is_diff_of(desired, existing),
        second.is_diff_of(desired, first.applied_to(existing)),
    ensures
        second.to_create_or_update@ == Seq::<usize>::empty(),
        second.to_remove@ == Seq::<usize>::empty(),
        second.unchanged@.to_set() == desired,
        second.spec_is_settled(),
{
    lemma_applied_is_desired(first, desired, existing);
    assert(desired.difference(desired) =~= Set::<usize>::empty());
    assert(desired.intersect(desired) =~= desired);
    if second.to_create_or_update@.len() > 0 {
        assert(second.to_create_or_update@.to_set().contains(second.to_create_or_update@[0]));
    }
    if second.to_remove@.len() > 0 {
        assert(second.to_remove@.to_set().contains(second.to_remove@[0]));
    }
    assert(second.to_create_or_update@ =~= Seq::<usize>::empty());
    assert(second.to_remove@ =~= Seq::<usize>::empty());
}

/// One action on a keyed association, such as the entry of a lookup table
/// or a route of the router. Each stands for exactly one transaction.
#[derive(Debug, Clone, Copy, PartialEq, Eq)]
pub enum Change {
    /// The key is new: associate it with `value`.
    Create { key: usize, value: Address },
    /// The key is recorded with another value: point it to `value`.
    Update { key: usize, value: Address },
    /// The key is recorded and no longer wanted: disable it.
    Remove { key: usize },
}

impl Change {
    /// What the record holds once the action has been carried out.
    pub open spec fn effect(&self, recorded: Map<usize, Address>) -> Map<usize, Address> {
        match *self {
            Change::Create { key, value } => recorded.insert(key, value),
            Change::Update { key, value } => recorded.insert(key, value),
            Change::Remove { key } => recorded.remove(key),
        }
    }
}

/// What the record holds once every action of `changes` has been carried
/// out, in order.
pub open spec fn changes_after(recorded: Map<usize, Address>, changes: Seq<Change>) -> Map<usize, Address>
    decreases changes.len(),
{
    if changes.len() == 0 {
        recorded
    } else {
        changes.last().effect(changes_after(recorded, changes.drop_last()))
    }
}

/// Whether `key` needs a target that nobody provides. A key that is not
/// recorded yet always needs one; a recorded key needs one only where
/// recorded values are compared with their targets.
pub open spec fn unresolved(
    key: usize,
    targets: Map<usize, Address>,
    recorded: Map<usize, Address>,
    compare: bool,
) -> bool {
    (compare || !recorded.contains_key(key)) && !targets.contains_key(key)
}

/// The creations and updates for `keys`, in the order of `keys`: a creation
/// for each key that is not recorded, an update for each recorded key whose
/// value differs from its target (only where `compare` asks for it), nothing
/// for the others.
pub open spec fn upserts(
    keys: Seq<usize>,
    targets: Map<usize, Address>,
    recorded: Map<usize, Address>,
    compare: bool,
) -> Seq<Change>
    decreases keys.len(),
{
    if keys.len() == 0 {
        Seq::empty()
    } else {
        let before = upserts(keys.drop_last(), targets, recorded, compare);
        let key = keys.last();
        if !recorded.contains_key(key) {
            before.push(Change::Create { key, value: targets[key] })
        } else if compare && recorded[key] != targets[key] {
            before.push(Change::Update { key, value: targets[key] })
        } else {
            before
        }
    }
}

/// One removal for each key of `keys`, in the order of `keys`.
pub open spec fn removals(keys: Seq<usize>) -> Seq<Change> {
    Seq::new(keys.len(), |i: int| Change::Remove { key: keys[i] })
}

/// The actions that bring `recorded` to the desired state: first the
/// creations and updates over the desired keys in ascending order, then the
/// removals of the recorded keys that are no longer desired, in ascending
/// order.
pub open spec fn change_plan(
    desired: Set<usize>,
    targets: Map<usize, Address>,
    recorded: Map<usize, Address>,
    compare: bool,
) -> Seq<Change> {
    upserts(ordered(desired), targets, recorded, compare) + removals(
        ordered(recorded.dom().difference(desired)),
    )
}

/// Plans the actions that bring `recorded` to the desired state.
///
/// Fails with the least desired key that needs a target and has none; then
/// nothing is planned.
pub fn plan_changes(
    desired: &BTreeSet<usize>,
    targets: &BTreeMap<usize, Address>,
    recorded: &BTreeMap<usize, Address>,
    compare: bool,
) -> (r: Result<Vec<Change>, usize>)
    ensures
        match r {
            Ok(changes) => {
                &&& forall|k: usize| desired@.contains(k) ==> !unresolved(k, targets@, recorded@, compare)
                &&& changes@ == change_plan(desired@, targets@, recorded@, compare)
            },
            Err(key) => {
                &&& desired@.contains(key)
                &&& unresolved(key, targets@, recorded@, compare)
                &&& forall|k: usize|
                    desired@.contains(k) && k < key ==> !unresolved(k, targets@, recorded@, compare)
            },
        },
{
    broadcast use vstd::std_specs::btree::group_btree_axioms;

    let keys = sorted_elements(desired);
    let mut out: Vec<Change> = Vec::new();
    let mut i: usize = 0;
    while i < keys.len()
        invariant
            0 <= i <= keys.len(),
            ascending(keys@),
            keys@.to_set() == desired@,
            out@ == upserts(keys@.take(i as int), targets@, recorded@, compare),
            forall|j: int| 0 <= j < i ==> !unresolved(#[trigger] keys@[j], targets@, recorded@, compare),
        decreases keys.len() - i,
    {
        let key = keys[i];
        proof {
            assert(keys@.take(i + 1).drop_last() =~= keys@.take(i as int));
            assert(keys@.take(i + 1).last() == key);
            assert(keys@.to_set().contains(key));
        }
        let current = recorded.get(&key);
        let target = targets.get(&key);
        match current {
            None => match target {
                Some(value) => {
                    out.push(Change::Create { key, value: *value });
                },
                None => {
                    proof {
                        lemma_least_unresolved(keys@, i as int, desired@, targets@, recorded@, compare);
                    }
                    return Err(key);
                },
            },
            Some(value_now) => {
                if compare {
                    match target {
                        Some(value) => {
                            if !value_now.same(value) {
                                out.push(Change::Update { key, value: *value });
                            }
                        },
                        None => {
                            proof {
                                lemma_least_unresolved(keys@, i as int, desired@, targets@, recorded@, compare);
                            }
                            return Err(key);
                        },
                    }
                }
            },
        }
        i += 1;
    }
    proof {
        assert(keys@.take(i as int) =~= keys@);
        assert forall|k: usize| desired@.contains(k) implies !unresolved(k, targets@, recorded@, compare) by {
            assert(keys@.to_set().contains(k));
            let j = choose|j: int| 0 <= j < keys@.len() && keys@[j] == k;
            assert(!unresolved(keys@[j], targets@, recorded@, compare));
        }
    }
    let known = sorted_keys(recorded);
    let stale = select(&known, desired, false);
    proof {
        assert(stale@.to_set() =~= recorded@.dom().difference(desired@));
        lemma_ordered(stale@);
    }
    let ghost creations = out@;
    let mut n: usize = 0;
    while n < stale.len()
        invariant
            0 <= n <= stale.len(),
            out@ == creations + removals(stale@.take(n as int)),
        decreases stale.len() - n,
    {
        out.push(Change::Remove { key: stale[n] });
        proof {
            assert(removals(stale@.take(n + 1)) =~= removals(stale@.take(n as int)).push(
                Change::Remove { key: stale@[n as int] },
            ));
            assert(out@ =~= creations + removals(stale@.take(n + 1)));
        }
        n += 1;
    }
    proof {
        assert(stale@.take(n as int) =~= stale@);
    }
    Ok(out)
}

/// In an ascending key list whose earlier keys are all resolved, an
/// unresolved key is the least unresolved key of the whole set.
proof fn lemma_least_unresolved(
    keys: Seq<usize>,
    i: int,
    desired: Set<usize>,
    targets: Map<usize, Address>,
    recorded: Map<usize, Address>,
    compare: bool,
)
    requires
        ascending(keys),
        keys.to_set() == desired,
        0 <= i < keys.len(),
        forall|j: int| 0 <= j < i ==> !unresolved(#[trigger] keys[j], targets, recorded, compare),
    ensures
        desired.contains(keys[i]),
        forall|k: usize| desired.contains(k) && k < keys[i] ==> !unresolved(k, targets, recorded, compare),
{
    assert(keys.to_set().contains(keys[i]));
    assert forall|k: usize| desired.contains(k) && k < keys[i] implies !unresolved(
        k,
        targets,
        recorded,
        compare,
    ) by {
        assert(keys.to_set().contains(k));
        let j = choose|j: int| 0 <= j < keys.len() && keys[j] == k;
        if j >= i {
            if j > i {
                assert(keys[i] < keys[j]);
            }
        }
        assert(!unresolved(keys[j], targets, recorded, compare));
    }
}

/// Carries one action out on the record.
pub fn apply_change(recorded: &mut BTreeMap<usize, Address>, change: &Change)
    ensures
        final(recorded)@ == change.effect(old(recorded)@),
{
    broadcast use vstd::std_specs::btree::group_btree_axioms;

    match *change {
        Change::Create { key, value } => {
            recorded.insert(key, value);
        },
        Change::Update { key, value } => {
            recorded.insert(key, value);
        },
        Change::Remove { key } => {
            recorded.remove(&key);
        },
    }
}

/// Carries every action of `changes` out on the record, in order.
pub fn apply_changes(recorded: &mut BTreeMap<usize, Address>, changes: &Vec<Change>)
    ensures
        final(recorded)@ == changes_after(old(recorded)@, changes@),
{
    let mut i: usize = 0;
    while i < changes.len()
        invariant
            0 <= i <= changes.len(),
            recorded@ == changes_after(old(recorded)@, changes@.take(i as int)),
        decreases changes.len() - i,
    {
        apply_change(recorded, &changes[i]);
        proof {
            assert(changes@.take(i + 1).drop_last() =~= changes@.take(i as int));
        }
        i += 1;
    }
    proof {
        assert(changes@.take(i as int) =~= changes@);
    }
}

/// The record that a plan leads to: exactly the desired keys, each with its
/// target where the plan creates or compares it, and with its recorded value
/// where the key was recorded and values are not compared.
pub open spec fn settled(
    desired: Set<usize>,
    targets: Map<usize, Address>,
    recorded: Map<usize, Address>,
    compare: bool,
) -> Map<usize, Address> {
    Map::new(
        |k: usize| desired.contains(k),
        |k: usize|
            if compare || !recorded.contains_key(k) {
                targets[k]
            } else {
                recorded[k]
            },
    )
}

/// Carrying out two lists of actions one after the other is carrying out
/// their concatenation.
pub proof fn lemma_changes_after_concat(recorded: Map<usize, Address>, a: Seq<Change>, b: Seq<Change>)
    ensures
        changes_after(recorded, a + b) == changes_after(changes_after(recorded, a), b),
    decreases b.len(),
{
    if b.len() == 0 {
        assert(a + b =~= a);
    } else {
        lemma_changes_after_concat(recorded, a, b.drop_last());
        assert((a + b).drop_last() =~= a + b.drop_last());
        assert((a + b).last() == b.last());
    }
}

/// What the creations and updates over `keys` lead to.
proof fn lemma_upserts_effect(
    keys: Seq<usize>,
    targets: Map<usize, Address>,
    recorded: Map<usize, Address>,
    compare: bool,
)
    ensures
        changes_after(recorded, upserts(keys, targets, recorded, compare)) == Map::new(
            |k: usize| recorded.contains_key(k) || keys.contains(k),
            |k: usize|
                if keys.contains(k) && (compare || !recorded.contains_key(k)) {
                    targets[k]
                } else {
                    recorded[k]
                },
        ),
    decreases keys.len(),
{
    let goal = Map::new(
        |k: usize| recorded.contains_key(k) || keys.contains(k),
        |k: usize|
            if keys.contains(k) && (compare || !recorded.contains_key(k)) {
                targets[k]
            } else {
                recorded[k]
            },
    );
    if keys.len() == 0 {
        assert(changes_after(recorded, upserts(keys, targets, recorded, compare)) =~= goal);
    } else {
        let head = keys.drop_last();
        let key = keys.last();
        lemma_upserts_effect(head, targets, recorded, compare);
        let before = upserts(head, targets, recorded, compare);
        let reached = changes_after(recorded, before);
        assert forall|k: usize| keys.contains(k) <==> (head.contains(k) || k == key) by {
            if keys.contains(k) {
                let i = choose|i: int| 0 <= i < keys.len() && keys[i] == k;
                if i < keys.len() - 1 {
                    assert(head[i] == k);
                }
            }
            if head.contains(k) {
                let i = choose|i: int| 0 <= i < head.len() && head[i] == k;
                assert(keys[i] == k);
            }
            if k == key {
                assert(keys[keys.len() - 1] == k);
            }
        }
        if !recorded.contains_key(key) {
            let step = Change::Create { key, value: targets[key] };
            assert(before.push(step).drop_last() =~= before);
            assert(changes_after(recorded, before.push(step)) == step.effect(reached));
            assert(step.effect(reached) =~= goal);
        } else if compare && recorded[key] != targets[key] {
            let step = Change::Update { key, value: targets[key] };
            assert(before.push(step).drop_last() =~= before);
            assert(changes_after(recorded, before.push(step)) == step.effect(reached));
            assert(step.effect(reached) =~= goal);
        } else {
            assert(reached =~= goal);
        }
    }
}

/// What the removals of `keys` lead to.
proof fn lemma_removals_effect(keys: Seq<usize>, recorded: Map<usize, Address>)
    ensures
        changes_after(recorded, removals(keys)) == recorded.remove_keys(keys.to_set()),
    decreases keys.len(),
{
    if keys.len() == 0 {
        assert(recorded.remove_keys(keys.to_set()) =~= recorded);
    } else {
        let head = keys.drop_last();
        lemma_removals_effect(head, recorded);
        assert(removals(keys).drop_last() =~= removals(head));
        assert(removals(keys).last() == Change::Remove { key: keys.last() });
        assert forall|k: usize| keys.to_set().contains(k) <==> (head.to_set().contains(k) || k == keys.last()) by {
            if keys.contains(k) {
                let i = choose|i: int| 0 <= i < keys.len() && keys[i] == k;
                if i < keys.len() - 1 {
                    assert(head[i] == k);
                }
            }
            if head.contains(k) {
                let i = choose|i: int| 0 <= i < head.len() && head[i] == k;
                assert(keys[i] == k);
            }
            if k == keys.last() {
                assert(keys[keys.len() - 1] == k);
            }
        }
        assert(recorded.remove_keys(head.to_set()).remove(keys.last()) =~= recorded.remove_keys(
            keys.to_set(),
        ));
    }
}

/// Where every key is recorded with the value that is asked of it, nothing
/// is created or updated.
proof fn lemma_upserts_of_settled(
    keys: Seq<usize>,
    targets: Map<usize, Address>,
    recorded: Map<usize, Address>,
    compare: bool,
)
    requires
        forall|i: int|
            0 <= i < keys.len() ==> recorded.contains_key(#[trigger] keys[i]) && (compare ==> recorded[keys[i]]
                == targets[keys[i]]),
    ensures
        upserts(keys, targets, recorded, compare) == Seq::<Change>::empty(),
    decreases keys.len(),
{
    if keys.len() > 0 {
        let head = keys.drop_last();
        assert forall|i: int| 0 <= i < head.len() implies recorded.contains_key(#[trigger] head[i]) && (compare
            ==> recorded[head[i]] == targets[head[i]]) by {
            assert(head[i] == keys[i]);
        }
        lemma_upserts_of_settled(head, targets, recorded, compare);
        assert(recorded.contains_key(keys[keys.len() - 1]));
    }
}

/// Carrying a plan out brings the record to the settled state: the desired
/// keys and no others, each with the value asked of it.
pub proof fn lemma_plan_settles(
    desired: Set<usize>,
    targets: Map<usize, Address>,
    recorded: Map<usize, Address>,
    compare: bool,
)
    requires
        desired.finite(),
        recorded.dom().finite(),
    ensures
        changes_after(recorded, change_plan(desired, targets, recorded, compare)) == settled(
            desired,
            targets,
            recorded,
            compare,
        ),
{
    let keys = ordered(desired);
    let stale = ordered(recorded.dom().difference(desired));
    lemma_ordered_holds(desired);
    lemma_ordered_holds(recorded.dom().difference(desired));
    let ups = upserts(keys, targets, recorded, compare);
    lemma_changes_after_concat(recorded, ups, removals(stale));
    lemma_upserts_effect(keys, targets, recorded, compare);
    let reached = changes_after(recorded, ups);
    lemma_removals_effect(stale, reached);
    let goal = settled(desired, targets, recorded, compare);
    assert forall|k: usize| keys.contains(k) <==> desired.contains(k) by {
        assert(keys.to_set().contains(k) <==> desired.contains(k));
    }
    assert forall|k: usize| stale.to_set().contains(k) <==> (recorded.contains_key(k) && !desired.contains(k)) by {
        assert(recorded.dom().difference(desired).contains(k) <==> (recorded.contains_key(k)
            && !desired.contains(k)));
    }
    assert(reached.remove_keys(stale.to_set()) =~= goal);
}

/// Idempotence: planning again for the same desired state, against the
/// record that the first plan led to, asks for no action at all.
pub proof fn lemma_second_plan_is_empty(
    desired: Set<usize>,
    targets: Map<usize, Address>,
    recorded: Map<usize, Address>,
    compare: bool,
)
    requires
        desired.finite(),
        recorded.dom().finite(),
    ensures
        change_plan(
            desired,
            targets,
            changes_after(recorded, change_plan(desired, targets, recorded, compare)),
            compare,
        ) == Seq::<Change>::empty(),
{
    lemma_plan_settles(desired, targets, recorded, compare);
    let reached = settled(desired, targets, recorded, compare);
    let keys = ordered(desired);
    lemma_ordered_holds(desired);
    assert forall|i: int| 0 <= i < keys.len() implies reached.contains_key(#[trigger] keys[i]) && (compare
        ==> reached[keys[i]] == targets[keys[i]]) by {
        assert(keys.to_set().contains(keys[i]));
    }
    lemma_upserts_of_settled(keys, targets, reached, compare);
    assert(reached.dom().difference(desired) =~= Set::<usize>::empty());
    assert(Seq::<usize>::empty().to_set() =~= Set::<usize>::empty());
    lemma_ordered(Seq::<usize>::empty());
    assert(removals(Seq::<usize>::empty()) =~= Seq::<Change>::empty());
    assert(Seq::<Change>::empty() + Seq::<Change>::empty() =~= Seq::<Change>::empty());
}

/// Splits a record by the wanted keys: what is recorded under a wanted key
/// is kept, the other keys leave the record and are handed back in
/// ascending order.
pub fn retain<V>(recorded: BTreeMap<usize, V>, wanted: &BTreeSet<usize>) -> (r: (BTreeMap<usize, V>, Vec<usize>))
    ensures
        r.0@ == recorded@.restrict(wanted@),
        r.1@ == ordered(recorded@.dom().difference(wanted@)),
{
    broadcast use vstd::std_specs::btree::group_btree_axioms;

    let known = sorted_keys(&recorded);
    let dropped = select(&known, wanted, false);
    proof {
        assert(dropped@.to_set() =~= recorded@.dom().difference(wanted@));
        lemma_ordered(dropped@);
    }
    let mut kept = recorded;
    let mut i: usize = 0;
    while i < dropped.len()
        invariant
            0 <= i <= dropped.len(),
            kept@ == recorded@.remove_keys(dropped@.take(i as int).to_set()),
        decreases dropped.len() - i,
    {
        kept.remove(&dropped[i]);
        proof {
            let s = dropped@;
            assert(s.take(i + 1) =~= s.take(i as int).push(s[i as int]));
            lemma_push_to_set(s.take(i as int), s[i as int]);
            assert(kept@ =~= recorded@.remove_keys(s.take(i + 1).to_set()));
        }
        i += 1;
    }
    proof {
        assert(dropped@.take(i as int) =~= dropped@);
        assert(kept@ =~= recorded@.restrict(wanted@));
    }
    (kept, dropped)
}

} // verus!
