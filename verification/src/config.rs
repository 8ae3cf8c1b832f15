//! The declared configuration: what the operator wants deployed. It is read
//! once and never changed during a run.

use crate::deployment::mtb_utils::ProverMode;
use crate::keys::ascending;
use crate::keys::insert_pair;
use crate::keys::sorted_keys;
use crate::types::BatchSize;
use crate::types::TreeDepth;
use crate::types::H256;
use std::collections::BTreeMap;
use std::collections::BTreeSet;
use vstd::prelude::*;

verus! {

/// The whole configuration: the groups by their identifier, and the settings
/// that hold for all of them.
#[derive(Debug, Clone)]
pub struct Config {
    pub groups: BTreeMap<usize, GroupConfig>,
    pub misc: MiscConfig,
}

/// Settings that hold for every group.
#[derive(Debug, Clone)]
pub struct MiscConfig {
    /// The value of an empty leaf of the accumulator tree.
    pub initial_leaf_value: H256,
}

/// What one group asks for.
#[derive(Debug, Clone)]
pub struct GroupConfig {
    pub tree_depth: TreeDepth,
    /// The batch sizes that the group supports for insertion.
    pub insertion_batch_sizes: Option<Vec<BatchSize>>,
    /// The batch sizes that the group supports for deletion.
    pub deletion_batch_sizes: Option<Vec<BatchSize>>,
    /// Replaces the initial root that would otherwise be computed from the
    /// tree depth and the initial leaf value.
    pub initial_root: Option<H256>,
}

/// The batch sizes that occur in `sizes`, as a set of plain integers.
pub open spec fn sizes_of(sizes: Seq<BatchSize>) -> Set<usize> {
    Set::new(|k: usize| exists|i: int| 0 <= i < sizes.len() && sizes[i].0 == k)
}

/// Listing one more batch size adds it to the set.
pub proof fn lemma_sizes_of_push(sizes: Seq<BatchSize>, size: BatchSize)
    ensures
        sizes_of(sizes.push(size)) == sizes_of(sizes).insert(size.0),
{
    let longer = sizes.push(size);
    assert forall|k: usize| sizes_of(longer).contains(k) <==> sizes_of(sizes).insert(size.0).contains(k) by {
        if sizes_of(longer).contains(k) {
            let j = choose|j: int| 0 <= j < longer.len() && longer[j].0 == k;
            if j < sizes.len() {
                assert(sizes[j].0 == k);
            }
        }
        if sizes_of(sizes).contains(k) {
            let j = choose|j: int| 0 <= j < sizes.len() && sizes[j].0 == k;
            assert(longer[j].0 == k);
        }
        if k == size.0 {
            assert(longer[sizes.len() as int].0 == k);
        }
    }
    assert(sizes_of(longer) =~= sizes_of(sizes).insert(size.0));
}

/// The set of the batch sizes in `sizes`, whatever their order and however
/// often each is listed.
pub fn batch_size_set(sizes: &Vec<BatchSize>) -> (r: BTreeSet<usize>)
    ensures
        r@ == sizes_of(sizes@),
{
    broadcast use vstd::std_specs::btree::group_btree_axioms;

    let mut r: BTreeSet<usize> = BTreeSet::new();
    let mut i: usize = 0;
    assert(sizes_of(sizes@.take(0)) =~= Set::<usize>::empty());
    while i < sizes.len()
        invariant
            0 <= i <= sizes.len(),
            r@ == sizes_of(sizes@.take(i as int)),
        decreases sizes.len() - i,
    {
        r.insert(sizes[i].0);
        proof {
            assert(sizes@.take(i + 1) =~= sizes@.take(i as int).push(sizes@[i as int]));
            lemma_sizes_of_push(sizes@.take(i as int), sizes@[i as int]);
        }
        i += 1;
    }
    assert(sizes@.take(i as int) =~= sizes@);
    r
}

impl GroupConfig {
    /// The batch sizes that the group lists for `mode`, if it lists any.
    pub open spec fn listed(&self, mode: ProverMode) -> Option<Vec<BatchSize>> {
        match mode {
            ProverMode::Insertion => self.insertion_batch_sizes,
            ProverMode::Deletion => self.deletion_batch_sizes,
        }
    }

    /// The batch sizes that the group wants served for `mode`: those it
    /// lists, none where it lists none.
    pub open spec fn desired(&self, mode: ProverMode) -> Set<usize> {
        match self.listed(mode) {
            Some(sizes) => sizes_of(sizes@),
            None => Set::empty(),
        }
    }

    /// The batch sizes that the group lists for `mode`, if it lists any.
    pub fn batch_sizes(&self, mode: ProverMode) -> (r: Option<&Vec<BatchSize>>)
        ensures
            match r {
                Some(sizes) => self.listed(mode) == Some(*sizes),
                None => self.listed(mode) is None,
            },
    {
        match mode {
            ProverMode::Insertion => self.insertion_batch_sizes.as_ref(),
            ProverMode::Deletion => self.deletion_batch_sizes.as_ref(),
        }
    }

    /// The set of batch sizes that the group wants served for `mode`.
    pub fn desired_batch_sizes(&self, mode: ProverMode) -> (r: BTreeSet<usize>)
        ensures
            r@ == self.desired(mode),
    {
        match self.batch_sizes(mode) {
            Some(sizes) => batch_size_set(sizes),
            None => BTreeSet::new(),
        }
    }
}

impl Config {
    /// A copy of the configuration.
    pub fn duplicate(&self) -> (r: Config)
        ensures
            r.groups@ == self.groups@,
            r.misc == self.misc,
    {
        Config {
            groups: self.groups.clone(),
            misc: MiscConfig { initial_leaf_value: self.misc.initial_leaf_value },
        }
    }

    /// Every group lists batch sizes for `mode`.
    pub open spec fn lists_batch_sizes(&self, mode: ProverMode) -> bool {
        forall|g: usize| self.groups@.contains_key(g) ==> (#[trigger] self.groups@[g]).listed(mode) is Some
    }

    /// The verifier variants that the configuration needs for `mode`: each
    /// pair of a tree depth and a batch size that some group asks for.
    pub open spec fn verifier_keys(&self, mode: ProverMode) -> Set<(usize, usize)> {
        Set::new(
            |p: (usize, usize)|
                exists|g: usize|
                    self.groups@.contains_key(g) && (#[trigger] self.groups@[g]).tree_depth.0 == p.0
                        && self.groups@[g].desired(mode).contains(p.1),
        )
    }

    /// The identifiers of the declared groups, in ascending order.
    pub fn group_ids(&self) -> (r: Vec<usize>)
        ensures
            ascending(r@),
            r@.to_set() == self.groups@.dom(),
    {
        sorted_keys(&self.groups)
    }

    /// Whether every group lists batch sizes for `mode`.
    pub fn has_batch_sizes(&self, mode: ProverMode) -> (r: bool)
        ensures
            r == self.lists_batch_sizes(mode),
    {
        broadcast use vstd::std_specs::btree::group_btree_axioms;

        let ids = self.group_ids();
        let mut i: usize = 0;
        while i < ids.len()
            invariant
                0 <= i <= ids.len(),
                ids@.to_set() == self.groups@.dom(),
                forall|j: int| 0 <= j < i ==> (#[trigger] self.groups@[ids@[j]]).listed(mode) is Some,
            decreases ids.len() - i,
        {
            assert(ids@.to_set().contains(ids@[i as int]));
            let group = self.groups.get(&ids[i]).unwrap();
            if group.batch_sizes(mode).is_none() {
                return false;
            }
            i += 1;
        }
        assert forall|g: usize| self.groups@.contains_key(g) implies (#[trigger] self.groups@[g]).listed(mode) is Some by {
            assert(ids@.to_set().contains(g));
            let j = choose|j: int| 0 <= j < ids@.len() && ids@[j] == g;
            assert(self.groups@[ids@[j]].listed(mode) is Some);
        }
        true
    }

    /// The pairs of tree depth and batch size for which `mode` needs a
    /// verifier, each once.
    pub fn unique_tree_depths_and_batch_sizes(&self, mode: ProverMode) -> (r: BTreeSet<(usize, usize)>)
        requires
            self.lists_batch_sizes(mode),
        ensures
            r@ == self.verifier_keys(mode),
    {
        broadcast use vstd::std_specs::btree::group_btree_axioms;

        let mut result: BTreeSet<(usize, usize)> = BTreeSet::new();
        let ids = self.group_ids();
        let mut i: usize = 0;
        while i < ids.len()
            invariant
                0 <= i <= ids.len(),
                ids@.to_set() == self.groups@.dom(),
                self.lists_batch_sizes(mode),
                forall|p: (usize, usize)|
                    #![trigger result@.contains(p)]
                    result@.contains(p) <==> exists|j: int|
                        0 <= j < i && (#[trigger] self.groups@[ids@[j]]).tree_depth.0 == p.0
                            && self.groups@[ids@[j]].desired(mode).contains(p.1),
            decreases ids.len() - i,
        {
            assert(ids@.to_set().contains(ids@[i as int]));
            let group = self.groups.get(&ids[i]).unwrap();
            let sizes = group.batch_sizes(mode).unwrap();
            let depth = group.tree_depth.0;
            let ghost before = result@;
            let mut n: usize = 0;
            assert(sizes_of(sizes@.take(0)) =~= Set::<usize>::empty());
            while n < sizes.len()
                invariant
                    0 <= n <= sizes.len(),
                    forall|p: (usize, usize)|
                        #![trigger result@.contains(p)]
                        result@.contains(p) <==> (before.contains(p) || (p.0 == depth && sizes_of(
                            sizes@.take(n as int),
                        ).contains(p.1))),
                decreases sizes.len() - n,
            {
                insert_pair(&mut result, (depth, sizes[n].0));
                proof {
                    assert(sizes@.take(n + 1) =~= sizes@.take(n as int).push(sizes@[n as int]));
                    lemma_sizes_of_push(sizes@.take(n as int), sizes@[n as int]);
                }
                n += 1;
            }
            assert(sizes@.take(n as int) =~= sizes@);
            proof {
                assert forall|p: (usize, usize)|
                    result@.contains(p) <==> exists|j: int|
                        0 <= j < i + 1 && (#[trigger] self.groups@[ids@[j]]).tree_depth.0 == p.0
                            && self.groups@[ids@[j]].desired(mode).contains(p.1) by {
                    if result@.contains(p) {
                        if before.contains(p) {
                            let j = choose|j: int|
                                0 <= j < i && (#[trigger] self.groups@[ids@[j]]).tree_depth.0 == p.0
                                    && self.groups@[ids@[j]].desired(mode).contains(p.1);
                            assert(0 <= j < i + 1);
                        } else {
                            assert(self.groups@[ids@[i as int]].tree_depth.0 == p.0);
                        }
                    }
                    if exists|j: int|
                        0 <= j < i + 1 && (#[trigger] self.groups@[ids@[j]]).tree_depth.0 == p.0
                            && self.groups@[ids@[j]].desired(mode).contains(p.1) {
                        let j = choose|j: int|
                            0 <= j < i + 1 && (#[trigger] self.groups@[ids@[j]]).tree_depth.0 == p.0
                                && self.groups@[ids@[j]].desired(mode).contains(p.1);
                        if j < i {
                            assert(before.contains(p));
                        }
                    }
                }
            }
            i += 1;
        }
        proof {
            assert forall|p: (usize, usize)| result@.contains(p) <==> self.verifier_keys(mode).contains(p) by {
                if result@.contains(p) {
                    let j = choose|j: int|
                        0 <= j < i && (#[trigger] self.groups@[ids@[j]]).tree_depth.0 == p.0
                            && self.groups@[ids@[j]].desired(mode).contains(p.1);
                    assert(ids@.to_set().contains(ids@[j]));
                }
                if self.verifier_keys(mode).contains(p) {
                    let g = choose|g: usize|
                        self.groups@.contains_key(g) && (#[trigger] self.groups@[g]).tree_depth.0 == p.0
                            && self.groups@[g].desired(mode).contains(p.1);
                    assert(ids@.to_set().contains(g));
                    let j = choose|j: int| 0 <= j < ids@.len() && ids@[j] == g;
                    assert(self.groups@[ids@[j]].tree_depth.0 == p.0);
                }
            }
            assert(result@ =~= self.verifier_keys(mode));
        }
        result
    }
}

} // verus!
