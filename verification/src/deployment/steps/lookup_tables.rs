//! The lookup tables: for each group one table per kind, and in each table
//! the verifier that serves each batch size.

use crate::config::Config;
use crate::config::GroupConfig;
use crate::deployment::deployment_context::DeploymentContext;
use crate::deployment::deployment_context::CONTRACTS_DIR;
use crate::deployment::mtb_utils::ProverMode;
use crate::forge_utils::create::ForgeCreate;
use crate::deployment::steps::verifiers::Verifiers;
use crate::error::Dependency;
use crate::error::DeployError;
use crate::error::Warning;
use crate::ethers_utils::Call;
use crate::ethers_utils::Transaction;
use crate::keys::ordered;
use crate::keys::sorted_keys;
use crate::reconcile::apply_change;
use crate::reconcile::change_plan;
use crate::reconcile::plan_changes;
use crate::reconcile::unresolved;
use crate::reconcile::Change;
use crate::report::contract_deployment::ContractDeployment;
use crate::types::Address;
use crate::types::BatchSize;
use crate::types::GroupId;
use crate::types::TreeDepth;
use std::collections::BTreeMap;
use vstd::prelude::*;

verus! {

/// The three lookup tables that a group owns.
#[derive(Debug, Clone, Copy, PartialEq, Eq, Structural)]
pub enum TableKind {
    Insert,
    Update,
    Delete,
}

/// The lookup tables of all groups.
#[derive(Debug, Clone)]
pub struct LookupTables {
    pub groups: BTreeMap<usize, GroupLookupTables>,
}

/// The lookup tables of one group; each is absent until it is deployed.
#[derive(Debug, Clone)]
pub struct GroupLookupTables {
    pub insert: Option<LookupTable>,
    pub update: Option<LookupTable>,
    pub delete: Option<LookupTable>,
}

/// One deployed lookup table, with the verifier that it holds for each
/// batch size.
#[derive(Debug, Clone)]
pub struct LookupTable {
    pub deployment: ContractDeployment,
    pub entries: BTreeMap<usize, Address>,
}

/// The kind of table that holds the verifiers of `mode`.
pub open spec fn spec_table_of(mode: ProverMode) -> TableKind {
    match mode {
        ProverMode::Insertion => TableKind::Insert,
        ProverMode::Deletion => TableKind::Delete,
    }
}

/// The kind of table that holds the verifiers of `mode`.
#[verifier::when_used_as_spec(spec_table_of)]
pub fn table_of(mode: ProverMode) -> (r: TableKind)
    ensures
        r == spec_table_of(mode),
{
    match mode {
        ProverMode::Insertion => TableKind::Insert,
        ProverMode::Deletion => TableKind::Delete,
    }
}

impl LookupTable {
    /// A table that was just deployed: it holds no verifier yet.
    pub fn new(deployment: ContractDeployment) -> (r: Self)
        ensures
            r.deployment == deployment,
            r.entries@ == Map::<usize, Address>::empty(),
    {
        Self { deployment, entries: BTreeMap::new() }
    }
}

impl GroupLookupTables {
    /// A group none of whose tables is deployed.
    pub fn new() -> (r: Self)
        ensures
            r.insert is None,
            r.update is None,
            r.delete is None,
    {
        Self { insert: None, update: None, delete: None }
    }

    /// The table of the given kind, if it is deployed.
    pub open spec fn slot(&self, kind: TableKind) -> Option<LookupTable> {
        match kind {
            TableKind::Insert => self.insert,
            TableKind::Update => self.update,
            TableKind::Delete => self.delete,
        }
    }

    /// The table of the given kind, if it is deployed.
    pub fn table(&self, kind: TableKind) -> (r: Option<&LookupTable>)
        ensures
            match r {
                Some(t) => self.slot(kind) == Some(*t),
                None => self.slot(kind) is None,
            },
    {
        match kind {
            TableKind::Insert => self.insert.as_ref(),
            TableKind::Update => self.update.as_ref(),
            TableKind::Delete => self.delete.as_ref(),
        }
    }

    /// The kinds of table that are still to be deployed, in the order
    /// insert, update, delete.
    pub open spec fn spec_missing(&self) -> Seq<TableKind> {
        (if self.insert is None {
            seq![TableKind::Insert]
        } else {
            Seq::empty()
        }) + (if self.update is None {
            seq![TableKind::Update]
        } else {
            Seq::empty()
        }) + (if self.delete is None {
            seq![TableKind::Delete]
        } else {
            Seq::empty()
        })
    }

    /// The kinds of table that are still to be deployed.
    pub fn missing(&self) -> (r: Vec<TableKind>)
        ensures
            r@ == self.spec_missing(),
    {
        let mut r: Vec<TableKind> = Vec::new();
        if self.insert.is_none() {
            r.push(TableKind::Insert);
        }
        if self.update.is_none() {
            r.push(TableKind::Update);
        }
        if self.delete.is_none() {
            r.push(TableKind::Delete);
        }
        assert(r@ =~= self.spec_missing());
        r
    }

    /// Takes a freshly deployed table into the record. A table that is
    /// already recorded is never replaced: then nothing changes and the
    /// result is `false`.
    pub fn install(&mut self, kind: TableKind, deployment: ContractDeployment) -> (installed: bool)
        ensures
            installed == old(self).slot(kind) is None,
            !installed ==> *final(self) == *old(self),
            installed ==> {
                &&& final(self).slot(kind) is Some
                &&& final(self).slot(kind)->0.deployment == deployment
                &&& final(self).slot(kind)->0.entries@ == Map::<usize, Address>::empty()
                &&& forall|other: TableKind| other != kind ==> final(self).slot(other) == old(self).slot(other)
            },
    {
        match kind {
            TableKind::Insert => {
                if self.insert.is_none() {
                    self.insert = Some(LookupTable::new(deployment));
                    true
                } else {
                    false
                }
            },
            TableKind::Update => {
                if self.update.is_none() {
                    self.update = Some(LookupTable::new(deployment));
                    true
                } else {
                    false
                }
            },
            TableKind::Delete => {
                if self.delete.is_none() {
                    self.delete = Some(LookupTable::new(deployment));
                    true
                } else {
                    false
                }
            },
        }
    }
}

/// The tables that all groups of `groups` still miss, group by group.
pub open spec fn missing_tables(groups: Seq<usize>, tables: Map<usize, GroupLookupTables>) -> Seq<
    (GroupId, TableKind),
>
    decreases groups.len(),
{
    if groups.len() == 0 {
        Seq::empty()
    } else {
        missing_tables(groups.drop_last(), tables) + tables[groups.last()].spec_missing().map_values(
            |kind: TableKind| (GroupId(groups.last()), kind),
        )
    }
}

/// One warning for each group of `groups`.
pub open spec fn stale_groups(groups: Seq<usize>) -> Seq<Warning> {
    Seq::new(groups.len(), |i: int| Warning::StaleLookupTables(GroupId(groups[i])))
}

/// The tables of a run, before anything is deployed: for each declared
/// group what the report records of it, and an empty set of tables for a
/// group that the report does not know.
pub open spec fn adopted(config: Map<usize, GroupConfig>, recorded: Map<usize, GroupLookupTables>) -> Map<
    usize,
    GroupLookupTables,
> {
    Map::new(
        |g: usize| config.contains_key(g),
        |g: usize|
            if recorded.contains_key(g) {
                recorded[g]
            } else {
                GroupLookupTables { insert: None, update: None, delete: None }
            },
    )
}

/// The groups whose tables the report records, if it records any.
pub open spec fn known_groups(recorded: Option<LookupTables>) -> Map<usize, GroupLookupTables> {
    match recorded {
        Some(t) => t.groups@,
        None => Map::empty(),
    }
}

/// Starts the stage: takes over the recorded tables of every declared
/// group, and gives every new group an empty set of tables.
///
/// Tables of groups that are no longer declared are not touched on chain:
/// they leave the record and come back as warnings, in ascending order of
/// the group.
pub fn deploy(config: &Config, recorded: Option<LookupTables>) -> (r: (LookupTables, Vec<Warning>))
    ensures
        r.0.groups@ == adopted(config.groups@, known_groups(recorded)),
        r.1@ == stale_groups(ordered(known_groups(recorded).dom().difference(config.groups@.dom()))),
{
    broadcast use vstd::std_specs::btree::group_btree_axioms;

    let mut rest: BTreeMap<usize, GroupLookupTables> = match recorded {
        Some(t) => t.groups,
        None => BTreeMap::new(),
    };
    let ghost known: Map<usize, GroupLookupTables> = rest@;
    let ids = config.group_ids();
    let mut groups: BTreeMap<usize, GroupLookupTables> = BTreeMap::new();
    let mut i: usize = 0;
    while i < ids.len()
        invariant
            0 <= i <= ids.len(),
            vstd::prelude::Seq::<usize>::to_set(ids@) == config.groups@.dom(),
            crate::keys::ascending(ids@),
            forall|g: usize|
                #![trigger groups@.contains_key(g)]
                groups@.contains_key(g) <==> exists|j: int| 0 <= j < i && ids@[j] == g,
            forall|g: usize|
                #![trigger groups@[g]]
                groups@.contains_key(g) ==> groups@[g] == adopted(config.groups@, known)[g],
            forall|g: usize|
                #![trigger rest@.contains_key(g)]
                rest@.contains_key(g) <==> known.contains_key(g) && !(exists|j: int|
                    0 <= j < i && ids@[j] == g),
            forall|g: usize| #![trigger rest@[g]] rest@.contains_key(g) ==> rest@[g] == known[g],
        decreases ids.len() - i,
    {
        let id = ids[i];
        let ghost groups_before = groups@;
        let ghost rest_before = rest@;
        assert(ids@.to_set().contains(ids@[i as int]));
        assert(!(exists|j: int| 0 <= j < i && ids@[j] == id)) by {
            if exists|j: int| 0 <= j < i && ids@[j] == id {
                let j = choose|j: int| 0 <= j < i && ids@[j] == id;
                assert(ids@[j] < ids@[i as int]);
            }
        }
        let tables = match rest.remove(&id) {
            Some(found) => found,
            None => GroupLookupTables::new(),
        };
        groups.insert(id, tables);
        i += 1;
        proof {
            assert forall|g: usize|
                #![trigger groups@.contains_key(g)]
                groups@.contains_key(g) <==> exists|j: int| 0 <= j < i && ids@[j] == g by {
                if groups@.contains_key(g) {
                    if groups_before.contains_key(g) {
                        let j = choose|j: int| 0 <= j < i - 1 && ids@[j] == g;
                        assert(0 <= j < i && ids@[j] == g);
                    } else {
                        assert(ids@[i - 1] == g);
                    }
                }
                if exists|j: int| 0 <= j < i && ids@[j] == g {
                    let j = choose|j: int| 0 <= j < i && ids@[j] == g;
                    if j < i - 1 {
                        assert(groups_before.contains_key(g));
                    }
                }
            }
            assert forall|g: usize|
                #![trigger rest@.contains_key(g)]
                rest@.contains_key(g) <==> known.contains_key(g) && !(exists|j: int|
                    0 <= j < i && ids@[j] == g) by {
                if rest@.contains_key(g) {
                    assert(rest_before.contains_key(g));
                    if exists|j: int| 0 <= j < i && ids@[j] == g {
                        let j = choose|j: int| 0 <= j < i && ids@[j] == g;
                        if j < i - 1 {
                            assert(0 <= j < i - 1 && ids@[j] == g);
                        }
                    }
                }
                if known.contains_key(g) && !(exists|j: int| 0 <= j < i && ids@[j] == g) {
                    if exists|j: int| 0 <= j < i - 1 && ids@[j] == g {
                        let j = choose|j: int| 0 <= j < i - 1 && ids@[j] == g;
                        assert(0 <= j < i && ids@[j] == g);
                    }
                    assert(g != id) by {
                        if g == id {
                            assert(0 <= i - 1 < i && ids@[i - 1] == g);
                        }
                    }
                    assert(rest_before.contains_key(g));
                }
            }
        }
    }
    let left = sorted_keys(&rest);
    let mut warnings: Vec<Warning> = Vec::new();
    let mut n: usize = 0;
    while n < left.len()
        invariant
            0 <= n <= left.len(),
            warnings@ == stale_groups(left@.take(n as int)),
        decreases left.len() - n,
    {
        warnings.push(Warning::StaleLookupTables(GroupId(left[n])));
        proof {
            assert(warnings@ =~= stale_groups(left@.take(n + 1)));
        }
        n += 1;
    }
    proof {
        assert(left@.take(n as int) =~= left@);
        let stale = known.dom().difference(config.groups@.dom());
        assert forall|g: usize| rest@.dom().contains(g) <==> stale.contains(g) by {
            if rest@.contains_key(g) {
                if config.groups@.contains_key(g) {
                    assert(ids@.to_set().contains(g));
                    let j = choose|j: int| 0 <= j < ids@.len() && ids@[j] == g;
                    assert(0 <= j < i && ids@[j] == g);
                }
            }
            if stale.contains(g) {
                if exists|j: int| 0 <= j < i && ids@[j] == g {
                    let j = choose|j: int| 0 <= j < i && ids@[j] == g;
                    assert(ids@.to_set().contains(ids@[j]));
                }
            }
        }
        assert(rest@.dom() =~= stale);
        assert forall|g: usize| groups@.contains_key(g) <==> config.groups@.contains_key(g) by {
            if groups@.contains_key(g) {
                let j = choose|j: int| 0 <= j < i && ids@[j] == g;
                assert(ids@.to_set().contains(ids@[j]));
            }
            if config.groups@.contains_key(g) {
                assert(ids@.to_set().contains(g));
                let j = choose|j: int| 0 <= j < ids@.len() && ids@[j] == g;
                assert(0 <= j < i && ids@[j] == g);
            }
        }
        assert(groups@ =~= adopted(config.groups@, known));
    }
    (LookupTables { groups }, warnings)
}

impl LookupTables {
    /// The tables that are still to be deployed, group by group in ascending
    /// order, and for each group in the order insert, update, delete.
    pub fn deploy_lookup_tables(&self) -> (r: Vec<(GroupId, TableKind)>)
        ensures
            r@ == missing_tables(ordered(self.groups@.dom()), self.groups@),
    {
        broadcast use vstd::std_specs::btree::group_btree_axioms;

        let ids = sorted_keys(&self.groups);
        let mut out: Vec<(GroupId, TableKind)> = Vec::new();
        let mut i: usize = 0;
        while i < ids.len()
            invariant
                0 <= i <= ids.len(),
                ids@.to_set() == self.groups@.dom(),
                out@ == missing_tables(ids@.take(i as int), self.groups@),
            decreases ids.len() - i,
        {
            let id = ids[i];
            assert(ids@.to_set().contains(ids@[i as int]));
            let ghost before = out@;
            let kinds = self.groups.get(&id).unwrap().missing();
            let ghost tagged = kinds@.map_values(|kind: TableKind| (GroupId(id), kind));
            let mut n: usize = 0;
            while n < kinds.len()
                invariant
                    0 <= n <= kinds.len(),
                    tagged == kinds@.map_values(|kind: TableKind| (GroupId(id), kind)),
                    out@ == before + tagged.take(n as int),
                decreases kinds.len() - n,
            {
                out.push((GroupId(id), kinds[n]));
                proof {
                    assert(tagged.take(n + 1) =~= tagged.take(n as int).push(tagged[n as int]));
                    assert(out@ =~= before + tagged.take(n + 1));
                }
                n += 1;
            }
            proof {
                assert(tagged.take(n as int) =~= tagged);
                assert(ids@.take(i + 1).drop_last() =~= ids@.take(i as int));
                assert(ids@.take(i + 1).last() == id);
            }
            i += 1;
        }
        proof {
            assert(ids@.take(i as int) =~= ids@);
        }
        out
    }

    /// Takes a freshly deployed table of a group into the record.
    ///
    /// Fails where the group has no place in the record. A table that is
    /// already recorded stays as it is.
    pub fn install(&mut self, group_id: GroupId, kind: TableKind, deployment: ContractDeployment) -> (r: Result<
        bool,
        DeployError,
    >)
        ensures
            match r {
                Ok(installed) => {
                    &&& old(self).groups@.contains_key(group_id.0)
                    &&& installed == old(self).groups@[group_id.0].slot(kind) is None
                    &&& final(self).groups@.dom() == old(self).groups@.dom()
                    &&& forall|g: usize|
                        g != group_id.0 && old(self).groups@.contains_key(g) ==> #[trigger] final(self).groups@[g]
                            == old(self).groups@[g]
                    &&& !installed ==> final(self).groups@ == old(self).groups@
                    &&& installed ==> {
                        let now = final(self).groups@[group_id.0];
                        &&& now.slot(kind) is Some
                        &&& now.slot(kind)->0.deployment == deployment
                        &&& now.slot(kind)->0.entries@ == Map::<usize, Address>::empty()
                        &&& forall|other: TableKind|
                            other != kind ==> now.slot(other) == old(self).groups@[group_id.0].slot(other)
                    }
                },
                Err(e) => {
                    &&& !old(self).groups@.contains_key(group_id.0)
                    &&& e == DeployError::MissingDependency(Dependency::GroupLookupTables(group_id))
                    &&& final(self).groups@ == old(self).groups@
                },
            },
    {
        broadcast use vstd::std_specs::btree::group_btree_axioms;

        match self.groups.remove(&group_id.0) {
            Some(mut group) => {
                let installed = group.install(kind, deployment);
                self.groups.insert(group_id.0, group);
                proof {
                    assert(final(self).groups@.dom() =~= old(self).groups@.dom());
                    if !installed {
                        assert(final(self).groups@ =~= old(self).groups@);
                    }
                }
                Ok(installed)
            },
            None => {
                assert(final(self).groups@ =~= old(self).groups@);
                Err(DeployError::MissingDependency(Dependency::GroupLookupTables(group_id)))
            },
        }
    }

    /// Carries one action out on the entries of a table of a group.
    ///
    /// Fails where the group or its table of that kind is not recorded.
    pub fn apply_entry(&mut self, group_id: GroupId, kind: TableKind, change: &Change) -> (r: Result<
        (),
        DeployError,
    >)
        ensures
            match r {
                Ok(()) => {
                    &&& old(self).groups@.contains_key(group_id.0)
                    &&& old(self).groups@[group_id.0].slot(kind) is Some
                    &&& final(self).groups@.dom() == old(self).groups@.dom()
                    &&& forall|g: usize|
                        g != group_id.0 && old(self).groups@.contains_key(g) ==> #[trigger] final(self).groups@[g]
                            == old(self).groups@[g]
                    &&& {
                        let now = final(self).groups@[group_id.0];
                        let before = old(self).groups@[group_id.0];
                        &&& now.slot(kind) is Some
                        &&& now.slot(kind)->0.deployment == before.slot(kind)->0.deployment
                        &&& now.slot(kind)->0.entries@ == change.effect(before.slot(kind)->0.entries@)
                        &&& forall|other: TableKind| other != kind ==> now.slot(other) == before.slot(other)
                    }
                },
                Err(e) => {
                    &&& final(self).groups@ == old(self).groups@
                    &&& if !old(self).groups@.contains_key(group_id.0) {
                        e == DeployError::MissingDependency(Dependency::GroupLookupTables(group_id))
                    } else {
                        &&& old(self).groups@[group_id.0].slot(kind) is None
                        &&& e == DeployError::MissingDependency(Dependency::LookupTable(group_id, kind))
                    }
                },
            },
    {
        broadcast use vstd::std_specs::btree::group_btree_axioms;

        match self.groups.remove(&group_id.0) {
            Some(mut group) => {
                let taken = match kind {
                    TableKind::Insert => group.insert.take(),
                    TableKind::Update => group.update.take(),
                    TableKind::Delete => group.delete.take(),
                };
                match taken {
                    Some(mut table) => {
                        apply_change(&mut table.entries, change);
                        match kind {
                            TableKind::Insert => {
                                group.insert = Some(table);
                            },
                            TableKind::Update => {
                                group.update = Some(table);
                            },
                            TableKind::Delete => {
                                group.delete = Some(table);
                            },
                        }
                        self.groups.insert(group_id.0, group);
                        proof {
                            assert(final(self).groups@.dom() =~= old(self).groups@.dom());
                        }
                        Ok(())
                    },
                    None => {
                        self.groups.insert(group_id.0, group);
                        proof {
                            assert(group == old(self).groups@[group_id.0]);
                            assert(final(self).groups@ =~= old(self).groups@);
                        }
                        Err(DeployError::MissingDependency(Dependency::LookupTable(group_id, kind)))
                    },
                }
            },
            None => {
                assert(final(self).groups@ =~= old(self).groups@);
                Err(DeployError::MissingDependency(Dependency::GroupLookupTables(group_id)))
            },
        }
    }
}

/// Plans the entries of one table of a group: a registration for each batch
/// size that the group wants for `mode` and the table lacks, then a removal
/// for each batch size that the table holds and the group no longer wants,
/// each part in ascending order of the batch size. Batch sizes on which
/// configuration and table agree are left alone, whatever verifier the table
/// holds for them.
///
/// Fails where a batch size is to be registered and `verifiers` holds no
/// verifier for it at the group's tree depth; the error names the least such
/// batch size.
pub fn update_lookup_table(
    verifiers: &Verifiers,
    group_config: &GroupConfig,
    table: &LookupTable,
    mode: ProverMode,
) -> (r: Result<Vec<Change>, DeployError>)
    ensures
        match r {
            Ok(changes) => {
                &&& forall|b: usize|
                    group_config.desired(mode).contains(b) ==> !unresolved(
                        b,
                        verifiers.addresses(group_config.tree_depth.0),
                        table.entries@,
                        false,
                    )
                &&& changes@ == change_plan(
                    group_config.desired(mode),
                    verifiers.addresses(group_config.tree_depth.0),
                    table.entries@,
                    false,
                )
            },
            Err(e) => exists|b: usize|
                {
                    &&& e == DeployError::MissingDependency(
                        Dependency::Verifier(mode, group_config.tree_depth, BatchSize(b)),
                    )
                    &&& group_config.desired(mode).contains(b)
                    &&& unresolved(b, verifiers.addresses(group_config.tree_depth.0), table.entries@, false)
                    &&& forall|k: usize|
                        group_config.desired(mode).contains(k) && k < b ==> !unresolved(
                            k,
                            verifiers.addresses(group_config.tree_depth.0),
                            table.entries@,
                            false,
                        )
                },
        },
{
    let desired = group_config.desired_batch_sizes(mode);
    let targets = verifiers.for_depth(group_config.tree_depth);
    match plan_changes(&desired, &targets, &table.entries, false) {
        Ok(changes) => Ok(changes),
        Err(b) => Err(
            DeployError::MissingDependency(Dependency::Verifier(mode, group_config.tree_depth, BatchSize(b))),
        ),
    }
}

/// The transaction that registers the verifier for `batch_size` in the
/// lookup table at `lookup_table_address`.
///
/// Fails where `verifiers` holds no verifier for the tree depth and batch
/// size.
pub fn associate_group_batch_size_verifier(
    lookup_table_address: Address,
    tree_depth: TreeDepth,
    batch_size: BatchSize,
    verifiers: &Verifiers,
    mode: ProverMode,
) -> (r: Result<Transaction, DeployError>)
    ensures
        r == if verifiers.verifiers@.contains_key((tree_depth.0, batch_size.0)) {
            Ok::<Transaction, DeployError>(
                Transaction {
                    to: lookup_table_address,
                    call: Call::UpdateVerifier {
                        batch_size: batch_size.0 as u64,
                        verifier: verifiers.verifiers@[(tree_depth.0, batch_size.0)].deployment.address,
                    },
                },
            )
        } else {
            Err(DeployError::MissingDependency(Dependency::Verifier(mode, tree_depth, batch_size)))
        },
{
    match verifiers.find(tree_depth, batch_size) {
        Some(verifier) => Ok(
            Transaction {
                to: lookup_table_address,
                call: Call::UpdateVerifier {
                    batch_size: batch_size.0 as u64,
                    verifier: verifier.deployment.address,
                },
            },
        ),
        None => Err(DeployError::MissingDependency(Dependency::Verifier(mode, tree_depth, batch_size))),
    }
}

/// The transaction that disables `batch_size` in the lookup table at
/// `lookup_table_address`.
pub fn remove_group_batch_size_verifier(lookup_table_address: Address, batch_size: BatchSize) -> (r:
    Transaction)
    ensures
        r == (Transaction {
            to: lookup_table_address,
            call: Call::DisableVerifier { batch_size: batch_size.0 as u64 },
        }),
{
    Transaction { to: lookup_table_address, call: Call::DisableVerifier { batch_size: batch_size.0 as u64 } }
}

/// The transaction of one planned action on the entries of the lookup table
/// at `lookup_table_address`.
pub open spec fn spec_entry_transaction(lookup_table_address: Address, change: Change) -> Transaction {
    match change {
        Change::Create { key, value } => Transaction {
            to: lookup_table_address,
            call: Call::UpdateVerifier { batch_size: key as u64, verifier: value },
        },
        Change::Update { key, value } => Transaction {
            to: lookup_table_address,
            call: Call::UpdateVerifier { batch_size: key as u64, verifier: value },
        },
        Change::Remove { key } => Transaction {
            to: lookup_table_address,
            call: Call::DisableVerifier { batch_size: key as u64 },
        },
    }
}

/// The transaction of one planned action on the entries of the lookup table
/// at `lookup_table_address`.
pub fn entry_transaction(lookup_table_address: Address, change: &Change) -> (r: Transaction)
    ensures
        r == spec_entry_transaction(lookup_table_address, *change),
{
    match *change {
        Change::Create { key, value } => Transaction {
            to: lookup_table_address,
            call: Call::UpdateVerifier { batch_size: key as u64, verifier: value },
        },
        Change::Update { key, value } => Transaction {
            to: lookup_table_address,
            call: Call::UpdateVerifier { batch_size: key as u64, verifier: value },
        },
        Change::Remove { key } => remove_group_batch_size_verifier(lookup_table_address, BatchSize(key)),
    }
}

/// The request to deploy one lookup table, under the next nonce of the
/// run.
pub fn deploy_lookup_table(context: &mut DeploymentContext) -> (r: ForgeCreate)
    ensures
        old(context).is_issued(r),
        final(context).has_issued_after(*old(context)),
        r.contract_spec.path is None,
        r.contract_spec.name@ == "VerifierLookupTable"@,
        r.cwd is Some,
        r.cwd->0@ == CONTRACTS_DIR@,
        r.override_contract_source is None,
        r.constructor_args@.len() == 0,
        r.external_deps@.len() == 0,
        !r.skip_verification,
{
    context.create_contract("VerifierLookupTable")
}

/// No table is deployed twice: where every group has its three tables,
/// nothing is left to deploy.
pub proof fn lemma_complete_tables_miss_nothing(groups: Seq<usize>, tables: Map<usize, GroupLookupTables>)
    requires
        forall|i: int|
            0 <= i < groups.len() ==> {
                &&& (#[trigger] tables[groups[i]]).insert is Some
                &&& tables[groups[i]].update is Some
                &&& tables[groups[i]].delete is Some
            },
    ensures
        missing_tables(groups, tables) == Seq::<(GroupId, TableKind)>::empty(),
    decreases groups.len(),
{
    if groups.len() > 0 {
        let head = groups.drop_last();
        assert forall|i: int| 0 <= i < head.len() implies {
            &&& (#[trigger] tables[head[i]]).insert is Some
            &&& tables[head[i]].update is Some
            &&& tables[head[i]].delete is Some
        } by {
            assert(head[i] == groups[i]);
        }
        lemma_complete_tables_miss_nothing(head, tables);
        let last = tables[groups[groups.len() - 1]];
        assert(last.spec_missing() =~= Seq::<TableKind>::empty());
        assert(last.spec_missing().map_values(|kind: TableKind| (GroupId(groups.last()), kind)) =~= Seq::<
            (GroupId, TableKind),
        >::empty());
    }
}

} // verus!
