//! The identity managers: one upgradeable proxy per group, driven from
//! absent over the first implementation to the second.

use crate::config::Config;
use crate::config::GroupConfig;
use crate::deployment::deployment_context::DeploymentContext;
use crate::deployment::deployment_context::CONTRACTS_DIR;
use crate::deployment::steps::lookup_tables::GroupLookupTables;
use crate::forge_utils::create::texts;
use crate::forge_utils::create::ForgeCreate;
use crate::deployment::steps::lookup_tables::LookupTables;
use crate::deployment::steps::semaphore_verifier::SemaphoreVerifierDeployment;
use crate::error::ConfigIssue;
use crate::error::Dependency;
use crate::error::DeployError;
use crate::deployment::steps::lookup_tables::TableKind;
use crate::error::Warning;
use crate::ethers_utils::Call;
use crate::ethers_utils::Transaction;
use crate::keys::ordered;
use crate::keys::key_set;
use crate::keys::sorted_keys;
use crate::reconcile::retain;
use crate::report::contract_deployment::ContractDeployment;
use crate::types::Address;
use crate::types::GroupId;
use crate::types::TreeDepth;
use crate::types::H256;
use std::collections::BTreeMap;
use vstd::prelude::*;

verus! {

/// The identity managers of all groups.
#[derive(Debug, Clone)]
pub struct WorldIDIdentityManagersDeployment {
    pub groups: BTreeMap<usize, WorldIdIdentityManagerDeployment>,
}

/// The identity manager of one group: its proxy, and the implementation
/// that the proxy currently runs.
#[derive(Debug, Clone, Copy, PartialEq, Eq)]
pub struct WorldIdIdentityManagerDeployment {
    pub impl_v1_deployment: Option<ContractDeployment>,
    pub impl_v2_deployment: Option<ContractDeployment>,
    pub proxy_deployment: ContractDeployment,
}

/// Where the identity manager of a group stands.
#[derive(Debug, Clone, Copy, PartialEq, Eq)]
pub enum ManagerState {
    /// Nothing is deployed.
    Absent,
    /// The proxy runs the first implementation.
    V1Deployed,
    /// The proxy runs the second implementation: nothing is left to do.
    UpgradedToV2,
}

/// Where the initial root of a group's tree comes from.
#[derive(Debug, Clone, Copy, PartialEq, Eq)]
pub enum InitialRoot {
    /// The configuration gives it.
    Given(H256),
    /// It is the root of the empty tree of this depth and leaf value.
    Computed { tree_depth: TreeDepth, initial_leaf_value: H256 },
}

/// How far the work on one group's identity manager has come within a run.
#[derive(Debug, Clone, Copy, PartialEq, Eq)]
pub enum ManagerProgress {
    /// Nothing is deployed.
    Start,
    /// The first implementation is deployed, the proxy is not.
    ImplV1 { impl_v1: ContractDeployment },
    /// Proxy and first implementation are deployed and set up.
    V1Deployed { deployment: WorldIdIdentityManagerDeployment },
    /// The second implementation is deployed; the proxy still runs the first.
    ImplV2 { deployment: WorldIdIdentityManagerDeployment, impl_v2: ContractDeployment },
    /// The proxy runs the second implementation.
    UpgradedToV2 { deployment: WorldIdIdentityManagerDeployment },
}

/// The one thing that is to be done next for a group's identity manager.
#[derive(Debug, Clone, Copy, PartialEq, Eq)]
pub enum ManagerStep {
    /// Deploy the first implementation.
    DeployImplV1,
    /// Deploy the proxy in front of the first implementation, with the call
    /// that sets the manager up.
    DeployProxy {
        impl_v1: Address,
        tree_depth: TreeDepth,
        initial_root: InitialRoot,
        insert_lookup_table: Address,
        update_lookup_table: Address,
        semaphore_verifier: Address,
    },
    /// Deploy the second implementation.
    DeployImplV2,
    /// Send the one transaction that switches the proxy to the second
    /// implementation.
    Upgrade(Transaction),
    /// Nothing: the manager is where it should be.
    Done,
}

/// What came of a step.
#[derive(Debug, Clone, Copy, PartialEq, Eq)]
pub enum StepOutcome {
    /// The contract was deployed.
    Deployed(ContractDeployment),
    /// The transaction was mined and its receipt reports success.
    Confirmed,
}

impl WorldIdIdentityManagerDeployment {
    /// The state that the record shows; `None` for a record with a proxy
    /// and no implementation, which no run produces.
    pub open spec fn spec_state(&self) -> Option<ManagerState> {
        if self.impl_v1_deployment is Some && self.impl_v2_deployment is None {
            Some(ManagerState::V1Deployed)
        } else if self.impl_v2_deployment is Some {
            Some(ManagerState::UpgradedToV2)
        } else {
            None
        }
    }

    /// The state that the record shows.
    #[verifier::when_used_as_spec(spec_state)]
    pub fn state(&self) -> (r: Option<ManagerState>)
        ensures
            r == self.spec_state(),
    {
        if self.impl_v1_deployment.is_some() && self.impl_v2_deployment.is_none() {
            Some(ManagerState::V1Deployed)
        } else if self.impl_v2_deployment.is_some() {
            Some(ManagerState::UpgradedToV2)
        } else {
            None
        }
    }
}

/// The initial root that a group's configuration asks for.
pub open spec fn spec_initial_root(group_config: GroupConfig, initial_leaf_value: H256) -> InitialRoot {
    match group_config.initial_root {
        Some(root) => InitialRoot::Given(root),
        None => InitialRoot::Computed { tree_depth: group_config.tree_depth, initial_leaf_value },
    }
}

/// The initial root that a group's configuration asks for: the one it
/// gives, or else the root of the empty tree.
pub fn initial_root(group_config: &GroupConfig, initial_leaf_value: H256) -> (r: InitialRoot)
    ensures
        r == spec_initial_root(*group_config, initial_leaf_value),
{
    match group_config.initial_root {
        Some(root) => InitialRoot::Given(root),
        None => InitialRoot::Computed { tree_depth: group_config.tree_depth, initial_leaf_value },
    }
}

impl ManagerProgress {
    /// Where the work starts, given what the report records of the group.
    pub open spec fn spec_begin(
        recorded: Option<WorldIdIdentityManagerDeployment>,
        group_id: GroupId,
    ) -> Result<ManagerProgress, DeployError> {
        match recorded {
            None => Ok(ManagerProgress::Start),
            Some(deployment) => match deployment.spec_state() {
                Some(ManagerState::UpgradedToV2) => Ok(ManagerProgress::UpgradedToV2 { deployment }),
                Some(_) => Ok(ManagerProgress::V1Deployed { deployment }),
                None => Err(DeployError::Config(ConfigIssue::InvalidIdentityManager(group_id))),
            },
        }
    }

    /// Where the work starts, given what the report records of the group.
    ///
    /// Fails on a record that holds a proxy and no implementation.
    pub fn begin(recorded: Option<WorldIdIdentityManagerDeployment>, group_id: GroupId) -> (r: Result<
        ManagerProgress,
        DeployError,
    >)
        ensures
            r == Self::spec_begin(recorded, group_id),
    {
        match recorded {
            None => Ok(ManagerProgress::Start),
            Some(deployment) => match deployment.state() {
                Some(ManagerState::UpgradedToV2) => Ok(ManagerProgress::UpgradedToV2 { deployment }),
                Some(_) => Ok(ManagerProgress::V1Deployed { deployment }),
                None => Err(DeployError::Config(ConfigIssue::InvalidIdentityManager(group_id))),
            },
        }
    }

    /// The state of the upgrade state machine that the progress stands for.
    pub open spec fn spec_state(&self) -> ManagerState {
        match *self {
            ManagerProgress::Start => ManagerState::Absent,
            ManagerProgress::ImplV1 { .. } => ManagerState::Absent,
            ManagerProgress::V1Deployed { .. } => ManagerState::V1Deployed,
            ManagerProgress::ImplV2 { .. } => ManagerState::V1Deployed,
            ManagerProgress::UpgradedToV2 { .. } => ManagerState::UpgradedToV2,
        }
    }

    /// The state of the upgrade state machine that the progress stands for.
    #[verifier::when_used_as_spec(spec_state)]
    pub fn state(&self) -> (r: ManagerState)
        ensures
            r == self.spec_state(),
    {
        match *self {
            ManagerProgress::Start => ManagerState::Absent,
            ManagerProgress::ImplV1 { .. } => ManagerState::Absent,
            ManagerProgress::V1Deployed { .. } => ManagerState::V1Deployed,
            ManagerProgress::ImplV2 { .. } => ManagerState::V1Deployed,
            ManagerProgress::UpgradedToV2 { .. } => ManagerState::UpgradedToV2,
        }
    }

    /// What the report records of the group at this point.
    pub open spec fn spec_recorded(&self) -> Option<WorldIdIdentityManagerDeployment> {
        match *self {
            ManagerProgress::Start => None,
            ManagerProgress::ImplV1 { .. } => None,
            ManagerProgress::V1Deployed { deployment } => Some(deployment),
            ManagerProgress::ImplV2 { deployment, .. } => Some(deployment),
            ManagerProgress::UpgradedToV2 { deployment } => Some(deployment),
        }
    }

    /// What the report records of the group at this point.
    #[verifier::when_used_as_spec(spec_recorded)]
    pub fn recorded(&self) -> (r: Option<WorldIdIdentityManagerDeployment>)
        ensures
            r == self.spec_recorded(),
    {
        match *self {
            ManagerProgress::Start => None,
            ManagerProgress::ImplV1 { .. } => None,
            ManagerProgress::V1Deployed { deployment } => Some(deployment),
            ManagerProgress::ImplV2 { deployment, .. } => Some(deployment),
            ManagerProgress::UpgradedToV2 { deployment } => Some(deployment),
        }
    }

    /// How many steps are left until the manager runs the second
    /// implementation.
    pub open spec fn steps_left(&self) -> nat {
        match *self {
            ManagerProgress::Start => 4,
            ManagerProgress::ImplV1 { .. } => 3,
            ManagerProgress::V1Deployed { .. } => 2,
            ManagerProgress::ImplV2 { .. } => 1,
            ManagerProgress::UpgradedToV2 { .. } => 0,
        }
    }

    /// The progress after a step has come out as `outcome`.
    pub open spec fn spec_advance(&self, outcome: StepOutcome) -> Result<ManagerProgress, DeployError> {
        match (*self, outcome) {
            (ManagerProgress::Start, StepOutcome::Deployed(impl_v1)) => Ok(ManagerProgress::ImplV1 { impl_v1 }),
            (ManagerProgress::ImplV1 { impl_v1 }, StepOutcome::Deployed(proxy)) => Ok(
                ManagerProgress::V1Deployed {
                    deployment: WorldIdIdentityManagerDeployment {
                        impl_v1_deployment: Some(impl_v1),
                        impl_v2_deployment: None,
                        proxy_deployment: proxy,
                    },
                },
            ),
            (ManagerProgress::V1Deployed { deployment }, StepOutcome::Deployed(impl_v2)) => Ok(
                ManagerProgress::ImplV2 { deployment, impl_v2 },
            ),
            (ManagerProgress::ImplV2 { deployment, impl_v2 }, StepOutcome::Confirmed) => Ok(
                ManagerProgress::UpgradedToV2 {
                    deployment: WorldIdIdentityManagerDeployment {
                        impl_v1_deployment: None,
                        impl_v2_deployment: Some(impl_v2),
                        proxy_deployment: deployment.proxy_deployment,
                    },
                },
            ),
            _ => Err(DeployError::Config(ConfigIssue::IncompleteRequest)),
        }
    }

    /// Takes the outcome of the last step in.
    ///
    /// A deployment moves the work on by one step; the confirmed upgrade
    /// transaction ends it, and then the record keeps the proxy and holds
    /// the second implementation in place of the first. An outcome that
    /// does not answer the step that was due is refused.
    pub fn advance(&self, outcome: StepOutcome) -> (r: Result<ManagerProgress, DeployError>)
        ensures
            r == self.spec_advance(outcome),
    {
        match (*self, outcome) {
            (ManagerProgress::Start, StepOutcome::Deployed(impl_v1)) => Ok(ManagerProgress::ImplV1 { impl_v1 }),
            (ManagerProgress::ImplV1 { impl_v1 }, StepOutcome::Deployed(proxy)) => Ok(
                ManagerProgress::V1Deployed {
                    deployment: WorldIdIdentityManagerDeployment {
                        impl_v1_deployment: Some(impl_v1),
                        impl_v2_deployment: None,
                        proxy_deployment: proxy,
                    },
                },
            ),
            (ManagerProgress::V1Deployed { deployment }, StepOutcome::Deployed(impl_v2)) => Ok(
                ManagerProgress::ImplV2 { deployment, impl_v2 },
            ),
            (ManagerProgress::ImplV2 { deployment, impl_v2 }, StepOutcome::Confirmed) => Ok(
                ManagerProgress::UpgradedToV2 {
                    deployment: WorldIdIdentityManagerDeployment {
                        impl_v1_deployment: None,
                        impl_v2_deployment: Some(impl_v2),
                        proxy_deployment: deployment.proxy_deployment,
                    },
                },
            ),
            _ => Err(DeployError::Config(ConfigIssue::IncompleteRequest)),
        }
    }
}

/// The address of a table of a group, or the dependency that is missing.
pub open spec fn spec_table_address(
    tables: Map<usize, GroupLookupTables>,
    group_id: GroupId,
    kind: TableKind,
) -> Result<Address, DeployError> {
    if !tables.contains_key(group_id.0) {
        Err(DeployError::MissingDependency(Dependency::GroupLookupTables(group_id)))
    } else {
        match tables[group_id.0].slot(kind) {
            Some(table) => Ok(table.deployment.address),
            None => Err(DeployError::MissingDependency(Dependency::LookupTable(group_id, kind))),
        }
    }
}

/// The address of a table of a group.
///
/// Fails where the group has no tables, or not the table of that kind.
pub fn table_address(lookup_tables: &LookupTables, group_id: GroupId, kind: TableKind) -> (r: Result<
    Address,
    DeployError,
>)
    ensures
        r == spec_table_address(lookup_tables.groups@, group_id, kind),
{
    broadcast use vstd::std_specs::btree::group_btree_axioms;

    match lookup_tables.groups.get(&group_id.0) {
        None => Err(DeployError::MissingDependency(Dependency::GroupLookupTables(group_id))),
        Some(group) => match group.table(kind) {
            Some(table) => Ok(table.deployment.address),
            None => Err(DeployError::MissingDependency(Dependency::LookupTable(group_id, kind))),
        },
    }
}

/// The step that is due at `progress` for the group `group_id`.
pub open spec fn spec_next_step(
    progress: ManagerProgress,
    config: Config,
    group_id: GroupId,
    semaphore_verifier: SemaphoreVerifierDeployment,
    tables: Map<usize, GroupLookupTables>,
) -> Result<ManagerStep, DeployError> {
    match progress {
        ManagerProgress::Start => if config.groups@.contains_key(group_id.0) {
            Ok(ManagerStep::DeployImplV1)
        } else {
            Err(DeployError::Config(ConfigIssue::UnknownGroup(group_id)))
        },
        ManagerProgress::ImplV1 { impl_v1 } => if !config.groups@.contains_key(group_id.0) {
            Err(DeployError::Config(ConfigIssue::UnknownGroup(group_id)))
        } else {
            match spec_table_address(tables, group_id, TableKind::Insert) {
                Err(e) => Err(e),
                Ok(insert_lookup_table) => match spec_table_address(tables, group_id, TableKind::Update) {
                    Err(e) => Err(e),
                    Ok(update_lookup_table) => Ok(
                        ManagerStep::DeployProxy {
                            impl_v1: impl_v1.address,
                            tree_depth: config.groups@[group_id.0].tree_depth,
                            initial_root: spec_initial_root(
                                config.groups@[group_id.0],
                                config.misc.initial_leaf_value,
                            ),
                            insert_lookup_table,
                            update_lookup_table,
                            semaphore_verifier: semaphore_verifier.verifier_deployment.address,
                        },
                    ),
                },
            }
        },
        ManagerProgress::V1Deployed { .. } => Ok(ManagerStep::DeployImplV2),
        ManagerProgress::ImplV2 { deployment, impl_v2 } => match spec_table_address(
            tables,
            group_id,
            TableKind::Delete,
        ) {
            Err(e) => Err(e),
            Ok(delete_lookup_table) => Ok(
                ManagerStep::Upgrade(
                    Transaction {
                        to: deployment.proxy_deployment.address,
                        call: Call::UpgradeToAndCall { implementation: impl_v2.address, delete_lookup_table },
                    },
                ),
            ),
        },
        ManagerProgress::UpgradedToV2 { .. } => Ok(ManagerStep::Done),
    }
}

/// Decides the step that is due for the identity manager of one group.
///
/// From nothing the first implementation is deployed, then the proxy with
/// its set-up call; from the first version the second implementation is
/// deployed, then the proxy is upgraded with one transaction; at the second
/// version nothing is done. An existing proxy is never deployed again.
///
/// Fails where the group is not declared although something has to be
/// deployed for it, and where a lookup table that the step needs is absent.
pub fn deploy_world_id_identity_manager_v1_for_group(
    progress: &ManagerProgress,
    config: &Config,
    group_id: GroupId,
    semaphore_verifier_deployment: &SemaphoreVerifierDeployment,
    lookup_tables: &LookupTables,
) -> (r: Result<ManagerStep, DeployError>)
    ensures
        r == spec_next_step(*progress, *config, group_id, *semaphore_verifier_deployment, lookup_tables.groups@),
{
    broadcast use vstd::std_specs::btree::group_btree_axioms;

    match *progress {
        ManagerProgress::Start => {
            if config.groups.contains_key(&group_id.0) {
                Ok(ManagerStep::DeployImplV1)
            } else {
                Err(DeployError::Config(ConfigIssue::UnknownGroup(group_id)))
            }
        },
        ManagerProgress::ImplV1 { impl_v1 } => {
            let group_config = match config.groups.get(&group_id.0) {
                Some(group_config) => group_config,
                None => {
                    return Err(DeployError::Config(ConfigIssue::UnknownGroup(group_id)));
                },
            };
            let insert_lookup_table = match table_address(lookup_tables, group_id, TableKind::Insert) {
                Ok(address) => address,
                Err(e) => {
                    return Err(e);
                },
            };
            let update_lookup_table = match table_address(lookup_tables, group_id, TableKind::Update) {
                Ok(address) => address,
                Err(e) => {
                    return Err(e);
                },
            };
            Ok(
                ManagerStep::DeployProxy {
                    impl_v1: impl_v1.address,
                    tree_depth: group_config.tree_depth,
                    initial_root: initial_root(group_config, config.misc.initial_leaf_value),
                    insert_lookup_table,
                    update_lookup_table,
                    semaphore_verifier: semaphore_verifier_deployment.verifier_deployment.address,
                },
            )
        },
        ManagerProgress::V1Deployed { .. } => Ok(ManagerStep::DeployImplV2),
        ManagerProgress::ImplV2 { deployment, impl_v2 } => upgrade_v1_to_v2(
            group_id,
            lookup_tables,
            &deployment,
            impl_v2,
        ),
        ManagerProgress::UpgradedToV2 { .. } => Ok(ManagerStep::Done),
    }
}

/// The upgrade of a first-version manager, once the second implementation is
/// deployed: one transaction to the existing proxy.
///
/// Fails where the group's delete lookup table is absent.
pub fn upgrade_v1_to_v2(
    group_id: GroupId,
    lookup_tables: &LookupTables,
    v1_deployment: &WorldIdIdentityManagerDeployment,
    impl_v2: ContractDeployment,
) -> (r: Result<ManagerStep, DeployError>)
    ensures
        r == match spec_table_address(lookup_tables.groups@, group_id, TableKind::Delete) {
            Err(e) => Err::<ManagerStep, DeployError>(e),
            Ok(delete_lookup_table) => Ok(
                ManagerStep::Upgrade(
                    Transaction {
                        to: v1_deployment.proxy_deployment.address,
                        call: Call::UpgradeToAndCall { implementation: impl_v2.address, delete_lookup_table },
                    },
                ),
            ),
        },
{
    match table_address(lookup_tables, group_id, TableKind::Delete) {
        Err(e) => Err(e),
        Ok(delete_lookup_table) => Ok(
            ManagerStep::Upgrade(
                Transaction {
                    to: v1_deployment.proxy_deployment.address,
                    call: Call::UpgradeToAndCall { implementation: impl_v2.address, delete_lookup_table },
                },
            ),
        ),
    }
}

/// The call that sets a freshly deployed manager up.
pub fn initialize_call(step: &ManagerStep, root: H256) -> (r: Option<Call>)
    ensures
        r == match *step {
            ManagerStep::DeployProxy {
                tree_depth,
                insert_lookup_table,
                update_lookup_table,
                semaphore_verifier,
                ..
            } => Some(
                Call::Initialize {
                    tree_depth: tree_depth.0 as u64,
                    initial_root: root,
                    insert_lookup_table,
                    update_lookup_table,
                    semaphore_verifier,
                },
            ),
            _ => None,
        },
{
    match *step {
        ManagerStep::DeployProxy {
            tree_depth,
            insert_lookup_table,
            update_lookup_table,
            semaphore_verifier,
            ..
        } => Some(
            Call::Initialize {
                tree_depth: tree_depth.0 as u64,
                initial_root: root,
                insert_lookup_table,
                update_lookup_table,
                semaphore_verifier,
            },
        ),
        _ => None,
    }
}

/// One warning for each group of `groups`.
pub open spec fn stale_managers(groups: Seq<usize>) -> Seq<Warning> {
    Seq::new(groups.len(), |i: int| Warning::StaleIdentityManager(GroupId(groups[i])))
}

/// The identity managers that the report records, if it records any.
pub open spec fn known_managers(recorded: Option<WorldIDIdentityManagersDeployment>) -> Map<
    usize,
    WorldIdIdentityManagerDeployment,
> {
    match recorded {
        Some(m) => m.groups@,
        None => Map::empty(),
    }
}

/// Starts the stage: takes over the recorded identity manager of every
/// declared group.
///
/// The managers of groups that are no longer declared are not touched on
/// chain: they leave the record and come back as warnings, in ascending
/// order of the group.
pub fn deploy(config: &Config, recorded: Option<WorldIDIdentityManagersDeployment>) -> (r: (
    WorldIDIdentityManagersDeployment,
    Vec<Warning>,
))
    ensures
        r.0.groups@ == known_managers(recorded).restrict(config.groups@.dom()),
        r.1@ == stale_managers(ordered(known_managers(recorded).dom().difference(config.groups@.dom()))),
{
    let known: BTreeMap<usize, WorldIdIdentityManagerDeployment> = match recorded {
        Some(m) => m.groups,
        None => BTreeMap::new(),
    };
    let declared = key_set(&config.groups);
    let (groups, dropped) = retain(known, &declared);
    let mut warnings: Vec<Warning> = Vec::new();
    let mut n: usize = 0;
    while n < dropped.len()
        invariant
            0 <= n <= dropped.len(),
            warnings@ == stale_managers(dropped@.take(n as int)),
        decreases dropped.len() - n,
    {
        warnings.push(Warning::StaleIdentityManager(GroupId(dropped[n])));
        proof {
            assert(warnings@ =~= stale_managers(dropped@.take(n + 1)));
        }
        n += 1;
    }
    proof {
        assert(dropped@.take(n as int) =~= dropped@);
    }
    (WorldIDIdentityManagersDeployment { groups }, warnings)
}

impl WorldIDIdentityManagersDeployment {
    /// No identity manager at all.
    pub fn new() -> (r: Self)
        ensures
            r.groups@ == Map::<usize, WorldIdIdentityManagerDeployment>::empty(),
    {
        Self { groups: BTreeMap::new() }
    }

    /// The proxy address of each group's identity manager: where the router
    /// has to route the group to.
    pub open spec fn targets(&self) -> Map<usize, Address> {
        Map::new(
            |g: usize| self.groups@.contains_key(g),
            |g: usize| self.groups@[g].proxy_deployment.address,
        )
    }

    /// What is recorded of the group's identity manager.
    pub fn find(&self, group_id: GroupId) -> (r: Option<WorldIdIdentityManagerDeployment>)
        ensures
            r == if self.groups@.contains_key(group_id.0) {
                Some(self.groups@[group_id.0])
            } else {
                None
            },
    {
        broadcast use vstd::std_specs::btree::group_btree_axioms;

        match self.groups.get(&group_id.0) {
            Some(found) => Some(*found),
            None => None,
        }
    }

    /// Takes the identity manager of a group into the record.
    pub fn record(&mut self, group_id: GroupId, deployment: WorldIdIdentityManagerDeployment)
        ensures
            final(self).groups@ == old(self).groups@.insert(group_id.0, deployment),
    {
        broadcast use vstd::std_specs::btree::group_btree_axioms;

        self.groups.insert(group_id.0, deployment);
    }

    /// The proxy address of each group's identity manager.
    pub fn proxies(&self) -> (r: BTreeMap<usize, Address>)
        ensures
            r@ == self.targets(),
    {
        broadcast use vstd::std_specs::btree::group_btree_axioms;

        let ids = sorted_keys(&self.groups);
        let mut r: BTreeMap<usize, Address> = BTreeMap::new();
        let mut i: usize = 0;
        while i < ids.len()
            invariant
                0 <= i <= ids.len(),
                ids@.to_set() == self.groups@.dom(),
                forall|g: usize|
                    #![trigger r@.contains_key(g)]
                    r@.contains_key(g) <==> exists|j: int| 0 <= j < i && ids@[j] == g,
                forall|g: usize|
                    #![trigger r@[g]]
                    r@.contains_key(g) ==> r@[g] == self.groups@[g].proxy_deployment.address,
            decreases ids.len() - i,
        {
            let id = ids[i];
            assert(ids@.to_set().contains(ids@[i as int]));
            let ghost before = r@;
            let found = self.groups.get(&id).unwrap();
            r.insert(id, found.proxy_deployment.address);
            i += 1;
            proof {
                assert forall|g: usize|
                    #![trigger r@.contains_key(g)]
                    r@.contains_key(g) <==> exists|j: int| 0 <= j < i && ids@[j] == g by {
                    if r@.contains_key(g) {
                        if before.contains_key(g) {
                            let j = choose|j: int| 0 <= j < i - 1 && ids@[j] == g;
                            assert(0 <= j < i && ids@[j] == g);
                        } else {
                            assert(ids@[i - 1] == g);
                        }
                    }
                    if exists|j: int| 0 <= j < i && ids@[j] == g {
                        let j = choose|j: int| 0 <= j < i && ids@[j] == g;
                        if j < i - 1 {
                            assert(before.contains_key(g));
                        }
                    }
                }
            }
        }
        proof {
            assert forall|g: usize| r@.contains_key(g) <==> self.targets().contains_key(g) by {
                if r@.contains_key(g) {
                    let j = choose|j: int| 0 <= j < i && ids@[j] == g;
                    assert(ids@.to_set().contains(ids@[j]));
                }
                if self.groups@.contains_key(g) {
                    assert(ids@.to_set().contains(g));
                    let j = choose|j: int| 0 <= j < ids@.len() && ids@[j] == g;
                    assert(0 <= j < i && ids@[j] == g);
                }
            }
            assert(r@ =~= self.targets());
        }
        r
    }
}

/// Every step that succeeds brings the work one step closer to its end, and
/// never changes a proxy that is already deployed.
pub proof fn lemma_advance_makes_progress(progress: ManagerProgress, outcome: StepOutcome)
    requires
        progress.spec_advance(outcome) is Ok,
    ensures
        progress.spec_advance(outcome)->Ok_0.steps_left() + 1 == progress.steps_left(),
        progress.spec_recorded() matches Some(before) ==> {
            &&& progress.spec_advance(outcome)->Ok_0.spec_recorded() is Some
            &&& progress.spec_advance(outcome)->Ok_0.spec_recorded()->0.proxy_deployment
                == before.proxy_deployment
        },
{
}

/// The step that is due is "nothing" exactly where no step is left, that
/// is, where the manager runs the second implementation.
pub proof fn lemma_done_iff_upgraded(
    progress: ManagerProgress,
    config: Config,
    group_id: GroupId,
    semaphore_verifier: SemaphoreVerifierDeployment,
    tables: Map<usize, GroupLookupTables>,
)
    ensures
        spec_next_step(progress, config, group_id, semaphore_verifier, tables) == Ok::<ManagerStep, DeployError>(
            ManagerStep::Done,
        ) <==> progress.steps_left() == 0,
        progress.steps_left() == 0 <==> progress.spec_state() == ManagerState::UpgradedToV2,
{
}

/// The upgrade from the first version: a record that holds only the first
/// implementation leads to the deployment of the second implementation and
/// then to exactly one upgrade transaction, sent to the recorded proxy;
/// after it the manager is at the second version, its proxy unchanged, and
/// nothing is left to do.
pub proof fn lemma_upgrade_from_v1(
    recorded: WorldIdIdentityManagerDeployment,
    config: Config,
    group_id: GroupId,
    semaphore_verifier: SemaphoreVerifierDeployment,
    tables: Map<usize, GroupLookupTables>,
    impl_v2: ContractDeployment,
)
    requires
        recorded.impl_v1_deployment is Some,
        recorded.impl_v2_deployment is None,
        spec_table_address(tables, group_id, TableKind::Delete) is Ok,
    ensures
        ({
            let start = ManagerProgress::spec_begin(Some(recorded), group_id);
            let first = spec_next_step(start->Ok_0, config, group_id, semaphore_verifier, tables);
            let middle = start->Ok_0.spec_advance(StepOutcome::Deployed(impl_v2));
            let second = spec_next_step(middle->Ok_0, config, group_id, semaphore_verifier, tables);
            let end = middle->Ok_0.spec_advance(StepOutcome::Confirmed);
            let last = spec_next_step(end->Ok_0, config, group_id, semaphore_verifier, tables);
            &&& start == Ok::<ManagerProgress, DeployError>(ManagerProgress::V1Deployed { deployment: recorded })
            &&& first == Ok::<ManagerStep, DeployError>(ManagerStep::DeployImplV2)
            &&& middle is Ok
            &&& second == Ok::<ManagerStep, DeployError>(
                ManagerStep::Upgrade(
                    Transaction {
                        to: recorded.proxy_deployment.address,
                        call: Call::UpgradeToAndCall {
                            implementation: impl_v2.address,
                            delete_lookup_table: spec_table_address(tables, group_id, TableKind::Delete)->Ok_0,
                        },
                    },
                ),
            )
            &&& end is Ok
            &&& end->Ok_0.spec_state() == ManagerState::UpgradedToV2
            &&& end->Ok_0.spec_recorded() == Some(
                WorldIdIdentityManagerDeployment {
                    impl_v1_deployment: None,
                    impl_v2_deployment: Some(impl_v2),
                    proxy_deployment: recorded.proxy_deployment,
                },
            )
            &&& last == Ok::<ManagerStep, DeployError>(ManagerStep::Done)
        }),
{
}

/// A record that is already at the second version asks for nothing: no
/// deployment and no transaction.
pub proof fn lemma_v2_is_terminal(
    recorded: WorldIdIdentityManagerDeployment,
    config: Config,
    group_id: GroupId,
    semaphore_verifier: SemaphoreVerifierDeployment,
    tables: Map<usize, GroupLookupTables>,
)
    requires
        recorded.impl_v2_deployment is Some,
    ensures
        ManagerProgress::spec_begin(Some(recorded), group_id) == Ok::<ManagerProgress, DeployError>(
            ManagerProgress::UpgradedToV2 { deployment: recorded },
        ),
        spec_next_step(
            ManagerProgress::UpgradedToV2 { deployment: recorded },
            config,
            group_id,
            semaphore_verifier,
            tables,
        ) == Ok::<ManagerStep, DeployError>(ManagerStep::Done),
{
}

/// The request that carries a deployment step out: the first or second
/// implementation, or the proxy in front of the first implementation with
/// the encoded set-up call `call_data`. `None` for a step that deploys
/// nothing; then no nonce is used.
pub fn deployment_request(context: &mut DeploymentContext, step: &ManagerStep, call_data: &str) -> (r: Option<
    ForgeCreate,
>)
    ensures
        match *step {
            ManagerStep::DeployImplV1 => {
                &&& r matches Some(request)
                &&& request.contract_spec.name@ == "WorldIDIdentityManagerImplV1"@
                &&& request.constructor_args@.len() == 0
            },
            ManagerStep::DeployImplV2 => {
                &&& r matches Some(request)
                &&& request.contract_spec.name@ == "WorldIDIdentityManagerImplV2"@
                &&& request.constructor_args@.len() == 0
            },
            ManagerStep::DeployProxy { impl_v1, .. } => {
                &&& r matches Some(request)
                &&& request.contract_spec.name@ == "WorldIDIdentityManager"@
                &&& texts(request.constructor_args@) == seq![impl_v1.text(), call_data@]
            },
            _ => r is None,
        },
        match r {
            Some(request) => {
                &&& old(context).is_issued(request)
                &&& final(context).has_issued_after(*old(context))
                &&& request.contract_spec.path is None
                &&& request.cwd is Some
                &&& request.cwd->0@ == CONTRACTS_DIR@
                &&& request.override_contract_source is None
                &&& request.external_deps@.len() == 0
                &&& !request.skip_verification
            },
            None => *final(context) == *old(context),
        },
{
    match *step {
        ManagerStep::DeployImplV1 => Some(context.create_contract("WorldIDIdentityManagerImplV1")),
        ManagerStep::DeployImplV2 => Some(context.create_contract("WorldIDIdentityManagerImplV2")),
        ManagerStep::DeployProxy { impl_v1, .. } => Some(
            context.create_proxy("WorldIDIdentityManager", impl_v1, call_data),
        ),
        _ => None,
    }
}

} // verus!
