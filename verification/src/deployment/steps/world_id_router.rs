//! The router: the one contract that maps each group to its identity
//! manager.

use crate::config::Config;
use crate::deployment::deployment_context::DeploymentContext;
use crate::deployment::deployment_context::CONTRACTS_DIR;
use crate::deployment::steps::identity_manager::WorldIDIdentityManagersDeployment;
use crate::forge_utils::create::texts;
use crate::forge_utils::create::ForgeCreate;
use crate::error::Dependency;
use crate::error::DeployError;
use crate::ethers_utils::Call;
use crate::ethers_utils::Transaction;
use crate::keys::ascending;
use crate::keys::key_set;
use crate::keys::lemma_ascending_unique;
use crate::keys::lemma_ordered;
use crate::keys::lemma_ordered_holds;
use crate::keys::ordered;
use crate::reconcile::apply_change;
use crate::reconcile::change_plan;
use crate::reconcile::plan_changes;
use crate::reconcile::removals;
use crate::reconcile::unresolved;
use crate::reconcile::upserts;
use crate::reconcile::Change;
use crate::report::contract_deployment::ContractDeployment;
use crate::types::Address;
use crate::types::GroupId;
use std::collections::BTreeMap;
use vstd::prelude::*;

verus! {

/// The deployed router, with the identity manager that it routes each
/// group to.
#[derive(Debug, Clone)]
pub struct WorldIdRouterDeployment {
    pub impl_v1_deployment: ContractDeployment,
    pub proxy_deployment: ContractDeployment,
    pub entries: BTreeMap<usize, Address>,
}

/// What is to be done next to have a router.
#[derive(Debug)]
pub enum RouterStep {
    /// Deploy the router's implementation.
    DeployImpl,
    /// Deploy the router's proxy in front of the implementation, with the
    /// call that seeds the router with the identity manager of group `0`.
    DeployProxy { impl_v1: Address, initialize: Call },
    /// The router is there: the one that the report records, or the one
    /// that this run has just deployed.
    Done(WorldIdRouterDeployment),
}

impl WorldIdRouterDeployment {
    /// A router that was just deployed: it routes group `0`, which it was
    /// seeded with, and no other group.
    pub fn seeded(
        impl_v1_deployment: ContractDeployment,
        proxy_deployment: ContractDeployment,
        first_group_address: Address,
    ) -> (r: Self)
        ensures
            r.impl_v1_deployment == impl_v1_deployment,
            r.proxy_deployment == proxy_deployment,
            r.entries@ == Map::<usize, Address>::empty().insert(0, first_group_address),
    {
        broadcast use vstd::std_specs::btree::group_btree_axioms;

        let mut entries: BTreeMap<usize, Address> = BTreeMap::new();
        entries.insert(0, first_group_address);
        Self { impl_v1_deployment, proxy_deployment, entries }
    }

    /// Takes a route that was just changed on chain into the record.
    pub fn apply_route(&mut self, change: &Change)
        ensures
            final(self).entries@ == change.effect(old(self).entries@),
            final(self).impl_v1_deployment == old(self).impl_v1_deployment,
            final(self).proxy_deployment == old(self).proxy_deployment,
    {
        apply_change(&mut self.entries, change);
    }
}

/// The address that seeds the router: the identity manager of group `0`.
///
/// Fails where group `0` has no identity manager.
pub fn first_group_address(identity_managers: &WorldIDIdentityManagersDeployment) -> (r: Result<
    Address,
    DeployError,
>)
    ensures
        r == if identity_managers.groups@.contains_key(0) {
            Ok::<Address, DeployError>(identity_managers.groups@[0].proxy_deployment.address)
        } else {
            Err(DeployError::MissingDependency(Dependency::IdentityManager(GroupId(0))))
        },
{
    match identity_managers.find(GroupId(0)) {
        Some(first_group) => Ok(first_group.proxy_deployment.address),
        None => Err(DeployError::MissingDependency(Dependency::IdentityManager(GroupId(0)))),
    }
}

/// Decides what is to be done next to have a router.
///
/// A recorded router is taken over as it is. Else the implementation is
/// deployed, then the proxy, seeded with `first_group_address`; the router
/// that results routes group `0` there and nothing else.
pub fn deploy_world_id_router_v1(
    recorded: Option<WorldIdRouterDeployment>,
    impl_v1: Option<ContractDeployment>,
    proxy: Option<ContractDeployment>,
    first_group_address: Address,
) -> (r: RouterStep)
    ensures
        match recorded {
            Some(previous) => r == RouterStep::Done(previous),
            None => match impl_v1 {
                None => r == RouterStep::DeployImpl,
                Some(impl_v1_deployment) => match proxy {
                    None => r == (RouterStep::DeployProxy {
                        impl_v1: impl_v1_deployment.address,
                        initialize: Call::InitializeRouter { first_group: first_group_address },
                    }),
                    Some(proxy_deployment) => {
                        &&& r is Done
                        &&& r->Done_0.impl_v1_deployment == impl_v1_deployment
                        &&& r->Done_0.proxy_deployment == proxy_deployment
                        &&& r->Done_0.entries@ == Map::<usize, Address>::empty().insert(0, first_group_address)
                    },
                },
            },
        },
{
    match recorded {
        Some(previous) => RouterStep::Done(previous),
        None => match impl_v1 {
            None => RouterStep::DeployImpl,
            Some(impl_v1_deployment) => match proxy {
                None => RouterStep::DeployProxy {
                    impl_v1: impl_v1_deployment.address,
                    initialize: Call::InitializeRouter { first_group: first_group_address },
                },
                Some(proxy_deployment) => RouterStep::Done(
                    WorldIdRouterDeployment::seeded(impl_v1_deployment, proxy_deployment, first_group_address),
                ),
            },
        },
    }
}

/// Plans the routes: over the declared groups in ascending order, an "add
/// route" for each group that the router does not route yet and an "update
/// route" for each routed group whose identity manager is no longer the one
/// recorded; then a "disable route" for each routed group that is no longer
/// declared, in ascending order.
///
/// Fails where a declared group has no identity manager; the error names
/// the least such group.
pub fn deploy(
    config: &Config,
    identity_managers: &WorldIDIdentityManagersDeployment,
    router: &WorldIdRouterDeployment,
) -> (r: Result<Vec<Change>, DeployError>)
    ensures
        match r {
            Ok(changes) => {
                &&& forall|g: usize| config.groups@.contains_key(g) ==> identity_managers.groups@.contains_key(g)
                &&& changes@ == change_plan(
                    config.groups@.dom(),
                    identity_managers.targets(),
                    router.entries@,
                    true,
                )
            },
            Err(e) => exists|g: usize|
                {
                    &&& e == DeployError::MissingDependency(Dependency::IdentityManager(GroupId(g)))
                    &&& config.groups@.contains_key(g)
                    &&& !identity_managers.groups@.contains_key(g)
                    &&& forall|k: usize|
                        config.groups@.contains_key(k) && k < g ==> identity_managers.groups@.contains_key(k)
                },
        },
{
    let desired = key_set(&config.groups);
    let targets = identity_managers.proxies();
    match plan_changes(&desired, &targets, &router.entries, true) {
        Ok(changes) => {
            proof {
                assert forall|g: usize| config.groups@.contains_key(g) implies identity_managers.groups@.contains_key(
                    g,
                ) by {
                    assert(!unresolved(g, targets@, router.entries@, true));
                }
            }
            Ok(changes)
        },
        Err(g) => {
            proof {
                assert forall|k: usize|
                    config.groups@.contains_key(k) && k < g implies identity_managers.groups@.contains_key(k) by {
                    assert(!unresolved(k, targets@, router.entries@, true));
                }
            }
            Err(DeployError::MissingDependency(Dependency::IdentityManager(GroupId(g))))
        },
    }
}

/// The transaction of one planned route change on the router at
/// `world_id_router_address`.
pub open spec fn spec_route_transaction(world_id_router_address: Address, change: Change) -> Transaction {
    match change {
        Change::Create { key, value } => Transaction {
            to: world_id_router_address,
            call: Call::AddGroup { target: value },
        },
        Change::Update { key, value } => Transaction {
            to: world_id_router_address,
            call: Call::UpdateGroup { group_id: key as u64, target: value },
        },
        Change::Remove { key } => Transaction {
            to: world_id_router_address,
            call: Call::DisableGroup { group_id: key as u64 },
        },
    }
}

/// The "add route" transaction for a new group.
pub fn add_group_route(world_id_router_address: Address, group_id: GroupId, new_target_address: Address) -> (r:
    Transaction)
    ensures
        r == (Transaction { to: world_id_router_address, call: Call::AddGroup { target: new_target_address } }),
{
    Transaction { to: world_id_router_address, call: Call::AddGroup { target: new_target_address } }
}

/// The "update route" transaction for a group whose identity manager has
/// changed.
pub fn update_group_route(world_id_router_address: Address, group_id: GroupId, new_target_address: Address) -> (r:
    Transaction)
    ensures
        r == (Transaction {
            to: world_id_router_address,
            call: Call::UpdateGroup { group_id: group_id.0 as u64, target: new_target_address },
        }),
{
    Transaction {
        to: world_id_router_address,
        call: Call::UpdateGroup { group_id: group_id.0 as u64, target: new_target_address },
    }
}

/// The "disable route" transaction for a group that is no longer declared.
pub fn remove_group_route(world_id_router_address: Address, group_id: GroupId) -> (r: Transaction)
    ensures
        r == (Transaction {
            to: world_id_router_address,
            call: Call::DisableGroup { group_id: group_id.0 as u64 },
        }),
{
    Transaction { to: world_id_router_address, call: Call::DisableGroup { group_id: group_id.0 as u64 } }
}

/// The transaction of one planned route change.
pub fn route_transaction(world_id_router_address: Address, change: &Change) -> (r: Transaction)
    ensures
        r == spec_route_transaction(world_id_router_address, *change),
{
    match *change {
        Change::Create { key, value } => add_group_route(world_id_router_address, GroupId(key), value),
        Change::Update { key, value } => update_group_route(world_id_router_address, GroupId(key), value),
        Change::Remove { key } => remove_group_route(world_id_router_address, GroupId(key)),
    }
}

/// One creation for each key of `keys`, in the order of `keys`.
pub open spec fn creations(keys: Seq<usize>, targets: Map<usize, Address>) -> Seq<Change> {
    Seq::new(keys.len(), |i: int| Change::Create { key: keys[i], value: targets[keys[i]] })
}

/// Over keys that are not recorded, every key is created.
proof fn lemma_upserts_of_new(
    keys: Seq<usize>,
    targets: Map<usize, Address>,
    recorded: Map<usize, Address>,
    compare: bool,
)
    requires
        forall|i: int| 0 <= i < keys.len() ==> !recorded.contains_key(#[trigger] keys[i]),
    ensures
        upserts(keys, targets, recorded, compare) == creations(keys, targets),
    decreases keys.len(),
{
    if keys.len() == 0 {
        assert(upserts(keys, targets, recorded, compare) =~= creations(keys, targets));
    } else {
        let head = keys.drop_last();
        assert forall|i: int| 0 <= i < head.len() implies !recorded.contains_key(#[trigger] head[i]) by {
            assert(head[i] == keys[i]);
        }
        lemma_upserts_of_new(head, targets, recorded, compare);
        assert(!recorded.contains_key(keys[keys.len() - 1]));
        assert(creations(head, targets).push(
            Change::Create { key: keys.last(), value: targets[keys.last()] },
        ) =~= creations(keys, targets));
    }
}

/// A key that needs no action can be left out of the keys that are gone
/// through.
proof fn lemma_upserts_skip_first(
    first: usize,
    rest: Seq<usize>,
    targets: Map<usize, Address>,
    recorded: Map<usize, Address>,
    compare: bool,
)
    requires
        recorded.contains_key(first),
        compare ==> recorded[first] == targets[first],
    ensures
        upserts(seq![first] + rest, targets, recorded, compare) == upserts(rest, targets, recorded, compare),
    decreases rest.len(),
{
    let all = seq![first] + rest;
    if rest.len() == 0 {
        assert(all.drop_last() =~= Seq::<usize>::empty());
        assert(all.last() == first);
        assert(upserts(all.drop_last(), targets, recorded, compare) =~= Seq::<Change>::empty());
    } else {
        lemma_upserts_skip_first(first, rest.drop_last(), targets, recorded, compare);
        assert(all.drop_last() =~= seq![first] + rest.drop_last());
        assert(all.last() == rest.last());
    }
}

/// Router bootstrap: a router that was just seeded with the identity
/// manager of group `0` needs exactly one "add route" for every other
/// declared group, in ascending order, and neither an "update route" nor a
/// "disable route".
pub proof fn lemma_bootstrap_routes(desired: Set<usize>, targets: Map<usize, Address>)
    requires
        desired.finite(),
        desired.contains(0),
    ensures
        change_plan(desired, targets, Map::<usize, Address>::empty().insert(0, targets[0]), true) == creations(
            ordered(desired.remove(0)),
            targets,
        ),
{
    let seeded = Map::<usize, Address>::empty().insert(0, targets[0]);
    let others = ordered(desired.remove(0));
    lemma_ordered_holds(desired.remove(0));
    lemma_ordered_holds(desired);
    let all = seq![0usize] + others;
    assert forall|i: int, j: int| 0 <= i < j < all.len() implies all[i] < all[j] by {
        assert(others.to_set().contains(others[j - 1]));
        if i > 0 {
            assert(others[i - 1] < others[j - 1]);
        }
    }
    assert forall|k: usize| all.to_set().contains(k) <==> desired.contains(k) by {
        if all.contains(k) {
            let i = choose|i: int| 0 <= i < all.len() && all[i] == k;
            if i > 0 {
                assert(others.to_set().contains(others[i - 1]));
            }
        }
        if desired.contains(k) {
            if k == 0 {
                assert(all[0] == k);
            } else {
                assert(others.to_set().contains(k));
                let i = choose|i: int| 0 <= i < others.len() && others[i] == k;
                assert(all[i + 1] == k);
            }
        }
    }
    assert(all.to_set() =~= desired);
    lemma_ascending_unique(all, ordered(desired));
    lemma_upserts_skip_first(0, others, targets, seeded, true);
    assert forall|i: int| 0 <= i < others.len() implies !seeded.contains_key(#[trigger] others[i]) by {
        assert(others.to_set().contains(others[i]));
    }
    lemma_upserts_of_new(others, targets, seeded, true);
    assert(seeded.dom().difference(desired) =~= Set::<usize>::empty());
    assert(Seq::<usize>::empty().to_set() =~= Set::<usize>::empty());
    lemma_ordered(Seq::<usize>::empty());
    assert(removals(Seq::<usize>::empty()) =~= Seq::<Change>::empty());
    assert(creations(others, targets) + Seq::<Change>::empty() =~= creations(others, targets));
}

/// The request that carries a step towards the router out: the
/// implementation, or the proxy in front of it with the encoded seeding
/// call `call_data`. `None` where the router is there; then no nonce is
/// used.
pub fn deployment_request(context: &mut DeploymentContext, step: &RouterStep, call_data: &str) -> (r: Option<
    ForgeCreate,
>)
    ensures
        match *step {
            RouterStep::DeployImpl => {
                &&& r matches Some(request)
                &&& request.contract_spec.name@ == "WorldIDRouterImplV1"@
                &&& request.constructor_args@.len() == 0
            },
            RouterStep::DeployProxy { impl_v1, .. } => {
                &&& r matches Some(request)
                &&& request.contract_spec.name@ == "WorldIDRouter"@
                &&& texts(request.constructor_args@) == seq![impl_v1.text(), call_data@]
            },
            RouterStep::Done(_) => r is None,
        },
        match r {
            Some(request) => {
                &&& old(context).is_issued(request)
                &&& final(context).has_issued_after(*old(context))
                &&& request.contract_spec.path is None
                &&& request.cwd is Some
                &&& request.cwd->0@ == CONTRACTS_DIR@
                &&& request.override_contract_source is None
                &&& request.external_deps@.len() == 0
                &&& !request.skip_verification
            },
            None => *final(context) == *old(context),
        },
{
    match step {
        RouterStep::DeployImpl => Some(context.create_contract("WorldIDRouterImplV1")),
        RouterStep::DeployProxy { impl_v1, .. } => Some(context.create_proxy("WorldIDRouter", *impl_v1, call_data)),
        RouterStep::Done(_) => None,
    }
}

} // verus!
