use std::collections::BTreeMap;

use world_id_deployer::config::Config;
use world_id_deployer::config::GroupConfig;
use world_id_deployer::config::MiscConfig;
use world_id_deployer::deployment::mtb_utils::ProverMode;
use world_id_deployer::deployment::steps::identity_manager;
use world_id_deployer::deployment::steps::identity_manager::deploy_world_id_identity_manager_v1_for_group;
use world_id_deployer::deployment::steps::identity_manager::initialize_call;
use world_id_deployer::deployment::steps::identity_manager::InitialRoot;
use world_id_deployer::deployment::steps::identity_manager::ManagerProgress;
use world_id_deployer::deployment::steps::identity_manager::ManagerState;
use world_id_deployer::deployment::steps::identity_manager::ManagerStep;
use world_id_deployer::deployment::steps::identity_manager::StepOutcome;
use world_id_deployer::deployment::steps::identity_manager::WorldIDIdentityManagersDeployment;
use world_id_deployer::deployment::steps::identity_manager::WorldIdIdentityManagerDeployment;
use world_id_deployer::deployment::steps::lookup_tables;
use world_id_deployer::deployment::steps::lookup_tables::associate_group_batch_size_verifier;
use world_id_deployer::deployment::steps::lookup_tables::entry_transaction;
use world_id_deployer::deployment::steps::lookup_tables::remove_group_batch_size_verifier;
use world_id_deployer::deployment::steps::lookup_tables::table_of;
use world_id_deployer::deployment::steps::lookup_tables::update_lookup_table;
use world_id_deployer::deployment::steps::lookup_tables::GroupLookupTables;
use world_id_deployer::deployment::steps::lookup_tables::LookupTable;
use world_id_deployer::deployment::steps::lookup_tables::LookupTables;
use world_id_deployer::deployment::steps::semaphore_verifier;
use world_id_deployer::deployment::steps::semaphore_verifier::SemaphoreStep;
use world_id_deployer::deployment::steps::semaphore_verifier::SemaphoreVerifierDeployment;
use world_id_deployer::deployment::steps::verifiers;
use world_id_deployer::deployment::steps::verifiers::VerifierDeployment;
use world_id_deployer::deployment::steps::verifiers::VerifierTask;
use world_id_deployer::deployment::steps::verifiers::Verifiers;
use world_id_deployer::deployment::steps::world_id_router;
use world_id_deployer::deployment::steps::world_id_router::deploy_world_id_router_v1;
use world_id_deployer::deployment::steps::world_id_router::first_group_address;
use world_id_deployer::deployment::steps::world_id_router::route_transaction;
use world_id_deployer::deployment::steps::world_id_router::RouterStep;
use world_id_deployer::deployment::steps::world_id_router::WorldIdRouterDeployment;
use world_id_deployer::error::ConfigIssue;
use world_id_deployer::error::Dependency;
use world_id_deployer::error::DeployError;
use world_id_deployer::deployment::steps::lookup_tables::TableKind;
use world_id_deployer::error::Warning;
use world_id_deployer::ethers_utils::Call;
use world_id_deployer::ethers_utils::Transaction;
use world_id_deployer::reconcile::Change;
use world_id_deployer::report::contract_deployment::ContractDeployment;
use world_id_deployer::types::Address;
use world_id_deployer::types::BatchSize;
use world_id_deployer::types::GroupId;
use world_id_deployer::types::TreeDepth;
use world_id_deployer::types::H256;

fn address(byte: u8) -> Address {
    Address([byte; 20])
}

fn deployed(byte: u8) -> ContractDeployment {
    ContractDeployment { address: address(byte) }
}

fn group(depth: usize, insertion: &[usize], deletion: &[usize]) -> GroupConfig {
    GroupConfig {
        tree_depth: TreeDepth(depth),
        insertion_batch_sizes: Some(insertion.iter().map(|b| BatchSize(*b)).collect()),
        deletion_batch_sizes: Some(deletion.iter().map(|b| BatchSize(*b)).collect()),
        initial_root: None,
    }
}

fn config_of(groups: Vec<(usize, GroupConfig)>) -> Config {
    Config {
        groups: groups.into_iter().collect(),
        misc: MiscConfig { initial_leaf_value: H256::zero() },
    }
}

fn managers_of(groups: &[(usize, u8)]) -> WorldIDIdentityManagersDeployment {
    let mut managers = WorldIDIdentityManagersDeployment::new();
    for (g, b) in groups {
        managers.record(
            GroupId(*g),
            WorldIdIdentityManagerDeployment {
                impl_v1_deployment: None,
                impl_v2_deployment: Some(deployed(0xee)),
                proxy_deployment: deployed(*b),
            },
        );
    }
    managers
}

fn full_tables(base: u8) -> GroupLookupTables {
    GroupLookupTables {
        insert: Some(LookupTable::new(deployed(base))),
        update: Some(LookupTable::new(deployed(base + 1))),
        delete: Some(LookupTable::new(deployed(base + 2))),
    }
}

#[test]
fn router_bootstrap_adds_every_other_group() {
    let config = config_of(vec![
        (2, group(16, &[10], &[10])),
        (0, group(16, &[10], &[10])),
        (1, group(16, &[10], &[10])),
    ]);
    let managers = managers_of(&[(0, 0xa0), (1, 0xa1), (2, 0xa2)]);

    let first = first_group_address(&managers).unwrap();
    assert_eq!(first, address(0xa0));

    assert!(matches!(
        deploy_world_id_router_v1(None, None, None, first),
        RouterStep::DeployImpl
    ));
    match deploy_world_id_router_v1(None, Some(deployed(0x01)), None, first) {
        RouterStep::DeployProxy { impl_v1, initialize } => {
            assert_eq!(impl_v1, address(0x01));
            assert_eq!(initialize, Call::InitializeRouter { first_group: address(0xa0) });
        }
        other => panic!("unexpected step {other:?}"),
    }
    let router = match deploy_world_id_router_v1(None, Some(deployed(0x01)), Some(deployed(0x02)), first) {
        RouterStep::Done(router) => router,
        other => panic!("unexpected step {other:?}"),
    };
    assert_eq!(router.impl_v1_deployment, deployed(0x01));
    assert_eq!(router.proxy_deployment, deployed(0x02));
    assert_eq!(router.entries.len(), 1);
    assert_eq!(router.entries.get(&0), Some(&address(0xa0)));

    let plan = world_id_router::deploy(&config, &managers, &router).unwrap();
    assert_eq!(
        plan,
        vec![
            Change::Create { key: 1, value: address(0xa1) },
            Change::Create { key: 2, value: address(0xa2) },
        ]
    );
    assert_eq!(
        route_transaction(router.proxy_deployment.address, &plan[0]),
        Transaction { to: address(0x02), call: Call::AddGroup { target: address(0xa1) } }
    );
    assert_eq!(
        route_transaction(router.proxy_deployment.address, &plan[1]),
        Transaction { to: address(0x02), call: Call::AddGroup { target: address(0xa2) } }
    );
}

#[test]
fn router_plan_is_empty_once_routes_are_applied() {
    let config = config_of(vec![(0, group(16, &[], &[])), (1, group(16, &[], &[]))]);
    let managers = managers_of(&[(0, 0xa0), (1, 0xa1)]);
    let mut router = WorldIdRouterDeployment::seeded(deployed(1), deployed(2), address(0xa0));

    let plan = world_id_router::deploy(&config, &managers, &router).unwrap();
    for change in &plan {
        router.apply_route(change);
    }

    assert_eq!(router.proxy_deployment, deployed(2));
    assert_eq!(
        world_id_router::deploy(&config, &managers, &router),
        Ok(Vec::<Change>::new())
    );
}

#[test]
fn recorded_router_is_taken_over() {
    let recorded = WorldIdRouterDeployment::seeded(deployed(1), deployed(2), address(3));

    match deploy_world_id_router_v1(Some(recorded), None, None, address(9)) {
        RouterStep::Done(router) => {
            assert_eq!(router.proxy_deployment, deployed(2));
            assert_eq!(router.entries.get(&0), Some(&address(3)));
        }
        other => panic!("unexpected step {other:?}"),
    }
}

#[test]
fn router_updates_changed_routes_and_disables_stale_ones() {
    let config = config_of(vec![(0, group(16, &[], &[])), (1, group(16, &[], &[]))]);
    let managers = managers_of(&[(0, 0xa0), (1, 0xb1)]);
    let mut entries = BTreeMap::new();
    entries.insert(0, address(0xa0));
    entries.insert(1, address(0xa1));
    entries.insert(5, address(0xa5));
    entries.insert(3, address(0xa3));
    let router = WorldIdRouterDeployment {
        impl_v1_deployment: deployed(1),
        proxy_deployment: deployed(2),
        entries,
    };

    let plan = world_id_router::deploy(&config, &managers, &router).unwrap();

    assert_eq!(
        plan,
        vec![
            Change::Update { key: 1, value: address(0xb1) },
            Change::Remove { key: 3 },
            Change::Remove { key: 5 },
        ]
    );
    assert_eq!(
        route_transaction(address(2), &plan[0]),
        Transaction { to: address(2), call: Call::UpdateGroup { group_id: 1, target: address(0xb1) } }
    );
    assert_eq!(
        route_transaction(address(2), &plan[1]),
        Transaction { to: address(2), call: Call::DisableGroup { group_id: 3 } }
    );
}

#[test]
fn router_needs_the_identity_manager_of_every_declared_group() {
    let config = config_of(vec![
        (0, group(16, &[], &[])),
        (1, group(16, &[], &[])),
        (2, group(16, &[], &[])),
    ]);
    let router = WorldIdRouterDeployment::seeded(deployed(1), deployed(2), address(0xa0));

    assert_eq!(
        world_id_router::deploy(&config, &managers_of(&[(0, 0xa0)]), &router),
        Err(DeployError::MissingDependency(Dependency::IdentityManager(GroupId(1))))
    );
    assert_eq!(
        first_group_address(&managers_of(&[(1, 0xa1)])),
        Err(DeployError::MissingDependency(Dependency::IdentityManager(GroupId(0))))
    );
}

#[test]
fn upgrade_from_v1_is_one_transaction_and_keeps_the_proxy() {
    let config = config_of(vec![(4, group(30, &[100], &[10]))]);
    let semaphore = SemaphoreVerifierDeployment {
        verifier_deployment: deployed(0x51),
        pairing_deployment: deployed(0x52),
    };
    let mut tables = LookupTables { groups: BTreeMap::new() };
    tables.groups.insert(4, full_tables(0x10));
    let recorded = WorldIdIdentityManagerDeployment {
        impl_v1_deployment: Some(deployed(0x01)),
        impl_v2_deployment: None,
        proxy_deployment: deployed(0x0f),
    };
    assert_eq!(recorded.state(), Some(ManagerState::V1Deployed));

    let mut progress = ManagerProgress::begin(Some(recorded), GroupId(4)).unwrap();
    let mut transactions = Vec::new();
    let mut deployments = 0;
    loop {
        let step =
            deploy_world_id_identity_manager_v1_for_group(&progress, &config, GroupId(4), &semaphore, &tables)
                .unwrap();
        let outcome = match step {
            ManagerStep::Done => break,
            ManagerStep::Upgrade(transaction) => {
                transactions.push(transaction);
                StepOutcome::Confirmed
            }
            _ => {
                deployments += 1;
                StepOutcome::Deployed(deployed(0x02))
            }
        };
        progress = progress.advance(outcome).unwrap();
    }

    assert_eq!(
        transactions,
        vec![Transaction {
            to: address(0x0f),
            call: Call::UpgradeToAndCall {
                implementation: address(0x02),
                delete_lookup_table: address(0x12),
            },
        }]
    );
    assert_eq!(deployments, 1);
    assert_eq!(progress.state(), ManagerState::UpgradedToV2);
    assert_eq!(
        progress.recorded(),
        Some(WorldIdIdentityManagerDeployment {
            impl_v1_deployment: None,
            impl_v2_deployment: Some(deployed(0x02)),
            proxy_deployment: deployed(0x0f),
        })
    );
}

#[test]
fn upgraded_manager_needs_nothing() {
    let config = config_of(vec![]);
    let semaphore = SemaphoreVerifierDeployment {
        verifier_deployment: deployed(0x51),
        pairing_deployment: deployed(0x52),
    };
    let tables = LookupTables { groups: BTreeMap::new() };
    let recorded = WorldIdIdentityManagerDeployment {
        impl_v1_deployment: None,
        impl_v2_deployment: Some(deployed(0x02)),
        proxy_deployment: deployed(0x0f),
    };

    let progress = ManagerProgress::begin(Some(recorded), GroupId(1)).unwrap();

    assert_eq!(progress, ManagerProgress::UpgradedToV2 { deployment: recorded });
    assert_eq!(
        deploy_world_id_identity_manager_v1_for_group(&progress, &config, GroupId(1), &semaphore, &tables),
        Ok(ManagerStep::Done)
    );
    assert_eq!(
        progress.advance(StepOutcome::Confirmed),
        Err(DeployError::Config(ConfigIssue::IncompleteRequest))
    );
}

#[test]
fn absent_manager_is_deployed_and_upgraded() {
    let mut with_root = group(20, &[100], &[10]);
    with_root.initial_root = Some(H256([7; 32]));
    let config = config_of(vec![(1, group(30, &[100], &[10])), (2, with_root)]);
    let semaphore = SemaphoreVerifierDeployment {
        verifier_deployment: deployed(0x51),
        pairing_deployment: deployed(0x52),
    };
    let mut tables = LookupTables { groups: BTreeMap::new() };
    tables.groups.insert(1, full_tables(0x10));
    tables.groups.insert(2, full_tables(0x20));

    let start = ManagerProgress::begin(None, GroupId(1)).unwrap();
    assert_eq!(start, ManagerProgress::Start);
    assert_eq!(start.state(), ManagerState::Absent);
    assert_eq!(start.recorded(), None);
    assert_eq!(
        deploy_world_id_identity_manager_v1_for_group(&start, &config, GroupId(1), &semaphore, &tables),
        Ok(ManagerStep::DeployImplV1)
    );

    let with_impl = start.advance(StepOutcome::Deployed(deployed(0x01))).unwrap();
    let step =
        deploy_world_id_identity_manager_v1_for_group(&with_impl, &config, GroupId(1), &semaphore, &tables)
            .unwrap();
    assert_eq!(
        step,
        ManagerStep::DeployProxy {
            impl_v1: address(0x01),
            tree_depth: TreeDepth(30),
            initial_root: InitialRoot::Computed {
                tree_depth: TreeDepth(30),
                initial_leaf_value: H256::zero(),
            },
            insert_lookup_table: address(0x10),
            update_lookup_table: address(0x11),
            semaphore_verifier: address(0x51),
        }
    );
    assert_eq!(
        initialize_call(&step, H256([9; 32])),
        Some(Call::Initialize {
            tree_depth: 30,
            initial_root: H256([9; 32]),
            insert_lookup_table: address(0x10),
            update_lookup_table: address(0x11),
            semaphore_verifier: address(0x51),
        })
    );
    assert_eq!(initialize_call(&ManagerStep::DeployImplV2, H256([9; 32])), None);

    let other =
        deploy_world_id_identity_manager_v1_for_group(&with_impl, &config, GroupId(2), &semaphore, &tables)
            .unwrap();
    match other {
        ManagerStep::DeployProxy { initial_root, tree_depth, .. } => {
            assert_eq!(initial_root, InitialRoot::Given(H256([7; 32])));
            assert_eq!(tree_depth, TreeDepth(20));
        }
        unexpected => panic!("unexpected step {unexpected:?}"),
    }

    let v1 = with_impl.advance(StepOutcome::Deployed(deployed(0x0f))).unwrap();
    assert_eq!(v1.state(), ManagerState::V1Deployed);
    assert_eq!(
        v1.recorded(),
        Some(WorldIdIdentityManagerDeployment {
            impl_v1_deployment: Some(deployed(0x01)),
            impl_v2_deployment: None,
            proxy_deployment: deployed(0x0f),
        })
    );
    assert_eq!(
        deploy_world_id_identity_manager_v1_for_group(&v1, &config, GroupId(1), &semaphore, &tables),
        Ok(ManagerStep::DeployImplV2)
    );
    assert_eq!(
        v1.advance(StepOutcome::Confirmed),
        Err(DeployError::Config(ConfigIssue::IncompleteRequest))
    );
}

#[test]
fn manager_steps_fail_on_missing_prerequisites() {
    let config = config_of(vec![(1, group(30, &[100], &[10]))]);
    let semaphore = SemaphoreVerifierDeployment {
        verifier_deployment: deployed(0x51),
        pairing_deployment: deployed(0x52),
    };
    let mut tables = LookupTables { groups: BTreeMap::new() };
    let mut partial = full_tables(0x10);
    partial.update = None;
    partial.delete = None;
    tables.groups.insert(1, partial);
    let with_impl = ManagerProgress::ImplV1 { impl_v1: deployed(1) };

    assert_eq!(
        deploy_world_id_identity_manager_v1_for_group(&ManagerProgress::Start, &config, GroupId(7), &semaphore, &tables),
        Err(DeployError::Config(ConfigIssue::UnknownGroup(GroupId(7))))
    );
    assert_eq!(
        deploy_world_id_identity_manager_v1_for_group(&with_impl, &config, GroupId(1), &semaphore, &tables),
        Err(DeployError::MissingDependency(Dependency::LookupTable(GroupId(1), TableKind::Update)))
    );
    let v1 = WorldIdIdentityManagerDeployment {
        impl_v1_deployment: Some(deployed(1)),
        impl_v2_deployment: None,
        proxy_deployment: deployed(2),
    };
    assert_eq!(
        deploy_world_id_identity_manager_v1_for_group(
            &ManagerProgress::ImplV2 { deployment: v1, impl_v2: deployed(3) },
            &config,
            GroupId(1),
            &semaphore,
            &tables
        ),
        Err(DeployError::MissingDependency(Dependency::LookupTable(GroupId(1), TableKind::Delete)))
    );
    assert_eq!(
        deploy_world_id_identity_manager_v1_for_group(
            &ManagerProgress::ImplV2 { deployment: v1, impl_v2: deployed(3) },
            &config,
            GroupId(2),
            &semaphore,
            &tables
        ),
        Err(DeployError::MissingDependency(Dependency::GroupLookupTables(GroupId(2))))
    );
}

#[test]
fn proxy_without_implementation_is_invalid() {
    let only_proxy = WorldIdIdentityManagerDeployment {
        impl_v1_deployment: None,
        impl_v2_deployment: None,
        proxy_deployment: deployed(0),
    };

    assert_eq!(only_proxy.state(), None);
    assert_eq!(
        ManagerProgress::begin(Some(only_proxy), GroupId(3)),
        Err(DeployError::Config(ConfigIssue::InvalidIdentityManager(GroupId(3))))
    );
}

#[test]
fn identity_managers_of_undeclared_groups_are_only_warned_about() {
    let config = config_of(vec![(1, group(16, &[], &[])), (2, group(16, &[], &[]))]);
    let recorded = managers_of(&[(2, 0xa2), (9, 0xa9), (5, 0xa5)]);

    let (kept, warnings) = identity_manager::deploy(&config, Some(recorded));

    assert_eq!(kept.groups.len(), 1);
    assert_eq!(kept.find(GroupId(2)).unwrap().proxy_deployment, deployed(0xa2));
    assert_eq!(kept.find(GroupId(1)), None);
    assert_eq!(
        warnings,
        vec![
            Warning::StaleIdentityManager(GroupId(5)),
            Warning::StaleIdentityManager(GroupId(9)),
        ]
    );
    assert_eq!(kept.proxies().get(&2), Some(&address(0xa2)));

    let (fresh, none) = identity_manager::deploy(&config, None);
    assert_eq!(fresh.groups.len(), 0);
    assert_eq!(none, Vec::<Warning>::new());
}

#[test]
fn lookup_tables_are_adopted_and_missing_ones_listed() {
    let config = config_of(vec![(3, group(16, &[], &[])), (1, group(16, &[], &[]))]);
    let mut recorded = LookupTables { groups: BTreeMap::new() };
    let mut partial = full_tables(0x30);
    partial.update = None;
    recorded.groups.insert(3, partial);
    recorded.groups.insert(8, full_tables(0x80));

    let (mut tables, warnings) = lookup_tables::deploy(&config, Some(recorded));

    assert_eq!(warnings, vec![Warning::StaleLookupTables(GroupId(8))]);
    assert_eq!(tables.groups.len(), 2);
    assert_eq!(
        tables.deploy_lookup_tables(),
        vec![
            (GroupId(1), TableKind::Insert),
            (GroupId(1), TableKind::Update),
            (GroupId(1), TableKind::Delete),
            (GroupId(3), TableKind::Update),
        ]
    );

    assert_eq!(tables.install(GroupId(1), TableKind::Insert, deployed(0x11)), Ok(true));
    assert_eq!(tables.install(GroupId(3), TableKind::Insert, deployed(0x99)), Ok(false));
    assert_eq!(
        tables.install(GroupId(4), TableKind::Insert, deployed(0x99)),
        Err(DeployError::MissingDependency(Dependency::GroupLookupTables(GroupId(4))))
    );
    assert_eq!(tables.groups[&3].insert.as_ref().unwrap().deployment, deployed(0x30));
    assert_eq!(tables.groups[&1].insert.as_ref().unwrap().deployment, deployed(0x11));
    assert_eq!(
        tables.deploy_lookup_tables(),
        vec![
            (GroupId(1), TableKind::Update),
            (GroupId(1), TableKind::Delete),
            (GroupId(3), TableKind::Update),
        ]
    );
}

#[test]
fn lookup_table_entries_are_registered_and_disabled() {
    let group_config = group(16, &[100, 10, 100], &[10]);
    let mut verifiers = Verifiers::new();
    verifiers.record(TreeDepth(16), BatchSize(10), deployed(0x10));
    verifiers.record(TreeDepth(16), BatchSize(100), deployed(0x64));
    verifiers.record(TreeDepth(30), BatchSize(10), deployed(0x99));
    let mut table = LookupTable::new(deployed(0x7a));
    table.entries.insert(100, address(0x01));
    table.entries.insert(1000, address(0x02));
    table.entries.insert(500, address(0x03));

    let plan = update_lookup_table(&verifiers, &group_config, &table, ProverMode::Insertion).unwrap();

    assert_eq!(
        plan,
        vec![
            Change::Create { key: 10, value: address(0x10) },
            Change::Remove { key: 500 },
            Change::Remove { key: 1000 },
        ]
    );
    assert_eq!(
        entry_transaction(table.deployment.address, &plan[0]),
        Transaction {
            to: address(0x7a),
            call: Call::UpdateVerifier { batch_size: 10, verifier: address(0x10) },
        }
    );
    assert_eq!(
        entry_transaction(table.deployment.address, &plan[1]),
        Transaction { to: address(0x7a), call: Call::DisableVerifier { batch_size: 500 } }
    );

    let mut tables = LookupTables { groups: BTreeMap::new() };
    tables.groups.insert(
        2,
        GroupLookupTables { insert: Some(table), update: None, delete: None },
    );
    for change in &plan {
        assert_eq!(tables.apply_entry(GroupId(2), TableKind::Insert, change), Ok(()));
    }
    let now = tables.groups[&2].insert.as_ref().unwrap();
    assert_eq!(now.deployment, deployed(0x7a));
    assert_eq!(now.entries.len(), 2);
    assert_eq!(now.entries[&10], address(0x10));
    assert_eq!(now.entries[&100], address(0x01));
    assert_eq!(
        update_lookup_table(&verifiers, &group_config, now, ProverMode::Insertion),
        Ok(Vec::<Change>::new())
    );
    assert_eq!(
        tables.apply_entry(GroupId(2), TableKind::Delete, &plan[0]),
        Err(DeployError::MissingDependency(Dependency::LookupTable(GroupId(2), TableKind::Delete)))
    );
    assert_eq!(
        tables.apply_entry(GroupId(3), TableKind::Delete, &plan[0]),
        Err(DeployError::MissingDependency(Dependency::GroupLookupTables(GroupId(3))))
    );
}

#[test]
fn lookup_table_needs_a_verifier_for_each_new_batch_size() {
    let group_config = group(16, &[10, 100, 1000], &[]);
    let mut verifiers = Verifiers::new();
    verifiers.record(TreeDepth(16), BatchSize(10), deployed(0x10));
    let mut table = LookupTable::new(deployed(0x7a));
    table.entries.insert(100, address(0x01));

    assert_eq!(
        update_lookup_table(&verifiers, &group_config, &table, ProverMode::Insertion),
        Err(DeployError::MissingDependency(Dependency::Verifier(
            ProverMode::Insertion,
            TreeDepth(16),
            BatchSize(1000)
        )))
    );
    assert_eq!(
        associate_group_batch_size_verifier(address(1), TreeDepth(16), BatchSize(10), &verifiers, ProverMode::Deletion),
        Ok(Transaction {
            to: address(1),
            call: Call::UpdateVerifier { batch_size: 10, verifier: address(0x10) },
        })
    );
    assert_eq!(
        associate_group_batch_size_verifier(address(1), TreeDepth(16), BatchSize(11), &verifiers, ProverMode::Deletion),
        Err(DeployError::MissingDependency(Dependency::Verifier(
            ProverMode::Deletion,
            TreeDepth(16),
            BatchSize(11)
        )))
    );
    assert_eq!(
        remove_group_batch_size_verifier(address(1), BatchSize(11)),
        Transaction { to: address(1), call: Call::DisableVerifier { batch_size: 11 } }
    );
    assert_eq!(table_of(ProverMode::Insertion), TableKind::Insert);
    assert_eq!(table_of(ProverMode::Deletion), TableKind::Delete);
}

#[test]
fn verifiers_are_reused_or_deployed_in_key_order() {
    let config = config_of(vec![
        (1, group(30, &[100, 10], &[10])),
        (0, group(16, &[100], &[])),
        (2, group(16, &[100, 1000], &[1])),
    ]);
    let mut recorded = Verifiers::new();
    recorded.record(TreeDepth(16), BatchSize(100), deployed(0x64));
    recorded.record(TreeDepth(8), BatchSize(1), deployed(0x08));

    assert!(config.has_batch_sizes(ProverMode::Insertion));
    let tasks = verifiers::deploy(&config, Some(&recorded), ProverMode::Insertion);

    assert_eq!(
        tasks,
        vec![
            VerifierTask::Reuse {
                tree_depth: TreeDepth(16),
                batch_size: BatchSize(100),
                deployment: VerifierDeployment { deployment: deployed(0x64) },
            },
            VerifierTask::Deploy { tree_depth: TreeDepth(16), batch_size: BatchSize(1000) },
            VerifierTask::Deploy { tree_depth: TreeDepth(30), batch_size: BatchSize(10) },
            VerifierTask::Deploy { tree_depth: TreeDepth(30), batch_size: BatchSize(100) },
        ]
    );
    assert_eq!(
        verifiers::stale(&config, &recorded, ProverMode::Insertion),
        vec![Warning::StaleVerifier(ProverMode::Insertion, TreeDepth(8), BatchSize(1))]
    );
    assert_eq!(
        verifiers::deploy(&config, None, ProverMode::Deletion),
        vec![
            VerifierTask::Deploy { tree_depth: TreeDepth(16), batch_size: BatchSize(1) },
            VerifierTask::Deploy { tree_depth: TreeDepth(30), batch_size: BatchSize(10) },
        ]
    );
    assert_eq!(
        recorded.find(TreeDepth(16), BatchSize(100)),
        Some(VerifierDeployment { deployment: deployed(0x64) })
    );
    assert_eq!(recorded.find(TreeDepth(16), BatchSize(10)), None);
    let for_depth = recorded.for_depth(TreeDepth(16));
    assert_eq!(for_depth.len(), 1);
    assert_eq!(for_depth[&100], address(0x64));
}

#[test]
fn semaphore_verifier_is_deployed_once() {
    let recorded = SemaphoreVerifierDeployment {
        verifier_deployment: deployed(1),
        pairing_deployment: deployed(2),
    };

    assert_eq!(
        semaphore_verifier::deploy(Some(recorded), None, None),
        SemaphoreStep::Done(recorded)
    );
    assert_eq!(semaphore_verifier::deploy(None, None, None), SemaphoreStep::DeployPairing);
    assert_eq!(
        semaphore_verifier::deploy(None, Some(deployed(2)), None),
        SemaphoreStep::DeployVerifier { pairing: deployed(2) }
    );
    assert_eq!(
        semaphore_verifier::deploy(None, Some(deployed(2)), Some(deployed(1))),
        SemaphoreStep::Done(recorded)
    );
}

#[test]
fn config_lists_unique_verifier_variants() {
    let mut config = config_of(vec![
        (1, group(30, &[100, 10, 100], &[10])),
        (2, group(30, &[10], &[])),
        (3, group(16, &[10], &[])),
    ]);

    let pairs: Vec<(usize, usize)> = config
        .unique_tree_depths_and_batch_sizes(ProverMode::Insertion)
        .into_iter()
        .collect();
    assert_eq!(pairs, vec![(16, 10), (30, 10), (30, 100)]);
    assert_eq!(config.group_ids(), vec![1, 2, 3]);

    config.groups.get_mut(&2).unwrap().deletion_batch_sizes = None;
    assert!(config.has_batch_sizes(ProverMode::Insertion));
    assert!(!config.has_batch_sizes(ProverMode::Deletion));
    assert_eq!(config.groups[&2].batch_sizes(ProverMode::Deletion), None);
    assert_eq!(
        config.groups[&2].desired_batch_sizes(ProverMode::Deletion).len(),
        0
    );
    assert_eq!(
        config.groups[&1].batch_sizes(ProverMode::Insertion),
        Some(&vec![BatchSize(100), BatchSize(10), BatchSize(100)])
    );
    let desired: Vec<usize> = config.groups[&1]
        .desired_batch_sizes(ProverMode::Insertion)
        .into_iter()
        .collect();
    assert_eq!(desired, vec![10, 100]);
}
