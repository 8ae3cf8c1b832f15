use std::collections::BTreeMap;

use world_id_deployer::cli::DeploymentType;
use world_id_deployer::config::Config;
use world_id_deployer::config::GroupConfig;
use world_id_deployer::config::MiscConfig;
use world_id_deployer::deployment::has_output;
use world_id_deployer::deployment::last_stage;
use world_id_deployer::deployment::missing_predecessor;
use world_id_deployer::deployment::run_deployment;
use world_id_deployer::deployment::run_stage;
use world_id_deployer::deployment::stage_at;
use world_id_deployer::deployment::stage_index;
use world_id_deployer::deployment::steps::assemble_report::assemble_report;
use world_id_deployer::deployment::steps::assemble_report::REPORT_PATH;
use world_id_deployer::deployment::steps::identity_manager::WorldIDIdentityManagersDeployment;
use world_id_deployer::deployment::steps::identity_manager::WorldIdIdentityManagerDeployment;
use world_id_deployer::deployment::steps::lookup_tables::GroupLookupTables;
use world_id_deployer::deployment::steps::lookup_tables::LookupTables;
use world_id_deployer::deployment::steps::semaphore_verifier::SemaphoreVerifierDeployment;
use world_id_deployer::deployment::steps::verifiers::Verifiers;
use world_id_deployer::deployment::steps::world_id_router::WorldIdRouterDeployment;
use world_id_deployer::deployment::StageOutput;
use world_id_deployer::deployment::KEYS_DIR;
use world_id_deployer::deployment::VERIFIER_CONTRACTS_DIR;
use world_id_deployer::error::ConfigIssue;
use world_id_deployer::error::Dependency;
use world_id_deployer::error::DeployError;
use world_id_deployer::deployment::Stage;
use world_id_deployer::interactive::add_group;
use world_id_deployer::interactive::remove_groups;
use world_id_deployer::interactive::CreateConfigMenu;
use world_id_deployer::interactive::MainMenu;
use world_id_deployer::report::contract_deployment::ContractDeployment;
use world_id_deployer::report::Report;
use world_id_deployer::types::Address;
use world_id_deployer::types::BatchSize;
use world_id_deployer::types::GroupId;
use world_id_deployer::types::TreeDepth;
use world_id_deployer::types::H256;

fn deployed(byte: u8) -> ContractDeployment {
    ContractDeployment { address: Address([byte; 20]) }
}

fn group(depth: usize) -> GroupConfig {
    GroupConfig {
        tree_depth: TreeDepth(depth),
        insertion_batch_sizes: Some(vec![BatchSize(10)]),
        deletion_batch_sizes: Some(vec![BatchSize(10)]),
        initial_root: None,
    }
}

fn config() -> Config {
    let mut groups = BTreeMap::new();
    groups.insert(0, group(16));
    groups.insert(1, group(30));
    Config { groups, misc: MiscConfig { initial_leaf_value: H256([3; 32]) } }
}

fn semaphore() -> SemaphoreVerifierDeployment {
    SemaphoreVerifierDeployment { verifier_deployment: deployed(1), pairing_deployment: deployed(2) }
}

fn output_of(stage: Stage) -> StageOutput {
    match stage {
        Stage::InsertionVerifiers => StageOutput::InsertionVerifiers(Verifiers::new()),
        Stage::DeletionVerifiers => StageOutput::DeletionVerifiers(Verifiers::new()),
        Stage::LookupTables => StageOutput::LookupTables(LookupTables { groups: BTreeMap::new() }),
        Stage::SemaphoreVerifier => StageOutput::SemaphoreVerifier(semaphore()),
        Stage::IdentityManagers => StageOutput::IdentityManagers(WorldIDIdentityManagersDeployment::new()),
        Stage::WorldIdRouter => StageOutput::WorldIdRouter(WorldIdRouterDeployment::seeded(
            deployed(3),
            deployed(4),
            Address([5; 20]),
        )),
    }
}

fn stages_run(target: DeploymentType) -> Vec<Stage> {
    let mut run = run_deployment(&config(), None, target);
    let mut stages = Vec::new();
    while let Some(stage) = run.begin().unwrap() {
        stages.push(stage);
        run.complete(output_of(stage)).unwrap();
        assert!(has_output(&run.report, stage));
    }
    stages
}

#[test]
fn full_run_goes_through_every_stage_in_order() {
    let all = vec![
        Stage::InsertionVerifiers,
        Stage::DeletionVerifiers,
        Stage::LookupTables,
        Stage::SemaphoreVerifier,
        Stage::IdentityManagers,
        Stage::WorldIdRouter,
    ];

    assert_eq!(stages_run(DeploymentType::Full), all);
    assert_eq!(stages_run(DeploymentType::WorldIdRouter), all);
}

#[test]
fn scoped_runs_stop_after_their_stage() {
    assert_eq!(stages_run(DeploymentType::InsertionVerifiers), vec![Stage::InsertionVerifiers]);
    assert_eq!(
        stages_run(DeploymentType::DeletionVerifiers),
        vec![Stage::InsertionVerifiers, Stage::DeletionVerifiers]
    );
    assert_eq!(
        stages_run(DeploymentType::Verifiers),
        vec![Stage::InsertionVerifiers, Stage::DeletionVerifiers]
    );
    assert_eq!(
        stages_run(DeploymentType::LookupTables),
        vec![Stage::InsertionVerifiers, Stage::DeletionVerifiers, Stage::LookupTables]
    );
    assert_eq!(stages_run(DeploymentType::SemaphoreVerifier).len(), 4);
    assert_eq!(stages_run(DeploymentType::IdentityManager).len(), 5);
    assert_eq!(last_stage(DeploymentType::IdentityManager), Stage::IdentityManagers);
    assert_eq!(last_stage(DeploymentType::Verifiers), Stage::DeletionVerifiers);
}

#[test]
fn stages_are_numbered_in_running_order() {
    let all = [
        Stage::InsertionVerifiers,
        Stage::DeletionVerifiers,
        Stage::LookupTables,
        Stage::SemaphoreVerifier,
        Stage::IdentityManagers,
        Stage::WorldIdRouter,
    ];
    for (i, stage) in all.iter().enumerate() {
        assert_eq!(stage_index(*stage), i);
        assert_eq!(stage_at(i), Some(*stage));
    }
    assert_eq!(stage_at(6), None);
}

#[test]
fn single_stage_fails_fast_without_its_predecessor() {
    let run = run_stage(&config(), None, Stage::LookupTables);
    assert_eq!(
        run.begin(),
        Err(DeployError::MissingDependency(Dependency::StageOutput(Stage::InsertionVerifiers)))
    );

    let mut recorded = Report::default_with_config(&config());
    recorded.insertion_verifiers = Some(Verifiers::new());
    let run = run_stage(&config(), Some(recorded), Stage::LookupTables);
    assert_eq!(
        run.begin(),
        Err(DeployError::MissingDependency(Dependency::StageOutput(Stage::DeletionVerifiers)))
    );
    assert_eq!(missing_predecessor(&run.report, Stage::LookupTables), Some(Stage::DeletionVerifiers));
    assert_eq!(missing_predecessor(&run.report, Stage::SemaphoreVerifier), None);
    assert_eq!(missing_predecessor(&run.report, Stage::IdentityManagers), Some(Stage::LookupTables));
    assert_eq!(missing_predecessor(&run.report, Stage::WorldIdRouter), Some(Stage::IdentityManagers));

    let mut recorded = Report::default_with_config(&config());
    recorded.insertion_verifiers = Some(Verifiers::new());
    recorded.deletion_verifiers = Some(Verifiers::new());
    let mut run = run_stage(&config(), Some(recorded), Stage::LookupTables);
    assert_eq!(run.begin(), Ok(Some(Stage::LookupTables)));
    run.complete(output_of(Stage::LookupTables)).unwrap();
    assert_eq!(run.begin(), Ok(None));
}

#[test]
fn output_of_another_stage_is_refused() {
    let mut run = run_deployment(&config(), None, DeploymentType::Full);

    assert_eq!(
        run.complete(output_of(Stage::LookupTables)),
        Err(DeployError::Config(ConfigIssue::IncompleteRequest))
    );
    assert_eq!(run.next, 0);
    assert!(!has_output(&run.report, Stage::LookupTables));
    assert_eq!(run.begin(), Ok(Some(Stage::InsertionVerifiers)));

    let mut run = run_deployment(&config(), None, DeploymentType::InsertionVerifiers);
    run.complete(output_of(Stage::InsertionVerifiers)).unwrap();
    assert_eq!(
        run.complete(output_of(Stage::DeletionVerifiers)),
        Err(DeployError::Config(ConfigIssue::IncompleteRequest))
    );
}

#[test]
fn checkpoint_keeps_what_other_stages_recorded() {
    let mut recorded = Report::default_with_config(&config());
    recorded.semaphore_verifier = Some(semaphore());
    recorded.world_id_router = Some(WorldIdRouterDeployment::seeded(deployed(3), deployed(4), Address([5; 20])));

    let mut run = run_deployment(&config(), Some(recorded), DeploymentType::InsertionVerifiers);
    run.complete(output_of(Stage::InsertionVerifiers)).unwrap();

    assert!(run.report.insertion_verifiers.is_some());
    assert_eq!(run.report.semaphore_verifier, Some(semaphore()));
    assert_eq!(run.report.world_id_router.as_ref().unwrap().proxy_deployment, deployed(4));
    assert_eq!(run.report.config.misc.initial_leaf_value, H256([3; 32]));
    assert_eq!(run.report.config.groups.len(), 2);
}

#[test]
fn report_starts_empty_but_tagged_with_the_config() {
    let report = Report::default_with_config(&config());

    assert_eq!(report.config.groups.len(), 2);
    assert_eq!(report.config.groups[&1].tree_depth, TreeDepth(30));
    assert_eq!(report.config.misc.initial_leaf_value, H256([3; 32]));
    assert!(report.insertion_verifiers.is_none());
    assert!(report.deletion_verifiers.is_none());
    assert!(report.lookup_tables.is_none());
    assert!(report.semaphore_verifier.is_none());
    assert!(report.identity_managers.is_none());
    assert!(report.world_id_router.is_none());
    assert!(!report.can_invalidate());
}

#[test]
fn report_is_assembled_from_what_is_there() {
    let report = assemble_report(
        &config(),
        Some(Verifiers::new()),
        None,
        None,
        Some(semaphore()),
        None,
        None,
    );

    assert!(report.insertion_verifiers.is_some());
    assert!(report.deletion_verifiers.is_none());
    assert!(report.lookup_tables.is_none());
    assert_eq!(report.semaphore_verifier, Some(semaphore()));
    assert!(report.identity_managers.is_none());
    assert!(report.world_id_router.is_none());
    assert_eq!(report.config.groups.len(), 2);
    assert_eq!(REPORT_PATH, "report.yml");
    assert_eq!(KEYS_DIR, "keys");
    assert_eq!(VERIFIER_CONTRACTS_DIR, "verifier_contracts");
}

fn report_with_groups(groups: &[usize]) -> Report {
    let mut report = Report::default_with_config(&config());
    let mut tables = LookupTables { groups: BTreeMap::new() };
    let mut managers = WorldIDIdentityManagersDeployment::new();
    for g in groups {
        tables.groups.insert(*g, GroupLookupTables::new());
        managers.record(
            GroupId(*g),
            WorldIdIdentityManagerDeployment {
                impl_v1_deployment: Some(deployed(1)),
                impl_v2_deployment: None,
                proxy_deployment: deployed(2),
            },
        );
    }
    report.lookup_tables = Some(tables);
    report.identity_managers = Some(managers);
    report.semaphore_verifier = Some(semaphore());
    report
}

#[test]
fn invalidating_a_group_forgets_its_tables_and_manager() {
    let mut report = report_with_groups(&[0, 1, 2]);
    assert!(report.can_invalidate());

    report.invalidate_group_id(GroupId(1));

    let tables: Vec<usize> = report.lookup_tables.as_ref().unwrap().groups.keys().copied().collect();
    let managers: Vec<usize> = report.identity_managers.as_ref().unwrap().groups.keys().copied().collect();
    assert_eq!(tables, vec![0, 2]);
    assert_eq!(managers, vec![0, 2]);
    assert_eq!(report.semaphore_verifier, Some(semaphore()));

    report.invalidate_group_id(GroupId(7));
    assert_eq!(report.lookup_tables.as_ref().unwrap().groups.len(), 2);
}

#[test]
fn replacing_a_group_invalidates_it() {
    let mut config = config();
    let mut report = report_with_groups(&[0, 1]);

    assert!(!add_group(&mut config, &mut report, GroupId(5), group(20)));
    assert_eq!(config.groups.len(), 3);
    assert_eq!(report.lookup_tables.as_ref().unwrap().groups.len(), 2);

    assert!(add_group(&mut config, &mut report, GroupId(1), group(21)));
    assert_eq!(config.groups.len(), 3);
    assert_eq!(config.groups[&1].tree_depth, TreeDepth(21));
    let tables: Vec<usize> = report.lookup_tables.as_ref().unwrap().groups.keys().copied().collect();
    let managers: Vec<usize> = report.identity_managers.as_ref().unwrap().groups.keys().copied().collect();
    assert_eq!(tables, vec![0]);
    assert_eq!(managers, vec![0]);
}

#[test]
fn removed_groups_leave_config_and_report() {
    let mut config = config();
    let mut report = report_with_groups(&[0, 1, 2]);

    remove_groups(&mut config, &mut report, &vec![GroupId(1), GroupId(2), GroupId(1)]);

    let declared: Vec<usize> = config.groups.keys().copied().collect();
    let tables: Vec<usize> = report.lookup_tables.as_ref().unwrap().groups.keys().copied().collect();
    let managers: Vec<usize> = report.identity_managers.as_ref().unwrap().groups.keys().copied().collect();
    assert_eq!(declared, vec![0]);
    assert_eq!(tables, vec![0]);
    assert_eq!(managers, vec![0]);
}

#[test]
fn menus_are_labelled() {
    assert_eq!(MainMenu::Proceed.to_string(), "proceed");
    assert_eq!(MainMenu::AddGroup.to_string(), "Add group");
    assert_eq!(MainMenu::RemoveGroups.to_string(), "Remove groups");
    assert_eq!(CreateConfigMenu::AddGroup.to_string(), "Add group");
    assert_eq!(CreateConfigMenu::RemoveGroup.to_string(), "Remove group");
    assert_eq!(CreateConfigMenu::Proceed.to_string(), "Proceed");
}
