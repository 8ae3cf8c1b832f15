//! The checkpoint: the report that is written out after a stage.

use crate::config::Config;
use crate::deployment::steps::identity_manager::WorldIDIdentityManagersDeployment;
use crate::deployment::steps::lookup_tables::LookupTables;
use crate::deployment::steps::semaphore_verifier::SemaphoreVerifierDeployment;
use crate::deployment::steps::verifiers::Verifiers;
use crate::deployment::steps::world_id_router::WorldIdRouterDeployment;
use crate::report::Report;
use vstd::prelude::*;

verus! {

/// The name of the report's file within the deployment's directory.
pub const REPORT_PATH: &'static str = "report.yml";

/// Puts the report together from the configuration and the outputs of the
/// stages, each as far as it is there.
pub fn assemble_report(
    config: &Config,
    insertion_verifiers: Option<Verifiers>,
    deletion_verifiers: Option<Verifiers>,
    lookup_tables: Option<LookupTables>,
    semaphore_verifier: Option<SemaphoreVerifierDeployment>,
    identity_managers: Option<WorldIDIdentityManagersDeployment>,
    world_id_router: Option<WorldIdRouterDeployment>,
) -> (r: Report)
    ensures
        r.config.groups@ == config.groups@,
        r.config.misc == config.misc,
        r.insertion_verifiers == insertion_verifiers,
        r.deletion_verifiers == deletion_verifiers,
        r.lookup_tables == lookup_tables,
        r.semaphore_verifier == semaphore_verifier,
        r.identity_managers == identity_managers,
        r.world_id_router == world_id_router,
{
    Report {
        config: config.duplicate(),
        insertion_verifiers,
        deletion_verifiers,
        lookup_tables,
        semaphore_verifier,
        identity_managers,
        world_id_router,
    }
}

} // verus!
