//! The deployment report: the record of what has actually been deployed.
//! It is read at the start of a run, changed as the stages complete, and
//! written out whole after each stage.

use crate::config::Config;
use crate::deployment::steps::identity_manager::WorldIDIdentityManagersDeployment;
use crate::deployment::steps::lookup_tables::LookupTables;
use crate::deployment::steps::semaphore_verifier::SemaphoreVerifierDeployment;
use crate::deployment::steps::verifiers::Verifiers;
use crate::deployment::steps::world_id_router::WorldIdRouterDeployment;
use crate::types::GroupId;
use vstd::prelude::*;

pub mod contract_deployment;

verus! {

/// What has been deployed, stage by stage, together with the configuration
/// that it was deployed for. A stage that has not produced anything yet is
/// absent.
#[derive(Debug, Clone)]
pub struct Report {
    pub config: Config,
    pub insertion_verifiers: Option<Verifiers>,
    pub deletion_verifiers: Option<Verifiers>,
    pub lookup_tables: Option<LookupTables>,
    pub semaphore_verifier: Option<SemaphoreVerifierDeployment>,
    pub identity_managers: Option<WorldIDIdentityManagersDeployment>,
    pub world_id_router: Option<WorldIdRouterDeployment>,
}

impl Report {
    /// The report of a deployment for which nothing has been deployed yet.
    pub fn default_with_config(config: &Config) -> (r: Self)
        ensures
            r.config.groups@ == config.groups@,
            r.config.misc == config.misc,
            r.insertion_verifiers is None,
            r.deletion_verifiers is None,
            r.lookup_tables is None,
            r.semaphore_verifier is None,
            r.identity_managers is None,
            r.world_id_router is None,
    {
        Self {
            config: config.duplicate(),
            insertion_verifiers: None,
            deletion_verifiers: None,
            lookup_tables: None,
            semaphore_verifier: None,
            identity_managers: None,
            world_id_router: None,
        }
    }

    /// Whether the report holds what `invalidate_group_id` works on: lookup
    /// tables and identity managers.
    pub open spec fn spec_can_invalidate(&self) -> bool {
        self.lookup_tables is Some && self.identity_managers is Some
    }

    /// Whether the report holds lookup tables and identity managers.
    #[verifier::when_used_as_spec(spec_can_invalidate)]
    pub fn can_invalidate(&self) -> (r: bool)
        ensures
            r == self.spec_can_invalidate(),
    {
        self.lookup_tables.is_some() && self.identity_managers.is_some()
    }

    /// Forgets the lookup tables and the identity manager of a group, so
    /// that the next run deploys them anew. Everything else stays.
    pub fn invalidate_group_id(&mut self, group_id: GroupId)
        requires
            old(self).spec_can_invalidate(),
        ensures
            final(self).lookup_tables is Some,
            final(self).identity_managers is Some,
            final(self).lookup_tables->0.groups@ == old(self).lookup_tables->0.groups@.remove(group_id.0),
            final(self).identity_managers->0.groups@ == old(self).identity_managers->0.groups@.remove(
                group_id.0,
            ),
            final(self).config == old(self).config,
            final(self).insertion_verifiers == old(self).insertion_verifiers,
            final(self).deletion_verifiers == old(self).deletion_verifiers,
            final(self).semaphore_verifier == old(self).semaphore_verifier,
            final(self).world_id_router == old(self).world_id_router,
    {
        broadcast use vstd::std_specs::btree::group_btree_axioms;

        match self.lookup_tables.take() {
            Some(mut tables) => {
                tables.groups.remove(&group_id.0);
                self.lookup_tables = Some(tables);
            },
            None => {},
        }
        match self.identity_managers.take() {
            Some(mut managers) => {
                managers.groups.remove(&group_id.0);
                self.identity_managers = Some(managers);
            },
            None => {},
        }
    }
}

} // verus!
