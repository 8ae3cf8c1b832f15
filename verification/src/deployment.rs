//! The pipeline: its stages, the context they share and the driver that
//! sequences them.

use crate::cli::DeploymentType;
use crate::config::Config;
use crate::deployment::steps::identity_manager::WorldIDIdentityManagersDeployment;
use crate::deployment::steps::lookup_tables::LookupTables;
use crate::deployment::steps::semaphore_verifier::SemaphoreVerifierDeployment;
use crate::deployment::steps::verifiers::Verifiers;
use crate::deployment::steps::world_id_router::WorldIdRouterDeployment;
use crate::error::ConfigIssue;
use crate::error::Dependency;
use crate::error::DeployError;
use crate::report::Report;
use vstd::prelude::*;

pub mod cmd;
pub mod deployment_context;
pub mod mtb_utils;
pub mod steps;

verus! {

/// The stages of the pipeline, in the order in which they run.
#[derive(Debug, Clone, Copy, PartialEq, Eq, Structural)]
pub enum Stage {
    InsertionVerifiers,
    DeletionVerifiers,
    LookupTables,
    SemaphoreVerifier,
    IdentityManagers,
    WorldIdRouter,
}

/// The directory of the generated keys within the cache.
pub const KEYS_DIR: &'static str = "keys";

/// The directory of the generated verifier contracts within the cache.
pub const VERIFIER_CONTRACTS_DIR: &'static str = "verifier_contracts";

/// The number of stages.
pub const STAGES: usize = 6;

/// The place of a stage in the order in which the stages run.
pub open spec fn spec_stage_index(stage: Stage) -> nat {
    match stage {
        Stage::InsertionVerifiers => 0,
        Stage::DeletionVerifiers => 1,
        Stage::LookupTables => 2,
        Stage::SemaphoreVerifier => 3,
        Stage::IdentityManagers => 4,
        Stage::WorldIdRouter => 5,
    }
}

/// The place of a stage in the order in which the stages run.
pub fn stage_index(stage: Stage) -> (r: usize)
    ensures
        r == spec_stage_index(stage),
        r < STAGES,
{
    match stage {
        Stage::InsertionVerifiers => 0,
        Stage::DeletionVerifiers => 1,
        Stage::LookupTables => 2,
        Stage::SemaphoreVerifier => 3,
        Stage::IdentityManagers => 4,
        Stage::WorldIdRouter => 5,
    }
}

/// The stage at a place of the order; past the end there is none.
pub open spec fn spec_stage_at(index: nat) -> Option<Stage> {
    if index == 0 {
        Some(Stage::InsertionVerifiers)
    } else if index == 1 {
        Some(Stage::DeletionVerifiers)
    } else if index == 2 {
        Some(Stage::LookupTables)
    } else if index == 3 {
        Some(Stage::SemaphoreVerifier)
    } else if index == 4 {
        Some(Stage::IdentityManagers)
    } else if index == 5 {
        Some(Stage::WorldIdRouter)
    } else {
        None
    }
}

/// The stage at a place of the order.
pub fn stage_at(index: usize) -> (r: Option<Stage>)
    ensures
        r == spec_stage_at(index as nat),
{
    if index == 0 {
        Some(Stage::InsertionVerifiers)
    } else if index == 1 {
        Some(Stage::DeletionVerifiers)
    } else if index == 2 {
        Some(Stage::LookupTables)
    } else if index == 3 {
        Some(Stage::SemaphoreVerifier)
    } else if index == 4 {
        Some(Stage::IdentityManagers)
    } else if index == 5 {
        Some(Stage::WorldIdRouter)
    } else {
        None
    }
}

/// The stage with which a run for `target` ends.
pub open spec fn spec_last_stage(target: DeploymentType) -> Stage {
    match target {
        DeploymentType::InsertionVerifiers => Stage::InsertionVerifiers,
        DeploymentType::DeletionVerifiers => Stage::DeletionVerifiers,
        DeploymentType::Verifiers => Stage::DeletionVerifiers,
        DeploymentType::LookupTables => Stage::LookupTables,
        DeploymentType::SemaphoreVerifier => Stage::SemaphoreVerifier,
        DeploymentType::IdentityManager => Stage::IdentityManagers,
        DeploymentType::WorldIdRouter => Stage::WorldIdRouter,
        DeploymentType::Full => Stage::WorldIdRouter,
    }
}

/// The stage with which a run for `target` ends.
#[verifier::when_used_as_spec(spec_last_stage)]
pub fn last_stage(target: DeploymentType) -> (r: Stage)
    ensures
        r == spec_last_stage(target),
{
    match target {
        DeploymentType::InsertionVerifiers => Stage::InsertionVerifiers,
        DeploymentType::DeletionVerifiers => Stage::DeletionVerifiers,
        DeploymentType::Verifiers => Stage::DeletionVerifiers,
        DeploymentType::LookupTables => Stage::LookupTables,
        DeploymentType::SemaphoreVerifier => Stage::SemaphoreVerifier,
        DeploymentType::IdentityManager => Stage::IdentityManagers,
        DeploymentType::WorldIdRouter => Stage::WorldIdRouter,
        DeploymentType::Full => Stage::WorldIdRouter,
    }
}

/// The stages whose output a stage builds on.
pub open spec fn predecessors(stage: Stage) -> Seq<Stage> {
    match stage {
        Stage::InsertionVerifiers => Seq::empty(),
        Stage::DeletionVerifiers => Seq::empty(),
        Stage::LookupTables => seq![Stage::InsertionVerifiers, Stage::DeletionVerifiers],
        Stage::SemaphoreVerifier => Seq::empty(),
        Stage::IdentityManagers => seq![Stage::LookupTables, Stage::SemaphoreVerifier],
        Stage::WorldIdRouter => seq![Stage::IdentityManagers],
    }
}

/// Whether the report holds the output of a stage.
pub open spec fn produced(report: Report, stage: Stage) -> bool {
    match stage {
        Stage::InsertionVerifiers => report.insertion_verifiers is Some,
        Stage::DeletionVerifiers => report.deletion_verifiers is Some,
        Stage::LookupTables => report.lookup_tables is Some,
        Stage::SemaphoreVerifier => report.semaphore_verifier is Some,
        Stage::IdentityManagers => report.identity_managers is Some,
        Stage::WorldIdRouter => report.world_id_router is Some,
    }
}

/// Whether the report holds the output of a stage.
pub fn has_output(report: &Report, stage: Stage) -> (r: bool)
    ensures
        r == produced(*report, stage),
{
    match stage {
        Stage::InsertionVerifiers => report.insertion_verifiers.is_some(),
        Stage::DeletionVerifiers => report.deletion_verifiers.is_some(),
        Stage::LookupTables => report.lookup_tables.is_some(),
        Stage::SemaphoreVerifier => report.semaphore_verifier.is_some(),
        Stage::IdentityManagers => report.identity_managers.is_some(),
        Stage::WorldIdRouter => report.world_id_router.is_some(),
    }
}

/// The first predecessor of `stage` whose output the report lacks.
pub open spec fn spec_missing_predecessor(report: Report, stage: Stage) -> Option<Stage> {
    let needed = predecessors(stage);
    if needed.len() >= 1 && !produced(report, needed[0]) {
        Some(needed[0])
    } else if needed.len() >= 2 && !produced(report, needed[1]) {
        Some(needed[1])
    } else {
        None
    }
}

/// The first predecessor of `stage` whose output the report lacks, if any.
pub fn missing_predecessor(report: &Report, stage: Stage) -> (r: Option<Stage>)
    ensures
        r == spec_missing_predecessor(*report, stage),
        r is None <==> forall|i: int| 0 <= i < predecessors(stage).len() ==> produced(*report, predecessors(stage)[i]),
{
    match stage {
        Stage::InsertionVerifiers => None,
        Stage::DeletionVerifiers => None,
        Stage::LookupTables => {
            if !has_output(report, Stage::InsertionVerifiers) {
                Some(Stage::InsertionVerifiers)
            } else if !has_output(report, Stage::DeletionVerifiers) {
                assert(predecessors(stage)[1] == Stage::DeletionVerifiers);
                Some(Stage::DeletionVerifiers)
            } else {
                None
            }
        },
        Stage::SemaphoreVerifier => None,
        Stage::IdentityManagers => {
            if !has_output(report, Stage::LookupTables) {
                Some(Stage::LookupTables)
            } else if !has_output(report, Stage::SemaphoreVerifier) {
                assert(predecessors(stage)[1] == Stage::SemaphoreVerifier);
                Some(Stage::SemaphoreVerifier)
            } else {
                None
            }
        },
        Stage::WorldIdRouter => {
            if !has_output(report, Stage::IdentityManagers) {
                assert(predecessors(stage)[0] == Stage::IdentityManagers);
                Some(Stage::IdentityManagers)
            } else {
                None
            }
        },
    }
}

/// What a stage hands back when it is done.
#[derive(Debug)]
pub enum StageOutput {
    InsertionVerifiers(Verifiers),
    DeletionVerifiers(Verifiers),
    LookupTables(LookupTables),
    SemaphoreVerifier(SemaphoreVerifierDeployment),
    IdentityManagers(WorldIDIdentityManagersDeployment),
    WorldIdRouter(WorldIdRouterDeployment),
}

impl StageOutput {
    /// The stage that the output comes from.
    pub open spec fn spec_stage(&self) -> Stage {
        match *self {
            StageOutput::InsertionVerifiers(_) => Stage::InsertionVerifiers,
            StageOutput::DeletionVerifiers(_) => Stage::DeletionVerifiers,
            StageOutput::LookupTables(_) => Stage::LookupTables,
            StageOutput::SemaphoreVerifier(_) => Stage::SemaphoreVerifier,
            StageOutput::IdentityManagers(_) => Stage::IdentityManagers,
            StageOutput::WorldIdRouter(_) => Stage::WorldIdRouter,
        }
    }

    /// The stage that the output comes from.
    #[verifier::when_used_as_spec(spec_stage)]
    pub fn stage(&self) -> (r: Stage)
        ensures
            r == self.spec_stage(),
    {
        match self {
            StageOutput::InsertionVerifiers(_) => Stage::InsertionVerifiers,
            StageOutput::DeletionVerifiers(_) => Stage::DeletionVerifiers,
            StageOutput::LookupTables(_) => Stage::LookupTables,
            StageOutput::SemaphoreVerifier(_) => Stage::SemaphoreVerifier,
            StageOutput::IdentityManagers(_) => Stage::IdentityManagers,
            StageOutput::WorldIdRouter(_) => Stage::WorldIdRouter,
        }
    }
}

/// The report with the output of a stage put in its place; everything else
/// stays as it is.
pub open spec fn with_output(report: Report, output: StageOutput) -> Report {
    match output {
        StageOutput::InsertionVerifiers(v) => Report { insertion_verifiers: Some(v), ..report },
        StageOutput::DeletionVerifiers(v) => Report { deletion_verifiers: Some(v), ..report },
        StageOutput::LookupTables(t) => Report { lookup_tables: Some(t), ..report },
        StageOutput::SemaphoreVerifier(s) => Report { semaphore_verifier: Some(s), ..report },
        StageOutput::IdentityManagers(m) => Report { identity_managers: Some(m), ..report },
        StageOutput::WorldIdRouter(r) => Report { world_id_router: Some(r), ..report },
    }
}

/// A run of the pipeline: the report as it stands, the stage that is due
/// next, and the place at which the run ends.
pub struct Run {
    /// The report; after each completed stage it is the checkpoint that is
    /// to be written out.
    pub report: Report,
    /// The place of the stage that is due next.
    pub next: usize,
    /// The place after the last stage of the run.
    pub end: usize,
}

impl Run {
    /// The stage that is due, if the run is not over.
    pub open spec fn due(&self) -> Option<Stage> {
        if self.next < self.end {
            spec_stage_at(self.next as nat)
        } else {
            None
        }
    }

    /// The report holds the output of every stage that comes before the one
    /// that is due.
    pub open spec fn caught_up(&self) -> bool {
        forall|stage: Stage| spec_stage_index(stage) < self.next ==> produced(self.report, stage)
    }

    /// What `begin` answers.
    pub open spec fn spec_begin(&self) -> Result<Option<Stage>, DeployError> {
        match self.due() {
            None => Ok(None),
            Some(stage) => match spec_missing_predecessor(self.report, stage) {
                Some(missing) => Err(DeployError::MissingDependency(Dependency::StageOutput(missing))),
                None => Ok(Some(stage)),
            },
        }
    }

    /// Names the stage that is to run now; `None` when the run is over.
    ///
    /// Fails fast where the stage builds on the output of a stage that is
    /// neither in the report nor produced by this run; the error names the
    /// stage that has to run first.
    pub fn begin(&self) -> (r: Result<Option<Stage>, DeployError>)
        ensures
            r == self.spec_begin(),
    {
        if self.next >= self.end {
            return Ok(None);
        }
        match stage_at(self.next) {
            None => Ok(None),
            Some(stage) => match missing_predecessor(&self.report, stage) {
                Some(missing) => Err(DeployError::MissingDependency(Dependency::StageOutput(missing))),
                None => Ok(Some(stage)),
            },
        }
    }

    /// Takes the output of the stage that was due into the report and moves
    /// on to the next stage. The report is then the checkpoint to write.
    ///
    /// An output of another stage than the one that is due is refused, and
    /// nothing changes.
    pub fn complete(&mut self, output: StageOutput) -> (r: Result<(), DeployError>)
        ensures
            match r {
                Ok(()) => {
                    &&& old(self).due() == Some(output.spec_stage())
                    &&& final(self).report == with_output(old(self).report, output)
                    &&& final(self).next == old(self).next + 1
                    &&& final(self).end == old(self).end
                },
                Err(e) => {
                    &&& old(self).due() != Some(output.spec_stage())
                    &&& e == DeployError::Config(ConfigIssue::IncompleteRequest)
                    &&& *final(self) == *old(self)
                },
            },
    {
        if self.next >= self.end {
            return Err(DeployError::Config(ConfigIssue::IncompleteRequest));
        }
        if stage_index(output.stage()) != self.next {
            return Err(DeployError::Config(ConfigIssue::IncompleteRequest));
        }
        match output {
            StageOutput::InsertionVerifiers(v) => {
                self.report.insertion_verifiers = Some(v);
            },
            StageOutput::DeletionVerifiers(v) => {
                self.report.deletion_verifiers = Some(v);
            },
            StageOutput::LookupTables(t) => {
                self.report.lookup_tables = Some(t);
            },
            StageOutput::SemaphoreVerifier(s) => {
                self.report.semaphore_verifier = Some(s);
            },
            StageOutput::IdentityManagers(m) => {
                self.report.identity_managers = Some(m);
            },
            StageOutput::WorldIdRouter(r) => {
                self.report.world_id_router = Some(r);
            },
        }
        self.next = self.next + 1;
        Ok(())
    }
}

/// The report that a run starts from: the recorded one, tagged with the
/// configuration of this run, or an empty one where nothing is recorded.
pub fn starting_report(config: &Config, recorded: Option<Report>) -> (r: Report)
    ensures
        r.config.groups@ == config.groups@,
        r.config.misc == config.misc,
        match recorded {
            Some(previous) => r == (Report { config: r.config, ..previous }),
            None => {
                &&& r.insertion_verifiers is None
                &&& r.deletion_verifiers is None
                &&& r.lookup_tables is None
                &&& r.semaphore_verifier is None
                &&& r.identity_managers is None
                &&& r.world_id_router is None
            },
        },
{
    match recorded {
        Some(previous) => {
            let mut report = previous;
            report.config = config.duplicate();
            report
        },
        None => Report::default_with_config(config),
    }
}

/// Starts a run for `target`: the stages from the first up to the one that
/// the target names, each followed by a checkpoint.
pub fn run_deployment(config: &Config, recorded: Option<Report>, target: DeploymentType) -> (r: Run)
    ensures
        r.next == 0,
        r.end == spec_stage_index(spec_last_stage(target)) + 1,
        r.caught_up(),
        r.report.config.groups@ == config.groups@,
        r.report.config.misc == config.misc,
        recorded matches Some(previous) ==> r.report == (Report { config: r.report.config, ..previous }),
        recorded is None ==> forall|stage: Stage| !produced(r.report, stage),
{
    let report = starting_report(config, recorded);
    Run { report, next: 0, end: stage_index(last_stage(target)) + 1 }
}

/// Starts a run of the one stage `stage`, on top of what is recorded.
pub fn run_stage(config: &Config, recorded: Option<Report>, stage: Stage) -> (r: Run)
    ensures
        r.next == spec_stage_index(stage),
        r.end == spec_stage_index(stage) + 1,
        r.due() == Some(stage),
        r.report.config.groups@ == config.groups@,
        r.report.config.misc == config.misc,
        recorded matches Some(previous) ==> r.report == (Report { config: r.report.config, ..previous }),
        recorded is None ==> forall|other: Stage| !produced(r.report, other),
{
    let report = starting_report(config, recorded);
    let at = stage_index(stage);
    Run { report, next: at, end: at + 1 }
}

/// Every stage builds only on stages that run before it.
pub proof fn lemma_predecessors_run_first(stage: Stage, i: int)
    requires
        0 <= i < predecessors(stage).len(),
    ensures
        spec_stage_index(predecessors(stage)[i]) < spec_stage_index(stage),
{
}

/// A run that has the output of every earlier stage never lacks a
/// predecessor: the stage that is due can begin.
pub proof fn lemma_caught_up_can_begin(run: Run)
    requires
        run.caught_up(),
    ensures
        run.spec_begin() is Ok,
{
    match run.due() {
        None => {},
        Some(stage) => {
            assert(spec_stage_index(stage) == run.next);
            assert forall|i: int| 0 <= i < predecessors(stage).len() implies produced(
                run.report,
                predecessors(stage)[i],
            ) by {
                lemma_predecessors_run_first(stage, i);
            }
        },
    }
}

/// Completing the stage that is due keeps the run caught up, and leaves
/// every output that was there in place.
pub proof fn lemma_complete_keeps_caught_up(before: Run, after: Run, output: StageOutput)
    requires
        before.caught_up(),
        before.due() == Some(output.spec_stage()),
        after.report == with_output(before.report, output),
        after.next == before.next + 1,
    ensures
        after.caught_up(),
        forall|stage: Stage| produced(before.report, stage) ==> produced(after.report, stage),
{
    assert forall|stage: Stage| spec_stage_index(stage) < after.next implies produced(after.report, stage) by {
        if spec_stage_index(stage) < before.next {
            assert(produced(before.report, stage));
        } else {
            assert(stage == output.spec_stage());
        }
    }
}

} // verus!
