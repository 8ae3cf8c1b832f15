//! The errors that abort a run, and the warnings that do not.

use crate::deployment::mtb_utils::ProverMode;
use crate::deployment::steps::lookup_tables::TableKind;
use crate::deployment::Stage;
use crate::types::BatchSize;
use crate::types::GroupId;
use crate::types::TreeDepth;
use vstd::prelude::*;

verus! {

/// A prerequisite that a step needs and that neither the report nor the
/// current run provides.
#[derive(Debug, Clone, Copy, PartialEq, Eq, Structural)]
pub enum Dependency {
    /// The whole output of an earlier stage.
    StageOutput(Stage),
    /// The verifier contract for one tree depth and batch size.
    Verifier(ProverMode, TreeDepth, BatchSize),
    /// The lookup tables of one group.
    GroupLookupTables(GroupId),
    /// One lookup table of one group.
    LookupTable(GroupId, TableKind),
    /// The identity manager of one group.
    IdentityManager(GroupId),
    /// A value that a registry was asked for and never given.
    Unregistered,
}

/// A setting of a source-verification request.
#[derive(Debug, Clone, Copy, PartialEq, Eq, Structural)]
pub enum Setting {
    Root,
    Chain,
    EtherscanApiKey,
}

/// What is wrong with the declared configuration or with the recorded state
/// that it is read against.
#[derive(Debug, Clone, Copy, PartialEq, Eq, Structural)]
pub enum ConfigIssue {
    /// A group that a step was asked to handle is not declared.
    UnknownGroup(GroupId),
    /// A group declares no batch sizes for a mode that needs them.
    MissingBatchSizes(GroupId, ProverMode),
    /// The report holds an identity manager with a proxy and no
    /// implementation at all.
    InvalidIdentityManager(GroupId),
    /// A request was built without one of its mandatory parts, or an
    /// outcome was reported that does not answer the step that was due.
    IncompleteRequest,
    /// The signing key is not thirty-two bytes in hexadecimal.
    InvalidPrivateKey,
    /// The artifact generator is not published for this machine.
    UnsupportedPlatform,
    /// A source-verification request lacks a setting that it cannot do
    /// without.
    MissingSetting(Setting),
}

/// A resource that the report records and the configuration no longer asks
/// for. Such a resource is never retired automatically: the operator is
/// told, and the run goes on.
#[derive(Debug, Clone, Copy, PartialEq, Eq, Structural)]
pub enum Warning {
    /// A verifier contract that no group needs any more.
    StaleVerifier(ProverMode, TreeDepth, BatchSize),
    /// The lookup tables of a group that is no longer declared.
    StaleLookupTables(GroupId),
    /// The identity manager of a group that is no longer declared.
    StaleIdentityManager(GroupId),
}

/// Every error aborts the run at once; nothing is retried.
#[derive(Debug, Clone, Copy, PartialEq, Eq, Structural)]
pub enum DeployError {
    /// The declared input is malformed or incomplete.
    Config(ConfigIssue),
    /// A predecessor's output is absent from the report and from this run.
    MissingDependency(Dependency),
    /// The verifier-artifact generator failed.
    ArtifactGenerationFailed,
    /// The contract deployment tool failed or printed what cannot be read.
    ArtifactDeployFailed,
    /// The chain could not be reached.
    ChainError,
    /// A transaction was mined and its receipt reports failure.
    TransactionFailed,
}

} // verus!
