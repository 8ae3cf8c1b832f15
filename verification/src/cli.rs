//! The selector that restricts a run to a part of the pipeline.

use vstd::prelude::*;

verus! {

/// Which part of the pipeline a run covers.
#[derive(Debug, Clone, Copy, PartialEq, Eq, Structural)]
pub enum DeploymentType {
    Full,
    SemaphoreVerifier,
    InsertionVerifiers,
    DeletionVerifiers,
    Verifiers,
    LookupTables,
    WorldIdRouter,
    IdentityManager,
}

} // verus!
