//! The semaphore verifier and the pairing library that it links against.

use crate::deployment::deployment_context::DeploymentContext;
use crate::deployment::deployment_context::CONTRACTS_DIR;
use crate::forge_utils::common::ExternalDep;
use crate::forge_utils::create::ForgeCreate;
use crate::report::contract_deployment::ContractDeployment;
use crate::types::Address;
use vstd::prelude::*;

verus! {

/// The deployed semaphore verifier and its pairing library.
#[derive(Debug, Clone, Copy, PartialEq, Eq)]
pub struct SemaphoreVerifierDeployment {
    pub verifier_deployment: ContractDeployment,
    pub pairing_deployment: ContractDeployment,
}

/// What the stage has to do next.
#[derive(Debug, Clone, Copy, PartialEq, Eq)]
pub enum SemaphoreStep {
    /// Deploy the pairing library.
    DeployPairing,
    /// Deploy the verifier, linked against the pairing library.
    DeployVerifier { pairing: ContractDeployment },
    /// Nothing is left to do: this is the stage's output.
    Done(SemaphoreVerifierDeployment),
}

/// What the stage has to do next, given what the report records and what
/// this run has deployed of the pairing library.
///
/// A recorded deployment is taken over as it is; nothing is deployed twice.
pub open spec fn spec_deploy(
    recorded: Option<SemaphoreVerifierDeployment>,
    pairing: Option<ContractDeployment>,
    verifier: Option<ContractDeployment>,
) -> SemaphoreStep {
    match recorded {
        Some(previous) => SemaphoreStep::Done(previous),
        None => match pairing {
            None => SemaphoreStep::DeployPairing,
            Some(pairing_deployment) => match verifier {
                None => SemaphoreStep::DeployVerifier { pairing: pairing_deployment },
                Some(verifier_deployment) => SemaphoreStep::Done(
                    SemaphoreVerifierDeployment { verifier_deployment, pairing_deployment },
                ),
            },
        },
    }
}

/// What the stage has to do next, given what the report records and what
/// this run has deployed so far.
#[verifier::when_used_as_spec(spec_deploy)]
pub fn deploy(
    recorded: Option<SemaphoreVerifierDeployment>,
    pairing: Option<ContractDeployment>,
    verifier: Option<ContractDeployment>,
) -> (r: SemaphoreStep)
    ensures
        r == spec_deploy(recorded, pairing, verifier),
{
    match recorded {
        Some(previous) => SemaphoreStep::Done(previous),
        None => match pairing {
            None => SemaphoreStep::DeployPairing,
            Some(pairing_deployment) => match verifier {
                None => SemaphoreStep::DeployVerifier { pairing: pairing_deployment },
                Some(verifier_deployment) => SemaphoreStep::Done(
                    SemaphoreVerifierDeployment { verifier_deployment, pairing_deployment },
                ),
            },
        },
    }
}

/// The source file of the pairing library within the contracts project.
pub const PAIRING_PATH: &'static str = "./lib/semaphore/packages/contracts/contracts/base/Pairing.sol";

/// The request to deploy the pairing library, without source verification
/// and under the next nonce of the run.
pub fn deploy_semaphore_pairing_library(context: &mut DeploymentContext) -> (r: ForgeCreate)
    ensures
        old(context).is_issued(r),
        final(context).has_issued_after(*old(context)),
        r.contract_spec.path is None,
        r.contract_spec.name@ == "Pairing"@,
        r.cwd is Some,
        r.cwd->0@ == CONTRACTS_DIR@,
        r.override_contract_source is None,
        r.skip_verification,
        r.constructor_args@.len() == 0,
        r.external_deps@.len() == 0,
{
    context.create_contract("Pairing").skip_verification()
}

/// The request to deploy the semaphore verifier, linked against the
/// pairing library at `pairing_address`, without source verification and
/// under the next nonce of the run.
pub fn deploy_semaphore_verifier(context: &mut DeploymentContext, pairing_address: Address) -> (r: ForgeCreate)
    ensures
        old(context).is_issued(r),
        final(context).has_issued_after(*old(context)),
        r.contract_spec.path is None,
        r.contract_spec.name@ == "SemaphoreVerifier"@,
        r.cwd is Some,
        r.cwd->0@ == CONTRACTS_DIR@,
        r.override_contract_source is None,
        r.skip_verification,
        r.constructor_args@.len() == 0,
        r.external_deps@.len() == 1,
        r.external_deps@[0].address == pairing_address,
        r.external_deps@[0].contract_spec.name@ == "Pairing"@,
        r.external_deps@[0].contract_spec.path matches Some(p) && p@ == PAIRING_PATH@,
{
    context.create_contract("SemaphoreVerifier").with_external_dep(
        ExternalDep::path_name_address(PAIRING_PATH, "Pairing", pairing_address),
    ).skip_verification()
}

} // verus!
