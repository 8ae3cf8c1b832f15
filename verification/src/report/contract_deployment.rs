//! What the report keeps of a deployed contract.

use crate::forge_utils::create::ForgeOutput;
use crate::types::Address;
use vstd::prelude::*;
use vstd::std_specs::convert::FromSpecImpl;

verus! {

/// A deployed contract, known by its address.
#[derive(Debug, Clone, Copy, PartialEq, Eq)]
pub struct ContractDeployment {
    pub address: Address,
}

impl From<ForgeOutput> for ContractDeployment {
    fn from(value: ForgeOutput) -> (r: Self) {
        Self { address: value.deployed_to }
    }
}

impl FromSpecImpl<ForgeOutput> for ContractDeployment {
    open spec fn obeys_from_spec() -> bool {
        true
    }

    open spec fn from_spec(value: ForgeOutput) -> Self {
        Self { address: value.deployed_to }
    }
}

} // verus!
