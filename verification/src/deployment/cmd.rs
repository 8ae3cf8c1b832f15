//! What an interactive session hands to the run that follows it.

use crate::args::PrivateKey;
use vstd::prelude::*;

verus! {

/// The settings of a run, as the operator has confirmed them.
pub struct Cmd {
    pub config: String,
    pub deployment_name: String,
    pub private_key: PrivateKey,
    pub rpc_url: String,
    pub etherscan_api_key: Option<String>,
    pub cache_dir: String,
}

impl Cmd {
    /// The settings of a run.
    pub fn new(
        config: String,
        deployment_name: String,
        private_key: PrivateKey,
        rpc_url: String,
        etherscan_api_key: Option<String>,
        cache_dir: String,
    ) -> (r: Self)
        ensures
            r == (Self { config, deployment_name, private_key, rpc_url, etherscan_api_key, cache_dir }),
    {
        Self { config, deployment_name, private_key, rpc_url, etherscan_api_key, cache_dir }
    }
}

} // verus!
