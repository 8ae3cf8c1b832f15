//! The request to verify a deployed contract's source with a block
//! explorer.

use crate::error::ConfigIssue;
use crate::error::DeployError;
use crate::error::Setting;
use crate::forge_utils::common::ContractSpec;
use crate::forge_utils::create::push_text;
use crate::forge_utils::create::texts;
use crate::text::decimal;
use crate::text::decimal_string_u64;
use crate::types::Address;
use vstd::prelude::*;
use vstd::string::StringExecFns;

verus! {

/// A request to verify the source of the contract at `address`.
pub struct ForgeVerify {
    pub spec: ContractSpec,
    pub address: Address,
    pub root: Option<String>,
    pub chain: Option<u64>,
    pub etherscan_api_key: Option<String>,
}

impl ForgeVerify {
    /// A request for the contract `spec` at `address`.
    pub fn new(spec: ContractSpec, address: Address) -> (r: Self)
        ensures
            r.spec == spec,
            r.address == address,
            r.root is None,
            r.chain is None,
            r.etherscan_api_key is None,
    {
        Self { spec, address, root: None, chain: None, etherscan_api_key: None }
    }

    /// Sets the root directory of the project.
    pub fn with_root(self, root: &str) -> (r: Self)
        ensures
            r.root is Some,
            r.root->0@ == root@,
            r == (Self { root: r.root, ..self }),
    {
        let mut r = self;
        r.root = Some(String::from_str(root));
        r
    }

    /// Sets the identifier of the chain.
    pub fn with_chain(self, chain: u64) -> (r: Self)
        ensures
            r == (Self { chain: Some(chain), ..self }),
    {
        let mut r = self;
        r.chain = Some(chain);
        r
    }

    /// Sets the key for the block explorer.
    pub fn with_etherscan_api_key(self, etherscan_api_key: &str) -> (r: Self)
        ensures
            r.etherscan_api_key is Some,
            r.etherscan_api_key->0@ == etherscan_api_key@,
            r == (Self { etherscan_api_key: r.etherscan_api_key, ..self }),
    {
        let mut r = self;
        r.etherscan_api_key = Some(String::from_str(etherscan_api_key));
        r
    }

    /// The first setting that the request lacks, if it lacks any: the root
    /// comes first, then the chain, then the key.
    pub open spec fn missing(&self) -> Option<Setting> {
        if self.root is None {
            Some(Setting::Root)
        } else if self.chain is None {
            Some(Setting::Chain)
        } else if self.etherscan_api_key is None {
            Some(Setting::EtherscanApiKey)
        } else {
            None
        }
    }

    /// The arguments that the tool is run with, where nothing is missing.
    pub open spec fn command_line(&self) -> Seq<Seq<char>> {
        seq![
            "verify-contract"@,
            "--watch"@,
            "--flatten"@,
            "--root"@,
            self.root->0@,
            "--chain"@,
            decimal(self.chain->0 as nat),
            "--etherscan-api-key"@,
            self.etherscan_api_key->0@,
            self.address.text(),
            self.spec.text(),
        ]
    }

    /// Puts the arguments together that the tool is run with.
    ///
    /// Fails where the root, the chain or the key is not set, and names the
    /// first of them that is missing.
    pub fn command(&self) -> (r: Result<Vec<String>, DeployError>)
        ensures
            match r {
                Ok(args) => self.missing() is None && texts(args@) == self.command_line(),
                Err(e) => self.missing() matches Some(setting) && e == DeployError::Config(
                    ConfigIssue::MissingSetting(setting),
                ),
            },
    {
        let root = match &self.root {
            Some(root) => root,
            None => {
                return Err(DeployError::Config(ConfigIssue::MissingSetting(Setting::Root)));
            },
        };
        let chain = match self.chain {
            Some(chain) => chain,
            None => {
                return Err(DeployError::Config(ConfigIssue::MissingSetting(Setting::Chain)));
            },
        };
        let etherscan_api_key = match &self.etherscan_api_key {
            Some(key) => key,
            None => {
                return Err(DeployError::Config(ConfigIssue::MissingSetting(Setting::EtherscanApiKey)));
            },
        };
        let mut out: Vec<String> = Vec::new();
        assert(texts(out@) =~= Seq::<Seq<char>>::empty());
        push_text(&mut out, "verify-contract");
        push_text(&mut out, "--watch");
        push_text(&mut out, "--flatten");
        push_text(&mut out, "--root");
        push_text(&mut out, root.as_str());
        push_text(&mut out, "--chain");
        let chain_text = decimal_string_u64(chain);
        push_text(&mut out, chain_text.as_str());
        push_text(&mut out, "--etherscan-api-key");
        push_text(&mut out, etherscan_api_key.as_str());
        let address_text = self.address.to_string();
        push_text(&mut out, address_text.as_str());
        let spec_text = self.spec.to_string();
        push_text(&mut out, spec_text.as_str());
        assert(texts(out@) =~= self.command_line());
        Ok(out)
    }
}

} // verus!
