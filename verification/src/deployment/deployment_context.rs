//! What every stage of a run shares: the nonce sequencer and the settings
//! with which the deployment tool is called.

use crate::args::PrivateKey;
use crate::forge_utils::common::ContractSpec;
use crate::forge_utils::create::text_of;
use crate::forge_utils::create::texts;
use crate::forge_utils::create::ForgeCreate;
use crate::forge_utils::verify::ForgeVerify;
use crate::nonce::nonce_at;
use crate::nonce::NonceSequencer;
use crate::types::Address;
use vstd::prelude::*;
use vstd::string::StringExecFns;

verus! {

/// The directory of the contracts project, in which the deployment tool
/// runs.
pub const CONTRACTS_DIR: &'static str = "./world-id-contracts";

/// The context of a run.
pub struct DeploymentContext {
    pub deployment_dir: String,
    pub cache_dir: String,
    pub nonce: NonceSequencer,
    pub private_key: PrivateKey,
    pub rpc_url: String,
    pub etherscan_api_key: Option<String>,
    pub verifier: Option<String>,
    pub verifier_url: Option<String>,
}

impl DeploymentContext {
    /// `request` carries what every request of this context carries: the
    /// run's key and endpoint, the nonce that is due, and the run's
    /// settings for source verification as far as they are there.
    pub open spec fn is_issued(&self, request: ForgeCreate) -> bool {
        &&& request.private_key == Some(self.private_key)
        &&& request.rpc_url is Some
        &&& request.rpc_url->0@ == self.rpc_url@
        &&& request.override_nonce == Some(nonce_at(self.nonce.first(), self.nonce.issued()))
        &&& text_of(request.verification_args.verification_api_key) == text_of(self.etherscan_api_key)
        &&& text_of(request.verification_args.verifier) == text_of(self.verifier)
        &&& text_of(request.verification_args.verifier_url) == text_of(self.verifier_url)
    }

    /// After a request was issued the context is what it was, but for the
    /// nonce, of which one more is spent.
    pub open spec fn has_issued_after(&self, before: DeploymentContext) -> bool {
        &&& self.nonce.first() == before.nonce.first()
        &&& self.nonce.issued() == before.nonce.issued() + 1
        &&& self.deployment_dir == before.deployment_dir
        &&& self.cache_dir == before.cache_dir
        &&& self.private_key == before.private_key
        &&& self.rpc_url == before.rpc_url
        &&& self.etherscan_api_key == before.etherscan_api_key
        &&& self.verifier == before.verifier
        &&& self.verifier_url == before.verifier_url
    }

    /// Hands out the next nonce of the run.
    pub fn next_nonce(&mut self) -> (n: u64)
        ensures
            n == nonce_at(old(self).nonce.first(), old(self).nonce.issued()),
            final(self).has_issued_after(*old(self)),
    {
        self.nonce.next_nonce()
    }

    /// A request to deploy `contract_spec` with the run's key and endpoint,
    /// under the next nonce of the run, and with the run's settings for
    /// source verification as far as they are there.
    pub fn forge_create(&mut self, contract_spec: ContractSpec) -> (r: ForgeCreate)
        ensures
            old(self).is_issued(r),
            final(self).has_issued_after(*old(self)),
            r.contract_spec == contract_spec,
            r.cwd is None,
            r.override_contract_source is None,
            r.external_deps@.len() == 0,
            r.constructor_args@.len() == 0,
            !r.skip_verification,
    {
        let nonce = self.next_nonce();
        let mut forge_create = ForgeCreate::new(contract_spec).with_private_key(self.private_key).with_rpc_url(
            self.rpc_url.clone(),
        ).with_override_nonce(nonce);
        match &self.etherscan_api_key {
            Some(etherscan_api_key) => {
                forge_create = forge_create.with_verification_api_key(etherscan_api_key.as_str());
            },
            None => {},
        }
        match &self.verifier {
            Some(verifier) => {
                forge_create = forge_create.with_verifier(verifier.as_str());
            },
            None => {},
        }
        match &self.verifier_url {
            Some(verifier_url) => {
                forge_create = forge_create.with_verifier_url(verifier_url.as_str());
            },
            None => {},
        }
        forge_create
    }

    /// A request to deploy the contract `name` of the contracts project.
    pub fn create_contract(&mut self, name: &str) -> (r: ForgeCreate)
        ensures
            old(self).is_issued(r),
            final(self).has_issued_after(*old(self)),
            r.contract_spec.path is None,
            r.contract_spec.name@ == name@,
            r.cwd is Some,
            r.cwd->0@ == CONTRACTS_DIR@,
            r.override_contract_source is None,
            r.external_deps@.len() == 0,
            r.constructor_args@.len() == 0,
            !r.skip_verification,
    {
        self.forge_create(ContractSpec::name(name)).with_cwd(CONTRACTS_DIR)
    }

    /// A request to deploy the proxy contract `name` in front of the
    /// implementation at `implementation`. The proxy's constructor gets the
    /// implementation's address and the encoded call that sets the
    /// implementation up.
    pub fn create_proxy(&mut self, name: &str, implementation: Address, call_data: &str) -> (r: ForgeCreate)
        ensures
            old(self).is_issued(r),
            final(self).has_issued_after(*old(self)),
            r.contract_spec.path is None,
            r.contract_spec.name@ == name@,
            r.cwd is Some,
            r.cwd->0@ == CONTRACTS_DIR@,
            r.override_contract_source is None,
            texts(r.constructor_args@) == seq![implementation.text(), call_data@],
            r.external_deps@.len() == 0,
            !r.skip_verification,
    {
        let address = implementation.to_string();
        let r = self.create_contract(name).with_constructor_arg(address.as_str()).with_constructor_arg(call_data);
        assert(texts(r.constructor_args@) =~= seq![implementation.text(), call_data@]);
        r
    }

    /// A request to verify the source of the contract at `address`, with
    /// the run's key for the block explorer.
    pub fn forge_verify(&self, contract_spec: ContractSpec, address: Address) -> (r: ForgeVerify)
        requires
            self.etherscan_api_key is Some,
        ensures
            r.spec == contract_spec,
            r.address == address,
            r.root is None,
            r.chain is None,
            r.etherscan_api_key is Some,
            r.etherscan_api_key->0@ == self.etherscan_api_key->0@,
    {
        let key = match &self.etherscan_api_key {
            Some(key) => key.as_str(),
            None => "",
        };
        ForgeVerify::new(contract_spec, address).with_etherscan_api_key(key)
    }
}

} // verus!
