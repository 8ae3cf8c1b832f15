//! The request to deploy a contract, and what the tool answers.

use crate::args::PrivateKey;
use crate::error::DeployError;
use crate::forge_utils::common::ContractSpec;
use crate::forge_utils::common::ExternalDep;
use crate::text::decimal;
use crate::text::decimal_string_u64;
use crate::types::Address;
use crate::types::H256;
use vstd::prelude::*;
use vstd::string::StrSliceExecFns;
use vstd::string::StringExecFns;

verus! {

/// What the tool reports of a deployment.
#[derive(Debug, Clone, Copy, PartialEq, Eq)]
pub struct ForgeOutput {
    pub deployer: Address,
    pub deployed_to: Address,
    pub transaction_hash: H256,
}

/// How the deployed source is to be verified with a block explorer.
#[derive(Debug)]
pub struct ForgeCreateVerificationArgs {
    pub verification_api_key: Option<String>,
    pub verifier: Option<String>,
    pub verifier_url: Option<String>,
}

/// A request to deploy one contract.
#[derive(Debug)]
pub struct ForgeCreate {
    pub cwd: Option<String>,
    pub contract_spec: ContractSpec,
    pub override_contract_source: Option<String>,
    pub private_key: Option<PrivateKey>,
    pub rpc_url: Option<String>,
    pub external_deps: Vec<ExternalDep>,
    pub override_nonce: Option<u64>,
    pub constructor_args: Vec<String>,
    pub verification_args: ForgeCreateVerificationArgs,
    pub skip_verification: bool,
}

/// The texts of a list of strings.
pub open spec fn texts(items: Seq<String>) -> Seq<Seq<char>> {
    Seq::new(items.len(), |i: int| items[i]@)
}

/// The text of an optional string.
pub open spec fn text_of(item: Option<String>) -> Option<Seq<char>> {
    match item {
        Some(s) => Some(s@),
        None => None,
    }
}

/// A flag with its value, or nothing where there is no value.
pub open spec fn flag(name: Seq<char>, value: Option<Seq<char>>) -> Seq<Seq<char>> {
    match value {
        Some(v) => seq![name, v],
        None => Seq::empty(),
    }
}

/// The flag `name` once for each value, each time followed by the value.
pub open spec fn repeated_flag(name: Seq<char>, values: Seq<Seq<char>>) -> Seq<Seq<char>> {
    Seq::new(
        2 * values.len(),
        |i: int|
            if i % 2 == 0 {
                name
            } else {
                values[i / 2]
            },
    )
}

/// The parts, with a comma between any two of them.
pub open spec fn comma_separated(parts: Seq<Seq<char>>) -> Seq<char>
    decreases parts.len(),
{
    if parts.len() == 0 {
        Seq::empty()
    } else if parts.len() == 1 {
        parts[0]
    } else {
        comma_separated(parts.drop_last()) + seq![','] + parts.last()
    }
}

/// The texts of the libraries that a contract links against.
pub open spec fn dep_texts(deps: Seq<ExternalDep>) -> Seq<Seq<char>> {
    Seq::new(deps.len(), |i: int| deps[i].text())
}

/// Adds `text` to the end of `out`.
pub fn push_text(out: &mut Vec<String>, text: &str)
    ensures
        texts(final(out)@) == texts(old(out)@).push(text@),
{
    out.push(String::from_str(text));
    assert(texts(out@) =~= texts(old(out)@).push(text@));
}

/// Adds the flag `name` and `value` to the end of `out`, or nothing where
/// there is no value.
pub fn push_flag(out: &mut Vec<String>, name: &str, value: &Option<String>)
    ensures
        texts(final(out)@) == texts(old(out)@) + flag(name@, text_of(*value)),
{
    match value {
        Some(v) => {
            push_text(out, name);
            push_text(out, v.as_str());
            assert(texts(out@) =~= texts(old(out)@) + flag(name@, text_of(*value)));
        },
        None => {
            assert(texts(out@) =~= texts(old(out)@) + flag(name@, text_of(*value)));
        },
    }
}

/// The name of the tool that the requests of this module are written for.
pub const FORGE: &'static str = "forge";

impl ForgeCreate {
    /// A request to deploy `contract_spec`, with everything else left open.
    pub fn new(contract_spec: ContractSpec) -> (r: Self)
        ensures
            r.cwd is None,
            r.contract_spec == contract_spec,
            r.override_contract_source is None,
            r.override_nonce is None,
            r.private_key is None,
            r.rpc_url is None,
            r.external_deps@.len() == 0,
            r.constructor_args@.len() == 0,
            r.verification_args.verification_api_key is None,
            r.verification_args.verifier is None,
            r.verification_args.verifier_url is None,
            !r.skip_verification,
    {
        Self {
            cwd: None,
            contract_spec,
            override_contract_source: None,
            override_nonce: None,
            private_key: None,
            rpc_url: None,
            external_deps: Vec::new(),
            constructor_args: Vec::new(),
            verification_args: ForgeCreateVerificationArgs {
                verification_api_key: None,
                verifier: None,
                verifier_url: None,
            },
            skip_verification: false,
        }
    }

    /// Asks for no source verification, whatever else is set.
    pub fn skip_verification(self) -> (r: Self)
        ensures
            r == (Self { skip_verification: true, ..self }),
    {
        let mut r = self;
        r.skip_verification = true;
        r
    }

    /// Sets the key for the block explorer.
    pub fn with_verification_api_key(self, verification_api_key: &str) -> (r: Self)
        ensures
            r.verification_args.verification_api_key is Some,
            r.verification_args.verification_api_key->0@ == verification_api_key@,
            r.verification_args.verifier == self.verification_args.verifier,
            r.verification_args.verifier_url == self.verification_args.verifier_url,
            r == (Self { verification_args: r.verification_args, ..self }),
    {
        let mut r = self;
        r.verification_args.verification_api_key = Some(String::from_str(verification_api_key));
        r
    }

    /// Sets the kind of block explorer.
    pub fn with_verifier(self, verifier: &str) -> (r: Self)
        ensures
            r.verification_args.verifier is Some,
            r.verification_args.verifier->0@ == verifier@,
            r.verification_args.verification_api_key == self.verification_args.verification_api_key,
            r.verification_args.verifier_url == self.verification_args.verifier_url,
            r == (Self { verification_args: r.verification_args, ..self }),
    {
        let mut r = self;
        r.verification_args.verifier = Some(String::from_str(verifier));
        r
    }

    /// Sets the address of the block explorer.
    pub fn with_verifier_url(self, verifier_url: &str) -> (r: Self)
        ensures
            r.verification_args.verifier_url is Some,
            r.verification_args.verifier_url->0@ == verifier_url@,
            r.verification_args.verification_api_key == self.verification_args.verification_api_key,
            r.verification_args.verifier == self.verification_args.verifier,
            r == (Self { verification_args: r.verification_args, ..self }),
    {
        let mut r = self;
        r.verification_args.verifier_url = Some(String::from_str(verifier_url));
        r
    }

    /// Sets the directory in which the tool runs.
    pub fn with_cwd(self, cwd: &str) -> (r: Self)
        ensures
            r.cwd is Some,
            r.cwd->0@ == cwd@,
            r == (Self { cwd: r.cwd, ..self }),
    {
        let mut r = self;
        r.cwd = Some(String::from_str(cwd));
        r
    }

    /// Replaces the contract that is deployed.
    pub fn with_contract_spec(self, contract_spec: ContractSpec) -> (r: Self)
        ensures
            r == (Self { contract_spec, ..self }),
    {
        let mut r = self;
        r.contract_spec = contract_spec;
        r
    }

    /// Sets the directory that holds the contract's source.
    pub fn with_override_contract_source(self, override_contract_source: &str) -> (r: Self)
        ensures
            r.override_contract_source is Some,
            r.override_contract_source->0@ == override_contract_source@,
            r == (Self { override_contract_source: r.override_contract_source, ..self }),
    {
        let mut r = self;
        r.override_contract_source = Some(String::from_str(override_contract_source));
        r
    }

    /// Sets the nonce of the deployment transaction.
    pub fn with_override_nonce(self, override_nonce: u64) -> (r: Self)
        ensures
            r == (Self { override_nonce: Some(override_nonce), ..self }),
    {
        let mut r = self;
        r.override_nonce = Some(override_nonce);
        r
    }

    /// Sets the key that signs the deployment transaction.
    pub fn with_private_key(self, private_key: PrivateKey) -> (r: Self)
        ensures
            r == (Self { private_key: Some(private_key), ..self }),
    {
        let mut r = self;
        r.private_key = Some(private_key);
        r
    }

    /// Sets the endpoint of the chain.
    pub fn with_rpc_url(self, rpc_url: String) -> (r: Self)
        ensures
            r == (Self { rpc_url: Some(rpc_url), ..self }),
    {
        let mut r = self;
        r.rpc_url = Some(rpc_url);
        r
    }

    /// Adds a library that the contract links against.
    pub fn with_external_dep(self, external_dep: ExternalDep) -> (r: Self)
        ensures
            r.external_deps@ == self.external_deps@.push(external_dep),
            r == (Self { external_deps: r.external_deps, ..self }),
    {
        let mut r = self;
        r.external_deps.push(external_dep);
        r
    }

    /// Adds an argument for the contract's constructor.
    pub fn with_constructor_arg(self, arg: &str) -> (r: Self)
        ensures
            texts(r.constructor_args@) == texts(self.constructor_args@).push(arg@),
            r == (Self { constructor_args: r.constructor_args, ..self }),
    {
        let mut r = self;
        push_text(&mut r.constructor_args, arg);
        r
    }

    /// The part of the command line that asks for source verification:
    /// nothing where it is switched off; else each setting that is there,
    /// and `--verify` if any is.
    pub open spec fn verification_flags(&self) -> Seq<Seq<char>> {
        if self.skip_verification {
            Seq::empty()
        } else {
            flag("--etherscan-api-key"@, text_of(self.verification_args.verification_api_key)) + flag(
                "--verifier"@,
                text_of(self.verification_args.verifier),
            ) + flag("--verifier-url"@, text_of(self.verification_args.verifier_url)) + (if
                self.verification_args.verification_api_key is Some || self.verification_args.verifier is Some
                || self.verification_args.verifier_url is Some {
                seq!["--verify"@]
            } else {
                Seq::empty()
            })
        }
    }

    /// The arguments that the tool is run with.
    pub open spec fn command_line(&self) -> Seq<Seq<char>> {
        seq!["create"@] + flag("-C"@, text_of(self.override_contract_source)) + seq![
            self.contract_spec.text(),
        ] + (if self.external_deps@.len() > 0 {
            seq!["--libraries"@, comma_separated(dep_texts(self.external_deps@))]
        } else {
            Seq::empty()
        }) + flag(
            "--private-key"@,
            match self.private_key {
                Some(key) => Some(key.full_text()),
                None => None,
            },
        ) + flag("--rpc-url"@, text_of(self.rpc_url)) + flag(
            "--nonce"@,
            match self.override_nonce {
                Some(nonce) => Some(decimal(nonce as nat)),
                None => None,
            },
        ) + repeated_flag("--constructor-args"@, texts(self.constructor_args@))
            + self.verification_flags() + seq!["--json"@]
    }

    /// The libraries of the request, separated by commas.
    fn libraries(&self) -> (r: String)
        ensures
            r@ == comma_separated(dep_texts(self.external_deps@)),
    {
        proof {
            reveal_strlit(",");
        }
        let mut r = String::from_str("");
        proof {
            reveal_strlit("");
            assert(r@ =~= Seq::<char>::empty());
        }
        let mut i: usize = 0;
        while i < self.external_deps.len()
            invariant
                0 <= i <= self.external_deps.len(),
                r@ == comma_separated(dep_texts(self.external_deps@).take(i as int)),
            decreases self.external_deps.len() - i,
        {
            let text = self.external_deps[i].to_string();
            proof {
                let all = dep_texts(self.external_deps@);
                assert(all.take(i + 1).drop_last() =~= all.take(i as int));
                assert(all.take(i + 1).last() == text@);
                reveal_strlit(",");
                assert(","@ =~= seq![',']);
            }
            if i > 0 {
                r.append(",");
            }
            r.append(text.as_str());
            proof {
                let all = dep_texts(self.external_deps@);
                if i == 0 {
                    assert(r@ =~= all.take(1)[0]);
                }
                assert(r@ =~= comma_separated(all.take(i + 1)));
            }
            i += 1;
        }
        proof {
            assert(dep_texts(self.external_deps@).take(i as int) =~= dep_texts(self.external_deps@));
        }
        r
    }

    /// Puts the arguments together that the tool is run with. The working
    /// directory is not among them: it is `cwd`.
    pub fn command(&self) -> (r: Vec<String>)
        ensures
            texts(r@) == self.command_line(),
    {
        let mut out: Vec<String> = Vec::new();
        assert(texts(out@) =~= Seq::<Seq<char>>::empty());
        push_text(&mut out, "create");
        push_flag(&mut out, "-C", &self.override_contract_source);
        let spec_text = self.contract_spec.to_string();
        push_text(&mut out, spec_text.as_str());
        let ghost head = texts(out@);
        assert(head =~= seq!["create"@] + flag("-C"@, text_of(self.override_contract_source)) + seq![
            self.contract_spec.text(),
        ]);
        if self.external_deps.len() > 0 {
            let libraries = self.libraries();
            push_text(&mut out, "--libraries");
            push_text(&mut out, libraries.as_str());
        }
        let ghost with_libraries = texts(out@);
        assert(with_libraries =~= head + (if self.external_deps@.len() > 0 {
            seq!["--libraries"@, comma_separated(dep_texts(self.external_deps@))]
        } else {
            Seq::empty()
        }));
        let key_text: Option<String> = match &self.private_key {
            Some(key) => Some(key.to_hex()),
            None => None,
        };
        push_flag(&mut out, "--private-key", &key_text);
        push_flag(&mut out, "--rpc-url", &self.rpc_url);
        let nonce_text: Option<String> = match self.override_nonce {
            Some(nonce) => Some(decimal_string_u64(nonce)),
            None => None,
        };
        push_flag(&mut out, "--nonce", &nonce_text);
        let ghost before_args = texts(out@);
        let mut i: usize = 0;
        while i < self.constructor_args.len()
            invariant
                0 <= i <= self.constructor_args.len(),
                texts(out@) == before_args + repeated_flag(
                    "--constructor-args"@,
                    texts(self.constructor_args@).take(i as int),
                ),
            decreases self.constructor_args.len() - i,
        {
            let ghost prior = texts(out@);
            push_text(&mut out, "--constructor-args");
            push_text(&mut out, self.constructor_args[i].as_str());
            proof {
                let all = texts(self.constructor_args@);
                let name = "--constructor-args"@;
                assert(repeated_flag(name, all.take(i + 1)) =~= repeated_flag(name, all.take(i as int)).push(
                    name,
                ).push(all[i as int]));
                assert(texts(out@) =~= before_args + repeated_flag(name, all.take(i + 1)));
            }
            i += 1;
        }
        proof {
            assert(texts(self.constructor_args@).take(i as int) =~= texts(self.constructor_args@));
        }
        let ghost before_verify = texts(out@);
        if !self.skip_verification {
            push_flag(&mut out, "--etherscan-api-key", &self.verification_args.verification_api_key);
            push_flag(&mut out, "--verifier", &self.verification_args.verifier);
            push_flag(&mut out, "--verifier-url", &self.verification_args.verifier_url);
            let should_verify = self.verification_args.verification_api_key.is_some()
                || self.verification_args.verifier.is_some() || self.verification_args.verifier_url.is_some();
            if should_verify {
                push_text(&mut out, "--verify");
            }
        }
        assert(texts(out@) =~= before_verify + self.verification_flags());
        push_text(&mut out, "--json");
        assert(texts(out@) =~= self.command_line());
        out
    }
}

/// The position of the last closing brace in `s`, if there is one.
pub open spec fn last_brace(s: Seq<char>) -> Option<int>
    decreases s.len(),
{
    if s.len() == 0 {
        None
    } else if s.last() == '}' {
        Some(s.len() - 1)
    } else {
        last_brace(s.drop_last())
    }
}

/// What the tool printed, up to and including its last closing brace: the
/// tool may print more after the answer proper. Text without a closing
/// brace stays as it is.
pub open spec fn spec_strip_non_json(s: Seq<char>) -> Seq<char> {
    match last_brace(s) {
        Some(at) => s.subrange(0, at + 1),
        None => s,
    }
}

/// Cuts off what the tool printed after its answer.
pub fn strip_non_json(s: &str) -> (r: &str)
    ensures
        r@ == spec_strip_non_json(s@),
{
    let n = s.unicode_len();
    let mut i: usize = n;
    assert(s@.take(i as int) =~= s@);
    while i > 0
        invariant
            0 <= i <= n,
            n == s@.len(),
            last_brace(s@) == last_brace(s@.take(i as int)),
        decreases i,
    {
        if s.get_char(i - 1) == '}' {
            proof {
                assert(s@.take(i as int).last() == '}');
            }
            return s.substring_char(0, i);
        }
        proof {
            assert(s@.take(i as int).drop_last() =~= s@.take(i - 1));
        }
        i -= 1;
    }
    proof {
        assert(s@.take(0).len() == 0);
    }
    s
}

/// Judges a run of the tool that was to deploy a contract: a run that
/// failed is a failed deployment; of a run that succeeded the answer is
/// what it printed, up to its last closing brace.
pub fn read_output(success: bool, stdout: &str) -> (r: Result<&str, DeployError>)
    ensures
        match r {
            Ok(answer) => success && answer@ == spec_strip_non_json(stdout@),
            Err(e) => !success && e == DeployError::ArtifactDeployFailed,
        },
{
    if success {
        Ok(strip_non_json(stdout))
    } else {
        Err(DeployError::ArtifactDeployFailed)
    }
}

} // verus!
