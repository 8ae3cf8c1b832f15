//! The request for a contract's interface description.

use crate::forge_utils::common::ContractSpec;
use crate::forge_utils::create::flag;
use crate::forge_utils::create::push_flag;
use crate::forge_utils::create::push_text;
use crate::forge_utils::create::text_of;
use crate::forge_utils::create::texts;
use vstd::prelude::*;
use vstd::string::StringExecFns;

verus! {

/// A request for the interface description of one contract.
pub struct ForgeInspectAbi {
    pub cwd: Option<String>,
    pub contract_spec: ContractSpec,
    pub override_contract_source: Option<String>,
}

impl ForgeInspectAbi {
    /// A request for the interface of `contract_spec`.
    pub fn new(contract_spec: ContractSpec) -> (r: Self)
        ensures
            r.cwd is None,
            r.contract_spec == contract_spec,
            r.override_contract_source is None,
    {
        Self { cwd: None, contract_spec, override_contract_source: None }
    }

    /// Sets the directory in which the tool runs.
    pub fn with_cwd(self, cwd: &str) -> (r: Self)
        ensures
            r.cwd is Some,
            r.cwd->0@ == cwd@,
            r.contract_spec == self.contract_spec,
            r.override_contract_source == self.override_contract_source,
    {
        let mut r = self;
        r.cwd = Some(String::from_str(cwd));
        r
    }

    /// Replaces the contract that is asked about.
    pub fn with_contract_spec(self, contract_spec: ContractSpec) -> (r: Self)
        ensures
            r.cwd == self.cwd,
            r.contract_spec == contract_spec,
            r.override_contract_source == self.override_contract_source,
    {
        let mut r = self;
        r.contract_spec = contract_spec;
        r
    }

    /// Sets the directory that holds the contract's source.
    pub fn with_override_contract_source(self, override_contract_source: &str) -> (r: Self)
        ensures
            r.cwd == self.cwd,
            r.contract_spec == self.contract_spec,
            r.override_contract_source is Some,
            r.override_contract_source->0@ == override_contract_source@,
    {
        let mut r = self;
        r.override_contract_source = Some(String::from_str(override_contract_source));
        r
    }

    /// The arguments that the tool is run with.
    pub open spec fn command_line(&self) -> Seq<Seq<char>> {
        seq!["inspect"@] + flag("-C"@, text_of(self.override_contract_source)) + seq![
            self.contract_spec.text(),
            "abi"@,
        ]
    }

    /// Puts the arguments together that the tool is run with. The working
    /// directory is not among them: it is `cwd`.
    pub fn command(&self) -> (r: Vec<String>)
        ensures
            texts(r@) == self.command_line(),
    {
        let mut out: Vec<String> = Vec::new();
        assert(texts(out@) =~= Seq::<Seq<char>>::empty());
        push_text(&mut out, "inspect");
        push_flag(&mut out, "-C", &self.override_contract_source);
        let spec_text = self.contract_spec.to_string();
        push_text(&mut out, spec_text.as_str());
        push_text(&mut out, "abi");
        assert(texts(out@) =~= self.command_line());
        out
    }
}

} // verus!
