//! How a contract is named to the tool.

use crate::text::join;
use crate::types::Address;
use vstd::prelude::*;
use vstd::string::StringExecFns;

verus! {

/// A contract: its name, and the source file that holds it where the name
/// alone would not do.
#[derive(Debug, Clone)]
pub struct ContractSpec {
    pub path: Option<String>,
    pub name: String,
}

impl ContractSpec {
    /// The contract `name` in the source file at `path`.
    pub fn path_name(path: String, name: &str) -> (r: Self)
        ensures
            r.path == Some(path),
            r.name@ == name@,
    {
        Self { path: Some(path), name: String::from_str(name) }
    }

    /// The contract `name`, wherever the tool finds it.
    pub fn name(name: &str) -> (r: Self)
        ensures
            r.path is None,
            r.name@ == name@,
    {
        Self { path: None, name: String::from_str(name) }
    }

    /// How the tool is told of the contract: `path:name`, or the name alone.
    pub open spec fn text(&self) -> Seq<char> {
        match self.path {
            Some(path) => path@ + seq![':'] + self.name@,
            None => self.name@,
        }
    }

    /// The contract as the tool wants it written.
    pub fn to_string(&self) -> (r: String)
        ensures
            r@ == self.text(),
    {
        proof {
            reveal_strlit(":");
        }
        match &self.path {
            Some(path) => {
                let mut r = join(path.as_str(), ":");
                r.append(self.name.as_str());
                assert(":"@ =~= seq![':']);
                r
            },
            None => self.name.clone(),
        }
    }
}

/// A library that a contract links against, deployed at `address`.
#[derive(Debug)]
pub struct ExternalDep {
    pub contract_spec: ContractSpec,
    pub address: Address,
}

impl ExternalDep {
    /// The library `name` in the source file at `path`, deployed at
    /// `address`.
    pub fn path_name_address(path: &str, name: &str, address: Address) -> (r: Self)
        ensures
            r.contract_spec.path matches Some(p) && p@ == path@,
            r.contract_spec.name@ == name@,
            r.address == address,
    {
        Self { contract_spec: ContractSpec::path_name(String::from_str(path), name), address }
    }

    /// The library `name`, deployed at `address`.
    pub fn name_address(name: &str, address: Address) -> (r: Self)
        ensures
            r.contract_spec.path is None,
            r.contract_spec.name@ == name@,
            r.address == address,
    {
        Self { contract_spec: ContractSpec::name(name), address }
    }

    /// How the tool is told of the library: the contract, a colon, and the
    /// address in hexadecimal.
    pub open spec fn text(&self) -> Seq<char> {
        self.contract_spec.text() + seq![':'] + self.address.text()
    }

    /// The library as the tool wants it written.
    pub fn to_string(&self) -> (r: String)
        ensures
            r@ == self.text(),
    {
        proof {
            reveal_strlit(":");
        }
        let mut r = self.contract_spec.to_string();
        r.append(":");
        let address = self.address.to_string();
        r.append(address.as_str());
        assert(":"@ =~= seq![':']);
        r
    }
}

} // verus!
