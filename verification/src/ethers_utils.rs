//! Transactions as the engine knows them: which contract is called, with
//! which function and arguments, under which nonce. Encoding, signing and
//! sending are left to the caller.

use crate::error::ConfigIssue;
use crate::error::DeployError;
use crate::nonce::nonce_at;
use crate::nonce::NonceSequencer;
use crate::types::Address;
use crate::types::H256;
use vstd::prelude::*;

verus! {

/// A contract function together with its arguments.
#[derive(Debug, Clone, Copy, PartialEq, Eq)]
pub enum Call {
    /// Lookup table: serve `batch_size` with the verifier at `verifier`.
    UpdateVerifier { batch_size: u64, verifier: Address },
    /// Lookup table: stop serving `batch_size`.
    DisableVerifier { batch_size: u64 },
    /// Identity manager, first version: set the manager up.
    Initialize {
        tree_depth: u64,
        initial_root: H256,
        insert_lookup_table: Address,
        update_lookup_table: Address,
        semaphore_verifier: Address,
    },
    /// Identity manager, second version: set up what the upgrade adds.
    InitializeV2 { delete_lookup_table: Address },
    /// Identity manager proxy: switch to `implementation` and run its
    /// set-up with `delete_lookup_table`.
    UpgradeToAndCall { implementation: Address, delete_lookup_table: Address },
    /// Router: set the router up with the identity manager of group `0`.
    InitializeRouter { first_group: Address },
    /// Router: route the next group to `target`.
    AddGroup { target: Address },
    /// Router: route `group_id` to `target`.
    UpdateGroup { group_id: u64, target: Address },
    /// Router: stop routing `group_id`.
    DisableGroup { group_id: u64 },
}

/// A transaction that is ready but for its nonce.
#[derive(Debug, Clone, Copy, PartialEq, Eq)]
pub struct Transaction {
    pub to: Address,
    pub call: Call,
}

/// A transaction with its nonce: what is handed over for signing.
#[derive(Debug, Clone, Copy, PartialEq, Eq)]
pub struct TransactionRequest {
    pub to: Address,
    pub call: Call,
    pub nonce: u64,
}

/// Collects the parts of a transaction one by one.
#[derive(Debug, Clone, Copy)]
pub struct TransactionBuilder {
    pub args: Option<Call>,
    pub to: Option<Address>,
}

impl TransactionBuilder {
    /// A builder that holds nothing yet.
    pub fn new() -> (r: Self)
        ensures
            r.args is None,
            r.to is None,
    {
        Self { args: None, to: None }
    }

    /// Sets the function and its arguments.
    pub fn args(self, args: Call) -> (r: Self)
        ensures
            r.args == Some(args),
            r.to == self.to,
    {
        Self { args: Some(args), to: self.to }
    }

    /// Sets the contract that is called.
    pub fn to(self, to: Address) -> (r: Self)
        ensures
            r.to == Some(to),
            r.args == self.args,
    {
        Self { args: self.args, to: Some(to) }
    }

    /// The transaction, if nothing is missing.
    pub fn build(self) -> (r: Result<Transaction, DeployError>)
        ensures
            r == match (self.args, self.to) {
                (Some(call), Some(to)) => Ok::<Transaction, DeployError>(Transaction { to, call }),
                _ => Err(DeployError::Config(ConfigIssue::IncompleteRequest)),
            },
    {
        match (self.args, self.to) {
            (Some(call), Some(to)) => Ok(Transaction { to, call }),
            _ => Err(DeployError::Config(ConfigIssue::IncompleteRequest)),
        }
    }
}

impl Transaction {
    /// Gives the transaction the next nonce of the run.
    pub fn send(self, nonces: &mut NonceSequencer) -> (r: TransactionRequest)
        ensures
            r.to == self.to,
            r.call == self.call,
            r.nonce == nonce_at(old(nonces).first(), old(nonces).issued()),
            final(nonces).first() == old(nonces).first(),
            final(nonces).issued() == old(nonces).issued() + 1,
    {
        let nonce = nonces.next_nonce();
        TransactionRequest { to: self.to, call: self.call, nonce }
    }
}

/// Judges the receipt of a mined transaction: anything but status `1` is a
/// failure, a receipt without status too.
pub fn check_receipt(status: Option<u64>) -> (r: Result<(), DeployError>)
    ensures
        r == if status == Some(1u64) {
            Ok::<(), DeployError>(())
        } else {
            Err(DeployError::TransactionFailed)
        },
{
    match status {
        Some(code) => {
            if code == 1 {
                Ok(())
            } else {
                Err(DeployError::TransactionFailed)
            }
        },
        None => Err(DeployError::TransactionFailed),
    }
}

/// What came of handing a transaction to the chain.
#[derive(Debug, Clone, Copy, PartialEq, Eq)]
pub enum Submission {
    /// The chain could not be reached, or did not take the transaction.
    NotSent,
    /// The transaction was taken and no receipt came of it.
    NoReceipt,
    /// The transaction was mined; this is the status of its receipt.
    Receipt(Option<u64>),
}

/// Judges a submission: without a receipt the chain has failed; with one
/// the transaction has to report success.
pub fn judge(submission: Submission) -> (r: Result<(), DeployError>)
    ensures
        r == match submission {
            Submission::NotSent => Err::<(), DeployError>(DeployError::ChainError),
            Submission::NoReceipt => Err(DeployError::ChainError),
            Submission::Receipt(status) => if status == Some(1u64) {
                Ok(())
            } else {
                Err(DeployError::TransactionFailed)
            },
        },
{
    match submission {
        Submission::NotSent => Err(DeployError::ChainError),
        Submission::NoReceipt => Err(DeployError::ChainError),
        Submission::Receipt(status) => check_receipt(status),
    }
}

} // verus!
