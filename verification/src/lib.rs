//! Orchestration core of a deployer for a graph of interdependent on-chain
//! contracts: ordered key sets, the reconciliation engine, the nonce
//! sequencer, the deployment report and the pipeline driver.

pub mod args;
pub mod cli;
pub mod config;
pub mod dependency_map;
pub mod deployment;
pub mod erased;
pub mod error;
pub mod ethers_utils;
pub mod forge_utils;
pub mod hex_text;
pub mod insertion_verifier;
pub mod interactive;
pub mod keys;
pub mod nonce;
pub mod reconcile;
pub mod report;
pub mod text;
pub mod type_index;
pub mod typed_map;
pub mod types;
