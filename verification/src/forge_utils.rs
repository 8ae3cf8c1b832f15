//! Requests to the contract build-and-deploy tool. The engine only puts the
//! requests together; running the tool is left to the caller.

pub mod common;
pub mod create;
pub mod inspect_abi;
pub mod verify;
