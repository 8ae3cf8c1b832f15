//! The stages of the pipeline. Each stage decides what has to be done from
//! the configuration and the report, and takes the results back into the
//! report; the transactions themselves are left to the caller.

pub mod assemble_report;
pub mod identity_manager;
pub mod lookup_tables;
pub mod semaphore_verifier;
pub mod verifiers;
pub mod world_id_router;
