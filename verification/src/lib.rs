//! The entry points of the Vero Core contract.
pub mod behaviour;
pub mod entry;
pub mod invocation;
pub mod laws;
pub mod ledger;
pub mod plans;
pub mod script;
pub mod storage;
pub mod trace;
pub mod types;
