//! Verified state machines for three on-chain registries: an account
//! registry, a credential (cv) item store, and a hierarchy of system
//! managers and organisations.
//!
//! Each registry is a `Pallet` value that owns its storage maps and the list
//! of events it has emitted. Every dispatchable call takes the caller's
//! origin and either succeeds, changing the state as its model says, or is
//! refused with an error and leaves the state exactly as it was.

pub mod dispatch;
pub mod utils;
pub mod account;
pub mod cv;
pub mod sysman;
