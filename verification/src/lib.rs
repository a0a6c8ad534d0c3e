//! Capability-gated entity store for a small todo-list application.
//!
//! Every read or mutation of the store demands a capability proof: a token
//! that only the authorization gateway (`witnesses::is_authorized`) can
//! mint, and only after the policy engine has allowed the exact action
//! being performed.

pub mod actions;
pub mod engine;
pub mod entitystore;
pub mod errors;
pub mod model;
pub mod objects;
pub mod uid;
pub mod witnesses;
