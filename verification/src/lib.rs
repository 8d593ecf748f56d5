//! Bookkeeping for a fleet of sandboxed simulation hosts: the coordinator's
//! registry and heartbeat monitor, and the decisions an executor host takes
//! around its guest module.
pub mod auth;
pub mod event_log;
pub mod frame;
pub mod membership;
pub mod queue;
pub mod registry;
pub mod registry_laws;
pub mod sandbox;
pub mod scheduler;
pub mod session;
