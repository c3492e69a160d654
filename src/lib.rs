//! A GPU command-execution actor whose resource bookkeeping, pass replay,
//! buffer state machine and asynchronous map completion are verified.
//!
//! The backend behind the actor is a model, not a native driver: buffers
//! are byte vectors held by the actor, copies are carried out on them when a
//! queue executes, compute commands are recorded in the order the backend
//! would receive them, and maps complete when a device is polled.  Backend
//! tags route identifiers and are checked against the backends the platform
//! offers; every present backend is served by the same model.
//!
//! Front ends record compute passes locally (`recorder`) and send requests
//! (`protocol`); the actor (`actor`, `device`, `commands`, `queue`,
//! `mapping`, `server`) owns every resource table, keyed by backend-tagged,
//! generation-counted identifiers (`ids`, `registry`).

pub mod ids;
pub mod registry;
pub mod error;
pub mod buffer;
pub mod protocol;
pub mod recorder;
pub mod resources;
pub mod actor;
pub mod device;
pub mod commands;
pub mod queue;
pub mod mapping;
pub mod server;
pub mod frontend;
