//! Runtime orchestration layer for a fleet of isolated agent containers.
//!
//! The library holds the verified core: resource and security policy
//! translation, the lifecycle contract shared by the three container
//! backends, the pure command-building and output-parsing halves of each
//! backend adapter, the facade dispatch rules, and the startup
//! reconciliation join.

pub mod andor;
pub mod api;
pub mod bytes;
pub mod config;
pub mod container;
pub mod containment;
pub mod desktop;
pub mod errors;
pub mod lifecycle;
pub mod network;
pub mod policy;
pub mod roster;
pub mod secrets;
pub mod shared_memory;
pub mod snapshots;
pub mod storage;
pub mod teams;
pub mod templates;
pub mod types;
pub mod validation;
