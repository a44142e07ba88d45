//! Construction rules and replication decisions of a pluggable,
//! content-addressed blob storage layer.
//!
//! The crate is pure: it turns a configuration tree into a description of the
//! store stack to open, and it decides what a replicated write or read amounts
//! to once the replicas have answered. Opening backends and moving bytes is
//! left to the caller.

pub mod config;
pub mod decorator;
pub mod factory;
pub mod git_sha1;
pub mod multiplex;
pub mod options;
pub mod plan;
pub mod read;
pub mod scrub;
pub mod sync_queue;
