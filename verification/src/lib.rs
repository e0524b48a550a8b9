//! Operator tooling for a small fleet of host-level services: a p2p node
//! (one instance per network), an RPC resolver and an HTTP reverse proxy.
//!
//! The library holds the decision logic: desired-state records, rendering of
//! unit and proxy definitions, and the reconciler that computes which
//! init-system operations bring the host from its observed state to the
//! desired one. Process execution, prompts and file access live outside the
//! library and exchange plain values with it.

pub mod args;
pub mod config;
pub mod content;
pub mod context;
pub mod error;
pub mod folders;
pub mod fqdn;
pub mod git;
pub mod khost;
pub mod kaspad;
pub mod network;
pub mod nginx;
pub mod reconcile;
pub mod resolver;
pub mod service;
pub mod status;
pub mod sudo;
pub mod system;
pub mod systemd;
pub mod text;
pub mod utils;
