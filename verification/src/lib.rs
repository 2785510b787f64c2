//! An orchestrator for a fleet of single-purpose worker containers.
//!
//! The library holds the verified core: worker-name validation, port
//! allocation, the worker registry, the worker-side conversation state
//! machine with its bounded chat log, and the command-execution engine
//! that interprets structured command batches found in a model's reply.
//! Container-runtime calls, RPC transport and the terminal front end are
//! ordinary unverified code layered on top of this crate.

pub mod chat;
pub mod commands;
pub mod config;
pub mod engine;
pub mod errors;
pub mod json;
pub mod names;
pub mod ports;
pub mod registry;
pub mod render;
pub mod runtime;
pub mod text;
pub mod worker;
