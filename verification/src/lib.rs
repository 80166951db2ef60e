//! Verified adapter logic of SynapseFlow: loopback and in-memory transports,
//! fault injection, stage-input parsing, tokenizer matching, cache integrity
//! checks and session admission rules.

pub mod error;
pub mod ids;
pub mod frame;
pub mod faults;
pub mod loopback;
pub mod network;
pub mod loopback_laws;
pub mod in_memory_transport;
pub mod stage_input;
pub mod tokenizer;
pub mod manifest;
pub mod in_memory;
pub mod cache;
pub mod session;
pub mod generation;
pub mod loom_backend;
pub mod loom_model;
pub mod loom_archive;
pub mod active_sessions;
pub mod manifest_registry;
pub mod session_store;
