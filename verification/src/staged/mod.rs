//! Tunnels whose type says whether they run.

pub mod client;
pub mod common;
pub mod config;
pub mod forwarder;
pub mod host;
pub mod laws;
pub mod state;
