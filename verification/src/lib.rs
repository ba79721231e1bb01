//! Verified core of a command-line client for the ZCode agent runtime.

pub mod text;
pub mod toml_text;
pub mod paths;
pub mod json;
pub mod rpc;
pub mod runtime;
pub mod server_requests;
pub mod config;
pub mod session;
pub mod startup;
pub mod notices;
pub mod daemon;
pub mod daemon_client;
pub mod commands;
pub mod doctor;
pub mod council;
