//! Platform bootstrap and upgrade orchestration: network policy checks,
//! content-addressed pack fetching, pack verification, a bootstrap flow
//! interpreter with pluggable interaction adapters, snapshot/restore stores
//! for secrets and configuration patches, and a durable bootstrap state
//! record with upgrade preflight.

pub mod capabilities;
pub mod config;
pub mod config_patch;
pub mod deploy;
pub mod digest;
pub mod errors;
pub mod flow;
pub mod http;
pub mod iac;
pub mod interaction;
pub mod json;
pub mod mqtt;
pub mod network;
pub mod oci;
pub mod orchestrate;
pub mod output;
pub mod pack;
pub mod paths;
pub mod plan;
pub mod secrets;
pub mod state;
pub mod strutil;
