//! The core of a tool that builds and deploys the canisters of a project:
//! the manifest and what it says of canisters and networks, the canisters
//! that a build has to cover, the ids that canisters have on a network, and
//! the decisions of the builder for asset canisters.
//!
//! The library decides and computes; reading and writing files, running
//! commands and resolving addresses is left to the caller, which hands in what
//! it found and carries out what the library hands back.

pub mod bitcoin;
pub mod builders;
pub mod canister_info;
pub mod config;
pub mod error;
pub mod json;
pub mod location;
pub mod models;
pub mod name_map;
pub mod network;
pub mod principal;
pub mod text;
