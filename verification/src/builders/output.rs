//! What a build is given and what it hands back.

use crate::location::FileLocation;
use crate::principal::Principal;
use vstd::prelude::*;

verus! {

/// The settings of one build.
#[derive(Clone, Debug, PartialEq, Eq)]
pub struct BuildConfig {
    /// The name of the network that the build is for.
    pub network_name: String,
}

/// Where the compiled module of a canister is.
#[derive(Clone, Debug, PartialEq, Eq)]
pub enum WasmBuildOutput {
    File(FileLocation),
}

/// Where the interface declaration of a canister is.
#[derive(Clone, Debug, PartialEq, Eq)]
pub enum IdlBuildOutput {
    File(FileLocation),
}

/// What a build produced for a canister.
#[derive(Clone, Debug, PartialEq, Eq)]
pub struct BuildOutput {
    pub canister_id: Principal,
    pub wasm: WasmBuildOutput,
    pub idl: IdlBuildOutput,
}

} // verus!
