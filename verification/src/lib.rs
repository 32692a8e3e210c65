use vstd::prelude::*;

pub mod text;
pub mod domain;
pub mod paths;
pub mod sidecar_store;
pub mod sidecar_workflow;
pub mod fs_rollback;
pub mod operations;
pub mod api_error;
pub mod queries;
pub mod jobs;
pub mod golden_state;
pub mod naming;
pub mod display;
pub mod path_policy;
pub mod toolchain;
pub mod preflight;
pub mod config;
pub mod order;
pub mod scanner;
pub mod stores;
pub mod family;
pub mod metadata;
pub mod rename;
pub mod duplicates;
pub mod bulk;
pub mod consolidation;
pub mod probe;
pub mod ids;
pub mod auth;
pub mod fingerprint;

verus! {

} // verus!
