//! Decision logic of a sandbox gateway, with every function verified against
//! its contract.

pub mod adapters;
pub mod config_command;
pub mod digest;
pub mod doubles;
pub mod gpu;
pub mod interceptors;
pub mod json;
pub mod kubernetes_secrets;
pub mod l7_middleware;
pub mod listing;
pub mod managed_policy;
pub mod managed_settings;
pub mod middleware;
pub mod ordered;
pub mod outcome;
pub mod paths;
pub mod policy_middleware;
pub mod proto_struct;
pub mod provider_profile_catalog;
pub mod prover;
pub mod sidecar_control;
pub mod slurm;
pub mod status;
pub mod text;
pub mod xtask;
