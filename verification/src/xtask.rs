//! Developer tasks: what the task runner and the release smoke test decide.

pub mod cli;
pub mod laws;
pub mod lima;
pub mod release_smoke_test;
pub mod vm;
