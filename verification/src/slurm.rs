//! The Slurm compute driver: sandboxes as batch jobs that run a container.

pub mod config;
pub mod driver;
pub mod driver_laws;
pub mod environment;
pub mod jobs;
pub mod laws;
pub mod sandbox;
pub mod script;
