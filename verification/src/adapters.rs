//! Gateway messages as JSON, as interceptors review and change them.

pub mod config;
pub mod driver;
pub mod fields;
pub mod laws;
pub mod policy;
pub mod provider;
pub mod review;
pub mod sandbox;
