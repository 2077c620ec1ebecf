//! Gateway operation interceptors: their configuration, the planning of their
//! bindings, and the review of operations by them.

pub mod config;
pub mod endpoint;
pub mod laws;
pub mod payload;
pub mod planning;
pub mod review;
pub mod startup;
pub mod startup_laws;
