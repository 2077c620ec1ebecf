//! Policy documents and the proof that one policy stays within another.

pub mod encoding;
pub mod envelope;
pub mod glob;
pub mod laws;
pub mod policy;
pub mod solver;
