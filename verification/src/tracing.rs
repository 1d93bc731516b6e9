//! Observers that record what an execution did.

pub mod builder;
pub mod fourbyte;
pub mod geth;
pub mod laws;
pub mod model;
pub mod parity;
pub mod types;
