//! Observers for EVM execution: a selector tally, a wrapper for one observer
//! shared by several slots, a call-trace builder and its two exporters.

pub mod encoding;
pub mod inspector;
pub mod primitives;
pub mod stack;
pub mod tracing;
