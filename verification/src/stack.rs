//! Several observers on one execution.

pub mod maybe_owned;
