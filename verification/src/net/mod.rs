//! Raw TCP reachability diagnostics.

pub mod probe;
