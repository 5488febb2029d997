//! SSH: connection shapes, host-key trust on first use, and the aggregation
//! of a remote command's output.

pub mod error;
pub mod types;
pub mod handler;
pub mod executor;
