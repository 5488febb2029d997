//! Desktop plane (RDP): connection requests and configuration, the FreeRDP
//! command line, error mapping and the diagnostics log buffer.

pub mod types;
pub mod args;
pub mod error;
pub mod process;
