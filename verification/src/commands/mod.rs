//! The decisions behind the application's commands: typed errors for the
//! interface, identity keys, and the remembered-device flows.

pub mod connection;
pub mod remember;
pub mod rdp;
pub mod network;
pub mod app;
