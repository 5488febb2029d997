pub mod text;
pub mod registry;
pub mod error_code;
pub mod ids;
pub mod rdp;
pub mod session;
pub mod device;
pub mod ssh;
pub mod trust;
pub mod remember;
pub mod tunnel;
pub mod bootstrap;
pub mod commands;
pub mod test_support;
pub mod json;
pub mod updater;
pub mod net;
