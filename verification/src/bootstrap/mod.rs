//! Preparing a device's remote desktop: classifying what the environment
//! check reports, the provisioning stages and their messages, and the
//! provisioning protocol's contract.

pub mod types;
pub mod error;
pub mod provisioner;
pub mod provision_protocol;
