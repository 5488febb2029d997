//! Device trust. Two identities are kept apart: the SSH host key (the
//! security gate) and the Jetson product identity (serial / machine id),
//! which groups and remembers devices. `evaluate_trust` is the one place the
//! combination of the two becomes a decision.

pub mod decision;
pub mod evaluator;
pub mod model;
pub mod store;

pub use decision::TrustDecision;
pub use evaluator::evaluate_trust;
pub use model::{DeviceIdentity, HostKeyRecord, TrustRecord};
pub use store::{StoredHost, TrustStoreFile};
