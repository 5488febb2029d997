//! Session contract layer: the engine boundary (opaque handles only), the
//! lifecycle policy of the session manager, and a deterministic fake engine.

pub mod model;
pub mod events;
pub mod engine;
pub mod fake;
pub mod manager;
