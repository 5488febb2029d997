//! Deterministic test doubles: a fake clock, fault injection, and an event
//! recorder whose order assertions are exact.

pub mod fake_clock;
pub mod fault;
pub mod recorder;
