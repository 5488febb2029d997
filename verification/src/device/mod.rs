//! Device detection results and the device model built from them.

pub mod types;

pub mod detector;
