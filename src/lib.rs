//! A relay that asks a price oracle for a snapshot of asset prices and hands
//! the answer back to its own caller as canonical JSON text, or as one of two
//! fixed sentinel strings when the remote call or the encoding fails.
pub mod host;
pub mod json;
pub mod laws;
pub mod relay;
pub mod types;
