//! Verified core of a font installer.
//!
//! The crate holds the decision logic of the installation pipeline:
//! format detection, destination resolution with collision-free naming,
//! error classification, and the elevation protocol's state machine.
//! All filesystem and process effects are performed by a thin unverified
//! driver that feeds this library plain values and obeys its decisions.

pub mod bytes;
pub mod decimal;
pub mod detect;
pub mod errors;
pub mod orchestrate;
pub mod resolve;
