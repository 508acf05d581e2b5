//! Pin-control state logic for a four-node cluster baseboard.
//!
//! The crate decides, for each high-level intent (which node owns the shared
//! USB bus, in which electrical mode, which way the shared switch points),
//! the exact GPIO line values that must be driven, and it tracks the
//! commanded state of every line group it owns. Performing the writes on the
//! character-device lines is left to a thin unverified shell around this
//! crate; every decision about *what* to write is made and proved here.

pub mod bits;
pub mod lines;
pub mod pin_controller;
pub mod types;
