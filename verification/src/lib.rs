//! A staged execution scheduler for an entity-component-system runtime.
//!
//! Units of logic ("systems") are grouped into named phases ("stages"); a
//! stage collection owns the stages in a fixed order and drives the two-phase
//! initialize/run protocol across them, once per simulation tick, with
//! fail-fast error propagation.

pub mod decimal;
pub mod stage;
pub mod system;
pub mod ulid;
