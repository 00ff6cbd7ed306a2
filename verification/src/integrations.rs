//! The integrations the hub can load.

pub mod circadian;
pub mod dummy;
pub mod neato;
