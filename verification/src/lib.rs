//! Parsing of the `drbdsetup events2` stream into typed DRBD state updates.

pub mod text;
pub mod number;
pub mod drbd;
pub mod events;
pub mod laws;
pub mod field_laws;
