//! Generation of atomic-coordinate structures for molecular-simulation input:
//! regular two-dimensional crystal lattices populated with residue templates,
//! and a persisted catalog of reusable geometric component definitions.
//!
//! All geometry is carried in fixed-point micro-units (one millionth of a
//! length unit), so every derivation is exact integer arithmetic.

pub mod codec;
pub mod database;
pub mod lattice;
pub mod residue;
pub mod substrates;
pub mod surface;
pub mod volume;
