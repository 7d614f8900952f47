//! Surface components: sheets and cylindrical shells that carry a residue
//! and a list of coordinates.

use crate::lattice::{Angle, Coord};
use crate::residue::Residue;
use vstd::prelude::*;

verus! {

/// The lattice that a sheet's coordinates were generated from.
#[derive(Clone, Copy, Debug, PartialEq, Eq, Structural)]
pub enum LatticeType {
    Hexagonal { a: i64 },
    Triclinic { a: i64, b: i64, gamma: Angle },
}

/// A rectangular sheet: its lattice, an origin, a length along x and a
/// width along y, and the coordinates placed on it.
#[derive(Clone, Debug, PartialEq)]
pub struct Sheet {
    pub name: Option<String>,
    pub residue: Option<Residue>,
    pub lattice: LatticeType,
    pub std_z: Option<i64>,
    pub origin: Coord,
    pub length: i64,
    pub width: i64,
    pub coords: Vec<Coord>,
}

/// A cylindrical surface: an origin, a radius and a height, and the
/// coordinates placed on its shell.
#[derive(Clone, Debug, PartialEq)]
pub struct Cylinder {
    pub name: Option<String>,
    pub residue: Option<Residue>,
    pub origin: Coord,
    pub radius: i64,
    pub height: i64,
    pub coords: Vec<Coord>,
}

} // verus!
