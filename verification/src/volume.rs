//! Volume components: geometric bodies that carry a residue and a list of
//! coordinates.

use crate::lattice::Coord;
use crate::residue::Residue;
use vstd::prelude::*;

verus! {

/// A cuboid volume: an origin, an extent along each axis, and the
/// coordinates placed inside it.
#[derive(Clone, Debug, PartialEq)]
pub struct Cuboid {
    pub name: Option<String>,
    pub residue: Option<Residue>,
    pub origin: Coord,
    pub size: Coord,
    pub coords: Vec<Coord>,
}

/// A cylindrical volume: an origin, a radius and a height, and the
/// coordinates placed inside it.
#[derive(Clone, Debug, PartialEq)]
pub struct Cylinder {
    pub name: Option<String>,
    pub residue: Option<Residue>,
    pub origin: Coord,
    pub radius: i64,
    pub height: i64,
    pub coords: Vec<Coord>,
}

impl Default for Cuboid {
    /// An empty, unnamed cuboid of zero extent at the origin.
    fn default() -> (r: Cuboid)
        ensures
            r.name is None,
            r.residue is None,
            r.origin == (Coord { x: 0i64, y: 0i64, z: 0i64 }),
            r.size == (Coord { x: 0i64, y: 0i64, z: 0i64 }),
            r.coords@ == Seq::<Coord>::empty(),
    {
        Cuboid {
            name: None,
            residue: None,
            origin: Coord { x: 0, y: 0, z: 0 },
            size: Coord { x: 0, y: 0, z: 0 },
            coords: Vec::new(),
        }
    }
}

} // verus!
