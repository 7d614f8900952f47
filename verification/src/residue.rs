//! Residues: named groups of atoms with fixed relative offsets. A residue
//! serves both as a generation template for substrates and as a standalone
//! catalog record.

use crate::lattice::Coord;
use vstd::prelude::*;

verus! {

/// Every atom in a residue has its own code and relative position.
#[derive(Clone, Debug, PartialEq)]
pub struct ResidueAtom {
    pub code: String,
    pub position: Coord,
}

/// A named group of atoms with their base coordinates.
#[derive(Clone, Debug, PartialEq)]
pub struct Residue {
    pub code: String,
    pub atoms: Vec<ResidueAtom>,
}

impl ResidueAtom {
    /// The spec-level value of a residue atom: its code's characters and its
    /// relative position.
    pub open spec fn sv(self) -> (Seq<char>, Coord) {
        (self.code@, self.position)
    }
}

impl Residue {
    /// The spec-level value of a residue: its code's characters and the
    /// ordered values of its atoms.
    pub open spec fn sv(self) -> (Seq<char>, Seq<(Seq<char>, Coord)>) {
        (self.code@, self.atoms@.map_values(|a: ResidueAtom| a.sv()))
    }
}

} // verus!
