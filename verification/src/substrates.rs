//! Create substrates: expand the points of a generated lattice against a
//! fixed residue template into a flat, numbered atom list.

use crate::lattice::{
    lemma_generic_points_bounds, lemma_hex_points_bounds, lemma_hexagonal_finalize_counts,
    lemma_next_multiple, lemma_round_bounds, point_bounded, Angle, Coord, Crystal, Lattice,
    LatticeBuilder, LatticeType, HEX_COS_PPM, HEX_SIN_PPM, MAX_BINS, MAX_SPACING,
};
use crate::residue::{Residue, ResidueAtom};
use vstd::prelude::*;
use vstd::string::*;

verus! {

/// Carbon bond length of the graphene lattice, in micro-units.
pub const GRAPHENE_BOND: i64 = 142_000;

/// Half-thickness of a graphene layer, in micro-units.
pub const GRAPHENE_Z0: i64 = 142_000;

/// Bond length of the silica lattice, in micro-units.
pub const SILICA_BOND: i64 = 450_000;

/// Half-thickness of a silica layer, in micro-units.
pub const SILICA_Z0: i64 = 300_000;

/// Vertical offset of the two oxygen atoms of a silica residue.
pub const SILICA_DZ: i64 = 151_000;

/// The downward counterpart of `SILICA_DZ`.
pub const SILICA_DZ_NEG: i64 = -151_000;

/// Sine of a third of a straight angle, in parts per million.
pub const SIN_60_PPM: i64 = 866_025;

/// Cosine of a third of a straight angle, in parts per million.
pub const COS_60_PPM: i64 = 500_000;

/// Largest admitted requested substrate extent, in micro-units.
pub const MAX_SUBSTRATE_SIZE: i64 = 100_000_000_000;

/// A generated substrate: its total dimensions and its atoms.
#[derive(Clone, Debug, PartialEq)]
pub struct System {
    pub dimensions: Coord,
    pub atoms: Vec<Atom>,
}

/// Every atom in a system has some information connected to it which is used
/// when writing the output.
#[derive(Clone, Debug, PartialEq)]
pub struct Atom {
    /// Code for the parent residue name.
    pub residue_name: String,
    /// Number of the residue (0-indexed).
    pub residue_number: u64,
    /// Code for the atom name.
    pub atom_name: String,
    /// Number of the atom (0-indexed).
    pub atom_number: u64,
    /// Atom position.
    pub position: Coord,
}

/// Substrate types.
#[derive(Clone, Copy, Debug, PartialEq, Eq, Structural)]
pub enum SubstrateType {
    Graphene,
    Silica,
}

impl Residue {
    /// Graphene is a single carbon atom at each lattice point.
    pub fn graphene(bond_length: i64) -> (r: Residue)
        requires
            0 <= bond_length <= MAX_SPACING,
        ensures
            r.code@ == "GRPH"@,
            r.atoms@.len() == 1,
            r.atoms@[0].code@ == "C"@,
            r.atoms@[0].position == (Coord {
                x: (bond_length / 2) as i64,
                y: (bond_length / 2) as i64,
                z: (bond_length / 2) as i64,
            }),
    {
        let half = bond_length / 2;
        let mut atoms: Vec<ResidueAtom> = Vec::new();
        atoms.push(
            ResidueAtom {
                code: String::from_str("C"),
                position: Coord { x: half, y: half, z: half },
            },
        );
        Residue { code: String::from_str("GRPH"), atoms }
    }

    /// Silica is a rigid SiO2 molecule at each lattice point: a silicon atom
    /// with one oxygen offset vertically above it and one below.
    pub fn silica(bond_length: i64) -> (r: Residue)
        requires
            0 <= bond_length <= MAX_SPACING,
        ensures
            r.code@ == "SIO"@,
            r.atoms@.len() == 3,
            r.atoms@[0].code@ == "O1"@,
            r.atoms@[0].position == (Coord {
                x: (bond_length / 4) as i64,
                y: (bond_length / 6) as i64,
                z: SILICA_DZ,
            }),
            r.atoms@[1].code@ == "SI"@,
            r.atoms@[1].position == (Coord { x: (bond_length / 4) as i64, y: (bond_length / 6) as i64, z: 0 }),
            r.atoms@[2].code@ == "O2"@,
            r.atoms@[2].position == (Coord {
                x: (bond_length / 4) as i64,
                y: (bond_length / 6) as i64,
                z: SILICA_DZ_NEG,
            }),
    {
        let base_coord = Coord { x: bond_length / 4, y: bond_length / 6, z: 0 };
        let mut atoms: Vec<ResidueAtom> = Vec::new();
        atoms.push(
            ResidueAtom {
                code: String::from_str("O1"),
                position: base_coord.add(&Coord { x: 0, y: 0, z: SILICA_DZ }),
            },
        );
        atoms.push(ResidueAtom { code: String::from_str("SI"), position: base_coord });
        atoms.push(
            ResidueAtom {
                code: String::from_str("O2"),
                position: base_coord.add(&Coord { x: 0, y: 0, z: SILICA_DZ_NEG }),
            },
        );
        Residue { code: String::from_str("SIO"), atoms }
    }
}

/// The atom that position `k` of the generated list holds: lattice point
/// `k / atoms-per-residue` expanded against template atom `k % atoms-per-
/// residue`, numbered sequentially.
pub open spec fn substrate_atom(residue: Residue, coords: Seq<Coord>, k: int) -> Atom {
    let apr = residue.atoms@.len() as int;
    let i = k / apr;
    let j = k % apr;
    Atom {
        residue_name: residue.code,
        residue_number: i as u64,
        atom_name: residue.atoms@[j].code,
        atom_number: k as u64,
        position: coords[i].add_spec(residue.atoms@[j].position),
    }
}

/// Use a constructed grid and generate atoms of a residue for them, in
/// lattice order: the atoms of point `i` come before those of point `i + 1`,
/// and within one point the template order is kept.
pub fn gen_atom_list(coords: &Vec<Coord>, residue: &Residue) -> (atoms: Vec<Atom>)
    requires
        residue.atoms@.len() * coords@.len() <= u64::MAX,
        forall|i: int, j: int|
            0 <= i < coords@.len() && 0 <= j < residue.atoms@.len()
                ==> #[trigger] coords@[i].add_in_bounds(residue.atoms@[j].position),
    ensures
        atoms@.len() == coords@.len() * residue.atoms@.len(),
        forall|k: int|
            0 <= k < atoms@.len() ==> #[trigger] atoms@[k] == substrate_atom(
                *residue,
                coords@,
                k,
            ),
{
    let apr = residue.atoms.len();
    let n = coords.len();
    proof {
        assert(coords@.len() * residue.atoms@.len() == residue.atoms@.len()
            * coords@.len()) by (nonlinear_arith);
    }
    let mut atoms: Vec<Atom> = Vec::new();
    let mut i: usize = 0;
    while i < n
        invariant
            i <= n,
            n == coords@.len(),
            apr == residue.atoms@.len(),
            apr * n <= u64::MAX,
            forall|a: int, b: int|
                0 <= a < coords@.len() && 0 <= b < residue.atoms@.len()
                    ==> #[trigger] coords@[a].add_in_bounds(residue.atoms@[b].position),
            atoms@.len() == i * apr,
            forall|k: int|
                0 <= k < atoms@.len() ==> #[trigger] atoms@[k] == substrate_atom(
                    *residue,
                    coords@,
                    k,
                ),
        decreases n - i,
    {
        let mut j: usize = 0;
        while j < apr
            invariant
                i < n,
                j <= apr,
                n == coords@.len(),
                apr == residue.atoms@.len(),
                apr * n <= u64::MAX,
                forall|a: int, b: int|
                    0 <= a < coords@.len() && 0 <= b < residue.atoms@.len()
                        ==> #[trigger] coords@[a].add_in_bounds(residue.atoms@[b].position),
                atoms@.len() == i * apr + j,
                forall|k: int|
                    0 <= k < atoms@.len() ==> #[trigger] atoms@[k] == substrate_atom(
                        *residue,
                        coords@,
                        k,
                    ),
            decreases apr - j,
        {
            proof {
                assert(i * apr + j < apr * n && i * apr + j == apr * i + j)
                    by (nonlinear_arith)
                    requires
                        0 <= i < n,
                        0 <= j < apr,
                ;
                vstd::arithmetic::div_mod::lemma_fundamental_div_mod_converse(
                    i * apr + j,
                    apr as int,
                    i as int,
                    j as int,
                );
            }
            let atom = Atom {
                residue_name: residue.code.clone(),
                residue_number: i as u64,
                atom_name: residue.atoms[j].code.clone(),
                atom_number: (apr as u64) * (i as u64) + (j as u64),
                position: coords[i].add(&residue.atoms[j].position),
            };
            atoms.push(atom);
            j += 1;
        }
        proof {
            assert((i + 1) * apr == i * apr + apr) by (nonlinear_arith);
        }
        i += 1;
    }
    atoms
}

/// The crystal basis that a substrate type generates from.
pub open spec fn substrate_crystal(st: SubstrateType) -> Crystal {
    match st {
        SubstrateType::Graphene => Crystal {
            a: GRAPHENE_BOND,
            b: GRAPHENE_BOND,
            gamma: Angle { sin_ppm: HEX_SIN_PPM, cos_ppm: HEX_COS_PPM },
            lattice_type: LatticeType::Hexagonal,
        },
        SubstrateType::Silica => Crystal {
            a: SILICA_BOND,
            b: SILICA_BOND,
            gamma: Angle { sin_ppm: SIN_60_PPM, cos_ppm: COS_60_PPM },
            lattice_type: LatticeType::Triclinic,
        },
    }
}

/// The half-thickness that a substrate type raises its lattice plane by.
pub open spec fn substrate_z0(st: SubstrateType) -> int {
    match st {
        SubstrateType::Graphene => GRAPHENE_Z0 as int,
        SubstrateType::Silica => SILICA_Z0 as int,
    }
}

/// The residue code of a substrate type's template.
pub open spec fn template_code(st: SubstrateType) -> Seq<char> {
    match st {
        SubstrateType::Graphene => "GRPH"@,
        SubstrateType::Silica => "SIO"@,
    }
}

/// The atom codes and offsets of a substrate type's template, in order.
pub open spec fn template_offsets(st: SubstrateType) -> Seq<(Seq<char>, Coord)> {
    match st {
        SubstrateType::Graphene => seq![
            ("C"@, Coord { x: 71_000i64, y: 71_000i64, z: 71_000i64 }),
        ],
        SubstrateType::Silica => seq![
            ("O1"@, Coord { x: 112_500i64, y: 75_000i64, z: SILICA_DZ }),
            ("SI"@, Coord { x: 112_500i64, y: 75_000i64, z: 0i64 }),
            ("O2"@, Coord { x: 112_500i64, y: 75_000i64, z: SILICA_DZ_NEG }),
        ],
    }
}

/// The lattice builder that a substrate of the requested footprint uses.
pub open spec fn substrate_builder(st: SubstrateType, sx: i64, sy: i64) -> LatticeBuilder {
    (LatticeBuilder { crystal: substrate_crystal(st), nx: 0u64, ny: 0u64 }).from_size_spec(
        sx,
        sy,
    )
}

/// What a successfully generated substrate holds: the dimensions are the
/// finalized lattice box raised by twice the half-thickness along z, and
/// atom `k` expands lattice point `k / atoms-per-residue` (raised by the
/// half-thickness) against template atom `k % atoms-per-residue`.
pub open spec fn substrate_system_ok(sys: System, sx: i64, sy: i64, st: SubstrateType) -> bool {
    let b = substrate_builder(st, sx, sy);
    let pts = b.points_spec();
    let offs = template_offsets(st);
    let apr = offs.len() as int;
    let z0 = substrate_z0(st);
    &&& sys.dimensions == (Coord {
        x: b.box_spec().x,
        y: b.box_spec().y,
        z: (2 * z0) as i64,
    })
    &&& sys.atoms@.len() == pts.len() * apr
    &&& forall|k: int|
        0 <= k < sys.atoms@.len() ==> {
            let a = #[trigger] sys.atoms@[k];
            let i = k / apr;
            let j = k % apr;
            &&& a.residue_name@ == template_code(st)
            &&& a.residue_number == i as u64
            &&& a.atom_name@ == offs[j].0
            &&& a.atom_number == k as u64
            &&& a.position == (Coord {
                x: (pts[i].x + offs[j].1.x) as i64,
                y: (pts[i].y + offs[j].1.y) as i64,
                z: (pts[i].z + z0 + offs[j].1.z) as i64,
            })
        }
}

/// Create a substrate of desired input size and type. Fails if and only if
/// a requested dimension is not positive.
pub fn create_substrate(size: (i64, i64), substrate_type: SubstrateType) -> (res: Result<
    System,
    String,
>)
    requires
        size.0 <= MAX_SUBSTRATE_SIZE,
        size.1 <= MAX_SUBSTRATE_SIZE,
    ensures
        res is Err <==> (size.0 <= 0 || size.1 <= 0),
        res is Err ==> res->Err_0@ == "input sizes of the system have to be positive"@,
        res is Ok ==> substrate_system_ok(res->Ok_0, size.0, size.1, substrate_type),
{
    let (size_x, size_y) = size;
    if size_x <= 0 || size_y <= 0 {
        return Err(String::from_str("input sizes of the system have to be positive"));
    }
    let substrate = match substrate_type {
        SubstrateType::Graphene => create_layer(size_x, size_y, SubstrateType::Graphene),
        SubstrateType::Silica => create_layer(size_x, size_y, SubstrateType::Silica),
    };
    Ok(substrate)
}

/// Create one substrate layer: build a lattice sized to the requested
/// footprint from the material's basis, raise it by the half-thickness, and
/// expand the material's residue template over it.
fn create_layer(size_x: i64, size_y: i64, st: SubstrateType) -> (sys: System)
    requires
        1 <= size_x <= MAX_SUBSTRATE_SIZE,
        1 <= size_y <= MAX_SUBSTRATE_SIZE,
    ensures
        substrate_system_ok(sys, size_x, size_y, st),
{
    let (residue_base, builder, z0): (Residue, LatticeBuilder, i64) = match st {
        SubstrateType::Graphene => (
            Residue::graphene(GRAPHENE_BOND),
            Lattice::hexagonal(GRAPHENE_BOND),
            GRAPHENE_Z0,
        ),
        SubstrateType::Silica => (
            Residue::silica(SILICA_BOND),
            Lattice::triclinic(SILICA_BOND, SILICA_BOND, Angle::new(SIN_60_PPM, COS_60_PPM)),
            SILICA_Z0,
        ),
    };
    proof {
        lemma_substrate_spacing(st);
    }
    let builder = builder.from_size(size_x, size_y);
    proof {
        lemma_round_bounds(size_x as int, builder.crystal.spec_dx());
        lemma_round_bounds(size_y as int, builder.crystal.spec_dy());
    }
    let lattice = builder.finalize();
    proof {
        lemma_substrate_points(builder);
    }
    let lattice = lattice.translate(&Coord { x: 0, y: 0, z: z0 });
    let ghost b = builder;
    let ghost pts = b.points_spec();
    proof {
        if b.crystal.lattice_type is Hexagonal {
            lemma_hexagonal_finalize_counts(b);
            assert(pts.len() <= (MAX_BINS + 2) * (MAX_BINS + 2)) by (nonlinear_arith)
                requires
                    pts.len() == b.adjusted_ny() * (b.adjusted_nx() - b.adjusted_nx() / 3),
                    0 <= b.adjusted_nx() <= MAX_BINS + 2,
                    0 <= b.adjusted_ny() <= MAX_BINS + 2,
                    0 <= b.adjusted_nx() / 3 <= b.adjusted_nx(),
            ;
        } else {
            assert(pts.len() <= (MAX_BINS + 2) * (MAX_BINS + 2)) by (nonlinear_arith)
                requires
                    pts.len() == b.nx * b.ny,
                    0 <= b.nx <= MAX_BINS + 2,
                    0 <= b.ny <= MAX_BINS + 2,
            ;
        }
        assert(residue_base.atoms@.len() * lattice.coords@.len() <= u64::MAX)
            by (nonlinear_arith)
            requires
                residue_base.atoms@.len() <= 3,
                lattice.coords@.len() <= (MAX_BINS + 2) * (MAX_BINS + 2),
        ;
        assert forall|i: int, j: int|
            0 <= i < lattice.coords@.len() && 0 <= j < residue_base.atoms@.len() implies #[trigger] lattice.coords@[i].add_in_bounds(
            residue_base.atoms@[j].position,
        ) by {
            assert(lattice.coords@[i] == pts[i].add_spec(Coord { x: 0, y: 0, z: z0 }));
            assert(point_bounded(pts[i]));
            if st is Graphene {
                assert(residue_base.atoms@[j].position == (Coord {
                    x: 71_000i64,
                    y: 71_000i64,
                    z: 71_000i64,
                }));
            } else {
                assert(residue_base.atoms@[j].position.x == 112_500 && residue_base.atoms@[
                j].position.y == 75_000 && -SILICA_DZ <= residue_base.atoms@[j].position.z
                    <= SILICA_DZ);
            }
        }
    }
    let atoms = gen_atom_list(&lattice.coords, &residue_base);
    let sys = System {
        dimensions: lattice.box_size.add(&Coord { x: 0, y: 0, z: 2 * z0 }),
        atoms,
    };
    proof {
        lemma_layer_ok(sys, b, residue_base, lattice.coords@, size_x, size_y, st);
    }
    sys
}

/// The spacings that the two substrate bases derive, evaluated.
proof fn lemma_substrate_spacing(st: SubstrateType)
    ensures
        substrate_crystal(st).wf(),
        st is Graphene ==> substrate_crystal(st).spec_dy() == 122_976,
        st is Silica ==> substrate_crystal(st).spec_dy() == 389_711,
        substrate_crystal(st).spec_dy() >= 1,
{
    assert(142_000 * 866_025 == 122_975_550_000 && 450_000 * 866_025 == 389_711_250_000)
        by (nonlinear_arith);
    vstd::arithmetic::div_mod::lemma_fundamental_div_mod_converse(
        245_952_100_000,
        2_000_000,
        122_976,
        100_000,
    );
    vstd::arithmetic::div_mod::lemma_fundamental_div_mod_converse(
        779_423_500_000,
        2_000_000,
        389_711,
        1_500_000,
    );
}

/// Every point of a finalized substrate lattice is bounded.
proof fn lemma_substrate_points(b: LatticeBuilder)
    requires
        b.crystal.wf(),
        b.nx <= MAX_BINS,
        b.ny <= MAX_BINS,
    ensures
        forall|k: int|
            0 <= k < b.points_spec().len() ==> point_bounded(#[trigger] b.points_spec()[k]),
{
    let dx = b.crystal.spec_dx();
    let dy = b.crystal.spec_dy();
    let dxr = b.crystal.spec_dx_per_row();
    crate::lattice::lemma_spacing_bounds(b.crystal);
    if b.crystal.lattice_type is Hexagonal {
        lemma_next_multiple(b.nx as int, 3);
        lemma_next_multiple(b.ny as int, 2);
        lemma_hex_points_bounds(b.adjusted_ny() as nat, b.adjusted_nx() as nat, dx, dy, dxr);
    } else {
        lemma_generic_points_bounds(b.nx as int, b.ny as int, dx, dy, dxr);
    }
}

/// Assembling the translated lattice and the generated atom list meets the
/// substrate contract.
proof fn lemma_layer_ok(
    sys: System,
    b: LatticeBuilder,
    residue_base: Residue,
    tcoords: Seq<Coord>,
    size_x: i64,
    size_y: i64,
    st: SubstrateType,
)
    requires
        b == substrate_builder(st, size_x, size_y),
        b.nx <= MAX_BINS,
        b.ny <= MAX_BINS,
        st is Graphene ==> residue_base.code@ == "GRPH"@ && residue_base.atoms@.len() == 1
            && residue_base.atoms@[0].code@ == "C"@ && residue_base.atoms@[0].position == (
        Coord { x: 71_000i64, y: 71_000i64, z: 71_000i64 }),
        st is Silica ==> residue_base.code@ == "SIO"@ && residue_base.atoms@.len() == 3
            && residue_base.atoms@[0].code@ == "O1"@ && residue_base.atoms@[0].position == (
        Coord { x: 112_500i64, y: 75_000i64, z: SILICA_DZ })
            && residue_base.atoms@[1].code@ == "SI"@ && residue_base.atoms@[1].position == (
        Coord { x: 112_500i64, y: 75_000i64, z: 0i64 }) && residue_base.atoms@[2].code@
            == "O2"@ && residue_base.atoms@[2].position == (Coord {
            x: 112_500i64,
            y: 75_000i64,
            z: SILICA_DZ_NEG,
        }),
        tcoords.len() == b.points_spec().len(),
        forall|i: int|
            0 <= i < b.points_spec().len() ==> point_bounded(#[trigger] b.points_spec()[i]),
        forall|i: int|
            0 <= i < tcoords.len() ==> #[trigger] tcoords[i] == b.points_spec()[i].add_spec(
                Coord { x: 0, y: 0, z: substrate_z0(st) as i64 },
            ),
        sys.dimensions == b.box_spec().add_spec(
            Coord { x: 0, y: 0, z: (2 * substrate_z0(st)) as i64 },
        ),
        sys.atoms@.len() == tcoords.len() * residue_base.atoms@.len(),
        forall|k: int|
            0 <= k < sys.atoms@.len() ==> #[trigger] sys.atoms@[k] == substrate_atom(
                residue_base,
                tcoords,
                k,
            ),
    ensures
        substrate_system_ok(sys, size_x, size_y, st),
{
    let pts = b.points_spec();
    let offs = template_offsets(st);
    let apr = offs.len() as int;
    let z0 = substrate_z0(st);
    assert(residue_base.atoms@.len() == apr);
    assert(sys.atoms@.len() == pts.len() * apr);
    assert forall|k: int| 0 <= k < sys.atoms@.len() implies {
        let a = #[trigger] sys.atoms@[k];
        let i = k / apr;
        let j = k % apr;
        &&& a.residue_name@ == template_code(st)
        &&& a.residue_number == i as u64
        &&& a.atom_name@ == offs[j].0
        &&& a.atom_number == k as u64
        &&& a.position == (Coord {
            x: (pts[i].x + offs[j].1.x) as i64,
            y: (pts[i].y + offs[j].1.y) as i64,
            z: (pts[i].z + z0 + offs[j].1.z) as i64,
        })
    } by {
        let i = k / apr;
        let j = k % apr;
        vstd::arithmetic::div_mod::lemma_fundamental_div_mod(k, apr);
        vstd::arithmetic::div_mod::lemma_mod_bound(k, apr);
        assert(0 <= i < pts.len()) by (nonlinear_arith)
            requires
                k == apr * i + j,
                0 <= j < apr,
                0 <= k < pts.len() * apr,
        ;
        assert(sys.atoms@[k] == substrate_atom(residue_base, tcoords, k));
        assert(residue_base.atoms@[j].position == offs[j].1);
        assert(residue_base.atoms@[j].code@ == offs[j].0);
        assert(tcoords[i] == pts[i].add_spec(Coord { x: 0, y: 0, z: z0 as i64 }));
        assert(point_bounded(pts[i]));
    }
}

} // verus!
