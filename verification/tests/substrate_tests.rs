//! Substrate generation tests, with lengths in micro-units.

use grafen::lattice::Coord;
use grafen::substrates::{create_substrate, SubstrateType};

#[test]
fn graphene_layer() {
    let desired_size = (1_000_000, 1_000_000);
    let graphene = create_substrate(desired_size, SubstrateType::Graphene).unwrap();

    // The requested 1-by-1 footprint is rounded to the closest perfectly
    // replicable honeycomb: 9 columns (7 requested, raised to a multiple of
    // three) by 8 rows, with a third of the grid positions vacant.
    assert_eq!(Coord::new(9 * 142_000, 8 * 122_976, 2 * 142_000), graphene.dimensions);
    assert_eq!(48, graphene.atoms.len());

    // Verify the first atom: one carbon at the first lattice point, raised
    // by the half-thickness.
    let first_atom = &graphene.atoms[0];
    assert_eq!("GRPH", first_atom.residue_name);
    assert_eq!(0, first_atom.residue_number);
    assert_eq!("C", first_atom.atom_name);
    assert_eq!(0, first_atom.atom_number);
    assert_eq!(Coord::new(71_000, 71_000, 142_000 + 71_000), first_atom.position);
}

#[test]
fn silica_layer() {
    let silica = create_substrate((450_000, 450_000), SubstrateType::Silica).unwrap();

    // One bin in each direction: a single SiO2 residue of three atoms.
    assert_eq!(Coord::new(450_000, 389_711, 600_000), silica.dimensions);
    assert_eq!(3, silica.atoms.len());

    assert_eq!("SIO", silica.atoms[0].residue_name);
    assert_eq!("O1", silica.atoms[0].atom_name);
    assert_eq!(0, silica.atoms[0].atom_number);
    assert_eq!(Coord::new(112_500, 75_000, 451_000), silica.atoms[0].position);

    assert_eq!("SI", silica.atoms[1].atom_name);
    assert_eq!(1, silica.atoms[1].atom_number);
    assert_eq!(Coord::new(112_500, 75_000, 300_000), silica.atoms[1].position);

    assert_eq!("O2", silica.atoms[2].atom_name);
    assert_eq!(2, silica.atoms[2].atom_number);
    assert_eq!(Coord::new(112_500, 75_000, 149_000), silica.atoms[2].position);

    // All three atoms of the single residue share its number.
    assert!(silica.atoms.iter().all(|a| a.residue_number == 0));
}

#[test]
fn substrate_rejects_nonpositive_sizes() {
    let message = "input sizes of the system have to be positive";
    match create_substrate((0, 1_000_000), SubstrateType::Graphene) {
        Err(e) => assert_eq!(message, e),
        Ok(_) => panic!("a zero extent must be rejected"),
    }
    match create_substrate((1_000_000, -3), SubstrateType::Silica) {
        Err(e) => assert_eq!(message, e),
        Ok(_) => panic!("a negative extent must be rejected"),
    }
    assert!(create_substrate((1_000_000, 1_000_000), SubstrateType::Graphene).is_ok());
}

#[test]
fn atom_numbering_is_sequential() {
    let graphene = create_substrate((1_000_000, 500_000), SubstrateType::Graphene).unwrap();
    for (k, atom) in graphene.atoms.iter().enumerate() {
        assert_eq!(k as u64, atom.atom_number);
        assert_eq!(k as u64, atom.residue_number);
    }

    let silica = create_substrate((900_000, 900_000), SubstrateType::Silica).unwrap();
    for (k, atom) in silica.atoms.iter().enumerate() {
        assert_eq!(k as u64, atom.atom_number);
        assert_eq!((k / 3) as u64, atom.residue_number);
    }
}
