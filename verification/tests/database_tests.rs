//! Catalog tests: the component wrapper, path management, and the document
//! round trip.

use grafen::database::{ComponentEntry, DataBase, DataBaseError};
use grafen::lattice::{Angle, Coord};
use grafen::residue::{Residue, ResidueAtom};
use grafen::surface::{LatticeType, Sheet};
use grafen::volume::Cuboid;

fn sample_residue() -> Residue {
    Residue {
        code: "RES".to_string(),
        atoms: vec![
            ResidueAtom { code: "A1".to_string(), position: Coord::new(0, 1_000_000, 2_000_000) },
            ResidueAtom {
                code: "A2".to_string(),
                position: Coord::new(3_000_000, 4_000_000, 5_000_000),
            },
        ],
    }
}

#[test]
fn serialize_and_deserialize_residue_entry() {
    let base = sample_residue();

    let database = DataBase {
        path: None,
        residue_defs: vec![base.clone()],
        component_defs: vec![],
    };
    let serialized = database.to_document();
    let deserialized = DataBase::from_document(&serialized).unwrap();

    assert_eq!(vec![base], deserialized.residue_defs);
}

#[test]
fn database_by_default_sets_empty_vectors_if_not_available() {
    let database = DataBase::from_document("").unwrap();
    assert!(database.residue_defs.is_empty());
    assert!(database.component_defs.is_empty());
}

#[test]
fn read_and_write_database() {
    let base = sample_residue();

    let database = DataBase {
        path: Some("This/will/be/removed".to_string()),
        residue_defs: vec![base.clone()],
        component_defs: vec![],
    };

    let serialized = database.to_document();
    let deserialized = DataBase::from_document(&serialized).unwrap();

    assert_eq!(None, deserialized.path);
    assert_eq!(database.residue_defs, deserialized.residue_defs);
}

#[test]
fn component_definitions_round_trip() {
    let sheet = ComponentEntry::SurfaceSheet(Sheet {
        name: Some("plane".to_string()),
        residue: Some(sample_residue()),
        lattice: LatticeType::Triclinic {
            a: 1_000_000,
            b: 2_000_000,
            gamma: Angle::new(866_025, 500_000),
        },
        std_z: Some(10_000),
        origin: Coord::new(1, 2, 3),
        length: 2_000_000,
        width: 1_000_000,
        coords: vec![Coord::new(7, 8, 9), Coord::new(-1, -2, -3)],
    });
    let cuboid = ComponentEntry::VolumeCuboid(Cuboid {
        name: None,
        residue: None,
        origin: Coord::new(0, 0, 0),
        size: Coord::new(5_000_000, 5_000_000, 5_000_000),
        coords: vec![],
    });

    let database = DataBase {
        path: None,
        residue_defs: vec![sample_residue()],
        component_defs: vec![sheet, cuboid],
    };
    let document = database.to_document();
    let read_back = DataBase::from_document(&document).unwrap();

    assert_eq!(database.residue_defs, read_back.residue_defs);
    assert_eq!(database.component_defs, read_back.component_defs);
    assert_eq!(None, read_back.path);
}

#[test]
fn malformed_document_is_an_error() {
    assert!(DataBase::from_document("not a catalog").is_err());
}

#[test]
fn empty_catalog_document_text() {
    // An empty catalog writes two zero counts: a sign and nineteen digits
    // each for the residue and the component list.
    let document = DataBase::new().to_document();
    assert_eq!("+0000000000000000000+0000000000000000000", document);
}

#[test]
fn document_encodes_counts_and_codes() {
    let database = DataBase {
        path: None,
        residue_defs: vec![Residue {
            code: "W".to_string(),
            atoms: vec![],
        }],
        component_defs: vec![],
    };
    let document = database.to_document();
    // One residue: its one-character code and its empty atom list.
    assert_eq!(
        "+0000000000000000001+0000000000000000001W+0000000000000000000+0000000000000000000",
        document
    );
}

#[test]
fn set_database_path() {
    let mut database = DataBase::new();
    assert!(database.set_path("test").is_ok());
    assert_eq!("test.json", database.path.unwrap());
}

#[test]
fn set_database_to_empty_path_is_error() {
    let mut database = DataBase::new();
    database.path = Some("unchanged.json".to_string());
    assert!(database.set_path("").is_err());
    assert_eq!("unchanged.json", database.path.unwrap());
}

#[test]
fn set_path_replaces_an_existing_extension() {
    let mut database = DataBase::new();
    assert!(database.set_path("dir/catalog.bak").is_ok());
    assert_eq!("dir/catalog.json", database.path.unwrap());
}

#[test]
fn set_path_refuses_directory_names() {
    let mut database = DataBase::new();
    assert_eq!(Err(DataBaseError::BadPath), database.set_path("a/"));
    assert_eq!(Err(DataBaseError::BadPath), database.set_path("."));
    assert_eq!(Err(DataBaseError::BadPath), database.set_path(".."));
}

#[test]
fn get_database_path() {
    let mut database = DataBase::new();
    assert_eq!("None", &database.get_path_pretty());

    database.set_path("/a/file.json").unwrap();
    assert_eq!("'/a/file.json'", &database.get_path_pretty());
}

#[test]
fn create_entry_macro_adds_from_method() {
    let cuboid = Cuboid::default();
    let component = ComponentEntry::from(cuboid.clone());

    match component {
        ComponentEntry::VolumeCuboid(object) => {
            assert_eq!(object.name, cuboid.name);
            assert_eq!(object.residue, cuboid.residue);
            assert_eq!(object.size, cuboid.size);
            assert_eq!(object.origin, cuboid.origin);
            assert_eq!(object.coords, cuboid.coords);
        },
        _ => panic!["Incorrect object was created"],
    }
}

#[test]
fn component_entry_adds_with_pbc_method() {
    let sheet = Sheet {
        name: None,
        residue: None,
        lattice: LatticeType::Hexagonal { a: 100_000 },
        std_z: None,
        origin: Coord::new(0, 0, 0),
        length: 2_000_000,
        width: 1_000_000,
        coords: vec![
            Coord::new(500_000, 0, 0),       // inside box
            Coord::new(1_500_000, 0, 0),     // inside box
            Coord::new(2_500_000, 0, 0),     // outside box by 0.5 along x
            Coord::new(0, 1_500_000, 0),     // outside box by 0.5 along y
        ],
    };

    let component = ComponentEntry::from(sheet);

    let pbc_coords = vec![
        Coord::new(500_000, 0, 0),     // unchanged
        Coord::new(1_500_000, 0, 0),   // unchanged
        Coord::new(500_000, 0, 0),     // moved to within box
        Coord::new(0, 500_000, 0),     // moved to within box
    ];
    let pbc_component = component.with_pbc();

    assert_eq!(pbc_component.get_coords(), &pbc_coords);
}

#[test]
fn with_pbc_is_idempotent() {
    let sheet = Sheet {
        name: None,
        residue: None,
        lattice: LatticeType::Hexagonal { a: 100_000 },
        std_z: None,
        origin: Coord::new(0, 0, 0),
        length: 700_000,
        width: 300_000,
        coords: vec![
            Coord::new(-2_100_000, 899_999, -55),
            Coord::new(699_999, 300_000, 0),
            Coord::new(1, -1, 12),
        ],
    };
    let folded = ComponentEntry::from(sheet).with_pbc();
    let folded_coords = folded.get_coords().clone();
    let folded_twice = folded.with_pbc();
    assert_eq!(&folded_coords, folded_twice.get_coords());
}

#[test]
fn component_translation_moves_the_origin() {
    let mut cuboid = Cuboid::default();
    cuboid.coords = vec![Coord::new(1, 2, 3)];
    let component = ComponentEntry::from(cuboid);

    let moved = component.translate(Coord::new(10, 20, 30));
    match &moved {
        ComponentEntry::VolumeCuboid(object) => {
            assert_eq!(Coord::new(10, 20, 30), object.origin);
            assert_eq!(vec![Coord::new(1, 2, 3)], object.coords);
        },
        _ => panic!["Incorrect object was created"],
    }

    let mut in_place = moved;
    in_place.translate_in_place(Coord::new(-10, -20, -30));
    match in_place {
        ComponentEntry::VolumeCuboid(object) => {
            assert_eq!(Coord::new(0, 0, 0), object.origin);
        },
        _ => panic!["Incorrect object was created"],
    }
}

#[test]
fn create_definition_merges_overrides() {
    let base = ComponentEntry::SurfaceSheet(Sheet {
        name: Some("plane".to_string()),
        residue: Some(sample_residue()),
        lattice: LatticeType::Hexagonal { a: 100_000 },
        std_z: None,
        origin: Coord::new(0, 0, 0),
        length: 2_000_000,
        width: 1_000_000,
        coords: vec![Coord::new(1, 2, 3)],
    });

    let definition = grafen::database::create_definition(
        &base,
        Some(Coord::new(5, 6, 7)),
        Some((9_000_000, 8_000_000)),
        Some(4_000_000),
        None,
    );
    match definition {
        ComponentEntry::SurfaceSheet(sheet) => {
            assert_eq!(Some("plane".to_string()), sheet.name);
            assert_eq!(Some(sample_residue()), sheet.residue);
            assert_eq!(Coord::new(5, 6, 7), sheet.origin);
            // A sheet takes the position and the planar size; the radius
            // override does not apply to it.
            assert_eq!(9_000_000, sheet.length);
            assert_eq!(8_000_000, sheet.width);
            assert_eq!(vec![Coord::new(1, 2, 3)], sheet.coords);
        },
        _ => panic!["Incorrect object was created"],
    }

    // Without overrides the duplicate equals the entry.
    let copy = grafen::database::create_definition(&base, None, None, None, None);
    assert_eq!(base, copy);
}

#[test]
fn component_atom_counts() {
    let mut cuboid = Cuboid::default();
    assert_eq!(0, ComponentEntry::from(cuboid.clone()).num_atoms());

    cuboid.residue = Some(sample_residue());
    cuboid.coords = vec![Coord::new(0, 0, 0), Coord::new(1, 1, 1), Coord::new(2, 2, 2)];
    let component = ComponentEntry::from(cuboid);
    assert_eq!(6, component.num_atoms());

    let atoms = component.atom_list();
    assert_eq!(6, atoms.len());
    assert_eq!("RES", atoms[5].residue_name);
    assert_eq!("A2", atoms[5].atom_name);
    assert_eq!(2, atoms[5].residue_number);
    assert_eq!(5, atoms[5].atom_number);
    assert_eq!(Coord::new(3_000_002, 4_000_002, 5_000_002), atoms[5].position);
}
