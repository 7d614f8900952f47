//! Lattice construction tests, with lengths in micro-units.

use grafen::lattice::{Angle, Coord, Crystal, Lattice, Spacing};

fn angle_from_radians(gamma: f64) -> Angle {
    Angle::new(
        (gamma.sin() * 1_000_000.0).round() as i64,
        (gamma.cos() * 1_000_000.0).round() as i64,
    )
}

#[test]
fn coord_translations() {
    let coord = Coord::new(0, 1_000_000, 2_000_000);
    assert_eq!(
        Coord { x: 1_000_000, y: 0, z: 2_500_000 },
        coord.add(&Coord { x: 1_000_000, y: -1_000_000, z: 500_000 })
    );
}

#[test]
fn hexagonal_crystal() {
    let crystal = Crystal::hexagonal(1_000_000);
    assert_eq!(1_000_000, crystal.a);
    assert_eq!(1_000_000, crystal.b);
    assert_eq!(866_025, crystal.gamma.sin_ppm);
    assert_eq!(-500_000, crystal.gamma.cos_ppm);
}

#[test]
fn triclinic_crystal() {
    let gamma = angle_from_radians(3.0);
    let crystal = Crystal::triclinic(1_000_000, 2_000_000, gamma);
    assert_eq!(1_000_000, crystal.a);
    assert_eq!(2_000_000, crystal.b);
    assert_eq!(gamma, crystal.gamma);
}

#[test]
fn triclinic_lattice() {
    let dx: i64 = 1_000_000;
    let angle = angle_from_radians(std::f64::consts::PI / 3.0);

    let lattice = Lattice::triclinic(dx, dx, angle).from_bins(3, 2).finalize();

    // Row spacing and per-row x shift for a third of a straight angle.
    let dy: i64 = 866_025;
    let dx_per_y: i64 = 500_000;

    // Check the dimensions.
    assert_eq!(Coord::new(3 * dx, 2 * dy, 0), lattice.box_size);

    // ... and the coordinates.
    let mut iter = lattice.coords.iter();
    assert_eq!(Some(&Coord::new(0, 0, 0)), iter.next());
    assert_eq!(Some(&Coord::new(dx, 0, 0)), iter.next());
    assert_eq!(Some(&Coord::new(2 * dx, 0, 0)), iter.next());
    assert_eq!(Some(&Coord::new(dx_per_y, dy, 0)), iter.next());
    assert_eq!(Some(&Coord::new(dx_per_y + dx, dy, 0)), iter.next());
    assert_eq!(Some(&Coord::new(dx_per_y + 2 * dx, dy, 0)), iter.next());
    assert_eq!(None, iter.next());
}

#[test]
fn hexagonal_lattice_has_empty_points() {
    let lattice = Lattice::hexagonal(1_000_000).from_bins(6, 2).finalize();

    let crystal = Crystal::hexagonal(1_000_000);
    let Spacing(dx, dy, dx_per_row) = crystal.spacing();

    // The hexagonal lattice has every third point removed to create
    // a chicken wire fence structure.
    let mut iter = lattice.coords.iter();
    assert_eq!(Some(&Coord::new(0, 0, 0)), iter.next());
    assert_eq!(Some(&Coord::new(dx, 0, 0)), iter.next());
    // Removed: (2 * dx, 0, 0).
    assert_eq!(Some(&Coord::new(3 * dx, 0, 0)), iter.next());
    assert_eq!(Some(&Coord::new(4 * dx, 0, 0)), iter.next());
    // Removed: (5 * dx, 0, 0).
    assert_eq!(Some(&Coord::new(dx_per_row, dy, 0)), iter.next());
    // Removed: (dx_per_row + dx, dy, 0).
    assert_eq!(Some(&Coord::new(dx_per_row + 2 * dx, dy, 0)), iter.next());
    assert_eq!(Some(&Coord::new(dx_per_row + 3 * dx, dy, 0)), iter.next());
    // Removed: (dx_per_row + 4 * dx, dy, 0).
    assert_eq!(Some(&Coord::new(dx_per_row + 5 * dx, dy, 0)), iter.next());
    assert_eq!(None, iter.next());
}

#[test]
fn hexagonal_lattice_has_corrected_periodicity() {
    // To perfectly replicate a hexagonal lattice along x and y the bin
    // counts are raised to the next multiples of three and two. The final
    // shape of this system should be (6, 2).
    let lattice = Lattice::hexagonal(1_000_000).from_bins(4, 1).finalize();
    let expected = Lattice::hexagonal(1_000_000).from_bins(6, 2).finalize();

    assert_eq!(expected.coords, lattice.coords);
    assert_eq!(expected.box_size, lattice.box_size);
}

#[test]
fn hexagonal_lattice_point_count() {
    // Two thirds of the adjusted 6-by-2 grid remain.
    let lattice = Lattice::hexagonal(1_000_000).from_bins(4, 1).finalize();
    assert_eq!(8, lattice.coords.len());
}

#[test]
fn lattice_from_size() {
    // This should result in a 2-by-2 triclinic lattice.
    let right_angle = angle_from_radians(90f64.to_radians());
    let lattice = Lattice::triclinic(1_000_000, 500_000, right_angle)
        .from_size(2_100_000, 900_000)
        .finalize();
    let expected = Lattice::triclinic(1_000_000, 500_000, right_angle)
        .from_bins(2, 2)
        .finalize();

    assert_eq!(expected.coords, lattice.coords);
    assert_eq!(expected.box_size, lattice.box_size);
}

#[test]
fn hexagonal_lattice_from_size() {
    // This should result in a 3-by-2 hexagonal lattice.
    let lattice = Lattice::hexagonal(1_000_000).from_size(2_100_000, 900_000).finalize();
    let expected = Lattice::hexagonal(1_000_000).from_bins(3, 2).finalize();

    assert_eq!(expected.coords, lattice.coords);
    assert_eq!(expected.box_size, lattice.box_size);
}

#[test]
fn crystal_spacing() {
    let crystal = Crystal::triclinic(
        1_000_000,
        3_000_000,
        angle_from_radians(std::f64::consts::PI / 3.0),
    );
    let Spacing(dx, dy, dx_per_row) = crystal.spacing();

    assert_eq!(1_000_000, dx);
    // 3 * sqrt(3) / 2, rounded to micro-units.
    assert_eq!(2_598_075, dy);
    assert_eq!(1_500_000, dx_per_row);
}

#[test]
fn translate_lattice() {
    let lattice = Lattice {
        box_size: Coord::new(1_000_000, 1_000_000, 1_000_000),
        coords: vec![Coord::new(0, 0, 0), Coord::new(2_000_000, 1_000_000, 0)],
    }
    .translate(&Coord::new(-500_000, 500_000, 1_000_000));

    let mut iter = lattice.coords.iter();
    assert_eq!(Some(&Coord::new(-500_000, 500_000, 1_000_000)), iter.next());
    assert_eq!(Some(&Coord::new(1_500_000, 1_500_000, 1_000_000)), iter.next());
    assert_eq!(None, iter.next());
}

#[test]
fn translate_keeps_box_size() {
    let lattice = Lattice::hexagonal(1_000_000).from_bins(3, 2).finalize();
    let box_size = lattice.box_size;
    let translated = lattice.translate(&Coord::new(123, -456, 789));
    assert_eq!(box_size, translated.box_size);
}

#[test]
fn from_size_matches_from_bins_rounding() {
    // Half counts round up: 1.5 columns become 2.
    let right_angle = angle_from_radians(90f64.to_radians());
    let lattice = Lattice::triclinic(1_000_000, 1_000_000, right_angle)
        .from_size(1_500_000, 1_000_000)
        .finalize();
    let expected = Lattice::triclinic(1_000_000, 1_000_000, right_angle)
        .from_bins(2, 1)
        .finalize();
    assert_eq!(expected.coords, lattice.coords);
    assert_eq!(expected.box_size, lattice.box_size);
}
