//! Construct lattices for substrates from a two-dimensional crystal basis.
//!
//! All lengths are carried as fixed-point values in micro-units (millionths
//! of a length unit) so that lattice generation is exact integer arithmetic.
//! An angle enters only through its sine and cosine, which are supplied in
//! parts per million by the caller.

use vstd::arithmetic::div_mod::{
    lemma_fundamental_div_mod, lemma_fundamental_div_mod_converse_mod,
};
use vstd::prelude::*;

verus! {

/// Largest admitted basis vector length, in micro-units.
pub const MAX_SPACING: i64 = 1_000_000_000;

/// Largest admitted bin count along one axis.
pub const MAX_BINS: u64 = 1_000_000;

/// One unit in parts per million, the scale of sine/cosine values.
pub const PPM: i64 = 1_000_000;

/// Largest admitted requested lattice extent, in micro-units.
pub const MAX_SIZE: i64 = 1_000_000_000_000_000;

/// A three-dimensional coordinate in micro-units.
#[derive(Clone, Copy, Debug, PartialEq, Eq, Structural)]
pub struct Coord {
    pub x: i64,
    pub y: i64,
    pub z: i64,
}

/// Rounding of the quotient `t / q` to the nearest integer, with halves
/// rounded away from zero; `q` must be positive.
pub open spec fn round_half_away(t: int, q: int) -> int {
    if t >= 0 {
        (2 * t + q) / (2 * q)
    } else {
        -((2 * -t + q) / (2 * q))
    }
}

/// Reduction of `v` into the interval `[0, b)` by steps of `b` when `b` is
/// positive; `v` itself when `b` is not.
pub open spec fn fold_axis(v: int, b: int) -> int {
    if b > 0 {
        v % b
    } else {
        v
    }
}

/// `round_half_away(t, q)`, on machine integers.
pub fn round_half_away_i64(t: i64, q: i64) -> (r: i64)
    requires
        1 <= q <= MAX_SPACING,
        -0x2000_0000_0000_0000 < t < 0x2000_0000_0000_0000,
    ensures
        r == round_half_away(t as int, q as int),
{
    if t >= 0 {
        (2 * t + q) / (2 * q)
    } else {
        -((2 * -t + q) / (2 * q))
    }
}

/// `fold_axis(v, b)`, on machine integers.
pub fn fold_axis_i64(v: i64, b: i64) -> (r: i64)
    ensures
        r == fold_axis(v as int, b as int),
{
    if b <= 0 {
        v
    } else if v >= 0 {
        v % b
    } else {
        let w = -(v + 1);
        let r = b - 1 - (w % b);
        proof {
            let bi = b as int;
            let wi = w as int;
            lemma_fundamental_div_mod(wi, bi);
            let s = wi % bi;
            let qt = wi / bi;
            assert(v as int == (-qt - 1) * bi + (bi - s - 1)) by (nonlinear_arith)
                requires
                    wi == bi * qt + s,
                    v as int == -wi - 1,
            ;
            lemma_fundamental_div_mod_converse_mod(v as int, bi, -qt - 1, bi - s - 1);
        }
        r
    }
}

impl Coord {
    /// Construct a new coordinate from micro-unit components.
    pub fn new(x: i64, y: i64, z: i64) -> (c: Coord)
        ensures
            c == (Coord { x, y, z }),
    {
        Coord { x, y, z }
    }

    /// The coordinate obtained by adding `other` axis-wise, as a spec value.
    pub open spec fn add_spec(self, other: Coord) -> Coord {
        Coord {
            x: (self.x + other.x) as i64,
            y: (self.y + other.y) as i64,
            z: (self.z + other.z) as i64,
        }
    }

    /// Whether adding `other` stays within machine bounds on every axis.
    pub open spec fn add_in_bounds(self, other: Coord) -> bool {
        &&& i64::MIN <= self.x + other.x <= i64::MAX
        &&& i64::MIN <= self.y + other.y <= i64::MAX
        &&& i64::MIN <= self.z + other.z <= i64::MAX
    }

    /// Add a coordinate to another.
    pub fn add(&self, other: &Coord) -> (c: Coord)
        requires
            self.add_in_bounds(*other),
        ensures
            c == self.add_spec(*other),
    {
        Coord { x: self.x + other.x, y: self.y + other.y, z: self.z + other.z }
    }

    /// The coordinate folded axis-wise into `[0, box_size)` wherever the box
    /// has positive extent, as a spec value.
    pub open spec fn fold_spec(self, box_size: Coord) -> Coord {
        Coord {
            x: fold_axis(self.x as int, box_size.x as int) as i64,
            y: fold_axis(self.y as int, box_size.y as int) as i64,
            z: fold_axis(self.z as int, box_size.z as int) as i64,
        }
    }

    /// Reduce every axis of the coordinate into the periodic box `box_size`.
    /// An axis whose box extent is not positive is left unmodified.
    pub fn with_pbc(&self, box_size: Coord) -> (c: Coord)
        ensures
            c == self.fold_spec(box_size),
    {
        Coord {
            x: fold_axis_i64(self.x, box_size.x),
            y: fold_axis_i64(self.y, box_size.y),
            z: fold_axis_i64(self.z, box_size.z),
        }
    }
}

/// Folding is the identity on values already inside the box, so folding a
/// second time changes nothing.
pub proof fn lemma_fold_axis_idempotent(v: int, b: int)
    ensures
        fold_axis(fold_axis(v, b), b) == fold_axis(v, b),
{
    if b > 0 {
        lemma_fundamental_div_mod(v, b);
        let r = v % b;
        lemma_fundamental_div_mod_converse_mod(r, b, 0, r);
    }
}

/// Folding a coordinate that was already folded into the same box yields it
/// unchanged: the periodic fold is idempotent on every axis.
pub proof fn lemma_fold_coord_idempotent(c: Coord, box_size: Coord)
    ensures
        c.fold_spec(box_size).fold_spec(box_size) == c.fold_spec(box_size),
{
    lemma_fold_axis_idempotent(c.x as int, box_size.x as int);
    lemma_fold_axis_idempotent(c.y as int, box_size.y as int);
    lemma_fold_axis_idempotent(c.z as int, box_size.z as int);
}

/// The family of a two-dimensional crystal basis.
#[derive(Clone, Copy, Debug, PartialEq, Eq, Structural)]
pub enum LatticeType {
    Hexagonal,
    Triclinic,
}

/// An angle between two basis vectors, given by its sine and cosine in parts
/// per million. Only angles strictly between zero and a straight angle are
/// admitted, so the sine is positive.
#[derive(Clone, Copy, Debug, PartialEq, Eq, Structural)]
pub struct Angle {
    pub sin_ppm: i64,
    pub cos_ppm: i64,
}

impl Angle {
    /// Well-formedness: the sine is positive and both values lie within one.
    pub open spec fn wf(self) -> bool {
        &&& 1 <= self.sin_ppm <= PPM
        &&& -PPM <= self.cos_ppm <= PPM
    }

    /// Construct an angle from its sine and cosine in parts per million.
    pub fn new(sin_ppm: i64, cos_ppm: i64) -> (angle: Angle)
        requires
            1 <= sin_ppm <= PPM,
            -PPM <= cos_ppm <= PPM,
        ensures
            angle == (Angle { sin_ppm, cos_ppm }),
            angle.wf(),
    {
        Angle { sin_ppm, cos_ppm }
    }
}

/// A crystal basis for a two-dimensional lattice: two vector lengths in
/// micro-units, the angle between them, and the lattice family.
#[derive(Clone, Copy, Debug, PartialEq, Eq, Structural)]
pub struct Crystal {
    /// Vector length a.
    pub a: i64,
    /// Vector length b.
    pub b: i64,
    /// Angle between the vectors (a, b).
    pub gamma: Angle,
    pub lattice_type: LatticeType,
}

/// The spacing derived from a crystal basis: space between columns along x,
/// space between rows along y, and the adjustment of x per row.
#[derive(Clone, Copy, Debug, PartialEq, Eq, Structural)]
pub struct Spacing(pub i64, pub i64, pub i64);

/// Sine of a hexagonal basis angle (two thirds of a straight angle), in
/// parts per million.
pub const HEX_SIN_PPM: i64 = 866_025;

/// Cosine of a hexagonal basis angle, in parts per million.
pub const HEX_COS_PPM: i64 = -500_000;

impl Crystal {
    /// Well-formedness: positive bounded vector lengths and an admitted angle.
    pub open spec fn wf(self) -> bool {
        &&& 1 <= self.a <= MAX_SPACING
        &&& 1 <= self.b <= MAX_SPACING
        &&& self.gamma.wf()
    }

    /// The derived column spacing: the length of vector a.
    pub open spec fn spec_dx(self) -> int {
        self.a as int
    }

    /// The derived row spacing: `b * sin(gamma)`, rounded to micro-units.
    pub open spec fn spec_dy(self) -> int {
        round_half_away(self.b * self.gamma.sin_ppm, PPM as int)
    }

    /// The derived x adjustment per row: `b * cos(gamma)`, rounded.
    pub open spec fn spec_dx_per_row(self) -> int {
        round_half_away(self.b * self.gamma.cos_ppm, PPM as int)
    }

    /// Hexagonal bases are created with a common vector length and an angle
    /// of two thirds of a straight angle.
    pub fn hexagonal(a: i64) -> (crystal: Crystal)
        requires
            1 <= a <= MAX_SPACING,
        ensures
            crystal == (Crystal {
                a,
                b: a,
                gamma: Angle { sin_ppm: HEX_SIN_PPM, cos_ppm: HEX_COS_PPM },
                lattice_type: LatticeType::Hexagonal,
            }),
            crystal.wf(),
    {
        Crystal {
            a,
            b: a,
            gamma: Angle { sin_ppm: HEX_SIN_PPM, cos_ppm: HEX_COS_PPM },
            lattice_type: LatticeType::Hexagonal,
        }
    }

    /// Triclinic bases have two vectors of length (a, b) separated by an
    /// angle gamma.
    pub fn triclinic(a: i64, b: i64, gamma: Angle) -> (crystal: Crystal)
        requires
            1 <= a <= MAX_SPACING,
            1 <= b <= MAX_SPACING,
            gamma.wf(),
        ensures
            crystal == (Crystal { a, b, gamma, lattice_type: LatticeType::Triclinic }),
            crystal.wf(),
    {
        Crystal { a, b, gamma, lattice_type: LatticeType::Triclinic }
    }

    /// The spacing between lattice positions derived from this basis.
    pub fn spacing(&self) -> (spacing: Spacing)
        requires
            self.wf(),
        ensures
            spacing == (Spacing(
                self.spec_dx() as i64,
                self.spec_dy() as i64,
                self.spec_dx_per_row() as i64,
            )),
            spacing.0 == self.spec_dx(),
            spacing.1 == self.spec_dy(),
            spacing.2 == self.spec_dx_per_row(),
            1 <= spacing.0 <= MAX_SPACING,
            0 <= spacing.1 <= MAX_SPACING,
            -MAX_SPACING <= spacing.2 <= MAX_SPACING,
    {
        proof {
            assert(-0x2000_0000_0000_0000 < self.b * self.gamma.sin_ppm
                < 0x2000_0000_0000_0000
                && -0x2000_0000_0000_0000 < self.b * self.gamma.cos_ppm
                < 0x2000_0000_0000_0000) by (nonlinear_arith)
                requires
                    1 <= self.b <= MAX_SPACING,
                    self.gamma.wf(),
            ;
        }
        let dx = self.a;
        let dy = round_half_away_i64(self.b * self.gamma.sin_ppm, PPM);
        let dx_per_row = round_half_away_i64(self.b * self.gamma.cos_ppm, PPM);
        proof {
            lemma_round_bounds(self.b * self.gamma.sin_ppm, PPM as int);
            lemma_round_bounds(self.b * self.gamma.cos_ppm, PPM as int);
            assert(0 <= dy <= MAX_SPACING && -MAX_SPACING <= dx_per_row <= MAX_SPACING)
                by (nonlinear_arith)
                requires
                    1 <= self.b <= MAX_SPACING,
                    self.gamma.wf(),
                    2 * (PPM as int) * (dy as int) <= 2 * (self.b * self.gamma.sin_ppm)
                        + PPM,
                    2 * (PPM as int) * (dy as int) >= 2 * (self.b * self.gamma.sin_ppm)
                        - PPM,
                    2 * (PPM as int) * (dx_per_row as int) <= 2 * (self.b
                        * self.gamma.cos_ppm) + PPM,
                    2 * (PPM as int) * (dx_per_row as int) >= 2 * (self.b
                        * self.gamma.cos_ppm) - PPM,
            ;
        }
        Spacing(dx, dy, dx_per_row)
    }
}

/// The grid position at column `col` of row `row`, for the given spacing.
pub open spec fn lattice_point(col: int, row: int, dx: int, dy: int, dxr: int) -> Coord {
    Coord { x: (col * dx + row * dxr) as i64, y: (row * dy) as i64, z: 0 }
}

/// The full grid of `nx` columns by `ny` rows in row-major order: the row is
/// the outer index, the column the inner one.
pub open spec fn generic_points(nx: int, ny: int, dx: int, dy: int, dxr: int) -> Seq<Coord> {
    Seq::new((nx * ny) as nat, |i: int| lattice_point(i % nx, i / nx, dx, dy, dxr))
}

/// Whether a honeycomb lattice keeps the grid position at `(col, row)`.
/// Every third position of a row is a cell middle and dropped, the dropped
/// residue class shifting by one step each row.
pub open spec fn hex_keep(col: int, row: int) -> bool {
    (col + row + 1) % 3 != 0
}

/// The kept positions of honeycomb row `row`, over columns `0 .. ncols`.
pub open spec fn hex_row_points(row: int, ncols: nat, dx: int, dy: int, dxr: int) -> Seq<
    Coord,
>
    decreases ncols,
{
    if ncols == 0 {
        Seq::empty()
    } else {
        let prev = hex_row_points(row, (ncols - 1) as nat, dx, dy, dxr);
        if hex_keep(ncols - 1, row) {
            prev.push(lattice_point(ncols - 1, row, dx, dy, dxr))
        } else {
            prev
        }
    }
}

/// The kept positions of a honeycomb lattice of `nrows` rows by `ncols`
/// columns, rows concatenated in order.
pub open spec fn hex_points(nrows: nat, ncols: nat, dx: int, dy: int, dxr: int) -> Seq<Coord>
    decreases nrows,
{
    if nrows == 0 {
        Seq::empty()
    } else {
        hex_points((nrows - 1) as nat, ncols, dx, dy, dxr) + hex_row_points(
            nrows - 1,
            ncols,
            dx,
            dy,
            dxr,
        )
    }
}

/// The smallest multiple of `k` that is at least `n`.
pub open spec fn next_multiple(n: int, k: int) -> int {
    ((n + k - 1) / k) * k
}

/// `next_multiple(n, k)` is a multiple of `k`, at least `n`, and no other
/// multiple of `k` lies between `n` and it.
pub proof fn lemma_next_multiple(n: int, k: int)
    requires
        n >= 0,
        k >= 1,
    ensures
        next_multiple(n, k) % k == 0,
        next_multiple(n, k) >= n,
        next_multiple(n, k) < n + k,
        forall|m: int| #[trigger] (m % k) == 0 && m >= n ==> m >= next_multiple(n, k),
{
    let q = (n + k - 1) / k;
    lemma_fundamental_div_mod(n + k - 1, k);
    let s = (n + k - 1) % k;
    vstd::arithmetic::div_mod::lemma_mod_multiples_basic(q, k);
    assert(n <= q * k < n + k) by (nonlinear_arith)
        requires
            n + k - 1 == k * q + s,
            0 <= s < k,
    ;
    assert forall|m: int| #[trigger] (m % k) == 0 && m >= n implies m >= next_multiple(n, k) by {
        lemma_fundamental_div_mod(m, k);
        let mq = m / k;
        assert(mq * k >= q * k) by (nonlinear_arith)
            requires
                m == k * mq,
                m >= n,
                q * k < n + k,
                k >= 1,
        ;
    }
}

/// The grid position, on machine integers.
fn make_point(col: u64, row: u64, spacing: Spacing) -> (c: Coord)
    requires
        col <= MAX_BINS + 2,
        row <= MAX_BINS + 2,
        1 <= spacing.0 <= MAX_SPACING,
        0 <= spacing.1 <= MAX_SPACING,
        -MAX_SPACING <= spacing.2 <= MAX_SPACING,
    ensures
        c == lattice_point(
            col as int,
            row as int,
            spacing.0 as int,
            spacing.1 as int,
            spacing.2 as int,
        ),
{
    proof {
        assert(0 <= (col as int) * (spacing.0 as int) <= 2_000_000_000_000_000
            && -2_000_000_000_000_000 <= (row as int) * (spacing.2 as int)
            <= 2_000_000_000_000_000 && 0 <= (row as int) * (spacing.1 as int)
            <= 2_000_000_000_000_000) by (nonlinear_arith)
            requires
                col <= MAX_BINS + 2,
                row <= MAX_BINS + 2,
                1 <= spacing.0 <= MAX_SPACING,
                0 <= spacing.1 <= MAX_SPACING,
                -MAX_SPACING <= spacing.2 <= MAX_SPACING,
        ;
    }
    Coord {
        x: (col as i64) * spacing.0 + (row as i64) * spacing.2,
        y: (row as i64) * spacing.1,
        z: 0,
    }
}

/// The derived spacing of a well-formed basis is bounded: the column spacing
/// is the basis length itself, the row spacing is nonnegative, and neither
/// derived value exceeds the largest basis length.
pub proof fn lemma_spacing_bounds(c: Crystal)
    requires
        c.wf(),
    ensures
        1 <= c.spec_dx() <= MAX_SPACING,
        0 <= c.spec_dy() <= MAX_SPACING,
        -MAX_SPACING <= c.spec_dx_per_row() <= MAX_SPACING,
{
    lemma_round_bounds(c.b * c.gamma.sin_ppm, PPM as int);
    lemma_round_bounds(c.b * c.gamma.cos_ppm, PPM as int);
    assert(0 <= c.spec_dy() <= MAX_SPACING && -MAX_SPACING <= c.spec_dx_per_row()
        <= MAX_SPACING) by (nonlinear_arith)
        requires
            1 <= c.b <= MAX_SPACING,
            c.gamma.wf(),
            2 * (PPM as int) * c.spec_dy() <= 2 * (c.b * c.gamma.sin_ppm) + PPM,
            2 * (PPM as int) * c.spec_dy() >= 2 * (c.b * c.gamma.sin_ppm) - PPM,
            2 * (PPM as int) * c.spec_dx_per_row() <= 2 * (c.b * c.gamma.cos_ppm) + PPM,
            2 * (PPM as int) * c.spec_dx_per_row() >= 2 * (c.b * c.gamma.cos_ppm) - PPM,
            c.spec_dy() == round_half_away(c.b * c.gamma.sin_ppm, PPM as int),
            c.b * c.gamma.sin_ppm >= 0,
    ;
}

/// The rounded quotient lies within one of the true quotient; in particular
/// `|round_half_away(t, q)| <= |t| / q + 1` and it has the sign of `t`.
pub proof fn lemma_round_bounds(t: int, q: int)
    requires
        q >= 1,
    ensures
        t >= 0 ==> 0 <= round_half_away(t, q) <= t / q + 1,
        t < 0 ==> 0 >= round_half_away(t, q) >= -((-t) / q + 1),
        2 * q * round_half_away(t, q) <= 2 * t + q,
        2 * q * round_half_away(t, q) >= 2 * t - q,
{
    if t >= 0 {
        lemma_round_bounds_nonneg(t, q);
    } else {
        lemma_round_bounds_nonneg(-t, q);
        assert(round_half_away(t, q) == -round_half_away(-t, q));
        assert(2 * q * (-round_half_away(-t, q)) == -(2 * q * round_half_away(-t, q)))
            by (nonlinear_arith);
    }
}

proof fn lemma_round_bounds_nonneg(t: int, q: int)
    requires
        q >= 1,
        t >= 0,
    ensures
        0 <= round_half_away(t, q) <= t / q + 1,
        2 * q * round_half_away(t, q) <= 2 * t + q,
        2 * q * round_half_away(t, q) >= 2 * t - q,
{
    let r = (2 * t + q) / (2 * q);
    lemma_fundamental_div_mod(2 * t + q, 2 * q);
    let s = (2 * t + q) % (2 * q);
    assert(0 <= s < 2 * q);
    assert(2 * t + q == 2 * q * r + s);
    assert(2 * q * r <= 2 * t + q && 2 * q * r >= 2 * t - q + 1) by (nonlinear_arith)
        requires
            2 * t + q == 2 * q * r + s,
            0 <= s < 2 * q,
            q >= 1,
    ;
    assert(r >= 0) by (nonlinear_arith)
        requires
            2 * t + q == 2 * q * r + s,
            0 <= s < 2 * q,
            q >= 1,
            t >= 0,
    ;
    lemma_fundamental_div_mod(t, q);
    let u = t % q;
    assert(r <= t / q + 1) by (nonlinear_arith)
        requires
            2 * t + q == 2 * q * r + s,
            0 <= s < 2 * q,
            q >= 1,
            t == q * (t / q) + u,
            0 <= u < q,
    ;
}

/// A lattice with the coordinates of its grid and a total box size.
#[derive(Clone, Debug, PartialEq)]
pub struct Lattice {
    /// Size of the lattice box.
    pub box_size: Coord,
    /// List of coordinates belonging to the lattice.
    pub coords: Vec<Coord>,
}

/// Constructor for a `Lattice`: a crystal basis together with the requested
/// bin counts along both axes.
#[derive(Clone, Copy, Debug)]
pub struct LatticeBuilder {
    pub crystal: Crystal,
    pub nx: u64,
    pub ny: u64,
}

impl Lattice {
    /// Constructor for a hexagonal lattice with spacing `a` micro-units.
    pub fn hexagonal(a: i64) -> (builder: LatticeBuilder)
        requires
            1 <= a <= MAX_SPACING,
        ensures
            builder == (LatticeBuilder {
                crystal: Crystal {
                    a,
                    b: a,
                    gamma: Angle { sin_ppm: HEX_SIN_PPM, cos_ppm: HEX_COS_PPM },
                    lattice_type: LatticeType::Hexagonal,
                },
                nx: 0u64,
                ny: 0u64,
            }),
    {
        LatticeBuilder::new(Crystal::hexagonal(a))
    }

    /// Constructor for a triclinic lattice with vectors of length `(a, b)`
    /// micro-units separated by the angle `gamma`.
    pub fn triclinic(a: i64, b: i64, gamma: Angle) -> (builder: LatticeBuilder)
        requires
            1 <= a <= MAX_SPACING,
            1 <= b <= MAX_SPACING,
            gamma.wf(),
        ensures
            builder == (LatticeBuilder {
                crystal: Crystal { a, b, gamma, lattice_type: LatticeType::Triclinic },
                nx: 0u64,
                ny: 0u64,
            }),
    {
        LatticeBuilder::new(Crystal::triclinic(a, b, gamma))
    }

    /// Translate the lattice by an input coordinate vector: every point is
    /// shifted by `translate`, while the box size is a dimension, not a
    /// position, and stays unchanged.
    pub fn translate(self, translate: &Coord) -> (lattice: Lattice)
        requires
            forall|i: int|
                0 <= i < self.coords@.len() ==> #[trigger] self.coords@[i].add_in_bounds(
                    *translate,
                ),
        ensures
            lattice.box_size == self.box_size,
            lattice.coords@.len() == self.coords@.len(),
            forall|i: int|
                0 <= i < self.coords@.len() ==> lattice.coords@[i] == #[trigger] self.coords@[
                    i
                ].add_spec(*translate),
    {
        let mut coords: Vec<Coord> = Vec::new();
        let n = self.coords.len();
        let mut i: usize = 0;
        while i < n
            invariant
                n == self.coords@.len(),
                i <= n,
                coords@.len() == i,
                forall|j: int|
                    0 <= j < self.coords@.len() ==> #[trigger] self.coords@[j].add_in_bounds(
                        *translate,
                    ),
                forall|j: int|
                    0 <= j < i ==> coords@[j] == #[trigger] self.coords@[j].add_spec(*translate),
            decreases n - i,
        {
            coords.push(self.coords[i].add(translate));
            i += 1;
        }
        Lattice { box_size: self.box_size, coords }
    }
}

impl LatticeBuilder {
    fn new(crystal: Crystal) -> (builder: LatticeBuilder)
        ensures
            builder == (LatticeBuilder { crystal, nx: 0u64, ny: 0u64 }),
    {
        LatticeBuilder { crystal, nx: 0, ny: 0 }
    }

    /// The builder that `from_bins` returns.
    pub open spec fn from_bins_spec(self, nx: u64, ny: u64) -> LatticeBuilder {
        LatticeBuilder { crystal: self.crystal, nx, ny }
    }

    /// The builder that `from_size` returns: bin counts are the requested
    /// extents divided by the axis spacings, rounded to the nearest count.
    pub open spec fn from_size_spec(self, size_x: i64, size_y: i64) -> LatticeBuilder {
        self.from_bins_spec(
            round_half_away(size_x as int, self.crystal.spec_dx()) as u64,
            round_half_away(size_y as int, self.crystal.spec_dy()) as u64,
        )
    }

    /// Set explicit bin counts for the lattice.
    pub fn from_bins(self, nx: u64, ny: u64) -> (builder: LatticeBuilder)
        ensures
            builder == self.from_bins_spec(nx, ny),
    {
        LatticeBuilder { crystal: self.crystal, nx, ny }
    }

    /// Set the size of the lattice: the bin count of each axis is the
    /// requested extent divided by the axis spacing, rounded to the nearest
    /// whole count with halves rounded up.
    pub fn from_size(self, size_x: i64, size_y: i64) -> (builder: LatticeBuilder)
        requires
            self.crystal.wf(),
            self.crystal.spec_dy() >= 1,
            0 <= size_x <= MAX_SIZE,
            0 <= size_y <= MAX_SIZE,
        ensures
            builder == self.from_size_spec(size_x, size_y),
    {
        let Spacing(dx, dy, _) = self.crystal.spacing();
        let nx = round_half_away_i64(size_x, dx);
        let ny = round_half_away_i64(size_y, dy);
        proof {
            lemma_round_bounds(size_x as int, dx as int);
            lemma_round_bounds(size_y as int, dy as int);
        }
        self.from_bins(nx as u64, ny as u64)
    }

    /// The bin count along x that `finalize` works with: for the hexagonal
    /// family the requested count raised to the next multiple of three.
    pub open spec fn adjusted_nx(self) -> int {
        if self.crystal.lattice_type is Hexagonal {
            next_multiple(self.nx as int, 3)
        } else {
            self.nx as int
        }
    }

    /// The bin count along y that `finalize` works with: for the hexagonal
    /// family the requested count raised to the next multiple of two.
    pub open spec fn adjusted_ny(self) -> int {
        if self.crystal.lattice_type is Hexagonal {
            next_multiple(self.ny as int, 2)
        } else {
            self.ny as int
        }
    }

    /// The points that `finalize` emits.
    pub open spec fn points_spec(self) -> Seq<Coord> {
        let dx = self.crystal.spec_dx();
        let dy = self.crystal.spec_dy();
        let dxr = self.crystal.spec_dx_per_row();
        if self.crystal.lattice_type is Hexagonal {
            hex_points(self.adjusted_ny() as nat, self.adjusted_nx() as nat, dx, dy, dxr)
        } else {
            generic_points(self.nx as int, self.ny as int, dx, dy, dxr)
        }
    }

    /// The box size that `finalize` emits: an exact multiple of the basis
    /// spacing, so the lattice tiles perfectly under periodic boundaries.
    pub open spec fn box_spec(self) -> Coord {
        Coord {
            x: (self.adjusted_nx() * self.crystal.spec_dx()) as i64,
            y: (self.adjusted_ny() * self.crystal.spec_dy()) as i64,
            z: 0,
        }
    }

    /// Finalize and return the lattice.
    ///
    /// The generic family emits the full `nx` by `ny` grid in row-major
    /// order, `nx * ny` points in all. The hexagonal family first raises the
    /// bin counts to the next multiples of three and two, then emits the same
    /// grid with the honeycomb vacancy pattern applied. Both box dimensions
    /// use the counts actually emitted.
    pub fn finalize(self) -> (lattice: Lattice)
        requires
            self.crystal.wf(),
            self.nx <= MAX_BINS,
            self.ny <= MAX_BINS,
        ensures
            lattice.coords@ == self.points_spec(),
            lattice.box_size == self.box_spec(),
            self.crystal.lattice_type is Triclinic ==> lattice.coords@.len() == self.nx
                * self.ny,
    {
        let spacing = self.crystal.spacing();
        let (nx, ny, coords): (u64, u64, Vec<Coord>) = match self.crystal.lattice_type {
            LatticeType::Hexagonal => {
                let nx = next_multiple_u64(self.nx, 3);
                let ny = next_multiple_u64(self.ny, 2);
                (nx, ny, hexagonal_grid(nx, ny, spacing))
            },
            LatticeType::Triclinic => (self.nx, self.ny, generic_grid(self.nx, self.ny, spacing)),
        };
        proof {
            assert(0 <= (nx as int) * (spacing.0 as int) <= 2_000_000_000_000_000 && 0 <= (
            ny as int) * (spacing.1 as int) <= 2_000_000_000_000_000) by (nonlinear_arith)
                requires
                    0 <= nx <= MAX_BINS + 2,
                    0 <= ny <= MAX_BINS + 2,
                    1 <= spacing.0 <= MAX_SPACING,
                    0 <= spacing.1 <= MAX_SPACING,
            ;
        }
        let box_size = Coord { x: (nx as i64) * spacing.0, y: (ny as i64) * spacing.1, z: 0 };
        Lattice { box_size, coords }
    }
}

/// The next multiple of `k` at or above `n`, on machine integers.
fn next_multiple_u64(n: u64, k: u64) -> (r: u64)
    requires
        n <= MAX_BINS,
        1 <= k <= 3,
    ensures
        r == next_multiple(n as int, k as int),
        n <= r <= MAX_BINS + 2,
{
    proof {
        lemma_next_multiple(n as int, k as int);
    }
    ((n + k - 1) / k) * k
}

/// Generate the full grid of the generic lattice family.
fn generic_grid(nx: u64, ny: u64, spacing: Spacing) -> (coords: Vec<Coord>)
    requires
        nx <= MAX_BINS + 2,
        ny <= MAX_BINS + 2,
        1 <= spacing.0 <= MAX_SPACING,
        0 <= spacing.1 <= MAX_SPACING,
        -MAX_SPACING <= spacing.2 <= MAX_SPACING,
    ensures
        coords@ == generic_points(
            nx as int,
            ny as int,
            spacing.0 as int,
            spacing.1 as int,
            spacing.2 as int,
        ),
{
    let ghost dx = spacing.0 as int;
    let ghost dy = spacing.1 as int;
    let ghost dxr = spacing.2 as int;
    let mut coords: Vec<Coord> = Vec::new();
    let mut row: u64 = 0;
    while row < ny
        invariant
            row <= ny,
            nx <= MAX_BINS + 2,
            ny <= MAX_BINS + 2,
            1 <= spacing.0 <= MAX_SPACING,
            0 <= spacing.1 <= MAX_SPACING,
            -MAX_SPACING <= spacing.2 <= MAX_SPACING,
            dx == spacing.0 as int,
            dy == spacing.1 as int,
            dxr == spacing.2 as int,
            coords@ =~= Seq::new(
                (nx * row) as nat,
                |i: int| lattice_point(i % (nx as int), i / (nx as int), dx, dy, dxr),
            ),
        decreases ny - row,
    {
        let mut col: u64 = 0;
        while col < nx
            invariant
                col <= nx,
                row < ny,
                nx <= MAX_BINS + 2,
                ny <= MAX_BINS + 2,
                1 <= spacing.0 <= MAX_SPACING,
                0 <= spacing.1 <= MAX_SPACING,
                -MAX_SPACING <= spacing.2 <= MAX_SPACING,
                dx == spacing.0 as int,
                dy == spacing.1 as int,
                dxr == spacing.2 as int,
                coords@ =~= Seq::new(
                    (nx * row + col) as nat,
                    |i: int| lattice_point(i % (nx as int), i / (nx as int), dx, dy, dxr),
                ),
            decreases nx - col,
        {
            proof {
                assert((nx as int) * (row as int) == (row as int) * (nx as int))
                    by (nonlinear_arith);
                vstd::arithmetic::div_mod::lemma_fundamental_div_mod_converse(
                    nx * row + col,
                    nx as int,
                    row as int,
                    col as int,
                );
            }
            coords.push(make_point(col, row, spacing));
            col += 1;
        }
        proof {
            assert(nx * (row + 1) == nx * row + nx) by (nonlinear_arith);
        }
        row += 1;
    }
    proof {
        assert(nx * ny == ny * nx) by (nonlinear_arith);
    }
    coords
}

/// A bound that every point of a generated lattice satisfies: both grid axes
/// stay within the largest bin count times the largest spacing, and the
/// z component is zero.
pub open spec fn point_bounded(c: Coord) -> bool {
    &&& -2_100_000_000_000_000 <= c.x <= 2_100_000_000_000_000
    &&& 0 <= c.y <= 2_100_000_000_000_000
    &&& c.z == 0
}

/// A single grid position within the admitted bin and spacing ranges is
/// bounded.
proof fn lemma_point_bounded(col: int, row: int, dx: int, dy: int, dxr: int)
    requires
        1 <= dx <= MAX_SPACING,
        0 <= dy <= MAX_SPACING,
        -MAX_SPACING <= dxr <= MAX_SPACING,
        0 <= col <= MAX_BINS + 2,
        0 <= row <= MAX_BINS + 2,
    ensures
        point_bounded(lattice_point(col, row, dx, dy, dxr)),
{
    assert(-2_100_000_000_000_000 <= col * dx + row * dxr <= 2_100_000_000_000_000 && 0 <= row
        * dy <= 2_100_000_000_000_000) by (nonlinear_arith)
        requires
            1 <= dx <= MAX_SPACING,
            0 <= dy <= MAX_SPACING,
            -MAX_SPACING <= dxr <= MAX_SPACING,
            0 <= col <= MAX_BINS + 2,
            0 <= row <= MAX_BINS + 2,
    ;
}

/// Every point of a generic grid within the admitted ranges is bounded.
pub proof fn lemma_generic_points_bounds(nx: int, ny: int, dx: int, dy: int, dxr: int)
    requires
        1 <= dx <= MAX_SPACING,
        0 <= dy <= MAX_SPACING,
        -MAX_SPACING <= dxr <= MAX_SPACING,
        0 <= nx <= MAX_BINS + 2,
        0 <= ny <= MAX_BINS + 2,
    ensures
        forall|k: int|
            0 <= k < generic_points(nx, ny, dx, dy, dxr).len() ==> point_bounded(
                #[trigger] generic_points(nx, ny, dx, dy, dxr)[k],
            ),
{
    assert forall|k: int| 0 <= k < generic_points(nx, ny, dx, dy, dxr).len() implies point_bounded(
        generic_points(nx, ny, dx, dy, dxr)[k],
    ) by {
        assert(nx * ny > 0);
        assert(nx >= 1 && ny >= 1) by (nonlinear_arith)
            requires
                nx * ny > 0,
                nx >= 0,
                ny >= 0,
        ;
        lemma_fundamental_div_mod(k, nx);
        vstd::arithmetic::div_mod::lemma_mod_bound(k, nx);
        assert(k / nx < ny) by (nonlinear_arith)
            requires
                k < nx * ny,
                nx >= 1,
                k == nx * (k / nx) + k % nx,
                0 <= k % nx < nx,
        ;
        assert(k / nx >= 0) by (nonlinear_arith)
            requires
                k >= 0,
                nx >= 1,
                k == nx * (k / nx) + k % nx,
                0 <= k % nx < nx,
        ;
        lemma_point_bounded(k % nx, k / nx, dx, dy, dxr);
    }
}

/// Every point of a honeycomb row within the admitted ranges is bounded.
proof fn lemma_hex_row_points_bounds(row: int, ncols: nat, dx: int, dy: int, dxr: int)
    requires
        1 <= dx <= MAX_SPACING,
        0 <= dy <= MAX_SPACING,
        -MAX_SPACING <= dxr <= MAX_SPACING,
        0 <= row <= MAX_BINS + 2,
        ncols <= MAX_BINS + 2,
    ensures
        forall|k: int|
            0 <= k < hex_row_points(row, ncols, dx, dy, dxr).len() ==> point_bounded(
                #[trigger] hex_row_points(row, ncols, dx, dy, dxr)[k],
            ),
    decreases ncols,
{
    if ncols > 0 {
        lemma_hex_row_points_bounds(row, (ncols - 1) as nat, dx, dy, dxr);
        lemma_point_bounded(ncols - 1, row, dx, dy, dxr);
        let prev = hex_row_points(row, (ncols - 1) as nat, dx, dy, dxr);
        let cur = hex_row_points(row, ncols, dx, dy, dxr);
        assert forall|k: int| 0 <= k < cur.len() implies point_bounded(cur[k]) by {
            if k < prev.len() {
                assert(cur[k] == prev[k]);
            } else {
                assert(cur[k] == lattice_point(ncols - 1, row, dx, dy, dxr));
            }
        }
    }
}

/// Every point of a honeycomb lattice within the admitted ranges is bounded.
pub proof fn lemma_hex_points_bounds(nrows: nat, ncols: nat, dx: int, dy: int, dxr: int)
    requires
        1 <= dx <= MAX_SPACING,
        0 <= dy <= MAX_SPACING,
        -MAX_SPACING <= dxr <= MAX_SPACING,
        nrows <= MAX_BINS + 2,
        ncols <= MAX_BINS + 2,
    ensures
        forall|k: int|
            0 <= k < hex_points(nrows, ncols, dx, dy, dxr).len() ==> point_bounded(
                #[trigger] hex_points(nrows, ncols, dx, dy, dxr)[k],
            ),
    decreases nrows,
{
    if nrows > 0 {
        lemma_hex_points_bounds((nrows - 1) as nat, ncols, dx, dy, dxr);
        lemma_hex_row_points_bounds(nrows - 1, ncols, dx, dy, dxr);
        let prev = hex_points((nrows - 1) as nat, ncols, dx, dy, dxr);
        let rowp = hex_row_points(nrows - 1, ncols, dx, dy, dxr);
        let cur = hex_points(nrows, ncols, dx, dy, dxr);
        assert forall|k: int| 0 <= k < cur.len() implies point_bounded(cur[k]) by {
            if k < prev.len() {
                assert(cur[k] == prev[k]);
            } else {
                assert(cur[k] == rowp[k - prev.len()]);
            }
        }
    }
}

/// Law: deriving bin counts from a requested size and finalizing gives the
/// same lattice as setting the rounded bin counts directly and finalizing —
/// the same points and the same box size.
pub proof fn lemma_from_size_equals_from_bins(b: LatticeBuilder, size_x: i64, size_y: i64)
    requires
        b.crystal.wf(),
        b.crystal.spec_dy() >= 1,
        0 <= size_x <= MAX_SIZE,
        0 <= size_y <= MAX_SIZE,
    ensures
        ({
            let nx = round_half_away(size_x as int, b.crystal.spec_dx()) as u64;
            let ny = round_half_away(size_y as int, b.crystal.spec_dy()) as u64;
            &&& b.from_size_spec(size_x, size_y) == b.from_bins_spec(nx, ny)
            &&& b.from_size_spec(size_x, size_y).points_spec() == b.from_bins_spec(
                nx,
                ny,
            ).points_spec()
            &&& b.from_size_spec(size_x, size_y).box_spec() == b.from_bins_spec(
                nx,
                ny,
            ).box_spec()
        }),
{
}

/// Exactly one of any three consecutive integers is divisible by three.
proof fn lemma_mod3_window(t: int)
    ensures
        (t % 3 == 0 ==> (t + 1) % 3 != 0 && (t + 2) % 3 != 0),
        (t % 3 != 0 ==> ((t + 1) % 3 == 0) != ((t + 2) % 3 == 0)),
{
    lemma_fundamental_div_mod(t, 3);
    let q = t / 3;
    let m = t % 3;
    if m == 0 {
        lemma_fundamental_div_mod_converse_mod(t + 1, 3, q, 1);
        lemma_fundamental_div_mod_converse_mod(t + 2, 3, q, 2);
    } else if m == 1 {
        lemma_fundamental_div_mod_converse_mod(t + 1, 3, q, 2);
        lemma_fundamental_div_mod_converse_mod(t + 2, 3, q + 1, 0);
    } else {
        lemma_fundamental_div_mod_converse_mod(t + 1, 3, q + 1, 0);
        lemma_fundamental_div_mod_converse_mod(t + 2, 3, q + 1, 1);
    }
}

/// A honeycomb row over a column count divisible by three keeps exactly two
/// thirds of its positions: one position of every three is dropped.
pub proof fn lemma_hex_row_count(row: int, n: nat, dx: int, dy: int, dxr: int)
    requires
        n % 3 == 0,
    ensures
        hex_row_points(row, n, dx, dy, dxr).len() == n - n / 3,
    decreases n,
{
    if n == 0 {
    } else {
        lemma_fundamental_div_mod(n as int, 3);
        let k = n as int / 3;
        vstd::arithmetic::div_mod::lemma_fundamental_div_mod_converse(
            n as int - 3,
            3,
            k - 1,
            0,
        );
        lemma_hex_row_count(row, (n - 3) as nat, dx, dy, dxr);
        lemma_mod3_window(n - 3 + row + 1);
        let s3 = hex_row_points(row, (n - 3) as nat, dx, dy, dxr);
        let s2 = hex_row_points(row, (n - 2) as nat, dx, dy, dxr);
        let s1 = hex_row_points(row, (n - 1) as nat, dx, dy, dxr);
        let s0 = hex_row_points(row, n, dx, dy, dxr);
        assert(s2.len() == s3.len() + if hex_keep(n - 3, row) {
            1int
        } else {
            0int
        });
        assert(s1.len() == s2.len() + if hex_keep(n - 2, row) {
            1int
        } else {
            0int
        });
        assert(s0.len() == s1.len() + if hex_keep(n - 1, row) {
            1int
        } else {
            0int
        });
        assert(s0.len() == s3.len() + 2);
    }
}

/// A honeycomb lattice over a column count divisible by three keeps exactly
/// two thirds of the `nrows * ncols` grid positions.
pub proof fn lemma_hex_points_count(nrows: nat, ncols: nat, dx: int, dy: int, dxr: int)
    requires
        ncols % 3 == 0,
    ensures
        hex_points(nrows, ncols, dx, dy, dxr).len() == nrows * (ncols - ncols / 3),
    decreases nrows,
{
    if nrows == 0 {
        assert(hex_points(nrows, ncols, dx, dy, dxr).len() == 0);
    } else {
        lemma_hex_points_count((nrows - 1) as nat, ncols, dx, dy, dxr);
        lemma_hex_row_count(nrows - 1, ncols, dx, dy, dxr);
        assert((nrows - 1) * (ncols - ncols / 3) + (ncols - ncols / 3) == nrows * (ncols
            - ncols / 3)) by (nonlinear_arith);
    }
}

/// Law: a finalized hexagonal lattice has its bin counts raised to the
/// smallest multiples of three and two at or above the requested counts, and
/// keeps exactly two thirds of the adjusted grid's positions.
pub proof fn lemma_hexagonal_finalize_counts(b: LatticeBuilder)
    requires
        b.crystal.lattice_type is Hexagonal,
    ensures
        b.adjusted_nx() % 3 == 0 && b.adjusted_nx() >= b.nx && b.adjusted_nx() < b.nx + 3,
        b.adjusted_ny() % 2 == 0 && b.adjusted_ny() >= b.ny && b.adjusted_ny() < b.ny + 2,
        b.points_spec().len() == b.adjusted_ny() * (b.adjusted_nx() - b.adjusted_nx() / 3),
{
    lemma_next_multiple(b.nx as int, 3);
    lemma_next_multiple(b.ny as int, 2);
    lemma_hex_points_count(
        b.adjusted_ny() as nat,
        b.adjusted_nx() as nat,
        b.crystal.spec_dx(),
        b.crystal.spec_dy(),
        b.crystal.spec_dx_per_row(),
    );
}

/// Generate the honeycomb grid of the hexagonal lattice family: the full
/// grid with every position where `hex_keep` fails left vacant.
fn hexagonal_grid(nx: u64, ny: u64, spacing: Spacing) -> (coords: Vec<Coord>)
    requires
        nx <= MAX_BINS + 2,
        ny <= MAX_BINS + 2,
        1 <= spacing.0 <= MAX_SPACING,
        0 <= spacing.1 <= MAX_SPACING,
        -MAX_SPACING <= spacing.2 <= MAX_SPACING,
    ensures
        coords@ == hex_points(
            ny as nat,
            nx as nat,
            spacing.0 as int,
            spacing.1 as int,
            spacing.2 as int,
        ),
{
    let ghost dx = spacing.0 as int;
    let ghost dy = spacing.1 as int;
    let ghost dxr = spacing.2 as int;
    let mut coords: Vec<Coord> = Vec::new();
    let mut row: u64 = 0;
    while row < ny
        invariant
            row <= ny,
            nx <= MAX_BINS + 2,
            ny <= MAX_BINS + 2,
            1 <= spacing.0 <= MAX_SPACING,
            0 <= spacing.1 <= MAX_SPACING,
            -MAX_SPACING <= spacing.2 <= MAX_SPACING,
            dx == spacing.0 as int,
            dy == spacing.1 as int,
            dxr == spacing.2 as int,
            coords@ == hex_points(row as nat, nx as nat, dx, dy, dxr),
        decreases ny - row,
    {
        let mut col: u64 = 0;
        while col < nx
            invariant
                col <= nx,
                row < ny,
                nx <= MAX_BINS + 2,
                ny <= MAX_BINS + 2,
                1 <= spacing.0 <= MAX_SPACING,
                0 <= spacing.1 <= MAX_SPACING,
                -MAX_SPACING <= spacing.2 <= MAX_SPACING,
                dx == spacing.0 as int,
                dy == spacing.1 as int,
                dxr == spacing.2 as int,
                coords@ == hex_points(row as nat, nx as nat, dx, dy, dxr) + hex_row_points(
                    row as int,
                    col as nat,
                    dx,
                    dy,
                    dxr,
                ),
            decreases nx - col,
        {
            if (col + row + 1) % 3 > 0 {
                coords.push(make_point(col, row, spacing));
                proof {
                    assert(coords@ =~= hex_points(row as nat, nx as nat, dx, dy, dxr)
                        + hex_row_points(row as int, (col + 1) as nat, dx, dy, dxr));
                }
            } else {
                proof {
                    assert(coords@ =~= hex_points(row as nat, nx as nat, dx, dy, dxr)
                        + hex_row_points(row as int, (col + 1) as nat, dx, dy, dxr));
                }
            }
            col += 1;
        }
        row += 1;
    }
    coords
}

} // verus!

