//! Collect definitions for `Residue` and component objects into a `DataBase`
//! which can be read from or saved to disk.

use crate::lattice::Coord;
use crate::residue::{Residue, ResidueAtom};
use crate::substrates::{substrate_atom, Atom};
use crate::surface;
use crate::volume;
use vstd::prelude::*;

verus! {

/// Largest admitted cylinder radius, so that a diameter fits a machine word.
pub const MAX_RADIUS: i64 = 0x3fff_ffff_ffff_ffff;

/// Wrapper for accessing a shared interface from different component
/// constructors: a closed set of component kinds under one capability
/// surface.
#[derive(Clone, Debug, PartialEq)]
pub enum ComponentEntry {
    VolumeCuboid(volume::Cuboid),
    VolumeCylinder(volume::Cylinder),
    SurfaceSheet(surface::Sheet),
    SurfaceCylinder(surface::Cylinder),
}

/// The spec-level value of a component: the same variants, with strings and
/// coordinate lists replaced by their mathematical views.
pub ghost enum ComponentEntryView {
    VolumeCuboid {
        name: Option<Seq<char>>,
        residue: Option<(Seq<char>, Seq<(Seq<char>, Coord)>)>,
        origin: Coord,
        size: Coord,
        coords: Seq<Coord>,
    },
    VolumeCylinder {
        name: Option<Seq<char>>,
        residue: Option<(Seq<char>, Seq<(Seq<char>, Coord)>)>,
        origin: Coord,
        radius: i64,
        height: i64,
        coords: Seq<Coord>,
    },
    SurfaceSheet {
        name: Option<Seq<char>>,
        residue: Option<(Seq<char>, Seq<(Seq<char>, Coord)>)>,
        lattice: surface::LatticeType,
        std_z: Option<i64>,
        origin: Coord,
        length: i64,
        width: i64,
        coords: Seq<Coord>,
    },
    SurfaceCylinder {
        name: Option<Seq<char>>,
        residue: Option<(Seq<char>, Seq<(Seq<char>, Coord)>)>,
        origin: Coord,
        radius: i64,
        height: i64,
        coords: Seq<Coord>,
    },
}

/// The view of an optional name.
pub open spec fn opt_string_view(o: Option<String>) -> Option<Seq<char>> {
    match o {
        Option::None => Option::None,
        Option::Some(s) => Option::Some(s@),
    }
}

/// The view of an optional residue.
pub open spec fn opt_residue_view(o: Option<Residue>) -> Option<
    (Seq<char>, Seq<(Seq<char>, Coord)>),
> {
    match o {
        Option::None => Option::None,
        Option::Some(r) => Option::Some(r.sv()),
    }
}

/// The coordinate list of a component view.
pub open spec fn view_coords(v: ComponentEntryView) -> Seq<Coord> {
    match v {
        ComponentEntryView::VolumeCuboid { coords, .. } => coords,
        ComponentEntryView::VolumeCylinder { coords, .. } => coords,
        ComponentEntryView::SurfaceSheet { coords, .. } => coords,
        ComponentEntryView::SurfaceCylinder { coords, .. } => coords,
    }
}

/// The component view with its coordinate list replaced.
pub open spec fn view_with_coords(v: ComponentEntryView, c: Seq<Coord>) -> ComponentEntryView {
    match v {
        ComponentEntryView::VolumeCuboid { name, residue, origin, size, .. } =>
            ComponentEntryView::VolumeCuboid { name, residue, origin, size, coords: c },
        ComponentEntryView::VolumeCylinder { name, residue, origin, radius, height, .. } =>
            ComponentEntryView::VolumeCylinder {
                name,
                residue,
                origin,
                radius,
                height,
                coords: c,
            },
        ComponentEntryView::SurfaceSheet {
            name,
            residue,
            lattice,
            std_z,
            origin,
            length,
            width,
            ..
        } => ComponentEntryView::SurfaceSheet {
            name,
            residue,
            lattice,
            std_z,
            origin,
            length,
            width,
            coords: c,
        },
        ComponentEntryView::SurfaceCylinder { name, residue, origin, radius, height, .. } =>
            ComponentEntryView::SurfaceCylinder {
                name,
                residue,
                origin,
                radius,
                height,
                coords: c,
            },
    }
}

/// The component view with its origin replaced.
pub open spec fn view_with_origin(v: ComponentEntryView, o: Coord) -> ComponentEntryView {
    match v {
        ComponentEntryView::VolumeCuboid { name, residue, size, coords, .. } =>
            ComponentEntryView::VolumeCuboid { name, residue, origin: o, size, coords },
        ComponentEntryView::VolumeCylinder { name, residue, radius, height, coords, .. } =>
            ComponentEntryView::VolumeCylinder {
                name,
                residue,
                origin: o,
                radius,
                height,
                coords,
            },
        ComponentEntryView::SurfaceSheet {
            name,
            residue,
            lattice,
            std_z,
            length,
            width,
            coords,
            ..
        } => ComponentEntryView::SurfaceSheet {
            name,
            residue,
            lattice,
            std_z,
            origin: o,
            length,
            width,
            coords,
        },
        ComponentEntryView::SurfaceCylinder { name, residue, radius, height, coords, .. } =>
            ComponentEntryView::SurfaceCylinder {
                name,
                residue,
                origin: o,
                radius,
                height,
                coords,
            },
    }
}

/// The box size of a component view: the cuboid's extent; twice the radius
/// along both planar axes and the height along z for a cylinder; the length
/// and width with no vertical extent for a sheet.
pub open spec fn view_box(v: ComponentEntryView) -> Coord {
    match v {
        ComponentEntryView::VolumeCuboid { size, .. } => size,
        ComponentEntryView::VolumeCylinder { radius, height, .. } => Coord {
            x: (2 * radius) as i64,
            y: (2 * radius) as i64,
            z: height,
        },
        ComponentEntryView::SurfaceSheet { length, width, .. } => Coord {
            x: length,
            y: width,
            z: 0,
        },
        ComponentEntryView::SurfaceCylinder { radius, height, .. } => Coord {
            x: (2 * radius) as i64,
            y: (2 * radius) as i64,
            z: height,
        },
    }
}

/// The residue of a component view.
pub open spec fn view_residue(v: ComponentEntryView) -> Option<
    (Seq<char>, Seq<(Seq<char>, Coord)>),
> {
    match v {
        ComponentEntryView::VolumeCuboid { residue, .. } => residue,
        ComponentEntryView::VolumeCylinder { residue, .. } => residue,
        ComponentEntryView::SurfaceSheet { residue, .. } => residue,
        ComponentEntryView::SurfaceCylinder { residue, .. } => residue,
    }
}

/// A component view after the periodic fold: every coordinate reduced into
/// the component's box on each axis of positive extent.
pub open spec fn fold_view(v: ComponentEntryView) -> ComponentEntryView {
    view_with_coords(
        v,
        Seq::new(view_coords(v).len(), |i: int| view_coords(v)[i].fold_spec(view_box(v))),
    )
}

impl ComponentEntry {
    /// The spec-level value of the component.
    pub open spec fn cview(self) -> ComponentEntryView {
        match self {
            ComponentEntry::VolumeCuboid(o) => ComponentEntryView::VolumeCuboid {
                name: opt_string_view(o.name),
                residue: opt_residue_view(o.residue),
                origin: o.origin,
                size: o.size,
                coords: o.coords@,
            },
            ComponentEntry::VolumeCylinder(o) => ComponentEntryView::VolumeCylinder {
                name: opt_string_view(o.name),
                residue: opt_residue_view(o.residue),
                origin: o.origin,
                radius: o.radius,
                height: o.height,
                coords: o.coords@,
            },
            ComponentEntry::SurfaceSheet(o) => ComponentEntryView::SurfaceSheet {
                name: opt_string_view(o.name),
                residue: opt_residue_view(o.residue),
                lattice: o.lattice,
                std_z: o.std_z,
                origin: o.origin,
                length: o.length,
                width: o.width,
                coords: o.coords@,
            },
            ComponentEntry::SurfaceCylinder(o) => ComponentEntryView::SurfaceCylinder {
                name: opt_string_view(o.name),
                residue: opt_residue_view(o.residue),
                origin: o.origin,
                radius: o.radius,
                height: o.height,
                coords: o.coords@,
            },
        }
    }

    /// Well-formedness: a cylinder's radius leaves its diameter within a
    /// machine word, and no radius or height is negative.
    pub open spec fn wf(self) -> bool {
        match self {
            ComponentEntry::VolumeCuboid(_) => true,
            ComponentEntry::VolumeCylinder(o) => 0 <= o.radius <= MAX_RADIUS,
            ComponentEntry::SurfaceSheet(_) => true,
            ComponentEntry::SurfaceCylinder(o) => 0 <= o.radius <= MAX_RADIUS,
        }
    }

    /// Get a reference to the coordinates of the component.
    pub fn get_coords(&self) -> (r: &Vec<Coord>)
        ensures
            r@ == view_coords(self.cview()),
    {
        match self {
            ComponentEntry::VolumeCuboid(o) => &o.coords,
            ComponentEntry::VolumeCylinder(o) => &o.coords,
            ComponentEntry::SurfaceSheet(o) => &o.coords,
            ComponentEntry::SurfaceCylinder(o) => &o.coords,
        }
    }

    /// Get a mutable reference to the coordinates of the component: the
    /// component after the borrow is the old one with the coordinate list
    /// the borrower leaves behind.
    pub fn get_coords_mut(&mut self) -> (r: &mut Vec<Coord>)
        ensures
            r@ == view_coords(old(self).cview()),
            final(self).cview() == view_with_coords(old(self).cview(), final(r)@),
    {
        match self {
            ComponentEntry::VolumeCuboid(o) => &mut o.coords,
            ComponentEntry::VolumeCylinder(o) => &mut o.coords,
            ComponentEntry::SurfaceSheet(o) => &mut o.coords,
            ComponentEntry::SurfaceCylinder(o) => &mut o.coords,
        }
    }

    /// Get a reference to the component's optional residue.
    pub fn get_residue(&self) -> (r: &Option<Residue>)
        ensures
            *r == self.get_residue_spec(),
            opt_residue_view(*r) == view_residue(self.cview()),
    {
        match self {
            ComponentEntry::VolumeCuboid(o) => &o.residue,
            ComponentEntry::VolumeCylinder(o) => &o.residue,
            ComponentEntry::SurfaceSheet(o) => &o.residue,
            ComponentEntry::SurfaceCylinder(o) => &o.residue,
        }
    }

    /// Calculate the box that the component occupies.
    pub fn box_size(&self) -> (r: Coord)
        requires
            self.wf(),
        ensures
            r == view_box(self.cview()),
    {
        match self {
            ComponentEntry::VolumeCuboid(o) => o.size,
            ComponentEntry::VolumeCylinder(o) => Coord {
                x: 2 * o.radius,
                y: 2 * o.radius,
                z: o.height,
            },
            ComponentEntry::SurfaceSheet(o) => Coord { x: o.length, y: o.width, z: 0 },
            ComponentEntry::SurfaceCylinder(o) => Coord {
                x: 2 * o.radius,
                y: 2 * o.radius,
                z: o.height,
            },
        }
    }

    /// Apply periodic boundary conditions to each coordinate to move them
    /// inside the component box: on every axis where the box has positive
    /// extent the coordinate is reduced into `[0, extent)`; an axis without
    /// positive extent is left unmodified.
    pub fn with_pbc(self) -> (r: Self)
        requires
            self.wf(),
        ensures
            r.cview() == fold_view(self.cview()),
    {
        let box_size = self.box_size();
        let mut this = self;
        let coords = this.get_coords_mut();
        let n = coords.len();
        let mut folded: Vec<Coord> = Vec::new();
        let mut i: usize = 0;
        while i < n
            invariant
                i <= n,
                n == coords@.len(),
                coords@ == view_coords(self.cview()),
                box_size == view_box(self.cview()),
                folded@.len() == i,
                forall|j: int|
                    0 <= j < i ==> #[trigger] folded@[j] == view_coords(self.cview())[
                        j
                    ].fold_spec(box_size),
            decreases n - i,
        {
            folded.push(coords[i].with_pbc(box_size));
            i += 1;
        }
        *coords = folded;
        proof {
            assert(final(coords)@ =~= Seq::new(
                view_coords(self.cview()).len(),
                |j: int| view_coords(self.cview())[j].fold_spec(view_box(self.cview())),
            ));
        }
        this
    }

    /// Translate the component by a coordinate vector: the origin moves, the
    /// stored coordinates stay relative to it.
    pub fn translate(self, coord: Coord) -> (r: Self)
        requires
            self.origin_spec().add_in_bounds(coord),
        ensures
            r.cview() == view_with_origin(self.cview(), self.origin_spec().add_spec(coord)),
    {
        let mut this = self;
        this.translate_in_place(coord);
        this
    }

    /// The component's origin.
    pub open spec fn origin_spec(self) -> Coord {
        match self {
            ComponentEntry::VolumeCuboid(o) => o.origin,
            ComponentEntry::VolumeCylinder(o) => o.origin,
            ComponentEntry::SurfaceSheet(o) => o.origin,
            ComponentEntry::SurfaceCylinder(o) => o.origin,
        }
    }

    /// Translate the component in place by a coordinate vector.
    pub fn translate_in_place(&mut self, coord: Coord)
        requires
            old(self).origin_spec().add_in_bounds(coord),
        ensures
            final(self).cview() == view_with_origin(
                old(self).cview(),
                old(self).origin_spec().add_spec(coord),
            ),
    {
        match self {
            ComponentEntry::VolumeCuboid(o) => {
                o.origin = o.origin.add(&coord);
            },
            ComponentEntry::VolumeCylinder(o) => {
                o.origin = o.origin.add(&coord);
            },
            ComponentEntry::SurfaceSheet(o) => {
                o.origin = o.origin.add(&coord);
            },
            ComponentEntry::SurfaceCylinder(o) => {
                o.origin = o.origin.add(&coord);
            },
        }
    }

    /// Report the number of atoms the component expands to: one atom per
    /// residue template atom and coordinate, and none without a residue.
    pub fn num_atoms(&self) -> (r: u64)
        requires
            match view_residue(self.cview()) {
                Option::None => true,
                Option::Some(res) => res.1.len() * view_coords(self.cview()).len()
                    <= u64::MAX,
            },
        ensures
            r == match view_residue(self.cview()) {
                Option::None => 0int,
                Option::Some(res) => (res.1.len() * view_coords(self.cview()).len()) as int,
            },
    {
        let residue = self.get_residue();
        match residue {
            Option::None => 0,
            Option::Some(res) => {
                let coords = self.get_coords();
                proof {
                    assert(res.sv().1.len() == res.atoms@.len());
                }
                (res.atoms.len() as u64) * (coords.len() as u64)
            },
        }
    }

    /// Produce the ordered atom list of the component: every stored
    /// coordinate expanded against the residue template in template order,
    /// numbered as the substrate generation numbers them. A component
    /// without a residue yields no atoms.
    pub fn atom_list(&self) -> (atoms: Vec<Atom>)
        requires
            match view_residue(self.cview()) {
                Option::None => true,
                Option::Some(res) => res.1.len() * view_coords(self.cview()).len()
                    <= u64::MAX,
            },
            match view_residue(self.cview()) {
                Option::None => true,
                Option::Some(res) => forall|i: int, j: int|
                    0 <= i < view_coords(self.cview()).len() && 0 <= j < res.1.len()
                        ==> #[trigger] view_coords(self.cview())[i].add_in_bounds(res.1[j].1),
            },
        ensures
            match view_residue(self.cview()) {
                Option::None => atoms@.len() == 0,
                Option::Some(res) => atoms@.len() == view_coords(self.cview()).len()
                    * res.1.len(),
            },
            match self.get_residue_spec() {
                Option::None => atoms@.len() == 0,
                Option::Some(res) => forall|k: int|
                    0 <= k < atoms@.len() ==> #[trigger] atoms@[k] == substrate_atom(
                        res,
                        view_coords(self.cview()),
                        k,
                    ),
            },
    {
        let residue = self.get_residue();
        match residue {
            Option::None => Vec::new(),
            Option::Some(res) => {
                proof {
                    assert(res.sv().1.len() == res.atoms@.len());
                    assert forall|i: int, j: int|
                        0 <= i < view_coords(self.cview()).len() && 0 <= j
                            < res.atoms@.len() implies #[trigger] view_coords(self.cview())[
                        i
                    ].add_in_bounds(res.atoms@[j].position) by {
                        assert(res.sv().1[j].1 == res.atoms@[j].position);
                    }
                }
                crate::substrates::gen_atom_list(self.get_coords(), res)
            },
        }
    }

    /// The component's residue, as a spec value.
    pub open spec fn get_residue_spec(self) -> Option<Residue> {
        match self {
            ComponentEntry::VolumeCuboid(o) => o.residue,
            ComponentEntry::VolumeCylinder(o) => o.residue,
            ComponentEntry::SurfaceSheet(o) => o.residue,
            ComponentEntry::SurfaceCylinder(o) => o.residue,
        }
    }
}

/// Law: the periodic fold is idempotent. Folding a component that was
/// already folded into its box changes nothing: every coordinate already
/// lies in `[0, extent)` on each axis of positive extent, and axes without
/// positive extent are never modified.
pub proof fn lemma_fold_view_idempotent(v: ComponentEntryView)
    ensures
        fold_view(fold_view(v)) == fold_view(v),
{
    let f1 = fold_view(v);
    assert(view_box(f1) == view_box(v));
    let s1 = view_coords(f1);
    let s2 = Seq::new(s1.len(), |i: int| s1[i].fold_spec(view_box(f1)));
    assert forall|i: int| 0 <= i < s1.len() implies s2[i] == s1[i] by {
        crate::lattice::lemma_fold_coord_idempotent(view_coords(v)[i], view_box(v));
    }
    assert(s2 =~= s1);
    assert(view_with_coords(view_with_coords(v, s1), s1) == view_with_coords(v, s1));
}

/// The error of a failed catalog operation.
#[derive(Clone, Copy, Debug, PartialEq, Eq, Structural)]
pub enum DataBaseError {
    BadPath,
}

/// The error of a catalog document that does not parse.
#[derive(Clone, Copy, Debug, PartialEq, Eq, Structural)]
pub enum DocumentError {
    Malformed,
}

/// The fixed catalog file suffix, without its leading dot.
pub open spec fn catalog_suffix() -> Seq<char> {
    seq!['.', 'j', 's', 'o', 'n']
}

/// The index of the last path separator of `p`, or a negative value.
pub open spec fn last_slash(p: Seq<char>) -> int
    decreases p.len(),
{
    if p.len() == 0 {
        -1
    } else if p.last() == '/' {
        p.len() - 1
    } else {
        last_slash(p.drop_last())
    }
}

/// The index of the last dot of `p`, or a negative value.
pub open spec fn last_dot(p: Seq<char>) -> int
    decreases p.len(),
{
    if p.len() == 0 {
        -1
    } else if p.last() == '.' {
        p.len() - 1
    } else {
        last_dot(p.drop_last())
    }
}

/// The final path component of `p`: everything after the last separator.
pub open spec fn file_part(p: Seq<char>) -> Seq<char> {
    p.skip(last_slash(p) + 1)
}

/// Whether `p` has a usable, non-empty file stem: its final component is
/// non-empty and is not one of the relative-directory names.
pub open spec fn path_has_stem(p: Seq<char>) -> bool {
    &&& file_part(p).len() > 0
    &&& file_part(p) != seq!['.']
    &&& file_part(p) != seq!['.', '.']
}

/// `p` with its extension normalized to the catalog suffix: an extension of
/// the final component is cut (a leading dot of the component is part of the
/// stem, not an extension), and the suffix is appended.
pub open spec fn normalized_path(p: Seq<char>) -> Seq<char> {
    let cut = if last_dot(p) > last_slash(p) + 1 {
        last_dot(p)
    } else {
        p.len() as int
    };
    p.take(cut) + catalog_suffix()
}

/// A collection of residue and component definitions which can be written to
/// and read back from a catalog document.
#[derive(Clone, Debug, PartialEq)]
pub struct DataBase {
    /// A path to the catalog's location on the hard drive. It is never part
    /// of the written document.
    pub path: Option<String>,
    /// Definitions of `Residue` objects.
    pub residue_defs: Vec<Residue>,
    /// Component definitions.
    pub component_defs: Vec<ComponentEntry>,
}

impl DataBase {
    /// The spec-level values of the residue definitions.
    pub open spec fn residues_sv(self) -> Seq<(Seq<char>, Seq<(Seq<char>, Coord)>)> {
        self.residue_defs@.map_values(|r: Residue| r.sv())
    }

    /// The spec-level values of the component definitions.
    pub open spec fn components_sv(self) -> Seq<ComponentEntryView> {
        self.component_defs@.map_values(|e: ComponentEntry| e.cview())
    }

    /// Whether the definition lists fit the document encoding.
    pub open spec fn encodable(self) -> bool {
        crate::codec::db_lists_ok(self.residues_sv(), self.components_sv())
    }

    /// Construct an empty `DataBase`.
    pub fn new() -> (db: DataBase)
        ensures
            db.path is None,
            db.residue_defs@ == Seq::<Residue>::empty(),
            db.component_defs@ == Seq::<ComponentEntry>::empty(),
    {
        DataBase { path: None, residue_defs: Vec::new(), component_defs: Vec::new() }
    }

    /// Get the database path enclosed in single quotes if it exists,
    /// otherwise the unenclosed word "None".
    pub fn get_path_pretty(&self) -> (r: String)
        ensures
            self.path is None ==> r@ == "None"@,
            self.path matches Option::Some(p) ==> r@ == "'"@ + p@ + "'"@,
    {
        match &self.path {
            Option::None => String::from_str("None"),
            Option::Some(p) => {
                let quoted = String::from_str("'").concat(p.as_str()).concat("'");
                quoted
            },
        }
    }

    /// Set a new path for the `DataBase`. The input must have a usable file
    /// stem; its extension is normalized to the catalog suffix. A path
    /// without a stem is refused and leaves any existing path untouched.
    pub fn set_path(&mut self, new_path: &str) -> (r: Result<(), DataBaseError>)
        ensures
            r is Ok <==> path_has_stem(new_path@),
            r is Ok ==> (final(self).path matches Option::Some(p) && p@ == normalized_path(
                new_path@,
            )),
            r is Err ==> final(self).path == old(self).path && (r matches Result::Err(e) && e
                == DataBaseError::BadPath),
            final(self).residue_defs == old(self).residue_defs,
            final(self).component_defs == old(self).component_defs,
    {
        let chars = crate::codec::str_to_chars(new_path);
        let n = chars.len();
        let mut slash_end: usize = 0;
        let mut dot_end: usize = 0;
        let mut i: usize = 0;
        proof {
            assert(chars@.take(0) =~= Seq::<char>::empty());
        }
        while i < n
            invariant
                i <= n,
                n == chars@.len(),
                chars@ == new_path@,
                slash_end == last_slash(chars@.take(i as int)) + 1,
                dot_end == last_dot(chars@.take(i as int)) + 1,
                slash_end <= i,
                dot_end <= i,
            decreases n - i,
        {
            let c = chars[i];
            proof {
                assert(chars@.take(i as int + 1).drop_last() =~= chars@.take(i as int));
                assert(chars@.take(i as int + 1).last() == c);
            }
            if c == '/' {
                slash_end = i + 1;
            }
            if c == '.' {
                dot_end = i + 1;
            }
            i += 1;
        }
        proof {
            assert(chars@.take(n as int) =~= chars@);
        }
        if slash_end == n {
            return Err(DataBaseError::BadPath);
        }
        let part_len = n - slash_end;
        if part_len == 1 && chars[slash_end] == '.' {
            proof {
                assert(file_part(chars@) =~= seq!['.']);
            }
            return Err(DataBaseError::BadPath);
        }
        if part_len == 2 && chars[slash_end] == '.' && chars[slash_end + 1] == '.' {
            proof {
                assert(file_part(chars@) =~= seq!['.', '.']);
            }
            return Err(DataBaseError::BadPath);
        }
        proof {
            assert(path_has_stem(chars@)) by {
                assert(file_part(chars@).len() == n - slash_end);
                if file_part(chars@) == seq!['.'] {
                    assert(file_part(chars@)[0] == chars@[slash_end as int]);
                }
                if file_part(chars@) == seq!['.', '.'] {
                    assert(file_part(chars@)[0] == chars@[slash_end as int]);
                    assert(file_part(chars@)[1] == chars@[slash_end as int + 1]);
                }
            }
        }
        let cut: usize = if dot_end > slash_end + 1 {
            dot_end - 1
        } else {
            n
        };
        let mut path = String::new();
        let mut i: usize = 0;
        while i < cut
            invariant
                i <= cut,
                cut <= n,
                n == chars@.len(),
                path@ =~= chars@.take(i as int),
            decreases cut - i,
        {
            path.push(chars[i]);
            proof {
                assert(path@ =~= chars@.take(i as int + 1));
            }
            i += 1;
        }
        path.push('.');
        path.push('j');
        path.push('s');
        path.push('o');
        path.push('n');
        proof {
            assert(path@ =~= normalized_path(chars@));
        }
        self.path = Some(path);
        Ok(())
    }

    /// Write the in-memory residue and component definitions as a catalog
    /// document. The path is never part of the document.
    pub fn to_document(&self) -> (doc: String)
        requires
            self.encodable(),
        ensures
            doc@ == crate::codec::enc_document(self.residues_sv(), self.components_sv()),
    {
        crate::codec::encode_document(&self.residue_defs, &self.component_defs)
    }

    /// Read a `DataBase` from a catalog document. The definition lists
    /// default to empty where the document ends early; the path of the
    /// result is unset. Fails on a malformed document.
    pub fn from_document(doc: &str) -> (r: Result<DataBase, DocumentError>)
        ensures
            match crate::codec::sp_document(doc@) {
                Option::None => r matches Result::Err(e) && e == DocumentError::Malformed,
                Option::Some(p) => r matches Result::Ok(db) && db.residues_sv() == p.0
                    && db.components_sv() == p.1 && db.path is None,
            },
    {
        match crate::codec::parse_document(doc) {
            Option::None => Err(DocumentError::Malformed),
            Option::Some((residue_defs, component_defs)) => Ok(
                DataBase { path: None, residue_defs, component_defs },
            ),
        }
    }
}

/// An exact duplicate of an optional name.
fn clone_string_opt(o: &Option<String>) -> (r: Option<String>)
    ensures
        r == *o,
{
    match o {
        Option::None => None,
        Option::Some(s) => Some(s.clone()),
    }
}

/// A duplicate of a residue, equal in value.
fn clone_residue(r: &Residue) -> (c: Residue)
    ensures
        c.sv() == r.sv(),
{
    let mut atoms: Vec<ResidueAtom> = Vec::new();
    let n = r.atoms.len();
    let mut i: usize = 0;
    while i < n
        invariant
            i <= n,
            n == r.atoms@.len(),
            atoms@.len() == i,
            forall|k: int| 0 <= k < i ==> (#[trigger] atoms@[k]).sv() == r.atoms@[k].sv(),
    decreases n - i,
    {
        atoms.push(ResidueAtom { code: r.atoms[i].code.clone(), position: r.atoms[i].position });
        i += 1;
    }
    let c = Residue { code: r.code.clone(), atoms };
    proof {
        assert(c.sv().1 =~= r.sv().1);
    }
    c
}

/// A duplicate of an optional residue, equal in value.
fn clone_residue_opt(o: &Option<Residue>) -> (r: Option<Residue>)
    ensures
        opt_residue_view(r) == opt_residue_view(*o),
{
    match o {
        Option::None => None,
        Option::Some(res) => Some(clone_residue(res)),
    }
}

/// An exact duplicate of a coordinate list.
fn clone_coords(v: &Vec<Coord>) -> (r: Vec<Coord>)
    ensures
        r@ == v@,
{
    let mut r: Vec<Coord> = Vec::new();
    let n = v.len();
    let mut i: usize = 0;
    while i < n
        invariant
            i <= n,
            n == v@.len(),
            r@ =~= v@.take(i as int),
        decreases n - i,
    {
        r.push(v[i]);
        proof {
            assert(r@ =~= v@.take(i as int + 1));
        }
        i += 1;
    }
    proof {
        assert(r@ =~= v@);
    }
    r
}

/// The first of two values when it is present, otherwise the second.
pub open spec fn pick<T>(over: Option<T>, base: T) -> T {
    match over {
        Option::None => base,
        Option::Some(v) => v,
    }
}

/// A component view with the supplied override fields merged in. Each kind
/// takes the overrides that apply to it: every kind takes a position; a
/// sheet takes a planar size; a cylinder takes a radius and a height.
pub open spec fn override_view(
    v: ComponentEntryView,
    position: Option<Coord>,
    size: Option<(i64, i64)>,
    radius: Option<i64>,
    height: Option<i64>,
) -> ComponentEntryView {
    match v {
        ComponentEntryView::VolumeCuboid { name, residue, origin, size: sz, coords } =>
            ComponentEntryView::VolumeCuboid {
                name,
                residue,
                origin: pick(position, origin),
                size: sz,
                coords,
            },
        ComponentEntryView::VolumeCylinder { name, residue, origin, radius: r0, height: h0, coords } =>
            ComponentEntryView::VolumeCylinder {
                name,
                residue,
                origin: pick(position, origin),
                radius: pick(radius, r0),
                height: pick(height, h0),
                coords,
            },
        ComponentEntryView::SurfaceSheet {
            name,
            residue,
            lattice,
            std_z,
            origin,
            length,
            width,
            coords,
        } => ComponentEntryView::SurfaceSheet {
            name,
            residue,
            lattice,
            std_z,
            origin: pick(position, origin),
            length: match size {
                Option::None => length,
                Option::Some(s) => s.0,
            },
            width: match size {
                Option::None => width,
                Option::Some(s) => s.1,
            },
            coords,
        },
        ComponentEntryView::SurfaceCylinder { name, residue, origin, radius: r0, height: h0, coords } =>
            ComponentEntryView::SurfaceCylinder {
                name,
                residue,
                origin: pick(position, origin),
                radius: pick(radius, r0),
                height: pick(height, h0),
                coords,
            },
    }
}

/// Create a new component definition from a catalog entry: the entry is
/// duplicated and the supplied override fields are merged into the copy.
/// Overrides that do not apply to the entry's kind are ignored.
pub fn create_definition(
    entry: &ComponentEntry,
    position: Option<Coord>,
    size: Option<(i64, i64)>,
    radius: Option<i64>,
    height: Option<i64>,
) -> (r: ComponentEntry)
    ensures
        r.cview() == override_view(entry.cview(), position, size, radius, height),
{
    match entry {
        ComponentEntry::VolumeCuboid(o) => ComponentEntry::VolumeCuboid(
            volume::Cuboid {
                name: clone_string_opt(&o.name),
                residue: clone_residue_opt(&o.residue),
                origin: match position {
                    Option::None => o.origin,
                    Option::Some(p) => p,
                },
                size: o.size,
                coords: clone_coords(&o.coords),
            },
        ),
        ComponentEntry::VolumeCylinder(o) => ComponentEntry::VolumeCylinder(
            volume::Cylinder {
                name: clone_string_opt(&o.name),
                residue: clone_residue_opt(&o.residue),
                origin: match position {
                    Option::None => o.origin,
                    Option::Some(p) => p,
                },
                radius: match radius {
                    Option::None => o.radius,
                    Option::Some(v) => v,
                },
                height: match height {
                    Option::None => o.height,
                    Option::Some(v) => v,
                },
                coords: clone_coords(&o.coords),
            },
        ),
        ComponentEntry::SurfaceSheet(o) => ComponentEntry::SurfaceSheet(
            surface::Sheet {
                name: clone_string_opt(&o.name),
                residue: clone_residue_opt(&o.residue),
                lattice: o.lattice,
                std_z: o.std_z,
                origin: match position {
                    Option::None => o.origin,
                    Option::Some(p) => p,
                },
                length: match size {
                    Option::None => o.length,
                    Option::Some(s) => s.0,
                },
                width: match size {
                    Option::None => o.width,
                    Option::Some(s) => s.1,
                },
                coords: clone_coords(&o.coords),
            },
        ),
        ComponentEntry::SurfaceCylinder(o) => ComponentEntry::SurfaceCylinder(
            surface::Cylinder {
                name: clone_string_opt(&o.name),
                residue: clone_residue_opt(&o.residue),
                origin: match position {
                    Option::None => o.origin,
                    Option::Some(p) => p,
                },
                radius: match radius {
                    Option::None => o.radius,
                    Option::Some(v) => v,
                },
                height: match height {
                    Option::None => o.height,
                    Option::Some(v) => v,
                },
                coords: clone_coords(&o.coords),
            },
        ),
    }
}

/// Law: writing a catalog as a document and reading it back reproduces the
/// residue and component definitions by value, whatever path either catalog
/// carries: the path is no part of the document.
pub proof fn lemma_database_roundtrip(db: DataBase)
    requires
        db.encodable(),
    ensures
        crate::codec::sp_document(
            crate::codec::enc_document(db.residues_sv(), db.components_sv()),
        ) == Option::Some((db.residues_sv(), db.components_sv())),
{
    crate::codec::lemma_document_roundtrip(db.residues_sv(), db.components_sv());
}

impl From<volume::Cuboid> for ComponentEntry {
    /// Wrap a cuboid volume.
    fn from(object: volume::Cuboid) -> (r: ComponentEntry) {
        ComponentEntry::VolumeCuboid(object)
    }
}

impl vstd::std_specs::convert::FromSpecImpl<volume::Cuboid> for ComponentEntry {
    open spec fn obeys_from_spec() -> bool {
        true
    }

    open spec fn from_spec(t: volume::Cuboid) -> ComponentEntry {
        ComponentEntry::VolumeCuboid(t)
    }
}

impl From<volume::Cylinder> for ComponentEntry {
    /// Wrap a cylindrical volume.
    fn from(object: volume::Cylinder) -> (r: ComponentEntry) {
        ComponentEntry::VolumeCylinder(object)
    }
}

impl vstd::std_specs::convert::FromSpecImpl<volume::Cylinder> for ComponentEntry {
    open spec fn obeys_from_spec() -> bool {
        true
    }

    open spec fn from_spec(t: volume::Cylinder) -> ComponentEntry {
        ComponentEntry::VolumeCylinder(t)
    }
}

impl From<surface::Sheet> for ComponentEntry {
    /// Wrap a sheet surface.
    fn from(object: surface::Sheet) -> (r: ComponentEntry) {
        ComponentEntry::SurfaceSheet(object)
    }
}

impl vstd::std_specs::convert::FromSpecImpl<surface::Sheet> for ComponentEntry {
    open spec fn obeys_from_spec() -> bool {
        true
    }

    open spec fn from_spec(t: surface::Sheet) -> ComponentEntry {
        ComponentEntry::SurfaceSheet(t)
    }
}

impl From<surface::Cylinder> for ComponentEntry {
    /// Wrap a cylindrical surface.
    fn from(object: surface::Cylinder) -> (r: ComponentEntry) {
        ComponentEntry::SurfaceCylinder(object)
    }
}

impl vstd::std_specs::convert::FromSpecImpl<surface::Cylinder> for ComponentEntry {
    open spec fn obeys_from_spec() -> bool {
        true
    }

    open spec fn from_spec(t: surface::Cylinder) -> ComponentEntry {
        ComponentEntry::SurfaceCylinder(t)
    }
}

} // verus!
