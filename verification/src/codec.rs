//! The catalog document format: a plain-text encoding of residue and
//! component definitions with a proved encode/parse round trip.
//!
//! Every integer is written as a sign character followed by nineteen decimal
//! digits; every string is written as its character count followed by its
//! characters. Lists carry their length ahead of their elements, so the
//! format needs no escaping and parses deterministically.

use crate::database::{ComponentEntry, ComponentEntryView};
use crate::residue::{Residue, ResidueAtom};
use crate::lattice::{Angle, Coord};
use crate::surface;
use crate::volume;
use vstd::prelude::*;

verus! {

/// Relies on `String::push`: appending one character to a string appends
/// exactly that character to its contents.
pub assume_specification[ String::push ](s: &mut String, ch: char)
    ensures
        final(s)@ == old(s)@.push(ch),
;

/// Number of digits of an encoded integer.
pub const INT_DIGITS: usize = 19;

/// Total width of an encoded integer: a sign character and its digits.
pub const INT_WIDTH: usize = 20;

/// The decimal digit character for `d`.
pub open spec fn digit_char(d: int) -> char {
    if d == 0 {
        '0'
    } else if d == 1 {
        '1'
    } else if d == 2 {
        '2'
    } else if d == 3 {
        '3'
    } else if d == 4 {
        '4'
    } else if d == 5 {
        '5'
    } else if d == 6 {
        '6'
    } else if d == 7 {
        '7'
    } else if d == 8 {
        '8'
    } else {
        '9'
    }
}

/// The value of a decimal digit character, or a negative value for any
/// other character.
pub open spec fn digit_val(c: char) -> int {
    if c == '0' {
        0
    } else if c == '1' {
        1
    } else if c == '2' {
        2
    } else if c == '3' {
        3
    } else if c == '4' {
        4
    } else if c == '5' {
        5
    } else if c == '6' {
        6
    } else if c == '7' {
        7
    } else if c == '8' {
        8
    } else if c == '9' {
        9
    } else {
        -1
    }
}

/// The fixed-width decimal digits of `n`, most significant first, with
/// leading zeroes.
pub open spec fn fixed_digits(n: int, width: nat) -> Seq<char>
    decreases width,
{
    if width == 0 {
        Seq::empty()
    } else {
        fixed_digits(n / 10, (width - 1) as nat).push(digit_char(n % 10))
    }
}

/// The value of a sequence of decimal digit characters.
pub open spec fn digits_val(t: Seq<char>) -> int
    decreases t.len(),
{
    if t.len() == 0 {
        0
    } else {
        digits_val(t.drop_last()) * 10 + digit_val(t.last())
    }
}

/// Whether every character of `t` is a decimal digit.
pub open spec fn all_digits(t: Seq<char>) -> bool {
    forall|i: int| 0 <= i < t.len() ==> digit_val(#[trigger] t[i]) >= 0
}

/// The ten to the `w`.
pub open spec fn pow10(w: nat) -> int
    decreases w,
{
    if w == 0 {
        1
    } else {
        10 * pow10((w - 1) as nat)
    }
}

/// The encoding of an integer: its sign and nineteen digits.
pub open spec fn enc_int(v: int) -> Seq<char> {
    (if v >= 0 {
        seq!['+']
    } else {
        seq!['-']
    }) + fixed_digits(if v >= 0 {
        v
    } else {
        -v
    }, INT_DIGITS as nat)
}

/// Whether `t` is a well-shaped encoded integer whose value fits a signed
/// machine word.
pub open spec fn is_enc_int(t: Seq<char>) -> bool {
    &&& t.len() == INT_WIDTH
    &&& (t[0] == '+' || t[0] == '-')
    &&& all_digits(t.skip(1))
    &&& (t[0] == '+' ==> digits_val(t.skip(1)) <= i64::MAX)
    &&& (t[0] == '-' ==> digits_val(t.skip(1)) <= -(i64::MIN as int))
}

/// The value of a well-shaped encoded integer.
pub open spec fn enc_int_val(t: Seq<char>) -> int {
    if t[0] == '-' {
        -digits_val(t.skip(1))
    } else {
        digits_val(t.skip(1))
    }
}

/// The encoding of a string: its character count, then its characters.
pub open spec fn enc_str(t: Seq<char>) -> Seq<char> {
    enc_int(t.len() as int) + t
}

/// Digits of a bounded value are digits, are `width` many, and carry the
/// value itself.
pub proof fn lemma_fixed_digits(n: int, width: nat)
    requires
        0 <= n < pow10(width),
    ensures
        fixed_digits(n, width).len() == width,
        all_digits(fixed_digits(n, width)),
        digits_val(fixed_digits(n, width)) == n,
    decreases width,
{
    if width == 0 {
    } else {
        let q = n / 10;
        let m = n % 10;
        vstd::arithmetic::div_mod::lemma_fundamental_div_mod(n, 10);
        assert(0 <= m < 10);
        assert(q < pow10((width - 1) as nat)) by (nonlinear_arith)
            requires
                n == 10 * q + m,
                0 <= m < 10,
                n < pow10(width),
                pow10(width) == 10 * pow10((width - 1) as nat),
        ;
        assert(q >= 0) by (nonlinear_arith)
            requires
                n == 10 * q + m,
                0 <= m < 10,
                n >= 0,
        ;
        lemma_fixed_digits(q, (width - 1) as nat);
        let prev = fixed_digits(q, (width - 1) as nat);
        let cur = fixed_digits(n, width);
        assert(cur == prev.push(digit_char(m)));
        assert(cur.drop_last() =~= prev);
        assert(digit_val(digit_char(m)) == m);
        assert(digits_val(cur) == q * 10 + m);
        assert forall|i: int| 0 <= i < cur.len() implies digit_val(cur[i]) >= 0 by {
            if i < prev.len() {
                assert(cur[i] == prev[i]);
            } else {
                assert(cur[i] == digit_char(m));
            }
        }
    }
}

/// `pow10` of the encoded digit count exceeds every signed machine word.
pub proof fn lemma_pow10_19()
    ensures
        pow10(19) == 10_000_000_000_000_000_000,
{
    reveal_with_fuel(pow10, 21);
}

/// The encoding of a machine integer is well shaped and carries the value.
pub proof fn lemma_enc_int(v: int)
    requires
        i64::MIN <= v <= i64::MAX,
    ensures
        enc_int(v).len() == INT_WIDTH,
        is_enc_int(enc_int(v)),
        enc_int_val(enc_int(v)) == v,
{
    lemma_pow10_19();
    let a = if v >= 0 {
        v
    } else {
        -v
    };
    lemma_fixed_digits(a, INT_DIGITS as nat);
    let t = enc_int(v);
    assert(t.skip(1) =~= fixed_digits(a, INT_DIGITS as nat));
}

/// Parse of an encoded integer at `pos`: the value and the next position,
/// or nothing if no well-shaped encoded integer starts there.
pub open spec fn sp_int(s: Seq<char>, pos: int) -> Option<(int, int)> {
    if pos + INT_WIDTH <= s.len() && is_enc_int(s.subrange(pos, pos + INT_WIDTH)) {
        Option::Some((enc_int_val(s.subrange(pos, pos + INT_WIDTH)), pos + INT_WIDTH))
    } else {
        Option::None
    }
}

/// Parse of an encoded string at `pos`: its characters and the next
/// position.
pub open spec fn sp_str(s: Seq<char>, pos: int) -> Option<(Seq<char>, int)> {
    match sp_int(s, pos) {
        Option::None => Option::None,
        Option::Some((l, p)) => if l >= 0 && p + l <= s.len() {
            Option::Some((s.subrange(p, p + l), p + l))
        } else {
            Option::None
        },
    }
}

/// A subrange that holds a concatenation splits into subranges that hold
/// the parts.
pub proof fn lemma_subrange_concat(s: Seq<char>, pos: int, a: Seq<char>, b: Seq<char>)
    requires
        0 <= pos,
        pos + a.len() + b.len() <= s.len(),
        s.subrange(pos, pos + a.len() + b.len()) == a + b,
    ensures
        s.subrange(pos, pos + a.len()) == a,
        s.subrange(pos + a.len(), pos + a.len() + b.len()) == b,
{
    let whole = s.subrange(pos, pos + a.len() + b.len());
    assert forall|i: int| 0 <= i < a.len() implies s.subrange(pos, pos + a.len())[i] == a[i] by {
        assert(whole[i] == (a + b)[i]);
    }
    assert(s.subrange(pos, pos + a.len()) =~= a);
    assert forall|i: int| 0 <= i < b.len() implies s.subrange(
        pos + a.len(),
        pos + a.len() + b.len(),
    )[i] == b[i] by {
        assert(whole[a.len() + i] == (a + b)[a.len() + i]);
    }
    assert(s.subrange(pos + a.len(), pos + a.len() + b.len()) =~= b);
}

/// Where an encoded integer stands, its parse succeeds with the value.
pub proof fn lemma_sp_int_enc(s: Seq<char>, pos: int, v: int)
    requires
        i64::MIN <= v <= i64::MAX,
        0 <= pos,
        pos + INT_WIDTH <= s.len(),
        s.subrange(pos, pos + INT_WIDTH) == enc_int(v),
    ensures
        sp_int(s, pos) == Option::Some((v, pos + INT_WIDTH)),
{
    lemma_enc_int(v);
}

/// Where an encoded string stands, its parse succeeds with its characters.
pub proof fn lemma_sp_str_enc(s: Seq<char>, pos: int, t: Seq<char>)
    requires
        t.len() <= i64::MAX,
        0 <= pos,
        pos + enc_str(t).len() <= s.len(),
        s.subrange(pos, pos + enc_str(t).len()) == enc_str(t),
    ensures
        sp_str(s, pos) == Option::Some((t, pos + enc_str(t).len())),
{
    lemma_enc_int(t.len() as int);
    lemma_subrange_concat(s, pos, enc_int(t.len() as int), t);
    lemma_sp_int_enc(s, pos, t.len() as int);
}

/// The encoding of a coordinate: its three components.
pub open spec fn enc_coord(c: Coord) -> Seq<char> {
    enc_int(c.x as int) + enc_int(c.y as int) + enc_int(c.z as int)
}

/// Parse of an encoded coordinate.
pub open spec fn sp_coord(s: Seq<char>, pos: int) -> Option<(Coord, int)> {
    match sp_int(s, pos) {
        Option::None => Option::None,
        Option::Some((x, p1)) => match sp_int(s, p1) {
            Option::None => Option::None,
            Option::Some((y, p2)) => match sp_int(s, p2) {
                Option::None => Option::None,
                Option::Some((z, p3)) => Option::Some(
                    (Coord { x: x as i64, y: y as i64, z: z as i64 }, p3),
                ),
            },
        },
    }
}

/// The encoding of an optional string: a present flag, then the string.
pub open spec fn enc_opt_str(o: Option<Seq<char>>) -> Seq<char> {
    match o {
        Option::None => enc_int(0),
        Option::Some(t) => enc_int(1) + enc_str(t),
    }
}

/// Parse of an encoded optional string.
pub open spec fn sp_opt_str(s: Seq<char>, pos: int) -> Option<(Option<Seq<char>>, int)> {
    match sp_int(s, pos) {
        Option::None => Option::None,
        Option::Some((flag, p)) => if flag == 0 {
            Option::Some((Option::None, p))
        } else if flag == 1 {
            match sp_str(s, p) {
                Option::None => Option::None,
                Option::Some((t, p2)) => Option::Some((Option::Some(t), p2)),
            }
        } else {
            Option::None
        },
    }
}

/// The encoding of an optional integer: a present flag, then the value.
pub open spec fn enc_opt_int(o: Option<i64>) -> Seq<char> {
    match o {
        Option::None => enc_int(0),
        Option::Some(v) => enc_int(1) + enc_int(v as int),
    }
}

/// Parse of an encoded optional integer.
pub open spec fn sp_opt_int(s: Seq<char>, pos: int) -> Option<(Option<i64>, int)> {
    match sp_int(s, pos) {
        Option::None => Option::None,
        Option::Some((flag, p)) => if flag == 0 {
            Option::Some((Option::None, p))
        } else if flag == 1 {
            match sp_int(s, p) {
                Option::None => Option::None,
                Option::Some((v, p2)) => Option::Some((Option::Some(v as i64), p2)),
            }
        } else {
            Option::None
        },
    }
}

/// The encoding of one residue atom: its code and its position.
pub open spec fn enc_residue_atom(a: (Seq<char>, Coord)) -> Seq<char> {
    enc_str(a.0) + enc_coord(a.1)
}

/// Parse of one encoded residue atom.
pub open spec fn sp_residue_atom(s: Seq<char>, pos: int) -> Option<((Seq<char>, Coord), int)> {
    match sp_str(s, pos) {
        Option::None => Option::None,
        Option::Some((code, p)) => match sp_coord(s, p) {
            Option::None => Option::None,
            Option::Some((c, p2)) => Option::Some(((code, c), p2)),
        },
    }
}

/// The encoding of a residue atom list, first to last.
pub open spec fn enc_residue_atoms(l: Seq<(Seq<char>, Coord)>) -> Seq<char>
    decreases l.len(),
{
    if l.len() == 0 {
        Seq::empty()
    } else {
        enc_residue_atom(l.first()) + enc_residue_atoms(l.drop_first())
    }
}

/// Parse of `count` encoded residue atoms.
pub open spec fn sp_residue_atoms(s: Seq<char>, pos: int, count: nat) -> Option<
    (Seq<(Seq<char>, Coord)>, int),
>
    decreases count,
{
    if count == 0 {
        Option::Some((Seq::empty(), pos))
    } else {
        match sp_residue_atom(s, pos) {
            Option::None => Option::None,
            Option::Some((a, p)) => match sp_residue_atoms(s, p, (count - 1) as nat) {
                Option::None => Option::None,
                Option::Some((rest, p2)) => Option::Some((seq![a] + rest, p2)),
            },
        }
    }
}

/// The encoding of a residue: its code, its atom count, and its atoms.
pub open spec fn enc_residue(r: (Seq<char>, Seq<(Seq<char>, Coord)>)) -> Seq<char> {
    enc_str(r.0) + enc_int(r.1.len() as int) + enc_residue_atoms(r.1)
}

/// Parse of an encoded residue.
pub open spec fn sp_residue(s: Seq<char>, pos: int) -> Option<
    ((Seq<char>, Seq<(Seq<char>, Coord)>), int),
> {
    match sp_str(s, pos) {
        Option::None => Option::None,
        Option::Some((code, p)) => match sp_int(s, p) {
            Option::None => Option::None,
            Option::Some((count, p2)) => if 0 <= count <= usize::MAX as int {
                match sp_residue_atoms(s, p2, count as nat) {
                    Option::None => Option::None,
                    Option::Some((atoms, p3)) => Option::Some(((code, atoms), p3)),
                }
            } else {
                Option::None
            },
        },
    }
}

/// The encoding of an optional residue: a present flag, then the residue.
pub open spec fn enc_opt_residue(o: Option<(Seq<char>, Seq<(Seq<char>, Coord)>)>) -> Seq<
    char,
> {
    match o {
        Option::None => enc_int(0),
        Option::Some(r) => enc_int(1) + enc_residue(r),
    }
}

/// Parse of an encoded optional residue.
pub open spec fn sp_opt_residue(s: Seq<char>, pos: int) -> Option<
    (Option<(Seq<char>, Seq<(Seq<char>, Coord)>)>, int),
> {
    match sp_int(s, pos) {
        Option::None => Option::None,
        Option::Some((flag, p)) => if flag == 0 {
            Option::Some((Option::None, p))
        } else if flag == 1 {
            match sp_residue(s, p) {
                Option::None => Option::None,
                Option::Some((r, p2)) => Option::Some((Option::Some(r), p2)),
            }
        } else {
            Option::None
        },
    }
}

/// A residue atom whose code can be encoded.
pub open spec fn atom_ok(a: (Seq<char>, Coord)) -> bool {
    a.0.len() <= i64::MAX
}

/// A residue whose strings and atom count can be encoded.
pub open spec fn residue_ok(r: (Seq<char>, Seq<(Seq<char>, Coord)>)) -> bool {
    &&& r.0.len() <= i64::MAX
    &&& r.1.len() <= i64::MAX
    &&& r.1.len() <= usize::MAX
    &&& forall|i: int| 0 <= i < r.1.len() ==> atom_ok(#[trigger] r.1[i])
}

/// Where an encoded coordinate stands, its parse succeeds with the value.
pub proof fn lemma_sp_coord_enc(s: Seq<char>, pos: int, c: Coord)
    requires
        0 <= pos,
        pos + enc_coord(c).len() <= s.len(),
        s.subrange(pos, pos + enc_coord(c).len()) == enc_coord(c),
    ensures
        sp_coord(s, pos) == Option::Some((c, pos + enc_coord(c).len())),
{
    let ex = enc_int(c.x as int);
    let ey = enc_int(c.y as int);
    let ez = enc_int(c.z as int);
    lemma_enc_int(c.x as int);
    lemma_enc_int(c.y as int);
    lemma_enc_int(c.z as int);
    assert(s.subrange(pos, pos + ex.len() + (ey + ez).len()) == ex + (ey + ez)) by {
        assert(ex + (ey + ez) =~= (ex + ey) + ez);
    }
    lemma_subrange_concat(s, pos, ex, ey + ez);
    lemma_subrange_concat(s, pos + ex.len(), ey, ez);
    lemma_sp_int_enc(s, pos, c.x as int);
    lemma_sp_int_enc(s, pos + ex.len(), c.y as int);
    lemma_sp_int_enc(s, pos + ex.len() + ey.len(), c.z as int);
}

/// Where an encoded optional string stands, its parse succeeds.
pub proof fn lemma_sp_opt_str_enc(s: Seq<char>, pos: int, o: Option<Seq<char>>)
    requires
        0 <= pos,
        o is Some ==> o->0.len() <= i64::MAX,
        pos + enc_opt_str(o).len() <= s.len(),
        s.subrange(pos, pos + enc_opt_str(o).len()) == enc_opt_str(o),
    ensures
        sp_opt_str(s, pos) == Option::Some((o, pos + enc_opt_str(o).len())),
{
    match o {
        Option::None => {
            lemma_enc_int(0);
            lemma_sp_int_enc(s, pos, 0);
        },
        Option::Some(t) => {
            lemma_enc_int(1);
            lemma_subrange_concat(s, pos, enc_int(1), enc_str(t));
            lemma_sp_int_enc(s, pos, 1);
            lemma_sp_str_enc(s, pos + INT_WIDTH, t);
        },
    }
}

/// Where an encoded optional integer stands, its parse succeeds.
pub proof fn lemma_sp_opt_int_enc(s: Seq<char>, pos: int, o: Option<i64>)
    requires
        0 <= pos,
        pos + enc_opt_int(o).len() <= s.len(),
        s.subrange(pos, pos + enc_opt_int(o).len()) == enc_opt_int(o),
    ensures
        sp_opt_int(s, pos) == Option::Some((o, pos + enc_opt_int(o).len())),
{
    lemma_enc_int(0);
    lemma_enc_int(1);
    match o {
        Option::None => {
            lemma_sp_int_enc(s, pos, 0);
        },
        Option::Some(v) => {
            lemma_enc_int(v as int);
            lemma_subrange_concat(s, pos, enc_int(1), enc_int(v as int));
            lemma_sp_int_enc(s, pos, 1);
            lemma_sp_int_enc(s, pos + INT_WIDTH, v as int);
        },
    }
}

/// Where an encoded residue atom stands, its parse succeeds.
pub proof fn lemma_sp_residue_atom_enc(s: Seq<char>, pos: int, a: (Seq<char>, Coord))
    requires
        0 <= pos,
        atom_ok(a),
        pos + enc_residue_atom(a).len() <= s.len(),
        s.subrange(pos, pos + enc_residue_atom(a).len()) == enc_residue_atom(a),
    ensures
        sp_residue_atom(s, pos) == Option::Some((a, pos + enc_residue_atom(a).len())),
{
    lemma_subrange_concat(s, pos, enc_str(a.0), enc_coord(a.1));
    lemma_sp_str_enc(s, pos, a.0);
    lemma_sp_coord_enc(s, pos + enc_str(a.0).len(), a.1);
}

/// Where an encoded residue atom list stands, its parse succeeds.
pub proof fn lemma_sp_residue_atoms_enc(s: Seq<char>, pos: int, l: Seq<(Seq<char>, Coord)>)
    requires
        0 <= pos,
        forall|i: int| 0 <= i < l.len() ==> atom_ok(#[trigger] l[i]),
        pos + enc_residue_atoms(l).len() <= s.len(),
        s.subrange(pos, pos + enc_residue_atoms(l).len()) == enc_residue_atoms(l),
    ensures
        sp_residue_atoms(s, pos, l.len()) == Option::Some(
            (l, pos + enc_residue_atoms(l).len()),
        ),
    decreases l.len(),
{
    if l.len() == 0 {
        assert(sp_residue_atoms(s, pos, 0) == Option::Some(
            (Seq::<(Seq<char>, Coord)>::empty(), pos),
        ));
        assert(l =~= Seq::<(Seq<char>, Coord)>::empty());
    } else {
        let a = l.first();
        let rest = l.drop_first();
        lemma_subrange_concat(s, pos, enc_residue_atom(a), enc_residue_atoms(rest));
        lemma_sp_residue_atom_enc(s, pos, a);
        assert(forall|i: int| 0 <= i < rest.len() ==> atom_ok(#[trigger] rest[i]));
        lemma_sp_residue_atoms_enc(s, pos + enc_residue_atom(a).len(), rest);
        assert(seq![a] + rest =~= l);
    }
}

/// Where an encoded residue stands, its parse succeeds.
pub proof fn lemma_sp_residue_enc(s: Seq<char>, pos: int, r: (Seq<char>, Seq<(Seq<char>, Coord)>))
    requires
        0 <= pos,
        residue_ok(r),
        pos + enc_residue(r).len() <= s.len(),
        s.subrange(pos, pos + enc_residue(r).len()) == enc_residue(r),
    ensures
        sp_residue(s, pos) == Option::Some((r, pos + enc_residue(r).len())),
{
    let e1 = enc_str(r.0);
    let e2 = enc_int(r.1.len() as int);
    let e3 = enc_residue_atoms(r.1);
    lemma_enc_int(r.0.len() as int);
    lemma_enc_int(r.1.len() as int);
    assert(s.subrange(pos, pos + e1.len() + (e2 + e3).len()) == e1 + (e2 + e3)) by {
        assert(e1 + (e2 + e3) =~= (e1 + e2) + e3);
    }
    lemma_subrange_concat(s, pos, e1, e2 + e3);
    lemma_subrange_concat(s, pos + e1.len(), e2, e3);
    lemma_sp_str_enc(s, pos, r.0);
    lemma_sp_int_enc(s, pos + e1.len(), r.1.len() as int);
    lemma_sp_residue_atoms_enc(s, pos + e1.len() + e2.len(), r.1);
}

/// Where an encoded optional residue stands, its parse succeeds.
pub proof fn lemma_sp_opt_residue_enc(
    s: Seq<char>,
    pos: int,
    o: Option<(Seq<char>, Seq<(Seq<char>, Coord)>)>,
)
    requires
        0 <= pos,
        o is Some ==> residue_ok(o->0),
        pos + enc_opt_residue(o).len() <= s.len(),
        s.subrange(pos, pos + enc_opt_residue(o).len()) == enc_opt_residue(o),
    ensures
        sp_opt_residue(s, pos) == Option::Some((o, pos + enc_opt_residue(o).len())),
{
    lemma_enc_int(0);
    lemma_enc_int(1);
    match o {
        Option::None => {
            lemma_sp_int_enc(s, pos, 0);
        },
        Option::Some(r) => {
            lemma_subrange_concat(s, pos, enc_int(1), enc_residue(r));
            lemma_sp_int_enc(s, pos, 1);
            lemma_sp_residue_enc(s, pos + INT_WIDTH, r);
        },
    }
}


/// The encoding of a sheet's lattice description.
pub open spec fn enc_lattice(lt: surface::LatticeType) -> Seq<char> {
    match lt {
        surface::LatticeType::Hexagonal { a } => enc_int(0) + enc_int(a as int),
        surface::LatticeType::Triclinic { a, b, gamma } => enc_int(1) + enc_int(a as int)
            + enc_int(b as int) + enc_int(gamma.sin_ppm as int) + enc_int(
            gamma.cos_ppm as int,
        ),
    }
}

/// Parse of an encoded lattice description.
pub open spec fn sp_lattice(s: Seq<char>, pos: int) -> Option<(surface::LatticeType, int)> {
    match sp_int(s, pos) {
        Option::None => Option::None,
        Option::Some((tag, p)) => if tag == 0 {
            match sp_int(s, p) {
                Option::None => Option::None,
                Option::Some((a, p2)) => Option::Some(
                    (surface::LatticeType::Hexagonal { a: a as i64 }, p2),
                ),
            }
        } else if tag == 1 {
            match sp_int(s, p) {
                Option::None => Option::None,
                Option::Some((a, p2)) => match sp_int(s, p2) {
                    Option::None => Option::None,
                    Option::Some((b, p3)) => match sp_int(s, p3) {
                        Option::None => Option::None,
                        Option::Some((sin, p4)) => match sp_int(s, p4) {
                            Option::None => Option::None,
                            Option::Some((cos, p5)) => Option::Some(
                                (
                                    surface::LatticeType::Triclinic {
                                        a: a as i64,
                                        b: b as i64,
                                        gamma: Angle {
                                            sin_ppm: sin as i64,
                                            cos_ppm: cos as i64,
                                        },
                                    },
                                    p5,
                                ),
                            ),
                        },
                    },
                },
            }
        } else {
            Option::None
        },
    }
}

/// The encoding of a coordinate list, first to last.
pub open spec fn enc_coord_list(l: Seq<Coord>) -> Seq<char>
    decreases l.len(),
{
    if l.len() == 0 {
        Seq::empty()
    } else {
        enc_coord(l.first()) + enc_coord_list(l.drop_first())
    }
}

/// The encoding of a counted coordinate list.
pub open spec fn enc_coords(l: Seq<Coord>) -> Seq<char> {
    enc_int(l.len() as int) + enc_coord_list(l)
}

/// Parse of `count` encoded coordinates.
pub open spec fn sp_coord_list(s: Seq<char>, pos: int, count: nat) -> Option<
    (Seq<Coord>, int),
>
    decreases count,
{
    if count == 0 {
        Option::Some((Seq::empty(), pos))
    } else {
        match sp_coord(s, pos) {
            Option::None => Option::None,
            Option::Some((c, p)) => match sp_coord_list(s, p, (count - 1) as nat) {
                Option::None => Option::None,
                Option::Some((rest, p2)) => Option::Some((seq![c] + rest, p2)),
            },
        }
    }
}

/// Parse of a counted coordinate list.
pub open spec fn sp_coords(s: Seq<char>, pos: int) -> Option<(Seq<Coord>, int)> {
    match sp_int(s, pos) {
        Option::None => Option::None,
        Option::Some((count, p)) => if 0 <= count <= usize::MAX as int {
            sp_coord_list(s, p, count as nat)
        } else {
            Option::None
        },
    }
}

/// The numeric tag of a component view's kind.
pub open spec fn view_tag(v: ComponentEntryView) -> int {
    match v {
        ComponentEntryView::VolumeCuboid { .. } => 0,
        ComponentEntryView::VolumeCylinder { .. } => 1,
        ComponentEntryView::SurfaceSheet { .. } => 2,
        ComponentEntryView::SurfaceCylinder { .. } => 3,
    }
}

/// The optional name of a component view.
pub open spec fn view_name(v: ComponentEntryView) -> Option<Seq<char>> {
    match v {
        ComponentEntryView::VolumeCuboid { name, .. } => name,
        ComponentEntryView::VolumeCylinder { name, .. } => name,
        ComponentEntryView::SurfaceSheet { name, .. } => name,
        ComponentEntryView::SurfaceCylinder { name, .. } => name,
    }
}

/// The encoding of a component view's kind-specific fields.
pub open spec fn enc_body(v: ComponentEntryView) -> Seq<char> {
    match v {
        ComponentEntryView::VolumeCuboid { origin, size, .. } => enc_coord(origin)
            + enc_coord(size),
        ComponentEntryView::VolumeCylinder { origin, radius, height, .. } => enc_coord(
            origin,
        ) + enc_int(radius as int) + enc_int(height as int),
        ComponentEntryView::SurfaceSheet { lattice, std_z, origin, length, width, .. } =>
            enc_lattice(lattice) + enc_opt_int(std_z) + enc_coord(origin) + enc_int(
            length as int,
        ) + enc_int(width as int),
        ComponentEntryView::SurfaceCylinder { origin, radius, height, .. } => enc_coord(
            origin,
        ) + enc_int(radius as int) + enc_int(height as int),
    }
}

/// The encoding of one component: its kind tag, name, residue, kind-specific
/// fields, and coordinates.
pub open spec fn enc_component(v: ComponentEntryView) -> Seq<char> {
    enc_int(view_tag(v)) + enc_opt_str(view_name(v)) + enc_opt_residue(
        crate::database::view_residue(v),
    ) + enc_body(v) + enc_coords(crate::database::view_coords(v))
}

/// Parse of the kind-specific fields of a component with tag `tag`,
/// continued by the common name, residue and coordinates already read.
pub open spec fn sp_body(
    s: Seq<char>,
    pos: int,
    tag: int,
    name: Option<Seq<char>>,
    residue: Option<(Seq<char>, Seq<(Seq<char>, Coord)>)>,
) -> Option<(ComponentEntryView, int)> {
    if tag == 0 {
        match sp_coord(s, pos) {
            Option::None => Option::None,
            Option::Some((origin, p)) => match sp_coord(s, p) {
                Option::None => Option::None,
                Option::Some((size, p2)) => match sp_coords(s, p2) {
                    Option::None => Option::None,
                    Option::Some((coords, p3)) => Option::Some(
                        (
                            ComponentEntryView::VolumeCuboid {
                                name,
                                residue,
                                origin,
                                size,
                                coords,
                            },
                            p3,
                        ),
                    ),
                },
            },
        }
    } else if tag == 1 {
        match sp_coord(s, pos) {
            Option::None => Option::None,
            Option::Some((origin, p)) => match sp_int(s, p) {
                Option::None => Option::None,
                Option::Some((radius, p2)) => match sp_int(s, p2) {
                    Option::None => Option::None,
                    Option::Some((height, p3)) => match sp_coords(s, p3) {
                        Option::None => Option::None,
                        Option::Some((coords, p4)) => Option::Some(
                            (
                                ComponentEntryView::VolumeCylinder {
                                    name,
                                    residue,
                                    origin,
                                    radius: radius as i64,
                                    height: height as i64,
                                    coords,
                                },
                                p4,
                            ),
                        ),
                    },
                },
            },
        }
    } else if tag == 2 {
        match sp_lattice(s, pos) {
            Option::None => Option::None,
            Option::Some((lattice, p)) => match sp_opt_int(s, p) {
                Option::None => Option::None,
                Option::Some((std_z, p2)) => match sp_coord(s, p2) {
                    Option::None => Option::None,
                    Option::Some((origin, p3)) => match sp_int(s, p3) {
                        Option::None => Option::None,
                        Option::Some((length, p4)) => match sp_int(s, p4) {
                            Option::None => Option::None,
                            Option::Some((width, p5)) => match sp_coords(s, p5) {
                                Option::None => Option::None,
                                Option::Some((coords, p6)) => Option::Some(
                                    (
                                        ComponentEntryView::SurfaceSheet {
                                            name,
                                            residue,
                                            lattice,
                                            std_z,
                                            origin,
                                            length: length as i64,
                                            width: width as i64,
                                            coords,
                                        },
                                        p6,
                                    ),
                                ),
                            },
                        },
                    },
                },
            },
        }
    } else if tag == 3 {
        match sp_coord(s, pos) {
            Option::None => Option::None,
            Option::Some((origin, p)) => match sp_int(s, p) {
                Option::None => Option::None,
                Option::Some((radius, p2)) => match sp_int(s, p2) {
                    Option::None => Option::None,
                    Option::Some((height, p3)) => match sp_coords(s, p3) {
                        Option::None => Option::None,
                        Option::Some((coords, p4)) => Option::Some(
                            (
                                ComponentEntryView::SurfaceCylinder {
                                    name,
                                    residue,
                                    origin,
                                    radius: radius as i64,
                                    height: height as i64,
                                    coords,
                                },
                                p4,
                            ),
                        ),
                    },
                },
            },
        }
    } else {
        Option::None
    }
}

/// Parse of one encoded component.
pub open spec fn sp_component(s: Seq<char>, pos: int) -> Option<(ComponentEntryView, int)> {
    match sp_int(s, pos) {
        Option::None => Option::None,
        Option::Some((tag, p)) => match sp_opt_str(s, p) {
            Option::None => Option::None,
            Option::Some((name, p2)) => match sp_opt_residue(s, p2) {
                Option::None => Option::None,
                Option::Some((residue, p3)) => sp_body(s, p3, tag, name, residue),
            },
        },
    }
}

/// The encoding of a component list, first to last.
pub open spec fn enc_component_list(l: Seq<ComponentEntryView>) -> Seq<char>
    decreases l.len(),
{
    if l.len() == 0 {
        Seq::empty()
    } else {
        enc_component(l.first()) + enc_component_list(l.drop_first())
    }
}

/// Parse of `count` encoded components.
pub open spec fn sp_component_list(s: Seq<char>, pos: int, count: nat) -> Option<
    (Seq<ComponentEntryView>, int),
>
    decreases count,
{
    if count == 0 {
        Option::Some((Seq::empty(), pos))
    } else {
        match sp_component(s, pos) {
            Option::None => Option::None,
            Option::Some((v, p)) => match sp_component_list(s, p, (count - 1) as nat) {
                Option::None => Option::None,
                Option::Some((rest, p2)) => Option::Some((seq![v] + rest, p2)),
            },
        }
    }
}

/// The encoding of a residue list, first to last.
pub open spec fn enc_residue_list(l: Seq<(Seq<char>, Seq<(Seq<char>, Coord)>)>) -> Seq<char>
    decreases l.len(),
{
    if l.len() == 0 {
        Seq::empty()
    } else {
        enc_residue(l.first()) + enc_residue_list(l.drop_first())
    }
}

/// Parse of `count` encoded residues.
pub open spec fn sp_residue_list(s: Seq<char>, pos: int, count: nat) -> Option<
    (Seq<(Seq<char>, Seq<(Seq<char>, Coord)>)>, int),
>
    decreases count,
{
    if count == 0 {
        Option::Some((Seq::empty(), pos))
    } else {
        match sp_residue(s, pos) {
            Option::None => Option::None,
            Option::Some((r, p)) => match sp_residue_list(s, p, (count - 1) as nat) {
                Option::None => Option::None,
                Option::Some((rest, p2)) => Option::Some((seq![r] + rest, p2)),
            },
        }
    }
}

/// The encoding of a whole catalog document: the residue definitions, then
/// the component definitions, each as a counted list.
pub open spec fn enc_document(
    residues: Seq<(Seq<char>, Seq<(Seq<char>, Coord)>)>,
    components: Seq<ComponentEntryView>,
) -> Seq<char> {
    enc_int(residues.len() as int) + enc_residue_list(residues) + enc_int(
        components.len() as int,
    ) + enc_component_list(components)
}

/// Parse of a whole catalog document. An empty document holds empty lists,
/// and a document that ends after the residue definitions holds no component
/// definitions: both list fields are optional and default to empty.
pub open spec fn sp_document(s: Seq<char>) -> Option<
    (Seq<(Seq<char>, Seq<(Seq<char>, Coord)>)>, Seq<ComponentEntryView>),
> {
    if s.len() == 0 {
        Option::Some((Seq::empty(), Seq::empty()))
    } else {
        match sp_int(s, 0) {
            Option::None => Option::None,
            Option::Some((rcount, p)) => if 0 <= rcount <= usize::MAX as int {
                match sp_residue_list(s, p, rcount as nat) {
                    Option::None => Option::None,
                    Option::Some((residues, p2)) => if p2 == s.len() {
                        Option::Some((residues, Seq::empty()))
                    } else {
                        match sp_int(s, p2) {
                            Option::None => Option::None,
                            Option::Some((ccount, p3)) => if 0 <= ccount <= usize::MAX as int {
                                match sp_component_list(s, p3, ccount as nat) {
                                    Option::None => Option::None,
                                    Option::Some((components, p4)) => if p4 == s.len() {
                                        Option::Some((residues, components))
                                    } else {
                                        Option::None
                                    },
                                }
                            } else {
                                Option::None
                            },
                        }
                    },
                }
            } else {
                Option::None
            },
        }
    }
}

/// A component view whose strings and list lengths can be encoded.
pub open spec fn component_ok(v: ComponentEntryView) -> bool {
    &&& match view_name(v) {
        Option::None => true,
        Option::Some(t) => t.len() <= i64::MAX,
    }
    &&& match crate::database::view_residue(v) {
        Option::None => true,
        Option::Some(r) => residue_ok(r),
    }
    &&& crate::database::view_coords(v).len() <= i64::MAX
    &&& crate::database::view_coords(v).len() <= usize::MAX
}


/// Where an encoded lattice description stands, its parse succeeds.
#[verifier::rlimit(100)]
pub proof fn lemma_sp_lattice_enc(s: Seq<char>, pos: int, lt: surface::LatticeType)
    requires
        0 <= pos,
        pos + enc_lattice(lt).len() <= s.len(),
        s.subrange(pos, pos + enc_lattice(lt).len()) == enc_lattice(lt),
    ensures
        sp_lattice(s, pos) == Option::Some((lt, pos + enc_lattice(lt).len())),
{
    match lt {
        surface::LatticeType::Hexagonal { a } => {
            lemma_enc_int(0);
            lemma_enc_int(a as int);
            lemma_subrange_concat(s, pos, enc_int(0), enc_int(a as int));
            lemma_sp_int_enc(s, pos, 0);
            lemma_sp_int_enc(s, pos + INT_WIDTH, a as int);
        },
        surface::LatticeType::Triclinic { a, b, gamma } => {
            lemma_enc_int(1);
            lemma_enc_int(a as int);
            lemma_enc_int(b as int);
            lemma_enc_int(gamma.sin_ppm as int);
            lemma_enc_int(gamma.cos_ppm as int);
            let e1 = enc_int(1);
            let e2 = enc_int(a as int);
            let e3 = enc_int(b as int);
            let e4 = enc_int(gamma.sin_ppm as int);
            let e5 = enc_int(gamma.cos_ppm as int);
            let r1 = e2 + e3 + e4 + e5;
            assert(s.subrange(pos, pos + e1.len() + r1.len()) == e1 + r1) by {
                assert(e1 + r1 =~= enc_lattice(lt));
            }
            lemma_subrange_concat(s, pos, e1, r1);
            let p1 = pos + e1.len();
            let r2 = e3 + e4 + e5;
            assert(s.subrange(p1, p1 + e2.len() + r2.len()) == e2 + r2) by {
                assert(e2 + r2 =~= r1);
            }
            lemma_subrange_concat(s, p1, e2, r2);
            let p2 = p1 + e2.len();
            let r3 = e4 + e5;
            assert(s.subrange(p2, p2 + e3.len() + r3.len()) == e3 + r3) by {
                assert(e3 + r3 =~= r2);
            }
            lemma_subrange_concat(s, p2, e3, r3);
            let p3 = p2 + e3.len();
            lemma_subrange_concat(s, p3, e4, e5);
            lemma_sp_int_enc(s, pos, 1);
            lemma_sp_int_enc(s, p1, a as int);
            lemma_sp_int_enc(s, p2, b as int);
            lemma_sp_int_enc(s, p3, gamma.sin_ppm as int);
            lemma_sp_int_enc(s, p3 + e4.len(), gamma.cos_ppm as int);
        },
    }
}

/// Where an encoded coordinate list stands, its parse succeeds.
pub proof fn lemma_sp_coord_list_enc(s: Seq<char>, pos: int, l: Seq<Coord>)
    requires
        0 <= pos,
        pos + enc_coord_list(l).len() <= s.len(),
        s.subrange(pos, pos + enc_coord_list(l).len()) == enc_coord_list(l),
    ensures
        sp_coord_list(s, pos, l.len()) == Option::Some((l, pos + enc_coord_list(l).len())),
    decreases l.len(),
{
    if l.len() == 0 {
        assert(l =~= Seq::<Coord>::empty());
    } else {
        let c = l.first();
        let rest = l.drop_first();
        lemma_subrange_concat(s, pos, enc_coord(c), enc_coord_list(rest));
        lemma_sp_coord_enc(s, pos, c);
        lemma_sp_coord_list_enc(s, pos + enc_coord(c).len(), rest);
        assert(seq![c] + rest =~= l);
    }
}

/// Where a counted coordinate list stands, its parse succeeds.
pub proof fn lemma_sp_coords_enc(s: Seq<char>, pos: int, l: Seq<Coord>)
    requires
        0 <= pos,
        l.len() <= i64::MAX,
        l.len() <= usize::MAX,
        pos + enc_coords(l).len() <= s.len(),
        s.subrange(pos, pos + enc_coords(l).len()) == enc_coords(l),
    ensures
        sp_coords(s, pos) == Option::Some((l, pos + enc_coords(l).len())),
{
    lemma_enc_int(l.len() as int);
    lemma_subrange_concat(s, pos, enc_int(l.len() as int), enc_coord_list(l));
    lemma_sp_int_enc(s, pos, l.len() as int);
    lemma_sp_coord_list_enc(s, pos + INT_WIDTH, l);
}

/// Body parse of an encoded VolumeCuboid component.
#[verifier::rlimit(100)]
proof fn lemma_sp_body_enc_cuboid(s: Seq<char>, pos: int, v: ComponentEntryView)
    requires
        v is VolumeCuboid,
        0 <= pos,
        component_ok(v),
        pos + enc_body(v).len() + enc_coords(crate::database::view_coords(v)).len()
            <= s.len(),
        s.subrange(
            pos,
            pos + enc_body(v).len() + enc_coords(crate::database::view_coords(v)).len(),
        ) == enc_body(v) + enc_coords(crate::database::view_coords(v)),
    ensures
        sp_body(s, pos, view_tag(v), view_name(v), crate::database::view_residue(v))
            == Option::Some(
            (v, pos + enc_body(v).len() + enc_coords(crate::database::view_coords(v)).len()),
        ),
{
    let ec = enc_coords(crate::database::view_coords(v));
    match v {
        ComponentEntryView::VolumeCuboid { origin, size, coords, .. } => {
            let e1 = enc_coord(origin);
            let e2 = enc_coord(size);
            let r1 = e2 + ec;
            assert(s.subrange(pos, pos + e1.len() + r1.len()) == e1 + r1) by {
                assert(e1 + r1 =~= enc_body(v) + ec);
            }
            lemma_subrange_concat(s, pos, e1, r1);
            let p1 = pos + e1.len();
            lemma_subrange_concat(s, p1, e2, ec);
            lemma_sp_coord_enc(s, pos, origin);
            lemma_sp_coord_enc(s, p1, size);
            lemma_sp_coords_enc(s, p1 + e2.len(), coords);
        },
        _ => {},
    }
}

/// Body parse of an encoded VolumeCylinder component.
#[verifier::rlimit(100)]
proof fn lemma_sp_body_enc_volume_cylinder(s: Seq<char>, pos: int, v: ComponentEntryView)
    requires
        v is VolumeCylinder,
        0 <= pos,
        component_ok(v),
        pos + enc_body(v).len() + enc_coords(crate::database::view_coords(v)).len()
            <= s.len(),
        s.subrange(
            pos,
            pos + enc_body(v).len() + enc_coords(crate::database::view_coords(v)).len(),
        ) == enc_body(v) + enc_coords(crate::database::view_coords(v)),
    ensures
        sp_body(s, pos, view_tag(v), view_name(v), crate::database::view_residue(v))
            == Option::Some(
            (v, pos + enc_body(v).len() + enc_coords(crate::database::view_coords(v)).len()),
        ),
{
    let ec = enc_coords(crate::database::view_coords(v));
    match v {
        ComponentEntryView::VolumeCylinder { origin, radius, height, coords, .. } => {
            lemma_enc_int(radius as int);
            lemma_enc_int(height as int);
            let e1 = enc_coord(origin);
            let e2 = enc_int(radius as int);
            let e3 = enc_int(height as int);
            let r1 = e2 + e3 + ec;
            assert(s.subrange(pos, pos + e1.len() + r1.len()) == e1 + r1) by {
                assert(e1 + r1 =~= enc_body(v) + ec);
            }
            lemma_subrange_concat(s, pos, e1, r1);
            let p1 = pos + e1.len();
            let r2 = e3 + ec;
            assert(s.subrange(p1, p1 + e2.len() + r2.len()) == e2 + r2) by {
                assert(e2 + r2 =~= r1);
            }
            lemma_subrange_concat(s, p1, e2, r2);
            let p2 = p1 + e2.len();
            lemma_subrange_concat(s, p2, e3, ec);
            lemma_sp_coord_enc(s, pos, origin);
            lemma_sp_int_enc(s, p1, radius as int);
            lemma_sp_int_enc(s, p2, height as int);
            lemma_sp_coords_enc(s, p2 + e3.len(), coords);
        },
        _ => {},
    }
}

/// Body parse of an encoded SurfaceSheet component.
#[verifier::rlimit(100)]
proof fn lemma_sp_body_enc_sheet(s: Seq<char>, pos: int, v: ComponentEntryView)
    requires
        v is SurfaceSheet,
        0 <= pos,
        component_ok(v),
        pos + enc_body(v).len() + enc_coords(crate::database::view_coords(v)).len()
            <= s.len(),
        s.subrange(
            pos,
            pos + enc_body(v).len() + enc_coords(crate::database::view_coords(v)).len(),
        ) == enc_body(v) + enc_coords(crate::database::view_coords(v)),
    ensures
        sp_body(s, pos, view_tag(v), view_name(v), crate::database::view_residue(v))
            == Option::Some(
            (v, pos + enc_body(v).len() + enc_coords(crate::database::view_coords(v)).len()),
        ),
{
    let ec = enc_coords(crate::database::view_coords(v));
    match v {
        ComponentEntryView::SurfaceSheet { lattice, std_z, origin, length, width, coords, .. } => {
            lemma_enc_int(length as int);
            lemma_enc_int(width as int);
            let e1 = enc_lattice(lattice);
            let e2 = enc_opt_int(std_z);
            let e3 = enc_coord(origin);
            let e4 = enc_int(length as int);
            let e5 = enc_int(width as int);
            let r1 = e2 + e3 + e4 + e5 + ec;
            assert(s.subrange(pos, pos + e1.len() + r1.len()) == e1 + r1) by {
                assert(e1 + r1 =~= enc_body(v) + ec);
            }
            lemma_subrange_concat(s, pos, e1, r1);
            let p1 = pos + e1.len();
            let r2 = e3 + e4 + e5 + ec;
            assert(s.subrange(p1, p1 + e2.len() + r2.len()) == e2 + r2) by {
                assert(e2 + r2 =~= r1);
            }
            lemma_subrange_concat(s, p1, e2, r2);
            let p2 = p1 + e2.len();
            let r3 = e4 + e5 + ec;
            assert(s.subrange(p2, p2 + e3.len() + r3.len()) == e3 + r3) by {
                assert(e3 + r3 =~= r2);
            }
            lemma_subrange_concat(s, p2, e3, r3);
            let p3 = p2 + e3.len();
            let r4 = e5 + ec;
            assert(s.subrange(p3, p3 + e4.len() + r4.len()) == e4 + r4) by {
                assert(e4 + r4 =~= r3);
            }
            lemma_subrange_concat(s, p3, e4, r4);
            let p4 = p3 + e4.len();
            lemma_subrange_concat(s, p4, e5, ec);
            lemma_sp_lattice_enc(s, pos, lattice);
            lemma_sp_opt_int_enc(s, p1, std_z);
            lemma_sp_coord_enc(s, p2, origin);
            lemma_sp_int_enc(s, p3, length as int);
            lemma_sp_int_enc(s, p4, width as int);
            lemma_sp_coords_enc(s, p4 + e5.len(), coords);
        },
        _ => {},
    }
}

/// Body parse of an encoded SurfaceCylinder component.
#[verifier::rlimit(100)]
proof fn lemma_sp_body_enc_surface_cylinder(s: Seq<char>, pos: int, v: ComponentEntryView)
    requires
        v is SurfaceCylinder,
        0 <= pos,
        component_ok(v),
        pos + enc_body(v).len() + enc_coords(crate::database::view_coords(v)).len()
            <= s.len(),
        s.subrange(
            pos,
            pos + enc_body(v).len() + enc_coords(crate::database::view_coords(v)).len(),
        ) == enc_body(v) + enc_coords(crate::database::view_coords(v)),
    ensures
        sp_body(s, pos, view_tag(v), view_name(v), crate::database::view_residue(v))
            == Option::Some(
            (v, pos + enc_body(v).len() + enc_coords(crate::database::view_coords(v)).len()),
        ),
{
    let ec = enc_coords(crate::database::view_coords(v));
    match v {
        ComponentEntryView::SurfaceCylinder { origin, radius, height, coords, .. } => {
            lemma_enc_int(radius as int);
            lemma_enc_int(height as int);
            let e1 = enc_coord(origin);
            let e2 = enc_int(radius as int);
            let e3 = enc_int(height as int);
            let r1 = e2 + e3 + ec;
            assert(s.subrange(pos, pos + e1.len() + r1.len()) == e1 + r1) by {
                assert(e1 + r1 =~= enc_body(v) + ec);
            }
            lemma_subrange_concat(s, pos, e1, r1);
            let p1 = pos + e1.len();
            let r2 = e3 + ec;
            assert(s.subrange(p1, p1 + e2.len() + r2.len()) == e2 + r2) by {
                assert(e2 + r2 =~= r1);
            }
            lemma_subrange_concat(s, p1, e2, r2);
            let p2 = p1 + e2.len();
            lemma_subrange_concat(s, p2, e3, ec);
            lemma_sp_coord_enc(s, pos, origin);
            lemma_sp_int_enc(s, p1, radius as int);
            lemma_sp_int_enc(s, p2, height as int);
            lemma_sp_coords_enc(s, p2 + e3.len(), coords);
        },
        _ => {},
    }
}

/// Where the kind-specific fields and coordinates of a component stand, the
/// body parse reproduces the component.
pub proof fn lemma_sp_body_enc(s: Seq<char>, pos: int, v: ComponentEntryView)
    requires
        0 <= pos,
        component_ok(v),
        pos + enc_body(v).len() + enc_coords(crate::database::view_coords(v)).len()
            <= s.len(),
        s.subrange(
            pos,
            pos + enc_body(v).len() + enc_coords(crate::database::view_coords(v)).len(),
        ) == enc_body(v) + enc_coords(crate::database::view_coords(v)),
    ensures
        sp_body(s, pos, view_tag(v), view_name(v), crate::database::view_residue(v))
            == Option::Some(
            (v, pos + enc_body(v).len() + enc_coords(crate::database::view_coords(v)).len()),
        ),
{
    match v {
        ComponentEntryView::VolumeCuboid { .. } => lemma_sp_body_enc_cuboid(s, pos, v),
        ComponentEntryView::VolumeCylinder { .. } => lemma_sp_body_enc_volume_cylinder(
            s,
            pos,
            v,
        ),
        ComponentEntryView::SurfaceSheet { .. } => lemma_sp_body_enc_sheet(s, pos, v),
        ComponentEntryView::SurfaceCylinder { .. } => lemma_sp_body_enc_surface_cylinder(
            s,
            pos,
            v,
        ),
    }
}

/// Where an encoded component stands, its parse succeeds.
#[verifier::rlimit(100)]
pub proof fn lemma_sp_component_enc(s: Seq<char>, pos: int, v: ComponentEntryView)
    requires
        0 <= pos,
        component_ok(v),
        pos + enc_component(v).len() <= s.len(),
        s.subrange(pos, pos + enc_component(v).len()) == enc_component(v),
    ensures
        sp_component(s, pos) == Option::Some((v, pos + enc_component(v).len())),
{
    lemma_enc_int(view_tag(v));
    let e1 = enc_int(view_tag(v));
    let e2 = enc_opt_str(view_name(v));
    let e3 = enc_opt_residue(crate::database::view_residue(v));
    let e4 = enc_body(v);
    let ec = enc_coords(crate::database::view_coords(v));
    let r1 = e2 + e3 + e4 + ec;
    assert(s.subrange(pos, pos + e1.len() + r1.len()) == e1 + r1) by {
        assert(e1 + r1 =~= enc_component(v));
    }
    lemma_subrange_concat(s, pos, e1, r1);
    let p1 = pos + e1.len();
    let r2 = e3 + e4 + ec;
    assert(s.subrange(p1, p1 + e2.len() + r2.len()) == e2 + r2) by {
        assert(e2 + r2 =~= r1);
    }
    lemma_subrange_concat(s, p1, e2, r2);
    let p2 = p1 + e2.len();
    let r3 = e4 + ec;
    assert(s.subrange(p2, p2 + e3.len() + r3.len()) == e3 + r3) by {
        assert(e3 + r3 =~= r2);
    }
    lemma_subrange_concat(s, p2, e3, r3);
    let p3 = p2 + e3.len();
    assert(s.subrange(p3, p3 + e4.len() + ec.len()) == e4 + ec);
    lemma_sp_int_enc(s, pos, view_tag(v));
    lemma_sp_opt_str_enc(s, p1, view_name(v));
    lemma_sp_opt_residue_enc(s, p2, crate::database::view_residue(v));
    lemma_sp_body_enc(s, p3, v);
}

/// Where an encoded residue list stands, its parse succeeds.
pub proof fn lemma_sp_residue_list_enc(
    s: Seq<char>,
    pos: int,
    l: Seq<(Seq<char>, Seq<(Seq<char>, Coord)>)>,
)
    requires
        0 <= pos,
        forall|i: int| 0 <= i < l.len() ==> residue_ok(#[trigger] l[i]),
        pos + enc_residue_list(l).len() <= s.len(),
        s.subrange(pos, pos + enc_residue_list(l).len()) == enc_residue_list(l),
    ensures
        sp_residue_list(s, pos, l.len()) == Option::Some(
            (l, pos + enc_residue_list(l).len()),
        ),
    decreases l.len(),
{
    if l.len() == 0 {
        assert(l =~= Seq::<(Seq<char>, Seq<(Seq<char>, Coord)>)>::empty());
    } else {
        let r = l.first();
        let rest = l.drop_first();
        lemma_subrange_concat(s, pos, enc_residue(r), enc_residue_list(rest));
        lemma_sp_residue_enc(s, pos, r);
        assert(forall|i: int| 0 <= i < rest.len() ==> residue_ok(#[trigger] rest[i]));
        lemma_sp_residue_list_enc(s, pos + enc_residue(r).len(), rest);
        assert(seq![r] + rest =~= l);
    }
}

/// Where an encoded component list stands, its parse succeeds.
#[verifier::rlimit(100)]
pub proof fn lemma_sp_component_list_enc(s: Seq<char>, pos: int, l: Seq<ComponentEntryView>)
    requires
        0 <= pos,
        forall|i: int| 0 <= i < l.len() ==> component_ok(#[trigger] l[i]),
        pos + enc_component_list(l).len() <= s.len(),
        s.subrange(pos, pos + enc_component_list(l).len()) == enc_component_list(l),
    ensures
        sp_component_list(s, pos, l.len()) == Option::Some(
            (l, pos + enc_component_list(l).len()),
        ),
    decreases l.len(),
{
    if l.len() == 0 {
        assert(l =~= Seq::<ComponentEntryView>::empty());
    } else {
        let v = l.first();
        let rest = l.drop_first();
        lemma_subrange_concat(s, pos, enc_component(v), enc_component_list(rest));
        lemma_sp_component_enc(s, pos, v);
        assert(forall|i: int| 0 <= i < rest.len() ==> component_ok(#[trigger] rest[i]));
        lemma_sp_component_list_enc(s, pos + enc_component(v).len(), rest);
        assert(seq![v] + rest =~= l);
    }
}

/// The lists that a catalog document can hold: lengths and strings that fit
/// the encoding.
pub open spec fn db_lists_ok(
    residues: Seq<(Seq<char>, Seq<(Seq<char>, Coord)>)>,
    components: Seq<ComponentEntryView>,
) -> bool {
    &&& residues.len() <= i64::MAX
    &&& residues.len() <= usize::MAX
    &&& components.len() <= i64::MAX
    &&& components.len() <= usize::MAX
    &&& forall|i: int| 0 <= i < residues.len() ==> residue_ok(#[trigger] residues[i])
    &&& forall|i: int| 0 <= i < components.len() ==> component_ok(#[trigger] components[i])
}

/// Law: parsing an encoded catalog document reproduces the residue and
/// component definitions by value.
pub proof fn lemma_document_roundtrip(
    residues: Seq<(Seq<char>, Seq<(Seq<char>, Coord)>)>,
    components: Seq<ComponentEntryView>,
)
    requires
        db_lists_ok(residues, components),
    ensures
        sp_document(enc_document(residues, components)) == Option::Some(
            (residues, components),
        ),
{
    let s = enc_document(residues, components);
    let e1 = enc_int(residues.len() as int);
    let e2 = enc_residue_list(residues);
    let e3 = enc_int(components.len() as int);
    let e4 = enc_component_list(components);
    lemma_enc_int(residues.len() as int);
    lemma_enc_int(components.len() as int);
    let r1 = e2 + e3 + e4;
    assert(s.subrange(0, e1.len() + r1.len() as int) == e1 + r1) by {
        assert(e1 + r1 =~= s);
        assert(s.subrange(0, s.len() as int) =~= s);
    }
    lemma_subrange_concat(s, 0, e1, r1);
    let p1 = e1.len() as int;
    let r2 = e3 + e4;
    assert(s.subrange(p1, p1 + e2.len() + r2.len()) == e2 + r2) by {
        assert(e2 + r2 =~= r1);
    }
    lemma_subrange_concat(s, p1, e2, r2);
    let p2 = p1 + e2.len();
    lemma_subrange_concat(s, p2, e3, e4);
    let p3 = p2 + e3.len();
    lemma_sp_int_enc(s, 0, residues.len() as int);
    lemma_sp_residue_list_enc(s, p1, residues);
    lemma_sp_int_enc(s, p2, components.len() as int);
    lemma_sp_component_list_enc(s, p3, components);
    assert(p2 < s.len());
}


/// Append the encoding of a coordinate to the document.
pub fn push_coord(out: &mut String, c: &Coord)
    ensures
        final(out)@ == old(out)@ + enc_coord(*c),
{
    push_int(out, c.x);
    push_int(out, c.y);
    push_int(out, c.z);
    proof {
        assert(final(out)@ =~= old(out)@ + enc_coord(*c));
    }
}

/// Append the encoding of an optional name to the document.
pub fn push_opt_str(out: &mut String, o: &Option<String>)
    requires
        match *o {
            Option::None => true,
            Option::Some(ref t) => t@.len() <= i64::MAX,
        },
    ensures
        final(out)@ == old(out)@ + enc_opt_str(crate::database::opt_string_view(*o)),
{
    match o {
        Option::None => {
            push_int(out, 0);
        },
        Option::Some(t) => {
            push_int(out, 1);
            push_str_field(out, t.as_str());
            proof {
                assert(final(out)@ =~= old(out)@ + enc_opt_str(
                    crate::database::opt_string_view(*o),
                ));
            }
        },
    }
}

/// Append the encoding of an optional integer to the document.
pub fn push_opt_int(out: &mut String, o: &Option<i64>)
    ensures
        final(out)@ == old(out)@ + enc_opt_int(*o),
{
    match o {
        Option::None => {
            push_int(out, 0);
        },
        Option::Some(v) => {
            push_int(out, 1);
            push_int(out, *v);
            proof {
                assert(final(out)@ =~= old(out)@ + enc_opt_int(*o));
            }
        },
    }
}

/// Append the encodings of the residue atoms from index `i` on.
fn push_residue_atoms(out: &mut String, atoms: &Vec<ResidueAtom>, i: usize)
    requires
        i <= atoms@.len(),
        forall|k: int|
            0 <= k < atoms@.len() ==> #[trigger] atoms@[k].code@.len() <= i64::MAX,
    ensures
        final(out)@ == old(out)@ + enc_residue_atoms(
            atoms@.map_values(|a: ResidueAtom| a.sv()).skip(i as int),
        ),
    decreases atoms@.len() - i,
{
    let ghost l = atoms@.map_values(|a: ResidueAtom| a.sv());
    if i == atoms.len() {
        proof {
            assert(l.skip(i as int) =~= Seq::empty());
            assert(final(out)@ =~= old(out)@ + enc_residue_atoms(l.skip(i as int)));
        }
    } else {
        let a = &atoms[i];
        push_str_field(out, a.code.as_str());
        push_coord(out, &a.position);
        push_residue_atoms(out, atoms, i + 1);
        proof {
            assert(l.skip(i as int).first() == a.sv());
            assert(l.skip(i as int).drop_first() =~= l.skip(i as int + 1));
            assert(enc_residue_atom(a.sv()) == enc_str(a.code@) + enc_coord(a.position));
            assert(final(out)@ =~= old(out)@ + enc_residue_atoms(l.skip(i as int)));
        }
    }
}

/// Append the encoding of a residue to the document.
pub fn push_residue(out: &mut String, r: &Residue)
    requires
        residue_ok(r.sv()),
    ensures
        final(out)@ == old(out)@ + enc_residue(r.sv()),
{
    proof {
        assert forall|k: int| 0 <= k < r.atoms@.len() implies #[trigger] r.atoms@[
            k
        ].code@.len() <= i64::MAX by {
            assert(r.sv().1[k] == r.atoms@[k].sv());
        }
    }
    push_str_field(out, r.code.as_str());
    push_int(out, r.atoms.len() as i64);
    push_residue_atoms(out, &r.atoms, 0);
    proof {
        let l = r.atoms@.map_values(|a: ResidueAtom| a.sv());
        assert(l.skip(0) =~= l);
        assert(final(out)@ =~= old(out)@ + enc_residue(r.sv()));
    }
}

/// Append the encoding of an optional residue to the document.
pub fn push_opt_residue(out: &mut String, o: &Option<Residue>)
    requires
        match *o {
            Option::None => true,
            Option::Some(ref r) => residue_ok(r.sv()),
        },
    ensures
        final(out)@ == old(out)@ + enc_opt_residue(crate::database::opt_residue_view(*o)),
{
    match o {
        Option::None => {
            push_int(out, 0);
        },
        Option::Some(r) => {
            push_int(out, 1);
            push_residue(out, r);
            proof {
                assert(final(out)@ =~= old(out)@ + enc_opt_residue(
                    crate::database::opt_residue_view(*o),
                ));
            }
        },
    }
}

/// Append the encoding of a sheet's lattice description to the document.
fn push_lattice(out: &mut String, lt: &surface::LatticeType)
    ensures
        final(out)@ == old(out)@ + enc_lattice(*lt),
{
    match lt {
        surface::LatticeType::Hexagonal { a } => {
            push_int(out, 0);
            push_int(out, *a);
            proof {
                assert(final(out)@ =~= old(out)@ + enc_lattice(*lt));
            }
        },
        surface::LatticeType::Triclinic { a, b, gamma } => {
            push_int(out, 1);
            push_int(out, *a);
            push_int(out, *b);
            push_int(out, gamma.sin_ppm);
            push_int(out, gamma.cos_ppm);
            proof {
                assert(final(out)@ =~= old(out)@ + enc_lattice(*lt));
            }
        },
    }
}

/// Append the encodings of the coordinates from index `i` on.
fn push_coord_list(out: &mut String, coords: &Vec<Coord>, i: usize)
    requires
        i <= coords@.len(),
    ensures
        final(out)@ == old(out)@ + enc_coord_list(coords@.skip(i as int)),
    decreases coords@.len() - i,
{
    if i == coords.len() {
        proof {
            assert(coords@.skip(i as int) =~= Seq::empty());
            assert(final(out)@ =~= old(out)@ + enc_coord_list(coords@.skip(i as int)));
        }
    } else {
        push_coord(out, &coords[i]);
        push_coord_list(out, coords, i + 1);
        proof {
            assert(coords@.skip(i as int).first() == coords@[i as int]);
            assert(coords@.skip(i as int).drop_first() =~= coords@.skip(i as int + 1));
            assert(final(out)@ =~= old(out)@ + enc_coord_list(coords@.skip(i as int)));
        }
    }
}

/// Append the encoding of a counted coordinate list to the document.
pub fn push_coords(out: &mut String, coords: &Vec<Coord>)
    requires
        coords@.len() <= i64::MAX,
    ensures
        final(out)@ == old(out)@ + enc_coords(coords@),
{
    push_int(out, coords.len() as i64);
    push_coord_list(out, coords, 0);
    proof {
        assert(coords@.skip(0) =~= coords@);
        assert(final(out)@ =~= old(out)@ + enc_coords(coords@));
    }
}

/// Append the encoding of one component to the document.
#[verifier::rlimit(100)]
pub fn push_component(out: &mut String, e: &ComponentEntry)
    requires
        component_ok(e.cview()),
    ensures
        final(out)@ == old(out)@ + enc_component(e.cview()),
{
    match e {
        ComponentEntry::VolumeCuboid(o) => {
            push_int(out, 0);
            push_opt_str(out, &o.name);
            push_opt_residue(out, &o.residue);
            push_coord(out, &o.origin);
            push_coord(out, &o.size);
            push_coords(out, &o.coords);
        },
        ComponentEntry::VolumeCylinder(o) => {
            push_int(out, 1);
            push_opt_str(out, &o.name);
            push_opt_residue(out, &o.residue);
            push_coord(out, &o.origin);
            push_int(out, o.radius);
            push_int(out, o.height);
            push_coords(out, &o.coords);
        },
        ComponentEntry::SurfaceSheet(o) => {
            push_int(out, 2);
            push_opt_str(out, &o.name);
            push_opt_residue(out, &o.residue);
            push_lattice(out, &o.lattice);
            push_opt_int(out, &o.std_z);
            push_coord(out, &o.origin);
            push_int(out, o.length);
            push_int(out, o.width);
            push_coords(out, &o.coords);
        },
        ComponentEntry::SurfaceCylinder(o) => {
            push_int(out, 3);
            push_opt_str(out, &o.name);
            push_opt_residue(out, &o.residue);
            push_coord(out, &o.origin);
            push_int(out, o.radius);
            push_int(out, o.height);
            push_coords(out, &o.coords);
        },
    }
    proof {
        assert(final(out)@ =~= old(out)@ + enc_component(e.cview()));
    }
}


/// Parse an encoded coordinate of the document, as `sp_coord` describes.
pub fn parse_coord(s: &Vec<char>, pos: usize) -> (r: Option<(Coord, usize)>)
    requires
        pos <= s@.len(),
    ensures
        match sp_coord(s@, pos as int) {
            Option::None => r is None,
            Option::Some(p) => (r matches Option::Some(q) && q.0 == p.0 && q.1 == p.1)
                && p.1 <= s@.len(),
        },
{
    let x = match parse_int(s, pos) {
        Option::None => {
            return None;
        },
        Option::Some(v) => v,
    };
    let y = match parse_int(s, x.1) {
        Option::None => {
            return None;
        },
        Option::Some(v) => v,
    };
    let z = match parse_int(s, y.1) {
        Option::None => {
            return None;
        },
        Option::Some(v) => v,
    };
    Some((Coord { x: x.0, y: y.0, z: z.0 }, z.1))
}

/// Parse an encoded optional name of the document, as `sp_opt_str`
/// describes.
pub fn parse_opt_str(s: &Vec<char>, pos: usize) -> (r: Option<(Option<String>, usize)>)
    requires
        pos <= s@.len(),
    ensures
        match sp_opt_str(s@, pos as int) {
            Option::None => r is None,
            Option::Some(p) => (r matches Option::Some(q) && crate::database::opt_string_view(
                q.0,
            ) == p.0 && q.1 == p.1) && p.1 <= s@.len(),
        },
{
    let flag = match parse_int(s, pos) {
        Option::None => {
            return None;
        },
        Option::Some(v) => v,
    };
    if flag.0 == 0 {
        Some((None, flag.1))
    } else if flag.0 == 1 {
        match parse_str(s, flag.1) {
            Option::None => None,
            Option::Some((t, p2)) => Some((Some(t), p2)),
        }
    } else {
        None
    }
}

/// Parse an encoded optional integer of the document, as `sp_opt_int`
/// describes.
pub fn parse_opt_int(s: &Vec<char>, pos: usize) -> (r: Option<(Option<i64>, usize)>)
    requires
        pos <= s@.len(),
    ensures
        match sp_opt_int(s@, pos as int) {
            Option::None => r is None,
            Option::Some(p) => (r matches Option::Some(q) && q.0 == p.0 && q.1 == p.1)
                && p.1 <= s@.len(),
        },
{
    let flag = match parse_int(s, pos) {
        Option::None => {
            return None;
        },
        Option::Some(v) => v,
    };
    if flag.0 == 0 {
        Some((None, flag.1))
    } else if flag.0 == 1 {
        match parse_int(s, flag.1) {
            Option::None => None,
            Option::Some((v, p2)) => Some((Some(v), p2)),
        }
    } else {
        None
    }
}

/// Parse one encoded residue atom of the document, as `sp_residue_atom`
/// describes.
pub fn parse_residue_atom(s: &Vec<char>, pos: usize) -> (r: Option<(ResidueAtom, usize)>)
    requires
        pos <= s@.len(),
    ensures
        match sp_residue_atom(s@, pos as int) {
            Option::None => r is None,
            Option::Some(p) => (r matches Option::Some(q) && q.0.sv() == p.0 && q.1 == p.1)
                && p.1 <= s@.len(),
        },
{
    let code = match parse_str(s, pos) {
        Option::None => {
            return None;
        },
        Option::Some(v) => v,
    };
    let position = match parse_coord(s, code.1) {
        Option::None => {
            return None;
        },
        Option::Some(v) => v,
    };
    Some((ResidueAtom { code: code.0, position: position.0 }, position.1))
}

/// Parse `count` encoded residue atoms of the document, as
/// `sp_residue_atoms` describes.
fn parse_residue_atoms(s: &Vec<char>, pos: usize, count: usize) -> (r: Option<
    (Vec<ResidueAtom>, usize),
>)
    requires
        pos <= s@.len(),
    ensures
        match sp_residue_atoms(s@, pos as int, count as nat) {
            Option::None => r is None,
            Option::Some(p) => (r matches Option::Some(q) && q.0@.map_values(
                |a: ResidueAtom| a.sv(),
            ) == p.0 && q.1 == p.1) && p.1 <= s@.len(),
        },
    decreases count,
{
    if count == 0 {
        let empty: Vec<ResidueAtom> = Vec::new();
        proof {
            assert(empty@.map_values(|a: ResidueAtom| a.sv()) =~= Seq::<
                (Seq<char>, Coord),
            >::empty());
        }
        Some((empty, pos))
    } else {
        let a = match parse_residue_atom(s, pos) {
            Option::None => {
                return None;
            },
            Option::Some(v) => v,
        };
        match parse_residue_atoms(s, a.1, count - 1) {
            Option::None => None,
            Option::Some((rest, p2)) => {
                let mut items: Vec<ResidueAtom> = Vec::new();
                items.push(a.0);
                let mut rest = rest;
                items.append(&mut rest);
                proof {
                    let f = |x: ResidueAtom| x.sv();
                    let spr = sp_residue_atoms(s@, pos as int, count as nat);
                    let pr = spr->0;
                    assert(items@.map_values(f) =~= pr.0);
                }
                Some((items, p2))
            },
        }
    }
}

/// Parse an encoded residue of the document, as `sp_residue` describes.
pub fn parse_residue(s: &Vec<char>, pos: usize) -> (r: Option<(Residue, usize)>)
    requires
        pos <= s@.len(),
    ensures
        match sp_residue(s@, pos as int) {
            Option::None => r is None,
            Option::Some(p) => (r matches Option::Some(q) && q.0.sv() == p.0 && q.1 == p.1)
                && p.1 <= s@.len(),
        },
{
    let code = match parse_str(s, pos) {
        Option::None => {
            return None;
        },
        Option::Some(v) => v,
    };
    let count = match parse_int(s, code.1) {
        Option::None => {
            return None;
        },
        Option::Some(v) => v,
    };
    if count.0 < 0 || (count.0 as u64) > (usize::MAX as u64) {
        return None;
    }
    match parse_residue_atoms(s, count.1, count.0 as usize) {
        Option::None => None,
        Option::Some((atoms, p3)) => Some((Residue { code: code.0, atoms }, p3)),
    }
}

/// Parse an encoded optional residue of the document, as `sp_opt_residue`
/// describes.
pub fn parse_opt_residue(s: &Vec<char>, pos: usize) -> (r: Option<(Option<Residue>, usize)>)
    requires
        pos <= s@.len(),
    ensures
        match sp_opt_residue(s@, pos as int) {
            Option::None => r is None,
            Option::Some(p) => (r matches Option::Some(q) && crate::database::opt_residue_view(
                q.0,
            ) == p.0 && q.1 == p.1) && p.1 <= s@.len(),
        },
{
    let flag = match parse_int(s, pos) {
        Option::None => {
            return None;
        },
        Option::Some(v) => v,
    };
    if flag.0 == 0 {
        Some((None, flag.1))
    } else if flag.0 == 1 {
        match parse_residue(s, flag.1) {
            Option::None => None,
            Option::Some((r2, p2)) => Some((Some(r2), p2)),
        }
    } else {
        None
    }
}

/// Parse an encoded lattice description of the document, as `sp_lattice`
/// describes.
fn parse_lattice(s: &Vec<char>, pos: usize) -> (r: Option<(surface::LatticeType, usize)>)
    requires
        pos <= s@.len(),
    ensures
        match sp_lattice(s@, pos as int) {
            Option::None => r is None,
            Option::Some(p) => (r matches Option::Some(q) && q.0 == p.0 && q.1 == p.1)
                && p.1 <= s@.len(),
        },
{
    let tag = match parse_int(s, pos) {
        Option::None => {
            return None;
        },
        Option::Some(v) => v,
    };
    if tag.0 == 0 {
        match parse_int(s, tag.1) {
            Option::None => None,
            Option::Some((a, p2)) => Some((surface::LatticeType::Hexagonal { a }, p2)),
        }
    } else if tag.0 == 1 {
        let a = match parse_int(s, tag.1) {
            Option::None => {
                return None;
            },
            Option::Some(v) => v,
        };
        let b = match parse_int(s, a.1) {
            Option::None => {
                return None;
            },
            Option::Some(v) => v,
        };
        let sin = match parse_int(s, b.1) {
            Option::None => {
                return None;
            },
            Option::Some(v) => v,
        };
        let cos = match parse_int(s, sin.1) {
            Option::None => {
                return None;
            },
            Option::Some(v) => v,
        };
        Some(
            (
                surface::LatticeType::Triclinic {
                    a: a.0,
                    b: b.0,
                    gamma: Angle { sin_ppm: sin.0, cos_ppm: cos.0 },
                },
                cos.1,
            ),
        )
    } else {
        None
    }
}

/// Parse `count` encoded coordinates of the document, as `sp_coord_list`
/// describes.
fn parse_coord_list(s: &Vec<char>, pos: usize, count: usize) -> (r: Option<
    (Vec<Coord>, usize),
>)
    requires
        pos <= s@.len(),
    ensures
        match sp_coord_list(s@, pos as int, count as nat) {
            Option::None => r is None,
            Option::Some(p) => (r matches Option::Some(q) && q.0@ == p.0 && q.1 == p.1)
                && p.1 <= s@.len(),
        },
    decreases count,
{
    if count == 0 {
        let empty: Vec<Coord> = Vec::new();
        proof {
            assert(empty@ =~= Seq::<Coord>::empty());
        }
        Some((empty, pos))
    } else {
        let c = match parse_coord(s, pos) {
            Option::None => {
                return None;
            },
            Option::Some(v) => v,
        };
        match parse_coord_list(s, c.1, count - 1) {
            Option::None => None,
            Option::Some((rest, p2)) => {
                let mut items: Vec<Coord> = Vec::new();
                items.push(c.0);
                let mut rest = rest;
                items.append(&mut rest);
                proof {
                    let spr = sp_coord_list(s@, pos as int, count as nat);
                    let pr = spr->0;
                    assert(items@ =~= pr.0);
                }
                Some((items, p2))
            },
        }
    }
}

/// Parse a counted coordinate list of the document, as `sp_coords`
/// describes.
fn parse_coords(s: &Vec<char>, pos: usize) -> (r: Option<(Vec<Coord>, usize)>)
    requires
        pos <= s@.len(),
    ensures
        match sp_coords(s@, pos as int) {
            Option::None => r is None,
            Option::Some(p) => (r matches Option::Some(q) && q.0@ == p.0 && q.1 == p.1)
                && p.1 <= s@.len(),
        },
{
    let count = match parse_int(s, pos) {
        Option::None => {
            return None;
        },
        Option::Some(v) => v,
    };
    if count.0 < 0 || (count.0 as u64) > (usize::MAX as u64) {
        return None;
    }
    parse_coord_list(s, count.1, count.0 as usize)
}

/// Parse one encoded component of the document, as `sp_component` describes.
#[verifier::rlimit(100)]
pub fn parse_component(s: &Vec<char>, pos: usize) -> (r: Option<(ComponentEntry, usize)>)
    requires
        pos <= s@.len(),
    ensures
        match sp_component(s@, pos as int) {
            Option::None => r is None,
            Option::Some(p) => (r matches Option::Some(q) && q.0.cview() == p.0 && q.1
                == p.1) && p.1 <= s@.len(),
        },
{
    let tag = match parse_int(s, pos) {
        Option::None => {
            return None;
        },
        Option::Some(v) => v,
    };
    let name = match parse_opt_str(s, tag.1) {
        Option::None => {
            return None;
        },
        Option::Some(v) => v,
    };
    let residue = match parse_opt_residue(s, name.1) {
        Option::None => {
            return None;
        },
        Option::Some(v) => v,
    };
    if tag.0 == 0 {
        let origin = match parse_coord(s, residue.1) {
            Option::None => {
                return None;
            },
            Option::Some(v) => v,
        };
        let size = match parse_coord(s, origin.1) {
            Option::None => {
                return None;
            },
            Option::Some(v) => v,
        };
        match parse_coords(s, size.1) {
            Option::None => None,
            Option::Some((coords, p)) => Some(
                (
                    ComponentEntry::VolumeCuboid(
                        volume::Cuboid {
                            name: name.0,
                            residue: residue.0,
                            origin: origin.0,
                            size: size.0,
                            coords,
                        },
                    ),
                    p,
                ),
            ),
        }
    } else if tag.0 == 1 {
        let origin = match parse_coord(s, residue.1) {
            Option::None => {
                return None;
            },
            Option::Some(v) => v,
        };
        let radius = match parse_int(s, origin.1) {
            Option::None => {
                return None;
            },
            Option::Some(v) => v,
        };
        let height = match parse_int(s, radius.1) {
            Option::None => {
                return None;
            },
            Option::Some(v) => v,
        };
        match parse_coords(s, height.1) {
            Option::None => None,
            Option::Some((coords, p)) => Some(
                (
                    ComponentEntry::VolumeCylinder(
                        volume::Cylinder {
                            name: name.0,
                            residue: residue.0,
                            origin: origin.0,
                            radius: radius.0,
                            height: height.0,
                            coords,
                        },
                    ),
                    p,
                ),
            ),
        }
    } else if tag.0 == 2 {
        let lattice = match parse_lattice(s, residue.1) {
            Option::None => {
                return None;
            },
            Option::Some(v) => v,
        };
        let std_z = match parse_opt_int(s, lattice.1) {
            Option::None => {
                return None;
            },
            Option::Some(v) => v,
        };
        let origin = match parse_coord(s, std_z.1) {
            Option::None => {
                return None;
            },
            Option::Some(v) => v,
        };
        let length = match parse_int(s, origin.1) {
            Option::None => {
                return None;
            },
            Option::Some(v) => v,
        };
        let width = match parse_int(s, length.1) {
            Option::None => {
                return None;
            },
            Option::Some(v) => v,
        };
        match parse_coords(s, width.1) {
            Option::None => None,
            Option::Some((coords, p)) => Some(
                (
                    ComponentEntry::SurfaceSheet(
                        surface::Sheet {
                            name: name.0,
                            residue: residue.0,
                            lattice: lattice.0,
                            std_z: std_z.0,
                            origin: origin.0,
                            length: length.0,
                            width: width.0,
                            coords,
                        },
                    ),
                    p,
                ),
            ),
        }
    } else if tag.0 == 3 {
        let origin = match parse_coord(s, residue.1) {
            Option::None => {
                return None;
            },
            Option::Some(v) => v,
        };
        let radius = match parse_int(s, origin.1) {
            Option::None => {
                return None;
            },
            Option::Some(v) => v,
        };
        let height = match parse_int(s, radius.1) {
            Option::None => {
                return None;
            },
            Option::Some(v) => v,
        };
        match parse_coords(s, height.1) {
            Option::None => None,
            Option::Some((coords, p)) => Some(
                (
                    ComponentEntry::SurfaceCylinder(
                        surface::Cylinder {
                            name: name.0,
                            residue: residue.0,
                            origin: origin.0,
                            radius: radius.0,
                            height: height.0,
                            coords,
                        },
                    ),
                    p,
                ),
            ),
        }
    } else {
        None
    }
}


/// Append the encodings of the residues from index `i` on.
fn push_residue_list(out: &mut String, residues: &Vec<Residue>, i: usize)
    requires
        i <= residues@.len(),
        forall|k: int|
            0 <= k < residues@.len() ==> residue_ok((#[trigger] residues@[k]).sv()),
    ensures
        final(out)@ == old(out)@ + enc_residue_list(
            residues@.map_values(|r: Residue| r.sv()).skip(i as int),
        ),
    decreases residues@.len() - i,
{
    let ghost l = residues@.map_values(|r: Residue| r.sv());
    if i == residues.len() {
        proof {
            assert(l.skip(i as int) =~= Seq::empty());
            assert(final(out)@ =~= old(out)@ + enc_residue_list(l.skip(i as int)));
        }
    } else {
        push_residue(out, &residues[i]);
        push_residue_list(out, residues, i + 1);
        proof {
            assert(l.skip(i as int).first() == l[i as int]);
            assert(l.skip(i as int).drop_first() =~= l.skip(i as int + 1));
            assert(final(out)@ =~= old(out)@ + enc_residue_list(l.skip(i as int)));
        }
    }
}

/// Append the encodings of the components from index `i` on.
fn push_component_list(out: &mut String, components: &Vec<ComponentEntry>, i: usize)
    requires
        i <= components@.len(),
        forall|k: int|
            0 <= k < components@.len() ==> component_ok((#[trigger] components@[k]).cview()),
    ensures
        final(out)@ == old(out)@ + enc_component_list(
            components@.map_values(|e: ComponentEntry| e.cview()).skip(i as int),
        ),
    decreases components@.len() - i,
{
    let ghost l = components@.map_values(|e: ComponentEntry| e.cview());
    if i == components.len() {
        proof {
            assert(l.skip(i as int) =~= Seq::empty());
            assert(final(out)@ =~= old(out)@ + enc_component_list(l.skip(i as int)));
        }
    } else {
        push_component(out, &components[i]);
        push_component_list(out, components, i + 1);
        proof {
            assert(l.skip(i as int).first() == l[i as int]);
            assert(l.skip(i as int).drop_first() =~= l.skip(i as int + 1));
            assert(final(out)@ =~= old(out)@ + enc_component_list(l.skip(i as int)));
        }
    }
}

/// Encode a whole catalog document.
pub fn encode_document(residues: &Vec<Residue>, components: &Vec<ComponentEntry>) -> (out:
    String)
    requires
        db_lists_ok(
            residues@.map_values(|r: Residue| r.sv()),
            components@.map_values(|e: ComponentEntry| e.cview()),
        ),
    ensures
        out@ == enc_document(
            residues@.map_values(|r: Residue| r.sv()),
            components@.map_values(|e: ComponentEntry| e.cview()),
        ),
{
    let ghost rl = residues@.map_values(|r: Residue| r.sv());
    let ghost cl = components@.map_values(|e: ComponentEntry| e.cview());
    proof {
        assert forall|k: int| 0 <= k < residues@.len() implies residue_ok(
            (#[trigger] residues@[k]).sv(),
        ) by {
            assert(rl[k] == residues@[k].sv());
        }
        assert forall|k: int| 0 <= k < components@.len() implies component_ok(
            (#[trigger] components@[k]).cview(),
        ) by {
            assert(cl[k] == components@[k].cview());
        }
    }
    let mut out = String::new();
    push_int(&mut out, residues.len() as i64);
    push_residue_list(&mut out, residues, 0);
    push_int(&mut out, components.len() as i64);
    push_component_list(&mut out, components, 0);
    proof {
        assert(rl.skip(0) =~= rl);
        assert(cl.skip(0) =~= cl);
        assert(out@ =~= enc_document(rl, cl));
    }
    out
}

/// Parse `count` encoded residues of the document, as `sp_residue_list`
/// describes.
fn parse_residue_list(s: &Vec<char>, pos: usize, count: usize) -> (r: Option<
    (Vec<Residue>, usize),
>)
    requires
        pos <= s@.len(),
    ensures
        match sp_residue_list(s@, pos as int, count as nat) {
            Option::None => r is None,
            Option::Some(p) => (r matches Option::Some(q) && q.0@.map_values(
                |x: Residue| x.sv(),
            ) == p.0 && q.1 == p.1) && p.1 <= s@.len(),
        },
    decreases count,
{
    if count == 0 {
        let empty: Vec<Residue> = Vec::new();
        proof {
            assert(empty@.map_values(|x: Residue| x.sv()) =~= Seq::<
                (Seq<char>, Seq<(Seq<char>, Coord)>),
            >::empty());
        }
        Some((empty, pos))
    } else {
        let first = match parse_residue(s, pos) {
            Option::None => {
                return None;
            },
            Option::Some(v) => v,
        };
        match parse_residue_list(s, first.1, count - 1) {
            Option::None => None,
            Option::Some((rest, p2)) => {
                let mut items: Vec<Residue> = Vec::new();
                items.push(first.0);
                let mut rest = rest;
                items.append(&mut rest);
                proof {
                    let spr = sp_residue_list(s@, pos as int, count as nat);
                    let pr = spr->0;
                    assert(items@.map_values(|x: Residue| x.sv()) =~= pr.0);
                }
                Some((items, p2))
            },
        }
    }
}

/// Parse `count` encoded components of the document, as `sp_component_list`
/// describes.
fn parse_component_list(s: &Vec<char>, pos: usize, count: usize) -> (r: Option<
    (Vec<ComponentEntry>, usize),
>)
    requires
        pos <= s@.len(),
    ensures
        match sp_component_list(s@, pos as int, count as nat) {
            Option::None => r is None,
            Option::Some(p) => (r matches Option::Some(q) && q.0@.map_values(
                |x: ComponentEntry| x.cview(),
            ) == p.0 && q.1 == p.1) && p.1 <= s@.len(),
        },
    decreases count,
{
    if count == 0 {
        let empty: Vec<ComponentEntry> = Vec::new();
        proof {
            assert(empty@.map_values(|x: ComponentEntry| x.cview()) =~= Seq::<
                ComponentEntryView,
            >::empty());
        }
        Some((empty, pos))
    } else {
        let first = match parse_component(s, pos) {
            Option::None => {
                return None;
            },
            Option::Some(v) => v,
        };
        match parse_component_list(s, first.1, count - 1) {
            Option::None => None,
            Option::Some((rest, p2)) => {
                let mut items: Vec<ComponentEntry> = Vec::new();
                items.push(first.0);
                let mut rest = rest;
                items.append(&mut rest);
                proof {
                    let spr = sp_component_list(s@, pos as int, count as nat);
                    let pr = spr->0;
                    assert(items@.map_values(|x: ComponentEntry| x.cview()) =~= pr.0);
                }
                Some((items, p2))
            },
        }
    }
}

/// The characters of a string, one by one.
pub fn str_to_chars(s: &str) -> (r: Vec<char>)
    ensures
        r@ == s@,
{
    let n = s.unicode_len();
    let mut r: Vec<char> = Vec::new();
    let mut i: usize = 0;
    while i < n
        invariant
            i <= n,
            n == s@.len(),
            r@ =~= s@.take(i as int),
        decreases n - i,
    {
        r.push(s.get_char(i));
        proof {
            assert(r@ =~= s@.take(i as int + 1));
        }
        i += 1;
    }
    proof {
        assert(r@ =~= s@);
    }
    r
}

/// Parse a whole catalog document, as `sp_document` describes.
pub fn parse_document(doc: &str) -> (r: Option<(Vec<Residue>, Vec<ComponentEntry>)>)
    ensures
        match sp_document(doc@) {
            Option::None => r is None,
            Option::Some(p) => r matches Option::Some(q) && q.0@.map_values(
                |x: Residue| x.sv(),
            ) == p.0 && q.1@.map_values(|x: ComponentEntry| x.cview()) == p.1,
        },
{
    let s = str_to_chars(doc);
    if s.len() == 0 {
        let empty_r: Vec<Residue> = Vec::new();
        let empty_c: Vec<ComponentEntry> = Vec::new();
        proof {
            assert(empty_r@.map_values(|x: Residue| x.sv()) =~= Seq::<
                (Seq<char>, Seq<(Seq<char>, Coord)>),
            >::empty());
            assert(empty_c@.map_values(|x: ComponentEntry| x.cview()) =~= Seq::<
                ComponentEntryView,
            >::empty());
        }
        return Some((empty_r, empty_c));
    }
    let rcount = match parse_int(&s, 0) {
        Option::None => {
            return None;
        },
        Option::Some(v) => v,
    };
    if rcount.0 < 0 || (rcount.0 as u64) > (usize::MAX as u64) {
        return None;
    }
    let residues = match parse_residue_list(&s, rcount.1, rcount.0 as usize) {
        Option::None => {
            return None;
        },
        Option::Some(v) => v,
    };
    if residues.1 == s.len() {
        let empty_c: Vec<ComponentEntry> = Vec::new();
        proof {
            assert(empty_c@.map_values(|x: ComponentEntry| x.cview()) =~= Seq::<
                ComponentEntryView,
            >::empty());
        }
        return Some((residues.0, empty_c));
    }
    let ccount = match parse_int(&s, residues.1) {
        Option::None => {
            return None;
        },
        Option::Some(v) => v,
    };
    if ccount.0 < 0 || (ccount.0 as u64) > (usize::MAX as u64) {
        return None;
    }
    let components = match parse_component_list(&s, ccount.1, ccount.0 as usize) {
        Option::None => {
            return None;
        },
        Option::Some(v) => v,
    };
    if components.1 == s.len() {
        Some((residues.0, components.0))
    } else {
        None
    }
}

/// Powers of ten are positive.
proof fn lemma_pow10_pos(a: nat)
    ensures
        pow10(a) >= 1,
    decreases a,
{
    if a > 0 {
        lemma_pow10_pos((a - 1) as nat);
    }
}

/// Positive powers of ten grow with the exponent.
proof fn lemma_pow10_le(a: nat, b: nat)
    requires
        a <= b,
    ensures
        1 <= pow10(a) <= pow10(b),
    decreases b,
{
    lemma_pow10_pos(a);
    if a < b {
        lemma_pow10_le(a, (b - 1) as nat);
    }
}

/// The decimal digit character for `d`, on machine integers.
fn digit_char_u64(d: u64) -> (c: char)
    requires
        d < 10,
    ensures
        c == digit_char(d as int),
{
    match d {
        0 => '0',
        1 => '1',
        2 => '2',
        3 => '3',
        4 => '4',
        5 => '5',
        6 => '6',
        7 => '7',
        8 => '8',
        _ => '9',
    }
}

/// The value of a decimal digit character, on machine integers; ten for any
/// other character.
fn digit_val_char(c: char) -> (d: u64)
    ensures
        digit_val(c) >= 0 ==> d == digit_val(c),
        digit_val(c) < 0 ==> d == 10,
{
    match c {
        '0' => 0,
        '1' => 1,
        '2' => 2,
        '3' => 3,
        '4' => 4,
        '5' => 5,
        '6' => 6,
        '7' => 7,
        '8' => 8,
        '9' => 9,
        _ => 10,
    }
}

/// Append the fixed-width digits of `n` to the document.
fn push_digits(out: &mut String, n: u64, width: usize)
    ensures
        final(out)@ == old(out)@ + fixed_digits(n as int, width as nat),
    decreases width,
{
    if width == 0 {
        proof {
            assert(old(out)@ + fixed_digits(n as int, 0nat) =~= old(out)@);
        }
    } else {
        push_digits(out, n / 10, width - 1);
        out.push(digit_char_u64(n % 10));
    }
}

/// Append the encoding of an integer to the document.
pub fn push_int(out: &mut String, v: i64)
    ensures
        final(out)@ == old(out)@ + enc_int(v as int),
{
    if v >= 0 {
        out.push('+');
        push_digits(out, v as u64, INT_DIGITS);
        proof {
            assert(final(out)@ =~= old(out)@ + enc_int(v as int));
        }
    } else {
        out.push('-');
        let mag = ((-(v + 1)) as u64) + 1;
        push_digits(out, mag, INT_DIGITS);
        proof {
            assert(final(out)@ =~= old(out)@ + enc_int(v as int));
        }
    }
}

/// Append the encoding of a string to the document.
pub fn push_str_field(out: &mut String, t: &str)
    requires
        t@.len() <= i64::MAX,
    ensures
        final(out)@ == old(out)@ + enc_str(t@),
{
    let len = t.unicode_len();
    push_int(out, len as i64);
    out.append(t);
    proof {
        assert(final(out)@ =~= old(out)@ + enc_str(t@));
    }
}

/// Parse an encoded integer of the document, as `sp_int` describes.
pub fn parse_int(s: &Vec<char>, pos: usize) -> (r: Option<(i64, usize)>)
    requires
        pos <= s@.len(),
    ensures
        match sp_int(s@, pos as int) {
            Option::None => r is None,
            Option::Some(p) => (r matches Option::Some(q) && q.0 == p.0 && q.1 == p.1)
                && p.1 <= s@.len(),
        },
{
    let slen = s.len();
    if slen - pos < INT_WIDTH {
        return None;
    }
    let ghost t = s@.subrange(pos as int, pos as int + INT_WIDTH);
    let sign = s[pos];
    if sign != '+' && sign != '-' {
        proof {
            assert(t[0] == sign);
        }
        return None;
    }
    let mut acc: u64 = 0;
    let mut j: usize = 0;
    proof {
        lemma_pow10_le(0, 19);
    }
    while j < INT_DIGITS
        invariant
            j <= INT_DIGITS,
            slen == s@.len(),
            pos + INT_WIDTH <= slen,
            t == s@.subrange(pos as int, pos as int + INT_WIDTH),
            acc == digits_val(t.skip(1).take(j as int)),
            0 <= acc < pow10(j as nat),
            forall|i: int| 0 <= i < j ==> digit_val(#[trigger] t.skip(1)[i]) >= 0,
        decreases INT_DIGITS - j,
    {
        let c = s[pos + 1 + j];
        proof {
            assert(t.skip(1)[j as int] == c);
        }
        let d = digit_val_char(c);
        if d == 10 {
            proof {
                assert(!all_digits(t.skip(1)));
            }
            return None;
        }
        proof {
            lemma_pow10_19();
            lemma_pow10_le((j + 1) as nat, 19);
            assert(acc * 10 + d < pow10((j + 1) as nat) && acc * 10 + d
                < 10_000_000_000_000_000_000) by (nonlinear_arith)
                requires
                    0 <= acc < pow10(j as nat),
                    0 <= d < 10,
                    pow10((j + 1) as nat) == 10 * pow10(j as nat),
                    pow10((j + 1) as nat) <= pow10(19),
                    pow10(19) == 10_000_000_000_000_000_000,
            ;
            assert(t.skip(1).take(j + 1).drop_last() =~= t.skip(1).take(j as int));
            assert(t.skip(1).take(j + 1).last() == c);
        }
        acc = acc * 10 + d;
        j += 1;
    }
    proof {
        assert(t.skip(1).take(INT_DIGITS as int) =~= t.skip(1));
        assert(all_digits(t.skip(1)));
    }
    if sign == '+' {
        if acc > i64::MAX as u64 {
            return None;
        }
        Some((acc as i64, pos + INT_WIDTH))
    } else {
        if acc > 9_223_372_036_854_775_808u64 {
            return None;
        }
        if acc == 9_223_372_036_854_775_808u64 {
            Some((i64::MIN, pos + INT_WIDTH))
        } else {
            Some((-(acc as i64), pos + INT_WIDTH))
        }
    }
}

/// Parse an encoded string of the document, as `sp_str` describes.
pub fn parse_str(s: &Vec<char>, pos: usize) -> (r: Option<(String, usize)>)
    requires
        pos <= s@.len(),
    ensures
        match sp_str(s@, pos as int) {
            Option::None => r is None,
            Option::Some(p) => (r matches Option::Some(q) && q.0@ == p.0 && q.1 == p.1)
                && p.1 <= s@.len(),
        },
{
    let parsed = parse_int(s, pos);
    match parsed {
        Option::None => None,
        Option::Some((l, p)) => {
            let slen = s.len();
            if l < 0 || (l as u64) > (slen - p) as u64 {
                return None;
            }
            let count = l as usize;
            let mut text = String::new();
            let mut i: usize = 0;
            while i < count
                invariant
                    i <= count,
                    slen == s@.len(),
                    p + count <= slen,
                    text@ =~= s@.subrange(p as int, p as int + i as int),
                decreases count - i,
            {
                text.push(s[p + i]);
                proof {
                    assert(text@ =~= s@.subrange(p as int, p as int + i as int + 1));
                }
                i += 1;
            }
            proof {
                assert(text@ =~= s@.subrange(p as int, p as int + l as int));
            }
            Some((text, p + count))
        },
    }
}

} // verus!
