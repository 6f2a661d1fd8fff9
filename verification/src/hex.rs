//! Axial hex-grid geometry: coordinates, neighbor enumeration, cube-coordinate
//! distance, and the board-membership predicates built on it.
use vstd::prelude::*;

verus! {

/// A cell of the hex grid in axial coordinates.
///
/// A coordinate pair carries no validity of its own; whether it lies on a
/// board depends on the board's radius.
#[derive(Clone, Copy, PartialEq, Eq, Structural, Hash, Debug)]
pub struct Coord {
    pub q: i32,
    pub r: i32,
}

/// The board's center cell, where the mouse starts.
pub open spec fn origin() -> Coord {
    Coord { q: 0, r: 0 }
}

pub open spec fn abs_val(x: int) -> int {
    if x < 0 {
        -x
    } else {
        x
    }
}

pub open spec fn max3(a: int, b: int, c: int) -> int {
    if a >= b && a >= c {
        a
    } else if b >= c {
        b
    } else {
        c
    }
}

/// Hex distance between two cells: convert to cube coordinates
/// (x = q, z = r, y = -x - z) and take the largest absolute delta.
pub open spec fn spec_distance(a: Coord, b: Coord) -> int {
    let dx = abs_val(a.q - b.q);
    let dy = abs_val((-a.q - a.r) - (-b.q - b.r));
    let dz = abs_val(a.r - b.r);
    max3(dx, dy, dz)
}

/// A cell lies on a board of the given radius.
pub open spec fn spec_inside(c: Coord, radius: int) -> bool {
    spec_distance(origin(), c) <= radius
}

/// A cell lies exactly on the rim of a board of the given radius.
pub open spec fn spec_border(c: Coord, radius: int) -> bool {
    spec_distance(origin(), c) == radius
}

/// Two cells are one hex step apart.
pub open spec fn is_adjacent(a: Coord, b: Coord) -> bool {
    let dq = b.q - a.q;
    let dr = b.r - a.r;
    ||| dq == 1 && dr == 0
    ||| dq == -1 && dr == 0
    ||| dq == 0 && dr == 1
    ||| dq == 0 && dr == -1
    ||| dq == 1 && dr == -1
    ||| dq == -1 && dr == 1
}

/// The six neighbors of a cell, in the fixed enumeration order
/// {+q, -q, +r, -r, +q-r, -q+r} that the bot's search relies on.
pub open spec fn spec_neighbors(c: Coord) -> Seq<Coord> {
    seq![
        Coord { q: (c.q + 1) as i32, r: c.r },
        Coord { q: (c.q - 1) as i32, r: c.r },
        Coord { q: c.q, r: (c.r + 1) as i32 },
        Coord { q: c.q, r: (c.r - 1) as i32 },
        Coord { q: (c.q + 1) as i32, r: (c.r - 1) as i32 },
        Coord { q: (c.q - 1) as i32, r: (c.r + 1) as i32 },
    ]
}

/// Magnitude under which coordinate pairs keep every cube-coordinate delta,
/// and so every hex distance, inside i32.
pub const COORD_LIMIT: i32 = 0x1000_0000;

/// The coordinate is small enough for distance arithmetic in i32.
pub open spec fn small_coord(c: Coord) -> bool {
    &&& -COORD_LIMIT <= c.q <= COORD_LIMIT
    &&& -COORD_LIMIT <= c.r <= COORD_LIMIT
}

/// The coordinate's immediate surroundings can be formed without leaving i32.
pub open spec fn coord_arith_ok(c: Coord) -> bool {
    &&& i32::MIN < c.q < i32::MAX
    &&& i32::MIN < c.r < i32::MAX
}

/// Distance computed without overflow for every pair of cells.
fn distance_i64(a: Coord, b: Coord) -> (d: i64)
    ensures
        d == spec_distance(a, b),
{
    let aq: i64 = a.q as i64;
    let ar: i64 = a.r as i64;
    let bq: i64 = b.q as i64;
    let br: i64 = b.r as i64;
    let tx: i64 = aq - bq;
    let ty: i64 = (-aq - ar) - (-bq - br);
    let tz: i64 = ar - br;
    let dx: i64 = if tx < 0 { -tx } else { tx };
    let dy: i64 = if ty < 0 { -ty } else { ty };
    let dz: i64 = if tz < 0 { -tz } else { tz };
    let mut d: i64 = dx;
    if dy > d {
        d = dy;
    }
    if dz > d {
        d = dz;
    }
    d
}

/// Hex distance between two cells.
///
/// The bounds keep the cube-coordinate deltas and the result inside i32.
pub fn hex_distance(a: Coord, b: Coord) -> (d: i32)
    requires
        small_coord(a),
        small_coord(b),
    ensures
        d == spec_distance(a, b),
{
    let d64: i64 = distance_i64(a, b);
    d64 as i32
}

/// Whether a cell lies on a board of the given radius; total over all inputs.
pub fn inside_board(c: Coord, radius: i32) -> (b: bool)
    ensures
        b == spec_inside(c, radius as int),
{
    let d: i64 = distance_i64(Coord { q: 0, r: 0 }, c);
    d <= radius as i64
}

/// Whether a cell lies exactly on the rim of a board of the given radius.
pub fn is_border(c: Coord, radius: i32) -> (b: bool)
    ensures
        b == spec_border(c, radius as int),
{
    let d: i64 = distance_i64(Coord { q: 0, r: 0 }, c);
    d == radius as i64
}

/// Whether two cells are one hex step apart; total over all inputs.
pub fn is_neighbor_of(a: Coord, b: Coord) -> (r: bool)
    ensures
        r == is_adjacent(a, b),
{
    let dq: i64 = b.q as i64 - a.q as i64;
    let dr: i64 = b.r as i64 - a.r as i64;
    (dq == 1 && dr == 0) || (dq == -1 && dr == 0) || (dq == 0 && dr == 1) || (dq == 0 && dr == -1)
        || (dq == 1 && dr == -1) || (dq == -1 && dr == 1)
}

/// The six axial coordinates one step from `c`, in the fixed order
/// {+q, -q, +r, -r, +q-r, -q+r}.
pub fn neighbors(c: Coord) -> (out: [Coord; 6])
    requires
        coord_arith_ok(c),
    ensures
        out@ == spec_neighbors(c),
{
    let out: [Coord; 6] = [
        Coord { q: c.q + 1, r: c.r },
        Coord { q: c.q - 1, r: c.r },
        Coord { q: c.q, r: c.r + 1 },
        Coord { q: c.q, r: c.r - 1 },
        Coord { q: c.q + 1, r: c.r - 1 },
        Coord { q: c.q - 1, r: c.r + 1 },
    ];
    proof {
        assert(out@ =~= spec_neighbors(c));
    }
    out
}

/// Adjacency and membership in the neighbor list agree.
pub proof fn lemma_adjacent_iff_neighbor(a: Coord, b: Coord)
    requires
        coord_arith_ok(a),
    ensures
        is_adjacent(a, b) <==> spec_neighbors(a).contains(b),
{
    if is_adjacent(a, b) {
        let s = spec_neighbors(a);
        if b.q - a.q == 1 && b.r - a.r == 0 {
            assert(s[0] == b);
        } else if b.q - a.q == -1 && b.r - a.r == 0 {
            assert(s[1] == b);
        } else if b.q - a.q == 0 && b.r - a.r == 1 {
            assert(s[2] == b);
        } else if b.q - a.q == 0 && b.r - a.r == -1 {
            assert(s[3] == b);
        } else if b.q - a.q == 1 && b.r - a.r == -1 {
            assert(s[4] == b);
        } else {
            assert(s[5] == b);
        }
    }
    if spec_neighbors(a).contains(b) {
        let i = choose|i: int| 0 <= i < spec_neighbors(a).len() && spec_neighbors(a)[i] == b;
        assert(is_adjacent(a, spec_neighbors(a)[i]));
    }
}

} // verus!
