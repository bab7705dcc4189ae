//! Lines between squares: what lies strictly between two squares that share
//! a rank, file or diagonal, and the whole line through them.

use vstd::prelude::*;
use crate::bits::sq_bit;
use crate::movegen::slideys::{reach, slide, walk};
use crate::types::bitboard::Bitboard;
use crate::types::square::Square;

verus! {

/// -1, 0 or 1 as `x` is negative, zero or positive.
pub open spec fn sign(x: int) -> int {
    if x > 0 {
        1
    } else if x < 0 {
        -1
    } else {
        0
    }
}

/// The distance `|x|`.
pub open spec fn abs(x: int) -> int {
    if x < 0 {
        -x
    } else {
        x
    }
}

/// Whether two different squares share a rank, a file or a diagonal.
pub open spec fn aligned(a: u8, b: u8) -> bool {
    let dr = b / 8 - a / 8;
    let df = b % 8 - a % 8;
    a != b && (dr == 0 || df == 0 || dr == df || dr == -df)
}

/// The number of steps from `a` to `b` along their common line.
pub open spec fn distance(a: u8, b: u8) -> int {
    let dr = abs(b / 8 - a / 8);
    let df = abs(b % 8 - a % 8);
    if dr > df {
        dr
    } else {
        df
    }
}

/// The squares strictly between `a` and `b` on their common rank, file or
/// diagonal; empty when they share none.
pub open spec fn between_mask(a: u8, b: u8) -> u64 {
    if aligned(a, b) {
        slide(
            (a / 8) as int,
            (a % 8) as int,
            sign(b / 8 - a / 8),
            sign(b % 8 - a % 8),
            (distance(a, b) - 1) as nat,
            0,
        )
    } else {
        0
    }
}

/// The whole line through `a` and `b` from edge to edge, both squares
/// included; empty when they share no rank, file or diagonal.
pub open spec fn line_mask(a: u8, b: u8) -> u64 {
    if aligned(a, b) {
        let r = (a / 8) as int;
        let f = (a % 8) as int;
        let dr = sign(b / 8 - a / 8);
        let df = sign(b % 8 - a % 8);
        sq_bit(a) | slide(r, f, dr, df, reach(r, f, dr, df) as nat, 0) | slide(
            r,
            f,
            -dr,
            -df,
            reach(r, f, -dr, -df) as nat,
            0,
        )
    } else {
        0
    }
}

/// -1, 0 or 1 as `to` lies below, at or above `from`.
fn direction(from: u8, to: u8) -> (d: i8)
    ensures
        d == sign(to - from),
{
    if to > from {
        1
    } else if to < from {
        -1
    } else {
        0
    }
}

/// How many steps lead from coordinate `x` to the edge in direction `d`.
fn room_towards(x: u8, d: i8) -> (n: u8)
    requires
        x < 8,
    ensures
        n == crate::movegen::slideys::room(x as int, d as int),
{
    if d > 0 {
        7 - x
    } else if d < 0 {
        x
    } else {
        7
    }
}

/// The squares strictly between `a` and `b` on their common rank, file or
/// diagonal; empty when they share none.
pub fn ray_between(a: Square, b: Square) -> (m: Bitboard)
    requires
        a.on_board(),
        b.on_board(),
    ensures
        m.0 == between_mask(a.0, b.0),
{
    let ra = a.0 / 8;
    let fa = a.0 % 8;
    let rb = b.0 / 8;
    let fb = b.0 % 8;
    let dr = if rb > ra { rb - ra } else { ra - rb };
    let df = if fb > fa { fb - fa } else { fa - fb };
    if a.0 == b.0 || !(dr == 0 || df == 0 || dr == df) {
        return Bitboard(0);
    }
    let n = if dr > df { dr } else { df };
    Bitboard(walk(ra, fa, direction(ra, rb), direction(fa, fb), n - 1, 0))
}

/// The whole line through `a` and `b` from edge to edge, both squares
/// included; empty when they share no rank, file or diagonal.
pub fn ray_intersecting(a: Square, b: Square) -> (m: Bitboard)
    requires
        a.on_board(),
        b.on_board(),
    ensures
        m.0 == line_mask(a.0, b.0),
{
    let ra = a.0 / 8;
    let fa = a.0 % 8;
    let rb = b.0 / 8;
    let fb = b.0 % 8;
    let dr = if rb > ra { rb - ra } else { ra - rb };
    let df = if fb > fa { fb - fa } else { fa - fb };
    if a.0 == b.0 || !(dr == 0 || df == 0 || dr == df) {
        return Bitboard(0);
    }
    let sr = direction(ra, rb);
    let sf = direction(fa, fb);
    let n1r = room_towards(ra, sr);
    let n1f = room_towards(fa, sf);
    let n1 = if n1r < n1f { n1r } else { n1f };
    let n2r = room_towards(ra, -sr);
    let n2f = room_towards(fa, -sf);
    let n2 = if n2r < n2f { n2r } else { n2f };
    Bitboard((1u64 << (a.0 as u64)) | walk(ra, fa, sr, sf, n1, 0) | walk(ra, fa, -sr, -sf, n2, 0))
}

/// The two kinds of line for every pair of squares, worked out once.
pub struct RayTables {
    pub between: Vec<u64>,
    pub intersecting: Vec<u64>,
}

impl RayTables {
    /// Whether the tables hold, for each pair of squares `a` and `b` at
    /// place `a * 64 + b`, what lies between them and the line through them.
    pub open spec fn wf(self) -> bool {
        &&& self.between@.len() == 4096
        &&& self.intersecting@.len() == 4096
        &&& forall|a: u8, b: u8|
            a < 64 && b < 64 ==> #[trigger] self.between@[a * 64 + b] == between_mask(a, b)
        &&& forall|a: u8, b: u8|
            a < 64 && b < 64 ==> #[trigger] self.intersecting@[a * 64 + b] == line_mask(a, b)
    }

    /// The squares strictly between `a` and `b`, looked up.
    pub fn between(&self, a: Square, b: Square) -> (m: Bitboard)
        requires
            self.wf(),
            a.on_board(),
            b.on_board(),
        ensures
            m.0 == between_mask(a.0, b.0),
    {
        Bitboard(self.between[a.0 as usize * 64 + b.0 as usize])
    }

    /// The whole line through `a` and `b`, looked up.
    pub fn intersecting(&self, a: Square, b: Square) -> (m: Bitboard)
        requires
            self.wf(),
            a.on_board(),
            b.on_board(),
        ensures
            m.0 == line_mask(a.0, b.0),
    {
        Bitboard(self.intersecting[a.0 as usize * 64 + b.0 as usize])
    }
}

/// Works out the tables of lines for every pair of squares.
pub fn init_ray_tables() -> (t: RayTables)
    ensures
        t.wf(),
{
    let mut between: Vec<u64> = Vec::new();
    let mut intersecting: Vec<u64> = Vec::new();
    let mut i: usize = 0;
    while i < 4096
        invariant
            i <= 4096,
            between@.len() == i,
            intersecting@.len() == i,
            forall|j: int|
                0 <= j < i ==> #[trigger] between@[j] == between_mask((j / 64) as u8, (j % 64) as u8),
            forall|j: int|
                0 <= j < i ==> #[trigger] intersecting@[j] == line_mask(
                    (j / 64) as u8,
                    (j % 64) as u8,
                ),
        decreases 4096 - i,
    {
        let a = Square((i / 64) as u8);
        let b = Square((i % 64) as u8);
        between.push(ray_between(a, b).0);
        intersecting.push(ray_intersecting(a, b).0);
        i += 1;
    }
    proof {
        assert forall|a: u8, b: u8| a < 64 && b < 64 implies #[trigger] between@[a * 64 + b]
            == between_mask(a, b) by {
            let j = a * 64 + b;
            assert(j / 64 == a && j % 64 == b);
        }
        assert forall|a: u8, b: u8| a < 64 && b < 64 implies #[trigger] intersecting@[a * 64 + b]
            == line_mask(a, b) by {
            let j = a * 64 + b;
            assert(j / 64 == a && j % 64 == b);
        }
    }
    RayTables { between, intersecting }
}

} // verus!
