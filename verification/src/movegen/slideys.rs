//! Rook and bishop attacks: rays that run from a square until the edge of the
//! board or the first occupied square.

use vstd::prelude::*;
use crate::bits::{bit, sq_bit};
use crate::types::bitboard::Bitboard;
use crate::types::square::Square;

verus! {

/// How many steps lead from coordinate `x` to the edge in direction `d`.
pub open spec fn room(x: int, d: int) -> int {
    if d > 0 {
        7 - x
    } else if d < 0 {
        x
    } else {
        7
    }
}

/// How many steps lead from rank `r`, file `f` to the edge of the board in
/// direction `(dr, df)`.
pub open spec fn reach(r: int, f: int, dr: int, df: int) -> int {
    if room(r, dr) < room(f, df) {
        room(r, dr)
    } else {
        room(f, df)
    }
}

/// The squares passed when walking from rank `r`, file `f` in direction
/// `(dr, df)` for at most `n` steps, stopping on the first square that is a
/// member of `occ`. The start is not part of the walk; the stopping square is.
pub open spec fn slide(r: int, f: int, dr: int, df: int, n: nat, occ: u64) -> u64
    decreases n,
{
    if n == 0 {
        0
    } else {
        let t = ((r + dr) * 8 + (f + df)) as u8;
        if bit(occ, t) {
            sq_bit(t)
        } else {
            sq_bit(t) | slide(r + dr, f + df, dr, df, (n - 1) as nat, occ)
        }
    }
}

/// The squares a rook on `sq` attacks when the squares of `occ` are
/// occupied: the four walks along its rank and file.
pub open spec fn rook_mask(sq: u8, occ: u64) -> u64 {
    let r = (sq / 8) as int;
    let f = (sq % 8) as int;
    slide(r, f, 1, 0, (7 - r) as nat, occ) | slide(r, f, -1, 0, r as nat, occ) | slide(
        r,
        f,
        0,
        1,
        (7 - f) as nat,
        occ,
    ) | slide(r, f, 0, -1, f as nat, occ)
}

/// The squares a bishop on `sq` attacks when the squares of `occ` are
/// occupied: the four walks along its diagonals.
pub open spec fn bishop_mask(sq: u8, occ: u64) -> u64 {
    let r = (sq / 8) as int;
    let f = (sq % 8) as int;
    slide(r, f, 1, 1, reach(r, f, 1, 1) as nat, occ) | slide(
        r,
        f,
        1,
        -1,
        reach(r, f, 1, -1) as nat,
        occ,
    ) | slide(r, f, -1, 1, reach(r, f, -1, 1) as nat, occ) | slide(
        r,
        f,
        -1,
        -1,
        reach(r, f, -1, -1) as nat,
        occ,
    )
}

/// One coordinate moved by one step in direction `d`.
fn step(x: u8, d: i8) -> (y: u8)
    requires
        -1 <= d <= 1,
        0 <= x + d <= 7,
    ensures
        y == x + d,
{
    if d == 1 {
        x + 1
    } else if d == -1 {
        x - 1
    } else {
        x
    }
}

/// How many steps lead from coordinate `x` to the edge in direction `d`.
fn room_of(x: u8, d: i8) -> (n: u8)
    requires
        x < 8,
    ensures
        n == room(x as int, d as int),
{
    if d > 0 {
        7 - x
    } else if d < 0 {
        x
    } else {
        7
    }
}

/// Walks from rank `r`, file `f` in direction `(dr, df)` for at most `n`
/// steps and collects the squares passed, the first occupied one included.
pub fn walk(r: u8, f: u8, dr: i8, df: i8, n: u8, occ: u64) -> (m: u64)
    requires
        r < 8,
        f < 8,
        -1 <= dr <= 1,
        -1 <= df <= 1,
        n <= reach(r as int, f as int, dr as int, df as int),
    ensures
        m == slide(r as int, f as int, dr as int, df as int, n as nat, occ),
    decreases n,
{
    if n == 0 {
        0
    } else {
        let r1 = step(r, dr);
        let f1 = step(f, df);
        let t = r1 * 8 + f1;
        let b = 1u64 << (t as u64);
        if (occ >> (t as u64)) & 1 == 1 {
            b
        } else {
            b | walk(r1, f1, dr, df, n - 1, occ)
        }
    }
}

/// Walks from `sq` in direction `(dr, df)` up to the edge of the board.
fn ray(sq: u8, dr: i8, df: i8, occ: u64) -> (m: u64)
    requires
        sq < 64,
        -1 <= dr <= 1,
        -1 <= df <= 1,
    ensures
        m == slide(
            (sq / 8) as int,
            (sq % 8) as int,
            dr as int,
            df as int,
            reach((sq / 8) as int, (sq % 8) as int, dr as int, df as int) as nat,
            occ,
        ),
{
    let r = sq / 8;
    let f = sq % 8;
    let a = room_of(r, dr);
    let b = room_of(f, df);
    let n = if a < b { a } else { b };
    walk(r, f, dr, df, n, occ)
}

/// The squares a bishop on `sq` attacks when the squares of `occ` are occupied.
pub fn get_bishop_attacks(sq: Square, occ: Bitboard) -> (b: Bitboard)
    requires
        sq.on_board(),
    ensures
        b.0 == bishop_mask(sq.0, occ.0),
{
    Bitboard(
        ray(sq.0, 1, 1, occ.0) | ray(sq.0, 1, -1, occ.0) | ray(sq.0, -1, 1, occ.0) | ray(
            sq.0,
            -1,
            -1,
            occ.0,
        ),
    )
}

/// The squares a rook on `sq` attacks when the squares of `occ` are occupied.
pub fn get_rook_attacks(sq: Square, occ: Bitboard) -> (b: Bitboard)
    requires
        sq.on_board(),
    ensures
        b.0 == rook_mask(sq.0, occ.0),
{
    Bitboard(
        ray(sq.0, 1, 0, occ.0) | ray(sq.0, -1, 0, occ.0) | ray(sq.0, 0, 1, occ.0) | ray(
            sq.0,
            0,
            -1,
            occ.0,
        ),
    )
}

} // verus!
