//! Moves as text, and moves in the packed form of game records.

use vstd::prelude::*;
use vstd::string::StringSliceAdditionalSpecFns;
use crate::board::fen_write::{as_chars, put};
use crate::board::position::Position;
use crate::board::stack::Board;
use crate::types::moves::{
    lemma_fields_bounded, pack, Move, FLAG_BISHOP_PROMO, FLAG_BK_CASTLE, FLAG_BQ_CASTLE,
    FLAG_DOUBLE_PUSH, FLAG_EN_PASSANT, FLAG_KNIGHT_PROMO, FLAG_NORMAL, FLAG_QUEEN_PROMO,
    FLAG_ROOK_PROMO, FLAG_WK_CASTLE, FLAG_WQ_CASTLE,
};
use crate::types::piece::{NO_PIECE, PAWN};
use crate::types::square::Square;

verus! {

/// The square that a file letter and a rank digit name, if they are such.
pub open spec fn square_of(file: u8, rank: u8) -> Option<u8> {
    if 97 <= file <= 104 && 49 <= rank <= 56 {
        Some(((rank - 49) * 8 + (file - 97)) as u8)
    } else {
        None
    }
}

/// The promotion flag that a letter names, if it names one.
pub open spec fn promo_of(letter: u8) -> Option<u8> {
    if letter == 110 {
        Some(FLAG_KNIGHT_PROMO)
    } else if letter == 98 {
        Some(FLAG_BISHOP_PROMO)
    } else if letter == 114 {
        Some(FLAG_ROOK_PROMO)
    } else if letter == 113 {
        Some(FLAG_QUEEN_PROMO)
    } else {
        None
    }
}

/// The flag of a move without promotion from `from` to `to` in position
/// `p`: a castling flag for the king's two-square move where the right
/// stands, en passant for a pawn that goes to the en-passant square, double
/// push for a pawn that goes two ranks, else normal.
pub open spec fn plain_flag(p: Position, from: u8, to: u8) -> u8 {
    let pawn = p.mailbox[from as int] % 8 == PAWN;
    let far = if from > to {
        from - to
    } else {
        to - from
    };
    if p.castling & 1 != 0 && from == 4 && to == 6 {
        FLAG_WK_CASTLE
    } else if p.castling & 2 != 0 && from == 4 && to == 2 {
        FLAG_WQ_CASTLE
    } else if p.castling & 4 != 0 && from == 60 && to == 62 {
        FLAG_BK_CASTLE
    } else if p.castling & 8 != 0 && from == 60 && to == 58 {
        FLAG_BQ_CASTLE
    } else if pawn && to == p.ep_index.0 {
        FLAG_EN_PASSANT
    } else if pawn && far == 16 {
        FLAG_DOUBLE_PUSH
    } else {
        FLAG_NORMAL
    }
}

/// The move that a text names in position `p`: origin and destination as
/// squares, and a fifth letter for the piece a pawn promotes to. `None`
/// where the text is no such thing.
pub open spec fn move_of_text(text: Seq<u8>, p: Position) -> Option<Move> {
    if text.len() != 4 && text.len() != 5 {
        None
    } else {
        match (square_of(text[0], text[1]), square_of(text[2], text[3])) {
            (Some(from), Some(to)) => {
                if text.len() == 5 {
                    match promo_of(text[4]) {
                        Some(flag) => Some(Move(pack(from, to, flag))),
                        None => None,
                    }
                } else {
                    Some(Move(pack(from, to, plain_flag(p, from, to))))
                }
            },
            _ => None,
        }
    }
}

/// The name of a square: file letter and rank digit.
pub open spec fn square_text(sq: u8) -> Seq<u8> {
    seq![(97 + sq % 8) as u8, (49 + sq / 8) as u8]
}

/// The text of a move: origin, destination, and a letter for the piece a
/// pawn promotes to.
pub open spec fn move_text(m: Move) -> Seq<u8> {
    let squares = square_text(m.spec_from()) + square_text(m.spec_to());
    let flag = m.flag_code();
    if flag == FLAG_KNIGHT_PROMO {
        squares.push(110)
    } else if flag == FLAG_BISHOP_PROMO {
        squares.push(98)
    } else if flag == FLAG_ROOK_PROMO {
        squares.push(114)
    } else if flag == FLAG_QUEEN_PROMO {
        squares.push(113)
    } else {
        squares
    }
}

/// The decimal digits of `n`.
pub open spec fn decimal(n: nat) -> Seq<u8>
    decreases n,
{
    if n < 10 {
        seq![(48 + n) as u8]
    } else {
        decimal(n / 10).push((48 + n % 10) as u8)
    }
}

/// The kind of move in the packed form of game records: 1 for a double
/// push, 2 and 3 for castling short and long, 5 for en passant, 8 to 11 for
/// the promotions, 0 else; and 4 more where the destination is occupied.
pub open spec fn record_flag(m: Move, p: Position) -> u16 {
    let flag = m.flag_code();
    let kind: u16 = if flag == FLAG_DOUBLE_PUSH {
        1
    } else if flag == FLAG_WK_CASTLE || flag == FLAG_BK_CASTLE {
        2
    } else if flag == FLAG_WQ_CASTLE || flag == FLAG_BQ_CASTLE {
        3
    } else if flag == FLAG_EN_PASSANT {
        5
    } else if flag == FLAG_KNIGHT_PROMO {
        8
    } else if flag == FLAG_BISHOP_PROMO {
        9
    } else if flag == FLAG_ROOK_PROMO {
        10
    } else if flag == FLAG_QUEEN_PROMO {
        11
    } else {
        0
    };
    if p.mailbox[m.spec_to() as int] != NO_PIECE {
        (kind + 4) as u16
    } else {
        kind
    }
}

/// Appends the decimal digits of `n`.
fn write_decimal(n: u16, out: &mut String, Ghost(pre): Ghost<Seq<u8>>)
    requires
        old(out)@ == as_chars(pre),
    ensures
        final(out)@ == as_chars(pre + decimal(n as nat)),
    decreases n,
{
    if n < 10 {
        put(out, 48 + n as u8, Ghost(pre));
        proof {
            assert(pre.push((48 + n) as u8) =~= pre + decimal(n as nat));
        }
    } else {
        write_decimal(n / 10, out, Ghost(pre));
        put(out, 48 + (n % 10) as u8, Ghost(pre + decimal((n / 10) as nat)));
        proof {
            assert((pre + decimal((n / 10) as nat)).push((48 + n % 10) as u8) =~= pre + decimal(
                n as nat,
            ));
        }
    }
}

/// The square that a file letter and a rank digit name.
fn read_square(file: u8, rank: u8) -> (sq: Option<u8>)
    ensures
        sq == square_of(file, rank),
        sq.is_some() ==> sq.unwrap() < 64,
{
    if 97 <= file && file <= 104 && 49 <= rank && rank <= 56 {
        Some((rank - 49) * 8 + (file - 97))
    } else {
        None
    }
}

impl Move {
    /// The move in the packed form of game records: origin in the top six
    /// bits, destination in the next six, kind in the low four.
    pub fn to_mf(&self, position: &Position) -> (r: u16)
        ensures
            r == ((self.spec_from() as u16) << 10) | ((self.spec_to() as u16) << 4) | record_flag(
                *self,
                *position,
            ),
    {
        let from = self.from();
        let to = self.to();
        let flag = (self.0 >> 12) as u8;
        proof {
            lemma_fields_bounded(self.0);
        }
        let mut kind: u16 = if flag == FLAG_DOUBLE_PUSH {
            1
        } else if flag == FLAG_WK_CASTLE || flag == FLAG_BK_CASTLE {
            2
        } else if flag == FLAG_WQ_CASTLE || flag == FLAG_BQ_CASTLE {
            3
        } else if flag == FLAG_EN_PASSANT {
            5
        } else if flag == FLAG_KNIGHT_PROMO {
            8
        } else if flag == FLAG_BISHOP_PROMO {
            9
        } else if flag == FLAG_ROOK_PROMO {
            10
        } else if flag == FLAG_QUEEN_PROMO {
            11
        } else {
            0
        };
        if position.mailbox[to as usize] != NO_PIECE {
            kind += 4;
        }
        ((from as u16) << 10) | ((to as u16) << 4) | kind
    }

    /// The move that `text` names on `board`, or `None` where the text names
    /// none: it must hold two squares, and may hold a fifth letter, one of
    /// `n`, `b`, `r` and `q`.
    pub fn from_text(text: &str, board: &Board) -> (r: Option<Move>)
        requires
            board.states@.len() > 0,
        ensures
            r == move_of_text(text.spec_bytes(), board.top()),
    {
        let bytes = text.as_bytes();
        let state = board.current_state();
        if bytes.len() != 4 && bytes.len() != 5 {
            return None;
        }
        let (from, to) = match (read_square(bytes[0], bytes[1]), read_square(bytes[2], bytes[3])) {
            (Some(from), Some(to)) => (from, to),
            _ => {
                return None;
            },
        };
        if bytes.len() == 5 {
            let letter = bytes[4];
            let flag = if letter == 110 {
                FLAG_KNIGHT_PROMO
            } else if letter == 98 {
                FLAG_BISHOP_PROMO
            } else if letter == 114 {
                FLAG_ROOK_PROMO
            } else if letter == 113 {
                FLAG_QUEEN_PROMO
            } else {
                return None;
            };
            return Some(Move::new_unchecked(from, to, flag));
        }
        let pawn = state.mailbox[from as usize] % 8 == PAWN;
        let far = if from > to { from - to } else { to - from };
        let castling = state.castling;
        let flag = if castling & 1 != 0 && from == 4 && to == 6 {
            FLAG_WK_CASTLE
        } else if castling & 2 != 0 && from == 4 && to == 2 {
            FLAG_WQ_CASTLE
        } else if castling & 4 != 0 && from == 60 && to == 62 {
            FLAG_BK_CASTLE
        } else if castling & 8 != 0 && from == 60 && to == 58 {
            FLAG_BQ_CASTLE
        } else if pawn && to == state.ep_index.0 {
            FLAG_EN_PASSANT
        } else if pawn && far == 16 {
            FLAG_DOUBLE_PUSH
        } else {
            FLAG_NORMAL
        };
        Some(Move::new_unchecked(from, to, flag))
    }

    /// The packed form of the move as a decimal number.
    pub fn to_other_string(&self) -> (out: String)
        ensures
            out@ == as_chars(decimal(self.0 as nat)),
    {
        let mut out = String::new();
        let ghost none: Seq<u8> = Seq::empty();
        assert(out@ =~= as_chars(none));
        write_decimal(self.0, &mut out, Ghost(none));
        assert(none + decimal(self.0 as nat) =~= decimal(self.0 as nat));
        out
    }

    /// The move as text: the names of origin and destination, and a letter
    /// for the piece a pawn promotes to.
    pub fn to_string(&self) -> (out: String)
        ensures
            out@ == as_chars(move_text(*self)),
    {
        let from = self.from();
        let to = self.to();
        let flag = (self.0 >> 12) as u8;
        let mut out = String::new();
        let ghost none: Seq<u8> = Seq::empty();
        assert(out@ =~= as_chars(none));
        put(&mut out, 97 + from % 8, Ghost(none));
        let ghost a = none.push((97 + from % 8) as u8);
        put(&mut out, 49 + from / 8, Ghost(a));
        let ghost b = a.push((49 + from / 8) as u8);
        put(&mut out, 97 + to % 8, Ghost(b));
        let ghost c = b.push((97 + to % 8) as u8);
        put(&mut out, 49 + to / 8, Ghost(c));
        let ghost d = c.push((49 + to / 8) as u8);
        proof {
            assert(d =~= square_text(from) + square_text(to));
        }
        if flag == FLAG_KNIGHT_PROMO {
            put(&mut out, 110, Ghost(d));
        } else if flag == FLAG_BISHOP_PROMO {
            put(&mut out, 98, Ghost(d));
        } else if flag == FLAG_ROOK_PROMO {
            put(&mut out, 114, Ghost(d));
        } else if flag == FLAG_QUEEN_PROMO {
            put(&mut out, 113, Ghost(d));
        }
        out
    }
}

} // verus!
