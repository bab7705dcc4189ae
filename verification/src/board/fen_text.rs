//! The text form of a position: what a record in Forsyth-Edwards notation
//! says, read off its bytes.

use vstd::prelude::*;
use crate::types::piece::NO_PIECE;
use crate::types::square::NO_SQUARE;

verus! {

/// Why a record could not be loaded.
#[derive(Debug, Copy, Clone, PartialEq, Eq, Structural)]
pub enum FenError {
    /// A field that must be there is not.
    MissingField,
    /// The placement has a byte that is neither a piece letter, a digit nor
    /// a slash.
    BadPiece,
    /// The placement names more than 64 squares.
    TooManySquares,
    /// The castling field has a byte other than `K`, `Q`, `k`, `q` and `-`.
    BadCastling,
    /// The last field is not a number that fits the ply counter.
    BadCounter,
    /// The record is well written but describes no sound position: a side
    /// without exactly one king, a castling right without king and rook at
    /// home, or an en-passant square without a pawn behind it.
    Unsound,
}

/// What a record says: the code on each of the 64 squares, the side to move,
/// the castling rights, the en-passant square (64 for none) and the ply
/// counter where the record has one.
pub struct FenRecord {
    pub mailbox: Seq<u8>,
    pub ctm: u8,
    pub castling: u8,
    pub ep: u8,
    pub ply: Option<i16>,
}

/// Whether a byte separates fields: space, tab, line feed, form feed or
/// carriage return.
pub open spec fn is_space(b: u8) -> bool {
    b == 32 || b == 9 || b == 10 || b == 12 || b == 13
}

/// The first place at or after `i` that holds no separator, or the length.
pub open spec fn skip_spaces(s: Seq<u8>, i: int) -> int
    decreases s.len() - i,
{
    if 0 <= i < s.len() && is_space(s[i]) {
        skip_spaces(s, i + 1)
    } else {
        i
    }
}

/// The first place at or after `i` that holds a separator, or the length.
pub open spec fn field_end(s: Seq<u8>, i: int) -> int
    decreases s.len() - i,
{
    if 0 <= i < s.len() && !is_space(s[i]) {
        field_end(s, i + 1)
    } else {
        i
    }
}

/// The code that a piece letter stands for, if the byte is one.
pub open spec fn letter_code(b: u8) -> Option<u8> {
    if b == 112 {
        Some(0u8)
    } else if b == 110 {
        Some(1u8)
    } else if b == 98 {
        Some(2u8)
    } else if b == 114 {
        Some(3u8)
    } else if b == 113 {
        Some(4u8)
    } else if b == 107 {
        Some(5u8)
    } else if b == 80 {
        Some(8u8)
    } else if b == 78 {
        Some(9u8)
    } else if b == 66 {
        Some(10u8)
    } else if b == 82 {
        Some(11u8)
    } else if b == 81 {
        Some(12u8)
    } else if b == 75 {
        Some(13u8)
    } else {
        None
    }
}

/// Whether a byte is a decimal digit.
pub open spec fn is_digit(b: u8) -> bool {
    48 <= b <= 57
}

/// `n` empty squares.
pub open spec fn empties(n: nat) -> Seq<u8> {
    Seq::new(n, |i: int| NO_PIECE)
}

/// The squares that one byte of the placement stands for: one piece for a
/// letter, as many empty squares as a digit says.
pub open spec fn byte_cells(b: u8) -> Option<Seq<u8>> {
    if letter_code(b).is_some() {
        Some(seq![letter_code(b).unwrap()])
    } else if is_digit(b) {
        Some(empties((b - 48) as nat))
    } else {
        None
    }
}

/// The squares that one rank of the placement stands for, left to right.
pub open spec fn chunk_cells(chunk: Seq<u8>) -> Option<Seq<u8>>
    decreases chunk.len(),
{
    if chunk.len() == 0 {
        Some(Seq::empty())
    } else {
        match (chunk_cells(chunk.drop_last()), byte_cells(chunk.last())) {
            (Some(a), Some(b)) => Some(a + b),
            _ => None,
        }
    }
}

/// The place of the last slash of `s`, or -1.
pub open spec fn last_slash(s: Seq<u8>) -> int
    decreases s.len(),
{
    if s.len() == 0 {
        -1
    } else if s.last() == 47 {
        s.len() - 1
    } else {
        last_slash(s.drop_last())
    }
}

/// The squares that a placement stands for, from a1 on: those of its last
/// rank first, then those of the rank before it, and so on.
pub open spec fn board_cells(token: Seq<u8>) -> Option<Seq<u8>>
    decreases token.len(),
{
    let k = last_slash(token);
    if k < 0 || k >= token.len() {
        chunk_cells(token)
    } else {
        match (chunk_cells(token.subrange(k + 1, token.len() as int)), board_cells(
            token.subrange(0, k),
        )) {
            (Some(a), Some(b)) => Some(a + b),
            _ => None,
        }
    }
}

/// The rights that a castling field grants, byte by byte.
pub open spec fn rights_of(token: Seq<u8>) -> Option<u8>
    decreases token.len(),
{
    if token.len() == 0 {
        Some(0u8)
    } else {
        match rights_of(token.drop_last()) {
            Some(r) => {
                let b = token.last();
                if b == 75 {
                    Some(r | 1)
                } else if b == 81 {
                    Some(r | 2)
                } else if b == 107 {
                    Some(r | 4)
                } else if b == 113 {
                    Some(r | 8)
                } else if b == 45 {
                    Some(r)
                } else {
                    None
                }
            },
            None => None,
        }
    }
}

/// The square that an en-passant field names: a file letter and a rank
/// digit give their square (but for h8); anything else gives none.
pub open spec fn ep_of(token: Seq<u8>) -> u8 {
    if token.len() == 2 && 97 <= token[0] <= 104 && 49 <= token[1] <= 56 && !(token[0] == 104
        && token[1] == 56) {
        ((token[1] - 49) * 8 + (token[0] - 97)) as u8
    } else {
        NO_SQUARE
    }
}

/// Whether every byte is a digit.
pub open spec fn all_digits(s: Seq<u8>) -> bool {
    forall|i: int| 0 <= i < s.len() ==> is_digit(#[trigger] s[i])
}

/// The number that a run of digits stands for.
pub open spec fn digits_value(s: Seq<u8>) -> int
    decreases s.len(),
{
    if s.len() == 0 {
        0
    } else {
        digits_value(s.drop_last()) * 10 + (s.last() - 48)
    }
}

/// The number that a counter field stands for: an optional sign and at
/// least one digit, with a value that fits sixteen bits.
pub open spec fn counter_of(token: Seq<u8>) -> Option<i16> {
    let signed = token.len() > 0 && (token[0] == 45 || token[0] == 43);
    let body = if signed {
        token.subrange(1, token.len() as int)
    } else {
        token
    };
    let value = if token.len() > 0 && token[0] == 45 {
        -digits_value(body)
    } else {
        digits_value(body)
    };
    if body.len() > 0 && all_digits(body) && i16::MIN <= value <= i16::MAX {
        Some(value as i16)
    } else {
        None
    }
}

/// The squares of a placement filled up to 64 with empty squares.
pub open spec fn padded(cells: Seq<u8>) -> Seq<u8> {
    cells + empties((64 - cells.len()) as nat)
}

/// What the record in `s` says, or why it says nothing.
///
/// The fields are separated by white space. The first four must be there:
/// placement, side to move (`w` for white, anything else for black),
/// castling rights and en-passant square. Where a fifth field follows, a
/// sixth must follow it and hold the ply counter; the fifth is not read.
pub open spec fn parse_fen(s: Seq<u8>) -> Result<FenRecord, FenError> {
    let a1 = skip_spaces(s, 0);
    let b1 = field_end(s, a1);
    let a2 = skip_spaces(s, b1);
    let b2 = field_end(s, a2);
    let a3 = skip_spaces(s, b2);
    let b3 = field_end(s, a3);
    let a4 = skip_spaces(s, b3);
    let b4 = field_end(s, a4);
    let a5 = skip_spaces(s, b4);
    let b5 = field_end(s, a5);
    let a6 = skip_spaces(s, b5);
    let b6 = field_end(s, a6);
    let cells = board_cells(s.subrange(a1, b1));
    let rights = rights_of(s.subrange(a3, b3));
    if a1 == b1 || a2 == b2 || a3 == b3 || a4 == b4 {
        Err(FenError::MissingField)
    } else if cells.is_none() {
        Err(FenError::BadPiece)
    } else if cells.unwrap().len() > 64 {
        Err(FenError::TooManySquares)
    } else if rights.is_none() {
        Err(FenError::BadCastling)
    } else if a5 != b5 && a6 == b6 {
        Err(FenError::MissingField)
    } else if a5 != b5 && counter_of(s.subrange(a6, b6)).is_none() {
        Err(FenError::BadCounter)
    } else {
        Ok(
            FenRecord {
                mailbox: padded(cells.unwrap()),
                ctm: if s.subrange(a2, b2) == seq![119u8] {
                    1
                } else {
                    0
                },
                castling: rights.unwrap(),
                ep: ep_of(s.subrange(a4, b4)),
                ply: if a5 != b5 {
                    counter_of(s.subrange(a6, b6))
                } else {
                    None
                },
            },
        )
    }
}

} // verus!
