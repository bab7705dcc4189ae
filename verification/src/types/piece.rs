//! Pieces as four-bit codes: `color * 8 + kind`.

use vstd::prelude::*;

verus! {

pub const PAWN: u8 = 0;

pub const KNIGHT: u8 = 1;

pub const BISHOP: u8 = 2;

pub const ROOK: u8 = 3;

pub const QUEEN: u8 = 4;

pub const KING: u8 = 5;

/// The kind that stands for "no piece".
pub const NO_PIECE: u8 = 6;

pub const BLACK: u8 = 0;

pub const WHITE: u8 = 1;

/// The kinds of piece, in the order of their codes.
#[derive(Debug, Copy, Clone, PartialEq, Eq, Structural)]
pub enum Types {
    Pawn,
    Knight,
    Bishop,
    Rook,
    Queen,
    King,
    Empty,
}

/// The two sides, in the order of their codes.
#[derive(Debug, Copy, Clone, PartialEq, Eq, Structural)]
pub enum Colors {
    Black,
    White,
    Neither,
}

impl Types {
    /// The code of this kind.
    pub open spec fn code(self) -> u8 {
        match self {
            Types::Pawn => PAWN,
            Types::Knight => KNIGHT,
            Types::Bishop => BISHOP,
            Types::Rook => ROOK,
            Types::Queen => QUEEN,
            Types::King => KING,
            Types::Empty => NO_PIECE,
        }
    }

    /// The code of this kind.
    pub fn to_u8(self) -> (c: u8)
        ensures
            c == self.code(),
    {
        match self {
            Types::Pawn => PAWN,
            Types::Knight => KNIGHT,
            Types::Bishop => BISHOP,
            Types::Rook => ROOK,
            Types::Queen => QUEEN,
            Types::King => KING,
            Types::Empty => NO_PIECE,
        }
    }
}

impl Colors {
    /// The code of this side; 2 for `Neither`.
    pub open spec fn code(self) -> u8 {
        match self {
            Colors::Black => BLACK,
            Colors::White => WHITE,
            Colors::Neither => 2,
        }
    }

    /// The code of this side; 2 for `Neither`.
    pub fn to_u8(self) -> (c: u8)
        ensures
            c == self.code(),
    {
        match self {
            Colors::Black => BLACK,
            Colors::White => WHITE,
            Colors::Neither => 2,
        }
    }
}

/// A piece code. The low three bits hold the kind, the bit above them the
/// side. The code 6 stands for an empty square.
#[derive(Debug, Copy, Clone, PartialEq, Eq, Structural)]
pub struct Piece(pub u8);

/// The code of the piece of kind `kind` and side `color`.
pub open spec fn piece_code(kind: u8, color: u8) -> u8 {
    (color * 8 + kind) as u8
}

/// Whether a code names a piece of one of the two sides.
pub open spec fn is_piece_code(code: u8) -> bool {
    code % 8 < 6 && code / 8 < 2
}

impl Piece {
    /// The side of the piece.
    pub open spec fn spec_color(self) -> u8 {
        self.0 / 8
    }

    /// The kind of the piece.
    pub open spec fn spec_piece(self) -> u8 {
        self.0 % 8
    }

    /// Whether this is a piece rather than an empty square or a stray code.
    pub open spec fn is_real(self) -> bool {
        is_piece_code(self.0)
    }

    /// The side of the piece: the bits above the low three.
    #[verifier::when_used_as_spec(spec_color)]
    pub fn color(self) -> (c: u8)
        ensures
            c == self.spec_color(),
            c == self.0 >> 3,
    {
        let v = self.0;
        assert(v >> 3 == v / 8) by (bit_vector);
        v >> 3
    }

    /// The kind of the piece: the low three bits.
    #[verifier::when_used_as_spec(spec_piece)]
    pub fn piece(self) -> (p: u8)
        ensures
            p == self.spec_piece(),
            p == self.0 & 7,
    {
        let v = self.0;
        assert(v & 7 == v % 8) by (bit_vector);
        v & 7
    }

    /// The piece of the given kind and side.
    pub fn new_unchecked(piece: u8, color: u8) -> (p: Piece)
        requires
            piece < 6,
            color < 2,
        ensures
            p.0 == piece_code(piece, color),
            p.0 == (color << 3) | piece,
            p.spec_piece() == piece,
            p.spec_color() == color,
            p.is_real(),
    {
        assert(piece < 6 && color < 2 ==> (color << 3) | piece == color * 8 + piece)
            by (bit_vector);
        Piece((color << 3) | piece)
    }

    /// The code of an empty square.
    pub fn none() -> (p: Piece)
        ensures
            p.0 == NO_PIECE,
            !p.is_real(),
    {
        Piece(NO_PIECE)
    }

    /// The letter that stands for the piece in a board diagram: lower case
    /// for black, upper case for white, a blank for anything else.
    pub open spec fn letter(self) -> char {
        if is_piece_code(self.0) {
            piece_letter(self.0 % 8, self.0 / 8)
        } else {
            ' '
        }
    }

    /// The letter that stands for the piece in a board diagram.
    pub fn to_char(self) -> (c: char)
        ensures
            c == self.letter(),
    {
        let kind = self.0 % 8;
        let white = self.0 / 8 == 1;
        if self.0 / 8 >= 2 {
            ' '
        } else if kind == PAWN {
            if white { 'P' } else { 'p' }
        } else if kind == KNIGHT {
            if white { 'N' } else { 'n' }
        } else if kind == BISHOP {
            if white { 'B' } else { 'b' }
        } else if kind == ROOK {
            if white { 'R' } else { 'r' }
        } else if kind == QUEEN {
            if white { 'Q' } else { 'q' }
        } else if kind == KING {
            if white { 'K' } else { 'k' }
        } else {
            ' '
        }
    }
}

/// The letter of a piece of kind `kind` (below 6) and side `color` (below 2).
pub open spec fn piece_letter(kind: u8, color: u8) -> char {
    if color == WHITE {
        if kind == PAWN {
            'P'
        } else if kind == KNIGHT {
            'N'
        } else if kind == BISHOP {
            'B'
        } else if kind == ROOK {
            'R'
        } else if kind == QUEEN {
            'Q'
        } else {
            'K'
        }
    } else {
        if kind == PAWN {
            'p'
        } else if kind == KNIGHT {
            'n'
        } else if kind == BISHOP {
            'b'
        } else if kind == ROOK {
            'r'
        } else if kind == QUEEN {
            'q'
        } else {
            'k'
        }
    }
}

} // verus!
