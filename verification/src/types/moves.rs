//! Moves, packed into sixteen bits: the flag in the top four, the
//! destination in the next six, the origin in the low six.

use vstd::prelude::*;

verus! {

pub const FLAG_NORMAL: u8 = 0;

pub const FLAG_WK_CASTLE: u8 = 1;

pub const FLAG_WQ_CASTLE: u8 = 2;

pub const FLAG_BK_CASTLE: u8 = 3;

pub const FLAG_BQ_CASTLE: u8 = 4;

pub const FLAG_EN_PASSANT: u8 = 5;

pub const FLAG_DOUBLE_PUSH: u8 = 6;

pub const FLAG_KNIGHT_PROMO: u8 = 7;

pub const FLAG_BISHOP_PROMO: u8 = 8;

pub const FLAG_ROOK_PROMO: u8 = 9;

pub const FLAG_QUEEN_PROMO: u8 = 10;

/// What kind of move a move is, in the order of the flag codes.
#[derive(Debug, Copy, Clone, PartialEq, Eq, Structural)]
pub enum Flag {
    Normal,
    WKCastle,
    WQCastle,
    BKCastle,
    BQCastle,
    EnPassant,
    DoublePush,
    KnightPromo,
    BishopPromo,
    RookPromo,
    QueenPromo,
}

impl Flag {
    /// The code of the flag.
    pub open spec fn code(self) -> u8 {
        match self {
            Flag::Normal => FLAG_NORMAL,
            Flag::WKCastle => FLAG_WK_CASTLE,
            Flag::WQCastle => FLAG_WQ_CASTLE,
            Flag::BKCastle => FLAG_BK_CASTLE,
            Flag::BQCastle => FLAG_BQ_CASTLE,
            Flag::EnPassant => FLAG_EN_PASSANT,
            Flag::DoublePush => FLAG_DOUBLE_PUSH,
            Flag::KnightPromo => FLAG_KNIGHT_PROMO,
            Flag::BishopPromo => FLAG_BISHOP_PROMO,
            Flag::RookPromo => FLAG_ROOK_PROMO,
            Flag::QueenPromo => FLAG_QUEEN_PROMO,
        }
    }

    /// The flag with the given code.
    pub fn from_u8(value: u8) -> (f: Flag)
        requires
            value <= FLAG_QUEEN_PROMO,
        ensures
            f.code() == value,
    {
        if value == 0 {
            Flag::Normal
        } else if value == 1 {
            Flag::WKCastle
        } else if value == 2 {
            Flag::WQCastle
        } else if value == 3 {
            Flag::BKCastle
        } else if value == 4 {
            Flag::BQCastle
        } else if value == 5 {
            Flag::EnPassant
        } else if value == 6 {
            Flag::DoublePush
        } else if value == 7 {
            Flag::KnightPromo
        } else if value == 8 {
            Flag::BishopPromo
        } else if value == 9 {
            Flag::RookPromo
        } else {
            Flag::QueenPromo
        }
    }

    /// The code of the flag.
    pub fn to_u8(self) -> (c: u8)
        ensures
            c == self.code(),
            c <= FLAG_QUEEN_PROMO,
    {
        match self {
            Flag::Normal => FLAG_NORMAL,
            Flag::WKCastle => FLAG_WK_CASTLE,
            Flag::WQCastle => FLAG_WQ_CASTLE,
            Flag::BKCastle => FLAG_BK_CASTLE,
            Flag::BQCastle => FLAG_BQ_CASTLE,
            Flag::EnPassant => FLAG_EN_PASSANT,
            Flag::DoublePush => FLAG_DOUBLE_PUSH,
            Flag::KnightPromo => FLAG_KNIGHT_PROMO,
            Flag::BishopPromo => FLAG_BISHOP_PROMO,
            Flag::RookPromo => FLAG_ROOK_PROMO,
            Flag::QueenPromo => FLAG_QUEEN_PROMO,
        }
    }
}

/// A move in its packed form. The null move is all zeros.
#[derive(Debug, Copy, Clone, PartialEq, Eq, Structural)]
pub struct Move(pub u16);

/// The packed form of the move from `from` to `to` with flag code `flag`.
pub open spec fn pack(from: u8, to: u8, flag: u8) -> u16 {
    ((flag as u16) << 12) | ((to as u16) << 6) | (from as u16)
}

/// Packing keeps the three parts apart: each is read back as it went in.
pub proof fn lemma_pack(from: u8, to: u8, flag: u8)
    requires
        from < 64,
        to < 64,
        flag < 16,
    ensures
        Move(pack(from, to, flag)).spec_from() == from,
        Move(pack(from, to, flag)).spec_to() == to,
        Move(pack(from, to, flag)).flag_code() == flag,
{
    let a = from as u16;
    let b = to as u16;
    let c = flag as u16;
    assert({
        let m = (c << 12) | (b << 6) | a;
        m & 63 == a && (m >> 6) & 63 == b && m >> 12 == c
    }) by (bit_vector)
        requires
            a < 64,
            b < 64,
            c < 16,
    ;
}

pub proof fn lemma_fields_bounded(m: u16)
    ensures
        m & 63 < 64,
        (m >> 6) & 63 < 64,
        m >> 12 < 16,
{
    assert(m & 63 < 64 && (m >> 6) & 63 < 64 && m >> 12 < 16) by (bit_vector);
}

impl Move {
    /// The origin square.
    pub open spec fn spec_from(self) -> u8 {
        (self.0 & 63) as u8
    }

    /// The destination square.
    pub open spec fn spec_to(self) -> u8 {
        ((self.0 >> 6) & 63) as u8
    }

    /// The flag code.
    pub open spec fn flag_code(self) -> u8 {
        (self.0 >> 12) as u8
    }

    /// Whether the flag code is one of the eleven that name a kind of move.
    pub open spec fn has_flag(self) -> bool {
        self.flag_code() <= FLAG_QUEEN_PROMO
    }

    /// Packs a move. Nothing is checked: parts that are too large run into
    /// one another.
    pub fn new_unchecked(from: u8, to: u8, flag: u8) -> (m: Move)
        ensures
            m.0 == pack(from, to, flag),
            from < 64 && to < 64 && flag < 16 ==> m.spec_from() == from && m.spec_to() == to
                && m.flag_code() == flag,
    {
        proof {
            if from < 64 && to < 64 && flag < 16 {
                lemma_pack(from, to, flag);
            }
        }
        Move(((flag as u16) << 12) | ((to as u16) << 6) | (from as u16))
    }

    /// The null move: all zeros.
    pub fn null() -> (m: Move)
        ensures
            m.0 == 0,
    {
        Move(0)
    }

    /// The origin square.
    pub fn from(&self) -> (s: u8)
        ensures
            s == self.spec_from(),
            s < 64,
    {
        proof {
            lemma_fields_bounded(self.0);
        }
        (self.0 & 63) as u8
    }

    /// The destination square.
    pub fn to(&self) -> (s: u8)
        ensures
            s == self.spec_to(),
            s < 64,
    {
        proof {
            lemma_fields_bounded(self.0);
        }
        ((self.0 >> 6) & 63) as u8
    }

    /// The kind of move.
    pub fn flag(&self) -> (f: Flag)
        requires
            self.has_flag(),
        ensures
            f.code() == self.flag_code(),
    {
        proof {
            lemma_fields_bounded(self.0);
        }
        Flag::from_u8((self.0 >> 12) as u8)
    }

    /// Whether the move promotes a pawn.
    pub fn is_promotion(&self) -> (b: bool)
        requires
            self.has_flag(),
        ensures
            b == (self.flag_code() >= FLAG_KNIGHT_PROMO),
    {
        proof {
            lemma_fields_bounded(self.0);
        }
        (self.0 >> 12) as u8 >= FLAG_KNIGHT_PROMO
    }
}

} // verus!
