//! Loading a position from its text form.

use vstd::prelude::*;
use vstd::string::StringSliceAdditionalSpecFns;
use crate::bits::lemma_bit_ops;
use crate::board::fen_read::{
    end_of_field, read_board, read_counter, read_ep, read_rights, skip,
};
use crate::board::fen_text::{
    board_cells, byte_cells, chunk_cells, empties, last_slash, padded, parse_fen, FenError,
    FenRecord,
};
use crate::board::make::lemma_xor;
use crate::board::position::{behind, full_hash, hash_upto, Position};
use crate::board::stack::{Board, BoardView};
use crate::types::piece::{is_piece_code, piece_code, Piece, KING, NO_PIECE, PAWN};
use crate::types::square::{Square, NO_SQUARE};

verus! {

/// Whether a code is that of a piece or of an empty square.
pub open spec fn is_cell(code: u8) -> bool {
    code == NO_PIECE || is_piece_code(code)
}

/// Every square of a rank holds a piece or nothing.
pub proof fn lemma_chunk_cells_valid(chunk: Seq<u8>)
    requires
        chunk_cells(chunk).is_some(),
    ensures
        forall|i: int|
            0 <= i < chunk_cells(chunk).unwrap().len() ==> is_cell(
                #[trigger] chunk_cells(chunk).unwrap()[i],
            ),
    decreases chunk.len(),
{
    if chunk.len() > 0 {
        lemma_chunk_cells_valid(chunk.drop_last());
    }
}

/// Every square of a placement holds a piece or nothing.
pub proof fn lemma_board_cells_valid(token: Seq<u8>)
    requires
        board_cells(token).is_some(),
    ensures
        forall|i: int|
            0 <= i < board_cells(token).unwrap().len() ==> is_cell(
                #[trigger] board_cells(token).unwrap()[i],
            ),
    decreases token.len(),
{
    let k = last_slash(token);
    if k < 0 || k >= token.len() {
        lemma_chunk_cells_valid(token);
    } else {
        lemma_chunk_cells_valid(token.subrange(k + 1, token.len() as int));
        lemma_board_cells_valid(token.subrange(0, k));
    }
}

/// An empty board hashes to zero.
pub proof fn lemma_hash_empty(m: Seq<u8>, n: nat)
    requires
        n <= m.len(),
        forall|j: int| 0 <= j < n ==> #[trigger] m[j] == NO_PIECE,
    ensures
        hash_upto(m, n) == 0,
    decreases n,
{
    if n > 0 {
        lemma_hash_empty(m, (n - 1) as nat);
        lemma_xor(0, 0, 0);
    }
}

impl FenRecord {
    /// Whether side `c` has exactly one king.
    pub open spec fn king_alone(self, c: u8) -> bool {
        exists|sq: int|
            0 <= sq < 64 && #[trigger] self.mailbox[sq] == piece_code(KING, c) && forall|j: int|
                0 <= j < 64 && #[trigger] self.mailbox[j] == piece_code(KING, c) ==> j == sq
    }

    /// Whether each castling right has its king and rook at home.
    pub open spec fn rights_backed(self) -> bool {
        &&& self.castling & 1 != 0 ==> self.mailbox[4] == 13 && self.mailbox[7] == 11
        &&& self.castling & 2 != 0 ==> self.mailbox[4] == 13 && self.mailbox[0] == 11
        &&& self.castling & 4 != 0 ==> self.mailbox[60] == 5 && self.mailbox[63] == 3
        &&& self.castling & 8 != 0 ==> self.mailbox[60] == 5 && self.mailbox[56] == 3
    }

    /// Whether the en-passant square, if there is one, is empty and has a
    /// pawn of the side that has just moved behind it.
    pub open spec fn ep_backed(self) -> bool {
        self.ep == NO_SQUARE || (8 <= self.ep < 56 && self.mailbox[self.ep as int] == NO_PIECE
            && self.mailbox[behind(self.ep, self.ctm) as int] == piece_code(
            PAWN,
            (1 - self.ctm) as u8,
        ))
    }

    /// Whether the record describes a sound position.
    pub open spec fn sound(self) -> bool {
        &&& self.king_alone(0)
        &&& self.king_alone(1)
        &&& self.rights_backed()
        &&& self.ep_backed()
    }
}

/// What a record says, as read.
pub struct Fields {
    pub cells: Vec<u8>,
    pub ctm: u8,
    pub castling: u8,
    pub ep: u8,
    pub ply: Option<i16>,
}

impl View for Fields {
    type V = FenRecord;

    open spec fn view(&self) -> FenRecord {
        FenRecord {
            mailbox: self.cells@,
            ctm: self.ctm,
            castling: self.castling,
            ep: self.ep,
            ply: self.ply,
        }
    }
}

/// Reads the record in `bytes`.
pub fn read_fen(bytes: &[u8]) -> (r: Result<Fields, FenError>)
    ensures
        match r {
            Ok(f) => parse_fen(bytes@) == Ok::<FenRecord, FenError>(f@) && f.cells@.len() == 64
                && f.ctm < 2 && f.castling < 16 && f.ep <= 64 && forall|i: int|
                0 <= i < 64 ==> is_cell(#[trigger] f.cells@[i]),
            Err(e) => parse_fen(bytes@) == Err::<FenRecord, FenError>(e),
        },
{
    let a1 = skip(bytes, 0);
    let b1 = end_of_field(bytes, a1);
    let a2 = skip(bytes, b1);
    let b2 = end_of_field(bytes, a2);
    let a3 = skip(bytes, b2);
    let b3 = end_of_field(bytes, a3);
    let a4 = skip(bytes, b3);
    let b4 = end_of_field(bytes, a4);
    let a5 = skip(bytes, b4);
    let b5 = end_of_field(bytes, a5);
    let a6 = skip(bytes, b5);
    let b6 = end_of_field(bytes, a6);
    if a1 == b1 || a2 == b2 || a3 == b3 || a4 == b4 {
        return Err(FenError::MissingField);
    }
    let mut cells = match read_board(bytes, a1, b1) {
        None => {
            return Err(FenError::BadPiece);
        },
        Some(cells) => cells,
    };
    if cells.len() > 64 {
        return Err(FenError::TooManySquares);
    }
    let castling = match read_rights(bytes, a3, b3) {
        None => {
            return Err(FenError::BadCastling);
        },
        Some(rights) => rights,
    };
    let mut ply: Option<i16> = None;
    if a5 != b5 {
        if a6 == b6 {
            return Err(FenError::MissingField);
        }
        ply = read_counter(bytes, a6, b6);
        if ply.is_none() {
            return Err(FenError::BadCounter);
        }
    }
    let ghost raw = cells@;
    proof {
        lemma_board_cells_valid(bytes@.subrange(a1 as int, b1 as int));
    }
    let missing = 64 - cells.len();
    let mut i: usize = 0;
    while i < missing
        invariant
            i <= missing,
            missing == 64 - raw.len(),
            cells@ == raw + empties(i as nat),
        decreases missing - i,
    {
        cells.push(NO_PIECE);
        i += 1;
        assert(cells@ =~= raw + empties(i as nat));
    }
    let white = b2 - a2 == 1 && bytes[a2] == 119;
    proof {
        let token = bytes@.subrange(a2 as int, b2 as int);
        if white {
            assert(token =~= seq![119u8]);
        } else if token.len() == 1 {
            assert(token[0] != 119);
        }
    }
    let ep = read_ep(bytes, a4, b4);
    Ok(Fields { cells, ctm: if white { 1 } else { 0 }, castling, ep, ply })
}

/// The square of the only king of side `c` on the board, if it has exactly
/// one.
fn only_king(cells: &Vec<u8>, c: u8) -> (r: Option<u8>)
    requires
        cells@.len() == 64,
        c < 2,
    ensures
        match r {
            Some(sq) => sq < 64 && cells@[sq as int] == piece_code(KING, c) && forall|j: int|
                0 <= j < 64 && #[trigger] cells@[j] == piece_code(KING, c) ==> j == sq,
            None => !exists|sq: int|
                0 <= sq < 64 && #[trigger] cells@[sq] == piece_code(KING, c) && forall|j: int|
                    0 <= j < 64 && #[trigger] cells@[j] == piece_code(KING, c) ==> j == sq,
        },
{
    let code = c * 8 + KING;
    let mut found: Option<u8> = None;
    let mut sq: u8 = 0;
    while sq < 64
        invariant
            sq <= 64,
            cells@.len() == 64,
            code == piece_code(KING, c),
            match found {
                Some(k) => k < sq && cells@[k as int] == code && forall|j: int|
                    0 <= j < sq && #[trigger] cells@[j] == code ==> j == k,
                None => forall|j: int| 0 <= j < sq ==> #[trigger] cells@[j] != code,
            },
        decreases 64 - sq,
    {
        if cells[sq as usize] == code {
            match found {
                Some(k) => {
                    assert(cells@[k as int] == code && cells@[sq as int] == code);
                    return None;
                },
                None => {
                    found = Some(sq);
                },
            }
        }
        sq += 1;
    }
    found
}

impl Position {
    /// The position with the given codes on its squares and nothing else
    /// set: no right, no en-passant square, black to move.
    pub fn from_cells(cells: &Vec<u8>) -> (p: Position)
        requires
            cells@.len() == 64,
            forall|i: int| 0 <= i < 64 ==> is_cell(#[trigger] cells@[i]),
        ensures
            p.mailbox@ == cells@,
            p.boards_agree(),
            p.hash == full_hash(cells@, 0),
            p.castling == 0,
            p.ep_index.0 == NO_SQUARE,
            p.hm_clock == 0,
    {
        let mut p = Position::empty();
        proof {
            assert forall|s: u8| s < 64 implies #[trigger] p.square_agrees(s) by {
                lemma_bit_ops(0, 0, s);
            }
            lemma_hash_empty(p.mailbox@, 64);
        }
        let mut sq: u8 = 0;
        while sq < 64
            invariant
                sq <= 64,
                cells@.len() == 64,
                forall|i: int| 0 <= i < 64 ==> is_cell(#[trigger] cells@[i]),
                p.boards_agree(),
                p.hash == full_hash(p.mailbox@, 0),
                forall|j: int| 0 <= j < sq ==> #[trigger] p.mailbox@[j] == cells@[j],
                forall|j: int| sq <= j < 64 ==> #[trigger] p.mailbox@[j] == NO_PIECE,
                p.castling == 0,
                p.ep_index.0 == NO_SQUARE,
                p.hm_clock == 0,
            decreases 64 - sq,
        {
            let code = cells[sq as usize];
            assert(is_cell(cells@[sq as int]));
            if code != NO_PIECE {
                proof {
                    p.lemma_put(sq, code);
                }
                p.add_piece(Square(sq), Piece(code));
            }
            sq += 1;
        }
        assert(p.mailbox@ =~= cells@);
        p
    }
}

impl Position {
    /// Whether this is the position that `rec` describes: sound for the side
    /// to move of the record, with its placement, rights and en-passant
    /// square, and the halfmove clock at zero.
    pub open spec fn renders(self, rec: FenRecord) -> bool {
        &&& self.wf(rec.ctm)
        &&& self.mailbox@ == rec.mailbox
        &&& self.castling == rec.castling
        &&& self.ep_index.0 == rec.ep
        &&& self.hm_clock == 0
    }

    /// The position that the record describes, if it describes a sound one.
    pub fn from_fields(f: &Fields) -> (r: Option<Position>)
        requires
            f.cells@.len() == 64,
            f.ctm < 2,
            f.castling < 16,
            f.ep <= 64,
            forall|i: int| 0 <= i < 64 ==> is_cell(#[trigger] f.cells@[i]),
        ensures
            r.is_some() == f@.sound(),
            r.is_some() ==> r.unwrap().renders(f@),
    {
        let black = only_king(&f.cells, 0);
        let white = only_king(&f.cells, 1);
        let (bk, wk) = match (black, white) {
            (Some(bk), Some(wk)) => (bk, wk),
            _ => {
                return None;
            },
        };
        let c = f.castling;
        if (c & 1 != 0 && !(f.cells[4] == 13 && f.cells[7] == 11)) || (c & 2 != 0 && !(f.cells[4]
            == 13 && f.cells[0] == 11)) || (c & 4 != 0 && !(f.cells[60] == 5 && f.cells[63] == 3))
            || (c & 8 != 0 && !(f.cells[60] == 5 && f.cells[56] == 3)) {
            return None;
        }
        if f.ep != NO_SQUARE {
            if f.ep < 8 || f.ep >= 56 {
                return None;
            }
            let passed = if f.ctm == 0 { f.ep + 8 } else { f.ep - 8 };
            if f.cells[f.ep as usize] != NO_PIECE || f.cells[passed as usize] != (1 - f.ctm) * 8
                + PAWN {
                return None;
            }
        }
        proof {
            assert(f@.mailbox[bk as int] == piece_code(KING, 0));
            assert(f@.mailbox[wk as int] == piece_code(KING, 1));
            assert(f@.king_alone(0));
            assert(f@.king_alone(1));
            assert(f@.rights_backed());
            assert(f@.ep_backed());
        }
        let mut p = Position::from_cells(&f.cells);
        let ghost placed = p;
        p.king_sqs[0] = bk;
        p.king_sqs[1] = wk;
        p.castling = f.castling;
        p.ep_index = Square(f.ep);
        if f.ctm == 1 {
            p.switch_color();
        }
        proof {
            assert forall|s: u8| s < 64 implies #[trigger] p.square_agrees(s) by {
                assert(placed.square_agrees(s));
            }
            lemma_xor(hash_upto(f.cells@, 64), 0, 0);
            assert(p.king_placed(0));
            assert(p.king_placed(1));
            assert(p.placement_wf(f.ctm));
            p.lemma_masks_keep_placement(f.ctm);
        }
        p.refresh_masks(f.ctm);
        Some(p)
    }
}

impl Board {
    /// Whether this board is `before` with the position of `rec` loaded: the
    /// position is pushed on the stack, the side to move is that of the
    /// record, and the ply counter is that of the record where it has one.
    pub open spec fn loaded(self, before: BoardView, rec: FenRecord) -> bool {
        &&& self.states@.len() == before.states.len() + 1
        &&& self.states@.drop_last() == before.states
        &&& self.top().renders(rec)
        &&& self.ctm == rec.ctm
        &&& self.ply == (match rec.ply {
            Some(n) => n,
            None => before.ply,
        })
        &&& self.wf()
    }

    /// Loads the position that `fen` describes and makes it the current one.
    ///
    /// Fails, and leaves the board as it is, where the text is not a record
    /// or the record describes no sound position.
    pub fn load_fen(&mut self, fen: &str) -> (r: Result<(), FenError>)
        ensures
            match parse_fen(fen.spec_bytes()) {
                Err(e) => r == Err::<(), FenError>(e) && final(self)@ == old(self)@,
                Ok(rec) => if rec.sound() {
                    r.is_ok() && final(self).loaded(old(self)@, rec)
                } else {
                    r == Err::<(), FenError>(FenError::Unsound) && final(self)@ == old(self)@
                },
            },
    {
        let fields = match read_fen(fen.as_bytes()) {
            Err(e) => {
                return Err(e);
            },
            Ok(fields) => fields,
        };
        match Position::from_fields(&fields) {
            None => Err(FenError::Unsound),
            Some(p) => {
                self.states.push(p);
                self.ctm = fields.ctm;
                match fields.ply {
                    Some(n) => {
                        self.ply = n;
                    },
                    None => {},
                }
                proof {
                    assert(self.states@.drop_last() =~= old(self).states@);
                }
                Ok(())
            },
        }
    }
}

} // verus!
