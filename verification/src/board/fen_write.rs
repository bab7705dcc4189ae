//! Writing the text form of a position.

use vstd::prelude::*;
use crate::board::position::Position;
use crate::board::stack::Board;
use crate::types::piece::{is_piece_code, NO_PIECE};
use crate::types::square::NO_SQUARE;

verus! {

/// `String::push` appends the character to the string.
pub assume_specification[ String::push ](s: &mut String, ch: char)
    ensures
        final(s)@ == old(s)@.push(ch),
;

/// The letter of a piece code, as a byte: lower case for black, upper case
/// for white.
pub open spec fn code_letter(code: u8) -> u8 {
    let kind = code % 8;
    let lower: u8 = if kind == 0 {
        112
    } else if kind == 1 {
        110
    } else if kind == 2 {
        98
    } else if kind == 3 {
        114
    } else if kind == 4 {
        113
    } else {
        107
    };
    if code / 8 == 1 {
        (lower - 32) as u8
    } else {
        lower
    }
}

/// The digit that counts `run` empty squares, or nothing for none.
pub open spec fn run_text(run: int) -> Seq<u8> {
    if run == 0 {
        Seq::empty()
    } else {
        seq![(48 + run) as u8]
    }
}

/// The text written for the first `file` squares of rank `rank`, and the
/// number of empty squares seen since the last piece.
pub open spec fn rank_state(m: Seq<u8>, rank: int, file: nat) -> (Seq<u8>, int)
    decreases file,
{
    if file == 0 {
        (Seq::empty(), 0)
    } else {
        let before = rank_state(m, rank, (file - 1) as nat);
        let code = m[rank * 8 + file - 1];
        if code != NO_PIECE {
            (before.0 + run_text(before.1) + seq![code_letter(code)], 0)
        } else {
            (before.0, before.1 + 1)
        }
    }
}

/// The text of rank `rank`: a letter for each piece, a digit for each run of
/// empty squares.
pub open spec fn rank_text(m: Seq<u8>, rank: int) -> Seq<u8> {
    rank_state(m, rank, 8).0 + run_text(rank_state(m, rank, 8).1)
}

/// The text of the top `k` ranks, from the eighth down, with slashes
/// between them.
pub open spec fn board_text(m: Seq<u8>, k: nat) -> Seq<u8>
    decreases k,
{
    if k == 0 {
        Seq::empty()
    } else if k == 1 {
        rank_text(m, 7)
    } else {
        board_text(m, (k - 1) as nat) + seq![47u8] + rank_text(m, 8 - k)
    }
}

/// The text of the castling rights: a letter for each right, or a dash.
pub open spec fn rights_text(c: u8) -> Seq<u8> {
    let a: Seq<u8> = if c & 1 != 0 {
        seq![75u8]
    } else {
        Seq::empty()
    };
    let b: Seq<u8> = if c & 2 != 0 {
        a.push(81)
    } else {
        a
    };
    let d: Seq<u8> = if c & 4 != 0 {
        b.push(107)
    } else {
        b
    };
    let e: Seq<u8> = if c & 8 != 0 {
        d.push(113)
    } else {
        d
    };
    if e.len() == 0 {
        seq![45u8]
    } else {
        e
    }
}

/// The text of the en-passant square: its name, or a dash for none.
pub open spec fn ep_text(ep: u8) -> Seq<u8> {
    if ep == NO_SQUARE {
        seq![45u8]
    } else {
        seq![(97 + ep % 8) as u8, (49 + ep / 8) as u8]
    }
}

/// The record of a position: placement, side to move, castling rights and
/// en-passant square, separated by single spaces.
pub open spec fn fen_text(p: Position, ctm: u8) -> Seq<u8> {
    board_text(p.mailbox@, 8) + seq![32u8] + seq![if ctm == 1 { 119u8 } else { 98u8 }]
        + seq![32u8] + rights_text(p.castling) + seq![32u8] + ep_text(p.ep_index.0)
}

/// The characters that a run of bytes below 128 stands for.
pub open spec fn as_chars(text: Seq<u8>) -> Seq<char> {
    Seq::new(text.len(), |i: int| text[i] as char)
}

/// Appends one byte below 128 as a character.
pub(crate) fn put(out: &mut String, b: u8, Ghost(text): Ghost<Seq<u8>>)
    requires
        old(out)@ == as_chars(text),
        b < 128,
    ensures
        final(out)@ == as_chars(text.push(b)),
{
    out.push(b as char);
    assert(out@ =~= as_chars(text.push(b)));
}

impl Position {
    /// The letter of the piece with code `code`.
    fn letter_of(code: u8) -> (b: u8)
        requires
            is_piece_code(code),
        ensures
            b == code_letter(code),
            b < 128,
    {
        let kind = code % 8;
        let lower: u8 = if kind == 0 {
            112
        } else if kind == 1 {
            110
        } else if kind == 2 {
            98
        } else if kind == 3 {
            114
        } else if kind == 4 {
            113
        } else {
            107
        };
        if code / 8 == 1 {
            lower - 32
        } else {
            lower
        }
    }

    /// Whether every square holds a piece or nothing.
    pub open spec fn cells_valid(self) -> bool {
        forall|i: int|
            0 <= i < 64 ==> #[trigger] self.mailbox[i] == NO_PIECE || is_piece_code(
                self.mailbox[i],
            )
    }

    /// Appends the text of rank `rank`.
    fn write_rank(&self, rank: u8, out: &mut String, Ghost(pre): Ghost<Seq<u8>>)
        requires
            rank < 8,
            self.cells_valid(),
            old(out)@ == as_chars(pre),
        ensures
            final(out)@ == as_chars(pre + rank_text(self.mailbox@, rank as int)),
    {
        let ghost m = self.mailbox@;
        let ghost mut text = pre;
        let mut run: u8 = 0;
        let mut file: u8 = 0;
        proof {
            assert(text =~= pre + rank_state(m, rank as int, 0).0);
        }
        while file < 8
            invariant
                file <= 8,
                rank < 8,
                run <= file,
                self.cells_valid(),
                m == self.mailbox@,
                text == pre + rank_state(m, rank as int, file as nat).0,
                run == rank_state(m, rank as int, file as nat).1,
                out@ == as_chars(text),
            decreases 8 - file,
        {
            let sq = rank * 8 + file;
            let code = self.mailbox[sq as usize];
            let ghost before = rank_state(m, rank as int, file as nat);
            if code != NO_PIECE {
                if run != 0 {
                    put(out, 48 + run, Ghost(text));
                    proof {
                        text = text.push((48 + run) as u8);
                    }
                }
                let letter = Position::letter_of(code);
                put(out, letter, Ghost(text));
                proof {
                    text = text.push(letter);
                    assert(text =~= pre + (before.0 + run_text(before.1) + seq![
                        code_letter(code),
                    ]));
                }
                run = 0;
            } else {
                run += 1;
            }
            file += 1;
        }
        if run != 0 {
            put(out, 48 + run, Ghost(text));
            proof {
                text = text.push((48 + run) as u8);
            }
        }
        proof {
            assert(text =~= pre + rank_text(m, rank as int));
        }
    }

    /// Appends the text of the placement.
    fn write_board(&self, out: &mut String, Ghost(pre): Ghost<Seq<u8>>)
        requires
            self.cells_valid(),
            old(out)@ == as_chars(pre),
        ensures
            final(out)@ == as_chars(pre + board_text(self.mailbox@, 8)),
    {
        let ghost m = self.mailbox@;
        let mut k: u8 = 0;
        proof {
            assert(pre + board_text(m, 0) =~= pre);
        }
        while k < 8
            invariant
                k <= 8,
                self.cells_valid(),
                m == self.mailbox@,
                out@ == as_chars(pre + board_text(m, k as nat)),
            decreases 8 - k,
        {
            let ghost held = pre + board_text(m, k as nat);
            if k > 0 {
                put(out, 47, Ghost(held));
                self.write_rank(7 - k, out, Ghost(held.push(47)));
                proof {
                    assert(held.push(47) + rank_text(m, 7 - k) =~= pre + board_text(
                        m,
                        (k + 1) as nat,
                    ));
                }
            } else {
                self.write_rank(7, out, Ghost(held));
                proof {
                    assert(held + rank_text(m, 7) =~= pre + board_text(m, 1));
                }
            }
            k += 1;
        }
    }

    /// Appends the text of the castling rights.
    fn write_rights(&self, out: &mut String, Ghost(pre): Ghost<Seq<u8>>)
        requires
            old(out)@ == as_chars(pre),
        ensures
            final(out)@ == as_chars(pre + rights_text(self.castling)),
    {
        let ghost mut text = pre;
        let ghost mut rights: Seq<u8> = Seq::empty();
        let mut any = false;
        let c = self.castling;
        if c & 1 != 0 {
            put(out, 75, Ghost(text));
            proof {
                text = text.push(75);
                rights = rights.push(75);
            }
            any = true;
        }
        if c & 2 != 0 {
            put(out, 81, Ghost(text));
            proof {
                text = text.push(81);
                rights = rights.push(81);
            }
            any = true;
        }
        if c & 4 != 0 {
            put(out, 107, Ghost(text));
            proof {
                text = text.push(107);
                rights = rights.push(107);
            }
            any = true;
        }
        if c & 8 != 0 {
            put(out, 113, Ghost(text));
            proof {
                text = text.push(113);
                rights = rights.push(113);
            }
            any = true;
        }
        if !any {
            put(out, 45, Ghost(text));
            proof {
                text = text.push(45);
                rights = rights.push(45);
            }
        }
        proof {
            assert(rights =~= rights_text(c));
            assert(text =~= pre + rights);
        }
    }

    /// Appends the text of the en-passant square.
    fn write_ep(&self, out: &mut String, Ghost(pre): Ghost<Seq<u8>>)
        requires
            self.ep_index.0 <= 64,
            old(out)@ == as_chars(pre),
        ensures
            final(out)@ == as_chars(pre + ep_text(self.ep_index.0)),
    {
        let ep = self.ep_index.0;
        if ep == NO_SQUARE {
            put(out, 45, Ghost(pre));
            proof {
                assert(pre.push(45) =~= pre + ep_text(ep));
            }
        } else {
            put(out, 97 + ep % 8, Ghost(pre));
            put(out, 49 + ep / 8, Ghost(pre.push((97 + ep % 8) as u8)));
            proof {
                assert(pre.push((97 + ep % 8) as u8).push((49 + ep / 8) as u8) =~= pre + ep_text(
                    ep,
                ));
            }
        }
    }

    /// The record of the position with `ctm` to move.
    pub fn to_fen(&self, ctm: u8) -> (out: String)
        requires
            self.wf(ctm),
        ensures
            out@ == as_chars(fen_text(*self, ctm)),
    {
        let mut out = String::new();
        let ghost empty: Seq<u8> = Seq::empty();
        proof {
            assert(out@ =~= as_chars(empty));
            assert forall|i: int| 0 <= i < 64 implies #[trigger] self.mailbox[i] == NO_PIECE
                || is_piece_code(self.mailbox[i]) by {
                assert(self.square_agrees(i as u8));
            }
            assert(self.en_passant_backed(ctm));
        }
        self.write_board(&mut out, Ghost(empty));
        let ghost a = empty + board_text(self.mailbox@, 8);
        put(&mut out, 32, Ghost(a));
        let side: u8 = if ctm == 1 { 119 } else { 98 };
        put(&mut out, side, Ghost(a.push(32)));
        put(&mut out, 32, Ghost(a.push(32).push(side)));
        let ghost b = a.push(32).push(side).push(32);
        self.write_rights(&mut out, Ghost(b));
        let ghost c = b + rights_text(self.castling);
        put(&mut out, 32, Ghost(c));
        self.write_ep(&mut out, Ghost(c.push(32)));
        proof {
            assert(c.push(32) + ep_text(self.ep_index.0) =~= fen_text(*self, ctm));
        }
        out
    }
}

impl Board {
    /// The record of the current position: placement, side to move, castling
    /// rights and en-passant square. The two counters are not written.
    pub fn get_fen(&self) -> (out: String)
        requires
            self.wf(),
        ensures
            out@ == as_chars(fen_text(self.top(), self.ctm)),
    {
        self.current_state().to_fen(self.ctm)
    }
}

} // verus!
