//! A position written and read again is the position that was written.

use vstd::prelude::*;
use crate::board::fen_text::{
    board_cells, byte_cells, chunk_cells, empties, ep_of, field_end, is_space, last_slash,
    letter_code, padded, parse_fen, rights_of, skip_spaces, FenError, FenRecord,
};
use crate::board::fen_write::{
    board_text, code_letter, ep_text, fen_text, rank_state, rank_text, rights_text, run_text,
};
use crate::board::position::Position;
use crate::types::piece::{is_piece_code, NO_PIECE};
use crate::types::square::NO_SQUARE;

verus! {

/// Whether a byte may stand inside a field of a written record: it is
/// neither a separator nor a slash.
pub open spec fn is_plain(b: u8) -> bool {
    !is_space(b) && b != 47
}

/// Whether every byte of `s` is plain.
pub open spec fn all_plain(s: Seq<u8>) -> bool {
    forall|i: int| 0 <= i < s.len() ==> is_plain(#[trigger] s[i])
}

/// The squares of two pieces of a rank written one after the other are the
/// squares of the first followed by those of the second.
pub proof fn lemma_chunk_concat(a: Seq<u8>, b: Seq<u8>)
    ensures
        chunk_cells(a + b) == (match (chunk_cells(a), chunk_cells(b)) {
            (Some(x), Some(y)) => Some(x + y),
            _ => None,
        }),
    decreases b.len(),
{
    if b.len() == 0 {
        assert(a + b =~= a);
        if chunk_cells(a).is_some() {
            assert(chunk_cells(a).unwrap() + Seq::<u8>::empty() =~= chunk_cells(a).unwrap());
        }
    } else {
        assert((a + b).drop_last() =~= a + b.drop_last());
        assert((a + b).last() == b.last());
        lemma_chunk_concat(a, b.drop_last());
        match (chunk_cells(a), chunk_cells(b.drop_last()), byte_cells(b.last())) {
            (Some(x), Some(y), Some(z)) => {
                assert((x + y) + z =~= x + (y + z));
            },
            _ => {},
        }
    }
}

/// One byte stands for the squares it stands for.
pub proof fn lemma_chunk_single(b: u8)
    ensures
        chunk_cells(seq![b]) == byte_cells(b),
{
    let s = seq![b];
    assert(s.drop_last() =~= Seq::<u8>::empty());
    assert(s.last() == b);
    assert(chunk_cells(s.drop_last()) == Some(Seq::<u8>::empty()));
    if byte_cells(b).is_some() {
        assert(Seq::<u8>::empty() + byte_cells(b).unwrap() =~= byte_cells(b).unwrap());
    }
}

/// What has been written of a rank after `file` squares stands for the
/// squares up to the last piece; the squares after it are empty and
/// counted.
pub proof fn lemma_rank_state(m: Seq<u8>, rank: int, file: nat)
    requires
        m.len() == 64,
        0 <= rank < 8,
        file <= 8,
        forall|i: int| 0 <= i < 64 ==> #[trigger] m[i] == NO_PIECE || is_piece_code(m[i]),
    ensures
        0 <= rank_state(m, rank, file).1 <= file,
        chunk_cells(rank_state(m, rank, file).0) == Some(
            m.subrange(rank * 8, rank * 8 + file - rank_state(m, rank, file).1),
        ),
        forall|i: int|
            rank * 8 + file - rank_state(m, rank, file).1 <= i < rank * 8 + file
                ==> #[trigger] m[i] == NO_PIECE,
        all_plain(rank_state(m, rank, file).0),
        rank_state(m, rank, file).1 == file ==> rank_state(m, rank, file).0.len() == 0,
        rank_state(m, rank, file).1 < file ==> rank_state(m, rank, file).0.len() > 0,
    decreases file,
{
    if file == 0 {
        assert(m.subrange(rank * 8, rank * 8) =~= Seq::<u8>::empty());
    } else {
        lemma_rank_state(m, rank, (file - 1) as nat);
        let before = rank_state(m, rank, (file - 1) as nat);
        let code = m[rank * 8 + file - 1];
        let base = rank * 8;
        if code != NO_PIECE {
            let letter = code_letter(code);
            assert(letter_code(letter) == Some(code));
            lemma_chunk_single(letter);
            let gap = run_text(before.1);
            if before.1 > 0 {
                lemma_chunk_single((48 + before.1) as u8);
            }
            assert(chunk_cells(gap) == Some(empties(before.1 as nat)));
            lemma_chunk_concat(before.0, gap);
            lemma_chunk_concat(before.0 + gap, seq![letter]);
            assert(m.subrange(base, base + file - 1 - before.1) + empties(before.1 as nat) + seq![
                code,
            ] =~= m.subrange(base, base + file));
        }
    }
}

/// The text of a rank stands for the eight squares of the rank, is not empty
/// and has no separator and no slash.
pub proof fn lemma_rank_text(m: Seq<u8>, rank: int)
    requires
        m.len() == 64,
        0 <= rank < 8,
        forall|i: int| 0 <= i < 64 ==> #[trigger] m[i] == NO_PIECE || is_piece_code(m[i]),
    ensures
        chunk_cells(rank_text(m, rank)) == Some(m.subrange(rank * 8, rank * 8 + 8)),
        all_plain(rank_text(m, rank)),
        rank_text(m, rank).len() > 0,
{
    lemma_rank_state(m, rank, 8);
    let st = rank_state(m, rank, 8);
    let gap = run_text(st.1);
    if st.1 > 0 {
        lemma_chunk_single((48 + st.1) as u8);
    }
    assert(chunk_cells(gap) == Some(empties(st.1 as nat)));
    lemma_chunk_concat(st.0, gap);
    assert(m.subrange(rank * 8, rank * 8 + 8 - st.1) + empties(st.1 as nat) =~= m.subrange(
        rank * 8,
        rank * 8 + 8,
    ));
}

/// A text without a slash has no last slash.
pub proof fn lemma_no_slash(b: Seq<u8>)
    requires
        all_plain(b),
    ensures
        last_slash(b) == -1,
    decreases b.len(),
{
    if b.len() > 0 {
        assert(is_plain(b[b.len() - 1]));
        assert forall|i: int| 0 <= i < b.drop_last().len() implies is_plain(
            #[trigger] b.drop_last()[i],
        ) by {
            assert(b.drop_last()[i] == b[i]);
        }
        lemma_no_slash(b.drop_last());
    }
}

/// The last slash of a text that ends in a slash and a run without one is
/// that slash.
pub proof fn lemma_last_slash(a: Seq<u8>, b: Seq<u8>)
    requires
        all_plain(b),
    ensures
        last_slash(a + seq![47u8] + b) == a.len(),
    decreases b.len(),
{
    let s = a + seq![47u8] + b;
    if b.len() == 0 {
        assert(s.last() == 47);
    } else {
        assert(is_plain(b[b.len() - 1]));
        assert(s.last() == b[b.len() - 1]);
        assert(s.drop_last() =~= a + seq![47u8] + b.drop_last());
        assert forall|i: int| 0 <= i < b.drop_last().len() implies is_plain(
            #[trigger] b.drop_last()[i],
        ) by {
            assert(b.drop_last()[i] == b[i]);
        }
        lemma_last_slash(a, b.drop_last());
    }
}

/// The text of the top `k` ranks stands for the squares of those ranks,
/// is not empty and has no separator.
pub proof fn lemma_board_text(m: Seq<u8>, k: nat)
    requires
        m.len() == 64,
        1 <= k <= 8,
        forall|i: int| 0 <= i < 64 ==> #[trigger] m[i] == NO_PIECE || is_piece_code(m[i]),
    ensures
        board_cells(board_text(m, k)) == Some(m.subrange((8 - k) * 8, 64)),
        forall|i: int| 0 <= i < board_text(m, k).len() ==> !is_space(#[trigger] board_text(m, k)[i]),
        board_text(m, k).len() > 0,
    decreases k,
{
    if k == 1 {
        lemma_rank_text(m, 7);
        lemma_no_slash(rank_text(m, 7));
        assert forall|i: int| 0 <= i < rank_text(m, 7).len() implies !is_space(
            #[trigger] rank_text(m, 7)[i],
        ) by {
            assert(is_plain(rank_text(m, 7)[i]));
        }
    } else {
        let rank = 8 - k;
        let a = board_text(m, (k - 1) as nat);
        let b = rank_text(m, rank);
        let s = a + seq![47u8] + b;
        lemma_board_text(m, (k - 1) as nat);
        lemma_rank_text(m, rank);
        lemma_last_slash(a, b);
        assert(s.subrange(a.len() as int + 1, s.len() as int) =~= b);
        assert(s.subrange(0, a.len() as int) =~= a);
        assert(m.subrange(rank * 8, rank * 8 + 8) + m.subrange((rank + 1) * 8, 64) =~= m.subrange(
            rank * 8,
            64,
        ));
        assert forall|i: int| 0 <= i < s.len() implies !is_space(#[trigger] s[i]) by {
            if i < a.len() {
                assert(s[i] == a[i]);
            } else if i > a.len() {
                assert(s[i] == b[i - a.len() - 1]);
                assert(is_plain(b[i - a.len() - 1]));
            }
        }
    }
}

/// A field runs up to the next separator.
pub proof fn lemma_field_end(s: Seq<u8>, a: int, b: int)
    requires
        0 <= a <= b <= s.len(),
        forall|i: int| a <= i < b ==> !is_space(#[trigger] s[i]),
        b == s.len() || is_space(s[b]),
    ensures
        field_end(s, a) == b,
    decreases b - a,
{
    if a < b {
        lemma_field_end(s, a + 1, b);
    }
}

/// Separators are skipped up to the next byte that is none.
pub proof fn lemma_skip_spaces(s: Seq<u8>, a: int, b: int)
    requires
        0 <= a <= b <= s.len(),
        forall|i: int| a <= i < b ==> is_space(#[trigger] s[i]),
        b == s.len() || !is_space(s[b]),
    ensures
        skip_spaces(s, a) == b,
    decreases b - a,
{
    if a < b {
        lemma_skip_spaces(s, a + 1, b);
    }
}

/// The rights written are the rights read.
pub proof fn lemma_rights_round_trip(c: u8)
    requires
        c < 16,
    ensures
        rights_of(rights_text(c)) == Some(c),
        rights_text(c).len() > 0,
        forall|i: int| 0 <= i < rights_text(c).len() ==> !is_space(#[trigger] rights_text(c)[i]),
{
    let none: Seq<u8> = Seq::empty();
    let a: Seq<u8> = if c & 1 != 0 { seq![75u8] } else { none };
    let b: Seq<u8> = if c & 2 != 0 { a.push(81) } else { a };
    let d: Seq<u8> = if c & 4 != 0 { b.push(107) } else { b };
    let e: Seq<u8> = if c & 8 != 0 { d.push(113) } else { d };
    let ra: u8 = if c & 1 != 0 { 0u8 | 1 } else { 0u8 };
    let rb: u8 = if c & 2 != 0 { ra | 2 } else { ra };
    let rd: u8 = if c & 4 != 0 { rb | 4 } else { rb };
    let re: u8 = if c & 8 != 0 { rd | 8 } else { rd };
    assert(rights_of(none) == Some(0u8));
    assert(seq![75u8].drop_last() =~= none);
    assert(rights_of(a) == Some(ra));
    assert(a.push(81).drop_last() =~= a);
    assert(rights_of(b) == Some(rb));
    assert(b.push(107).drop_last() =~= b);
    assert(rights_of(d) == Some(rd));
    assert(d.push(113).drop_last() =~= d);
    assert(rights_of(e) == Some(re));
    assert(seq![45u8].drop_last() =~= none);
    assert(rights_of(seq![45u8]) == Some(0u8));
    assert(c < 16 ==> ({
        let ra: u8 = if c & 1 != 0 { 0u8 | 1 } else { 0u8 };
        let rb: u8 = if c & 2 != 0 { ra | 2 } else { ra };
        let rd: u8 = if c & 4 != 0 { rb | 4 } else { rb };
        let re: u8 = if c & 8 != 0 { rd | 8 } else { rd };
        re == c
    })) by (bit_vector);
}

/// The record of a sound position, read again, says what the position
/// holds: its placement, side to move, castling rights and en-passant
/// square. It carries no ply counter, and the position it describes is
/// sound.
pub proof fn law_fen_round_trip(p: Position, ctm: u8)
    requires
        p.wf(ctm),
    ensures
        match parse_fen(fen_text(p, ctm)) {
            Ok(rec) => rec.mailbox == p.mailbox@ && rec.ctm == ctm && rec.castling == p.castling
                && rec.ep == p.ep_index.0 && rec.ply.is_none() && rec.sound(),
            Err(_) => false,
        },
{
    let m = p.mailbox@;
    assert forall|i: int| 0 <= i < 64 implies #[trigger] m[i] == NO_PIECE || is_piece_code(
        m[i],
    ) by {
        assert(p.square_agrees(i as u8));
    }
    assert(p.en_passant_backed(ctm));
    assert(p.castling_backed());
    let b = board_text(m, 8);
    let side = seq![if ctm == 1 { 119u8 } else { 98u8 }];
    let r = rights_text(p.castling);
    let e = ep_text(p.ep_index.0);
    let s = fen_text(p, ctm);
    lemma_board_text(m, 8);
    lemma_rights_round_trip(p.castling);
    let a1 = 0int;
    let b1 = b.len() as int;
    let a2 = b1 + 1;
    let b2 = a2 + 1;
    let a3 = b2 + 1;
    let b3 = a3 + r.len();
    let a4 = b3 + 1;
    let b4 = a4 + e.len();
    assert(s =~= b + seq![32u8] + side + seq![32u8] + r + seq![32u8] + e);
    assert(s.len() == b4);
    assert forall|i: int| a1 <= i < b1 implies !is_space(#[trigger] s[i]) by {
        assert(s[i] == b[i]);
    }
    assert(s[b1] == 32);
    assert(s[a2] == side[0]);
    assert(s[b2] == 32);
    assert forall|i: int| a3 <= i < b3 implies !is_space(#[trigger] s[i]) by {
        assert(s[i] == r[i - a3]);
    }
    assert(s[b3] == 32);
    assert forall|i: int| a4 <= i < b4 implies !is_space(#[trigger] s[i]) by {
        assert(s[i] == e[i - a4]);
    }
    lemma_skip_spaces(s, 0, a1);
    lemma_field_end(s, a1, b1);
    lemma_skip_spaces(s, b1, a2);
    lemma_field_end(s, a2, b2);
    lemma_skip_spaces(s, b2, a3);
    lemma_field_end(s, a3, b3);
    lemma_skip_spaces(s, b3, a4);
    lemma_field_end(s, a4, b4);
    lemma_skip_spaces(s, b4, b4);
    lemma_field_end(s, b4, b4);
    assert(s.subrange(a1, b1) =~= b);
    assert(s.subrange(a2, b2) =~= side);
    assert(s.subrange(a3, b3) =~= r);
    assert(s.subrange(a4, b4) =~= e);
    assert(m.subrange(0, 64) =~= m);
    assert(padded(m) =~= m);
    assert(ep_of(e) == p.ep_index.0);
    if ctm == 1 {
        assert(side =~= seq![119u8]);
    } else {
        assert(side[0] != 119);
    }
    let rec = parse_fen(s).unwrap();
    assert(parse_fen(s).is_ok());
    assert(rec.mailbox == m);
    assert(p.king_placed(0) && p.king_placed(1));
    assert(rec.king_alone(0)) by {
        let k = p.king_sqs[0] as int;
        assert(rec.mailbox[k] == crate::types::piece::piece_code(5, 0));
        assert forall|j: int|
            0 <= j < 64 && #[trigger] rec.mailbox[j] == crate::types::piece::piece_code(
                5,
                0,
            ) implies j == k by {
            assert(p.mailbox[(j as u8) as int] == crate::types::piece::piece_code(5, 0));
        }
    }
    assert(rec.king_alone(1)) by {
        let k = p.king_sqs[1] as int;
        assert(rec.mailbox[k] == crate::types::piece::piece_code(5, 1));
        assert forall|j: int|
            0 <= j < 64 && #[trigger] rec.mailbox[j] == crate::types::piece::piece_code(
                5,
                1,
            ) implies j == k by {
            assert(p.mailbox[(j as u8) as int] == crate::types::piece::piece_code(5, 1));
        }
    }
}

} // verus!
