//! Reading the text form of a position.

use vstd::prelude::*;
use crate::board::fen_text::{
    all_digits, board_cells, byte_cells, chunk_cells, counter_of, digits_value, empties, ep_of,
    field_end, is_digit, is_space, last_slash, letter_code, rights_of, skip_spaces,
};
use crate::types::piece::NO_PIECE;
use crate::types::square::NO_SQUARE;

verus! {

/// A rank stands for squares exactly when each of its bytes does.
pub proof fn lemma_chunk_bytes(chunk: Seq<u8>)
    ensures
        chunk_cells(chunk).is_some() <==> forall|i: int|
            0 <= i < chunk.len() ==> byte_cells(#[trigger] chunk[i]).is_some(),
    decreases chunk.len(),
{
    if chunk.len() > 0 {
        let front = chunk.drop_last();
        lemma_chunk_bytes(front);
        if chunk_cells(chunk).is_some() {
            assert forall|i: int| 0 <= i < chunk.len() implies byte_cells(
                #[trigger] chunk[i],
            ).is_some() by {
                if i < front.len() {
                    assert(front[i] == chunk[i]);
                }
            }
        } else {
            if chunk_cells(front).is_none() {
                let i = choose|i: int| 0 <= i < front.len() && !byte_cells(front[i]).is_some();
                assert(front[i] == chunk[i]);
            }
        }
    }
}

/// The first place at or after `i` that holds no separator.
pub fn skip(bytes: &[u8], i: usize) -> (j: usize)
    requires
        i <= bytes@.len(),
    ensures
        j == skip_spaces(bytes@, i as int),
        i <= j <= bytes@.len(),
{
    let mut j = i;
    while j < bytes.len() && (bytes[j] == 32 || bytes[j] == 9 || bytes[j] == 10 || bytes[j] == 12
        || bytes[j] == 13)
        invariant
            i <= j <= bytes@.len(),
            skip_spaces(bytes@, i as int) == skip_spaces(bytes@, j as int),
        decreases bytes@.len() - j,
    {
        j += 1;
    }
    j
}

/// The first place at or after `i` that holds a separator.
pub fn end_of_field(bytes: &[u8], i: usize) -> (j: usize)
    requires
        i <= bytes@.len(),
    ensures
        j == field_end(bytes@, i as int),
        i <= j <= bytes@.len(),
{
    let mut j = i;
    while j < bytes.len() && !(bytes[j] == 32 || bytes[j] == 9 || bytes[j] == 10 || bytes[j] == 12
        || bytes[j] == 13)
        invariant
            i <= j <= bytes@.len(),
            field_end(bytes@, i as int) == field_end(bytes@, j as int),
        decreases bytes@.len() - j,
    {
        j += 1;
    }
    j
}

/// The code that a piece letter stands for, if the byte is one.
pub fn code_of_letter(b: u8) -> (c: Option<u8>)
    ensures
        c == letter_code(b),
{
    if b == 112 {
        Some(0)
    } else if b == 110 {
        Some(1)
    } else if b == 98 {
        Some(2)
    } else if b == 114 {
        Some(3)
    } else if b == 113 {
        Some(4)
    } else if b == 107 {
        Some(5)
    } else if b == 80 {
        Some(8)
    } else if b == 78 {
        Some(9)
    } else if b == 66 {
        Some(10)
    } else if b == 82 {
        Some(11)
    } else if b == 81 {
        Some(12)
    } else if b == 75 {
        Some(13)
    } else {
        None
    }
}

/// Appends `n` empty squares.
fn push_empties(cells: &mut Vec<u8>, n: u8)
    ensures
        final(cells)@ == old(cells)@ + empties(n as nat),
{
    let mut i: u8 = 0;
    while i < n
        invariant
            i <= n,
            cells@ == old(cells)@ + empties(i as nat),
        decreases n - i,
    {
        cells.push(NO_PIECE);
        i += 1;
        assert(cells@ =~= old(cells)@ + empties(i as nat));
    }
    assert(cells@ =~= old(cells)@ + empties(n as nat));
}

/// Appends the squares of the rank in `bytes[from..to]`; stops and says so
/// at a byte that stands for none.
fn read_chunk(bytes: &[u8], from: usize, to: usize, cells: &mut Vec<u8>) -> (ok: bool)
    requires
        from <= to <= bytes@.len(),
    ensures
        ok == chunk_cells(bytes@.subrange(from as int, to as int)).is_some(),
        ok ==> final(cells)@ == old(cells)@ + chunk_cells(
            bytes@.subrange(from as int, to as int),
        ).unwrap(),
{
    let ghost chunk = bytes@.subrange(from as int, to as int);
    let mut i = from;
    proof {
        lemma_chunk_bytes(chunk);
        assert(cells@ =~= old(cells)@ + Seq::<u8>::empty());
    }
    while i < to
        invariant
            from <= i <= to <= bytes@.len(),
            chunk == bytes@.subrange(from as int, to as int),
            chunk_cells(bytes@.subrange(from as int, i as int)).is_some(),
            cells@ == old(cells)@ + chunk_cells(bytes@.subrange(from as int, i as int)).unwrap(),
        decreases to - i,
    {
        let b = bytes[i];
        let ghost front = bytes@.subrange(from as int, i as int);
        let ghost next = bytes@.subrange(from as int, i + 1);
        proof {
            assert(next.drop_last() =~= front);
            assert(next.last() == b);
            assert(chunk[i - from] == b);
        }
        match code_of_letter(b) {
            Some(code) => {
                cells.push(code);
                proof {
                    assert(cells@ =~= old(cells)@ + chunk_cells(next).unwrap());
                }
            },
            None => {
                if 48 <= b && b <= 57 {
                    push_empties(cells, b - 48);
                    proof {
                        assert(cells@ =~= old(cells)@ + chunk_cells(next).unwrap());
                    }
                } else {
                    proof {
                        lemma_chunk_bytes(chunk);
                    }
                    return false;
                }
            },
        }
        i += 1;
    }
    proof {
        assert(bytes@.subrange(from as int, i as int) =~= chunk);
    }
    true
}

/// The place of the last slash in `bytes[from..to]`, counted from `from`.
fn find_last_slash(bytes: &[u8], from: usize, to: usize) -> (k: Option<usize>)
    requires
        from <= to <= bytes@.len(),
    ensures
        match k {
            Some(i) => i < to - from && last_slash(bytes@.subrange(from as int, to as int)) == i,
            None => last_slash(bytes@.subrange(from as int, to as int)) == -1,
        },
{
    let mut j = to;
    while j > from
        invariant
            from <= j <= to <= bytes@.len(),
            last_slash(bytes@.subrange(from as int, to as int)) == last_slash(
                bytes@.subrange(from as int, j as int),
            ),
        decreases j,
    {
        let ghost s = bytes@.subrange(from as int, j as int);
        if bytes[j - 1] == 47 {
            assert(s.last() == 47);
            return Some(j - 1 - from);
        }
        proof {
            assert(s.drop_last() =~= bytes@.subrange(from as int, j - 1));
        }
        j -= 1;
    }
    None
}

/// The squares of the placement in `bytes[from..to]`, from a1 on, or `None`
/// where a byte of it stands for no square.
pub fn read_board(bytes: &[u8], from: usize, to: usize) -> (r: Option<Vec<u8>>)
    requires
        from <= to <= bytes@.len(),
    ensures
        match r {
            Some(cells) => board_cells(bytes@.subrange(from as int, to as int)) == Some(cells@),
            None => board_cells(bytes@.subrange(from as int, to as int)).is_none(),
        },
{
    let ghost token = bytes@.subrange(from as int, to as int);
    let mut cells: Vec<u8> = Vec::new();
    let mut end = to;
    loop
        invariant
            from <= end <= to <= bytes@.len(),
            token == bytes@.subrange(from as int, to as int),
            board_cells(token) == (match board_cells(bytes@.subrange(from as int, end as int)) {
                Some(rest) => Some(cells@ + rest),
                None => None,
            }),
        decreases end,
    {
        let ghost part = bytes@.subrange(from as int, end as int);
        let ghost held = cells@;
        match find_last_slash(bytes, from, end) {
            None => {
                let ok = read_chunk(bytes, from, end, &mut cells);
                if !ok {
                    return None;
                }
                return Some(cells);
            },
            Some(k) => {
                proof {
                    assert(part.subrange(k + 1, part.len() as int) =~= bytes@.subrange(
                        from + k + 1,
                        end as int,
                    ));
                    assert(part.subrange(0, k as int) =~= bytes@.subrange(
                        from as int,
                        from + k,
                    ));
                }
                let ok = read_chunk(bytes, from + k + 1, end, &mut cells);
                if !ok {
                    return None;
                }
                end = from + k;
                proof {
                    let tail = chunk_cells(part.subrange(k + 1, part.len() as int)).unwrap();
                    match board_cells(bytes@.subrange(from as int, end as int)) {
                        Some(rest) => {
                            assert(held + (tail + rest) =~= cells@ + rest);
                        },
                        None => {},
                    }
                }
            },
        }
    }
}

/// Whether a byte may stand in a castling field.
pub open spec fn is_right_byte(b: u8) -> bool {
    b == 75 || b == 81 || b == 107 || b == 113 || b == 45
}

/// A castling field grants rights exactly when each of its bytes may stand
/// in one, and never grants anything but the four rights.
pub proof fn lemma_rights_bytes(token: Seq<u8>)
    ensures
        rights_of(token).is_some() <==> forall|i: int|
            0 <= i < token.len() ==> is_right_byte(#[trigger] token[i]),
        rights_of(token).is_some() ==> rights_of(token).unwrap() < 16,
    decreases token.len(),
{
    if token.len() > 0 {
        let front = token.drop_last();
        lemma_rights_bytes(front);
        if rights_of(front).is_some() {
            let r = rights_of(front).unwrap();
            assert(r < 16 ==> (r | 1) < 16 && (r | 2) < 16 && (r | 4) < 16 && (r | 8) < 16)
                by (bit_vector);
        }
        if rights_of(token).is_some() {
            assert forall|i: int| 0 <= i < token.len() implies is_right_byte(
                #[trigger] token[i],
            ) by {
                if i < front.len() {
                    assert(front[i] == token[i]);
                }
            }
        } else {
            if rights_of(front).is_none() {
                let i = choose|i: int| 0 <= i < front.len() && !is_right_byte(front[i]);
                assert(front[i] == token[i]);
            }
        }
    }
}

/// The rights that the castling field in `bytes[from..to]` grants.
pub fn read_rights(bytes: &[u8], from: usize, to: usize) -> (r: Option<u8>)
    requires
        from <= to <= bytes@.len(),
    ensures
        r == rights_of(bytes@.subrange(from as int, to as int)),
        r.is_some() ==> r.unwrap() < 16,
{
    let ghost token = bytes@.subrange(from as int, to as int);
    let mut rights: u8 = 0;
    let mut i = from;
    proof {
        lemma_rights_bytes(token);
    }
    while i < to
        invariant
            from <= i <= to <= bytes@.len(),
            token == bytes@.subrange(from as int, to as int),
            rights_of(bytes@.subrange(from as int, i as int)) == Some(rights),
        decreases to - i,
    {
        let b = bytes[i];
        proof {
            let next = bytes@.subrange(from as int, i + 1);
            assert(next.drop_last() =~= bytes@.subrange(from as int, i as int));
            assert(next.last() == b);
            assert(token[i - from] == b);
        }
        if b == 75 {
            rights = rights | 1;
        } else if b == 81 {
            rights = rights | 2;
        } else if b == 107 {
            rights = rights | 4;
        } else if b == 113 {
            rights = rights | 8;
        } else if b != 45 {
            proof {
                lemma_rights_bytes(token);
                assert(!is_right_byte(token[i - from]));
            }
            return None;
        }
        i += 1;
    }
    proof {
        assert(bytes@.subrange(from as int, i as int) =~= token);
    }
    Some(rights)
}

/// The square that the en-passant field in `bytes[from..to]` names.
pub fn read_ep(bytes: &[u8], from: usize, to: usize) -> (ep: u8)
    requires
        from <= to <= bytes@.len(),
    ensures
        ep == ep_of(bytes@.subrange(from as int, to as int)),
        ep <= 64,
{
    if to - from == 2 {
        let f = bytes[from];
        let r = bytes[from + 1];
        proof {
            let token = bytes@.subrange(from as int, to as int);
            assert(token[0] == f && token[1] == r);
        }
        if 97 <= f && f <= 104 && 49 <= r && r <= 56 && !(f == 104 && r == 56) {
            return (r - 49) * 8 + (f - 97);
        }
    }
    NO_SQUARE
}

/// A run of digits is worth at least as much as any run it begins with.
pub proof fn lemma_digits_grow(s: Seq<u8>, k: int)
    requires
        all_digits(s),
        0 <= k <= s.len(),
    ensures
        0 <= digits_value(s.subrange(0, k)) <= digits_value(s),
    decreases s.len(),
{
    if s.len() == 0 {
        assert(s.subrange(0, k) =~= s);
    } else if k == s.len() {
        assert(s.subrange(0, k) =~= s);
        lemma_digits_grow(s.drop_last(), k - 1);
        assert(is_digit(s[s.len() - 1]));
    } else {
        let front = s.drop_last();
        assert forall|i: int| 0 <= i < front.len() implies is_digit(#[trigger] front[i]) by {
            assert(front[i] == s[i]);
        }
        lemma_digits_grow(front, k);
        lemma_digits_grow(front, front.len() as int);
        assert(front.subrange(0, k) =~= s.subrange(0, k));
        assert(is_digit(s[s.len() - 1]));
    }
}

/// The number that the counter field in `bytes[from..to]` stands for.
pub fn read_counter(bytes: &[u8], from: usize, to: usize) -> (r: Option<i16>)
    requires
        from <= to <= bytes@.len(),
    ensures
        r == counter_of(bytes@.subrange(from as int, to as int)),
{
    let ghost token = bytes@.subrange(from as int, to as int);
    if from == to {
        return None;
    }
    let first = bytes[from];
    assert(token[0] == first);
    let negative = first == 45;
    let start = if first == 45 || first == 43 { from + 1 } else { from };
    let ghost body = bytes@.subrange(start as int, to as int);
    proof {
        if start > from {
            assert(body =~= token.subrange(1, token.len() as int));
        } else {
            assert(body =~= token);
        }
    }
    if start == to {
        return None;
    }
    let mut value: i32 = 0;
    let mut i = start;
    while i < to
        invariant
            start <= i <= to <= bytes@.len(),
            start < to,
            body == bytes@.subrange(start as int, to as int),
            token == bytes@.subrange(from as int, to as int),
            token.len() > 0,
            token[0] == first,
            body == (if first == 45 || first == 43 {
                token.subrange(1, token.len() as int)
            } else {
                token
            }),
            all_digits(bytes@.subrange(start as int, i as int)),
            value == digits_value(bytes@.subrange(start as int, i as int)),
            0 <= value <= 32768,
        decreases to - i,
    {
        let b = bytes[i];
        let ghost front = bytes@.subrange(start as int, i as int);
        let ghost next = bytes@.subrange(start as int, i + 1);
        proof {
            assert(next.drop_last() =~= front);
            assert(next.last() == b);
            assert(body[i - start] == b);
        }
        if !(48 <= b && b <= 57) {
            assert(!is_digit(body[i - start]));
            return None;
        }
        proof {
            assert forall|j: int| 0 <= j < next.len() implies is_digit(#[trigger] next[j]) by {
                if j < front.len() {
                    assert(front[j] == next[j]);
                }
            }
        }
        value = value * 10 + (b - 48) as i32;
        assert(value == digits_value(next));
        if value > 32768 {
            proof {
                if all_digits(body) {
                    assert(body.subrange(0, i + 1 - start) =~= next);
                    lemma_digits_grow(body, i + 1 - start);
                }
            }
            return None;
        }
        i += 1;
    }
    proof {
        assert(bytes@.subrange(start as int, i as int) =~= body);
    }
    if negative {
        Some((-value) as i16)
    } else if value <= 32767 {
        Some(value as i16)
    } else {
        None
    }
}

} // verus!
