use anura::types::bitboard::Bitboard;
use anura::types::movelist::{MoveList, MAX_MOVES};
use anura::types::moves::{Flag, Move};
use anura::types::piece::{Colors, Piece, Types, NO_PIECE};
use anura::types::square::{Square, NO_SQUARE};

#[test]
fn square_coordinates() {
    let e4 = Square::from_rf(3, 4);
    assert_eq!(e4, Square(28));
    assert_eq!(e4.rank(), 3);
    assert_eq!(e4.file(), 4);
    assert_eq!(e4.as_usize(), 28);
    assert_eq!(Square::invalid(), Square(NO_SQUARE));
    assert_eq!(Square::invalid().0, 64);
}

#[test]
fn square_flips() {
    let mut sq = Square(0);
    sq.flip();
    assert_eq!(sq, Square(56));
    sq.flip_file();
    assert_eq!(sq, Square(63));
    let mut e2 = Square(12);
    e2.flip();
    assert_eq!(e2, Square(52));
    let mut b1 = Square(1);
    b1.flip_file();
    assert_eq!(b1, Square(6));
}

#[test]
fn piece_codes() {
    let white_queen = Piece::new_unchecked(4, 1);
    assert_eq!(white_queen.0, 12);
    assert_eq!(white_queen.color(), 1);
    assert_eq!(white_queen.piece(), 4);
    assert_eq!(white_queen.to_char(), 'Q');
    let black_pawn = Piece::new_unchecked(0, 0);
    assert_eq!(black_pawn.0, 0);
    assert_eq!(black_pawn.to_char(), 'p');
    assert_eq!(Piece::new_unchecked(5, 0).to_char(), 'k');
    assert_eq!(Piece::new_unchecked(1, 1).to_char(), 'N');
    assert_eq!(Piece::none().0, NO_PIECE);
    assert_eq!(Piece::none().to_char(), ' ');
    assert_eq!(Types::Rook.to_u8(), 3);
    assert_eq!(Types::Empty.to_u8(), 6);
    assert_eq!(Colors::White.to_u8(), 1);
    assert_eq!(Colors::Black.to_u8(), 0);
}

#[test]
fn bitboard_masks() {
    assert_eq!(Bitboard::from_square(Square(0)).0, 1);
    assert_eq!(Bitboard::from_square(Square(63)).0, 0x8000_0000_0000_0000);
    assert_eq!(Bitboard::from_rank(0).0, 0xff);
    assert_eq!(Bitboard::from_rank(7).0, 0xff00_0000_0000_0000);
    assert_eq!(Bitboard::from_file(0).0, 0x0101_0101_0101_0101);
    assert_eq!(Bitboard::from_file(7).0, 0x8080_8080_8080_8080);
    assert_eq!(Bitboard::empty().0, 0);
}

#[test]
fn bitboard_scans() {
    let b = Bitboard(0b1010_0100);
    assert_eq!(b.lsb(), 2);
    assert_eq!(b.msb(), 7);
    assert_eq!(b.popcount(), 3);
    assert_eq!(b.as_u64(), 0b1010_0100);
    assert!(b.is_not_empty());
    assert!(b.has_bits());
    assert!(!b.is_empty());
    assert!(b.contains_multiple());
    assert!(!b.contains_one());
    assert!(Bitboard(1 << 40).contains_one());
    assert!(!Bitboard(1 << 40).contains_multiple());
    assert_eq!(Bitboard(0).lsb(), 64);
    assert_eq!(Bitboard(0).msb(), 64);
    assert!(Bitboard(0).is_empty());
    assert!(!Bitboard(0).contains_one());
    assert_eq!(Bitboard(u64::MAX).popcount(), 64);
    assert_eq!(Bitboard(0x8000_0000_0000_0000).msb(), 63);
    assert_eq!(Bitboard(0x8000_0000_0000_0000).lsb(), 63);
}

#[test]
fn bitboard_pop_lsb_walks_upwards() {
    let mut b = Bitboard((1 << 3) | (1 << 17) | (1 << 63));
    assert_eq!(b.pop_lsb(), 3);
    assert_eq!(b.0, (1 << 17) | (1 << 63));
    assert_eq!(b.pop_lsb(), 17);
    assert_eq!(b.pop_lsb(), 63);
    assert_eq!(b.0, 0);
    assert_eq!(b.pop_lsb(), 64);
    assert_eq!(b.0, 0);
}

#[test]
fn move_packing() {
    let m = Move::new_unchecked(12, 28, 6);
    assert_eq!(m.0, (6 << 12) | (28 << 6) | 12);
    assert_eq!(m.from(), 12);
    assert_eq!(m.to(), 28);
    assert_eq!(m.flag(), Flag::DoublePush);
    assert!(!m.is_promotion());
    let p = Move::new_unchecked(52, 60, 10);
    assert_eq!(p.flag(), Flag::QueenPromo);
    assert!(p.is_promotion());
    assert!(Move::new_unchecked(52, 60, 7).is_promotion());
    assert_eq!(Move::null().0, 0);
    assert_eq!(Move::null().flag(), Flag::Normal);
}

#[test]
fn flag_codes() {
    for code in 0..=10u8 {
        assert_eq!(Flag::from_u8(code).to_u8(), code);
    }
    assert_eq!(Flag::from_u8(1), Flag::WKCastle);
    assert_eq!(Flag::from_u8(5), Flag::EnPassant);
    assert_eq!(Flag::from_u8(9), Flag::RookPromo);
}

#[test]
fn move_list_keeps_order() {
    let mut list = MoveList::new();
    assert!(list.is_empty());
    assert_eq!(list.len(), 0);
    list.push(Move(5));
    list.push(Move(7));
    list.push(Move(5));
    assert_eq!(list.len(), 3);
    assert!(!list.is_empty());
    assert_eq!(list.get(0), Move(5));
    assert_eq!(list.get(1), Move(7));
    assert_eq!(list.get(2), Move(5));
    assert!(list.contains(Move(7)));
    assert!(!list.contains(Move(8)));
    list.clear();
    assert_eq!(list.len(), 0);
    assert!(!list.contains(Move(7)));
}

#[test]
fn move_list_holds_its_capacity() {
    let mut list = MoveList::new();
    for i in 0..MAX_MOVES {
        list.push(Move(i as u16));
    }
    assert_eq!(list.len(), 218);
    assert_eq!(list.get(217), Move(217));
}
