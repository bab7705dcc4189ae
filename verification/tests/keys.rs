use anura::hash::{zobrist_ctm, zobrist_psq, ZOBRIST_VALUES};
use anura::prng::{fill_array, Generator, KEY_SEED};
use anura::types::piece::Piece;
use anura::types::square::Square;

#[test]
fn generator_is_deterministic() {
    let mut a = Generator::new(KEY_SEED);
    let mut b = Generator::new(KEY_SEED);
    for _ in 0..100 {
        assert_eq!(a.next(), b.next());
    }
    let mut c = Generator::new(1);
    let mut d = Generator::new(2);
    assert_ne!(c.next(), d.next());
}

#[test]
fn generator_first_numbers() {
    let mut g = Generator::new(KEY_SEED);
    assert_eq!(g.next(), 0xb7d4_0d75_8c71_c17f);
    assert_eq!(g.next(), 0x07b6_3ad9_cd7d_cddf);
    assert_eq!(g.next(), 0x5d46_057a_d08e_fa8c);
}

#[test]
fn keys_are_the_numbers_of_the_generator() {
    let filled: [u64; 897] = fill_array::<897>();
    for i in 0..897 {
        assert_eq!(filled[i], ZOBRIST_VALUES[i]);
    }
}

#[test]
fn keys_by_piece_and_square() {
    assert_eq!(zobrist_psq(Piece(0), Square(0)), ZOBRIST_VALUES[0]);
    assert_eq!(zobrist_psq(Piece(13), Square(63)), ZOBRIST_VALUES[63 * 14 + 13]);
    assert_eq!(zobrist_psq(Piece(8), Square(12)), ZOBRIST_VALUES[12 * 14 + 8]);
    assert_eq!(zobrist_ctm(), ZOBRIST_VALUES[896]);
    assert_eq!(zobrist_ctm(), 0x8c8c450d578caf36);
}
