use anura::movegen::others::{get_king_attacks, get_knight_attacks};
use anura::movegen::pawns::{
    get_pawn_attacks_lookup, get_pawn_attacks_setwise, get_pawn_pushes_setwise,
};
use anura::movegen::slideys::{get_bishop_attacks, get_rook_attacks, walk};
use anura::rays::{init_ray_tables, ray_between, ray_intersecting};
use anura::types::bitboard::Bitboard;
use anura::types::square::Square;

#[test]
fn knight_attacks() {
    assert_eq!(get_knight_attacks(Square(0)).0, 0x20400);
    assert_eq!(get_knight_attacks(Square(27)).0, 0x142200221400);
    assert_eq!(get_knight_attacks(Square(63)).0, (1 << 46) | (1 << 53));
}

#[test]
fn king_attacks() {
    assert_eq!(get_king_attacks(Square(4)).0, 0x3828);
    assert_eq!(get_king_attacks(Square(0)).0, (1 << 1) | (1 << 8) | (1 << 9));
    assert_eq!(get_king_attacks(Square(63)).0, (1 << 62) | (1 << 54) | (1 << 55));
}

#[test]
fn pawn_attacks() {
    assert_eq!(get_pawn_attacks_lookup(Square(12), 1).0, (1 << 19) | (1 << 21));
    assert_eq!(get_pawn_attacks_lookup(Square(52), 0).0, (1 << 43) | (1 << 45));
    assert_eq!(get_pawn_attacks_lookup(Square(8), 1).0, 1 << 17);
    assert_eq!(get_pawn_attacks_lookup(Square(15), 1).0, 1 << 22);
    assert_eq!(get_pawn_attacks_lookup(Square(48), 0).0, 1 << 41);
    assert_eq!(get_pawn_attacks_lookup(Square(55), 0).0, 1 << 46);
}

#[test]
fn rook_attacks() {
    assert_eq!(get_rook_attacks(Square(0), Bitboard(0)).0, 0x0101_0101_0101_01fe);
    let occ = Bitboard((1 << 43) | (1 << 25));
    assert_eq!(get_rook_attacks(Square(27), occ).0, 0x0808_f608_0808);
}

#[test]
fn bishop_attacks() {
    assert_eq!(get_bishop_attacks(Square(0), Bitboard(0)).0, 0x8040_2010_0804_0200);
    let occ = Bitboard((1 << 43) | (1 << 25));
    assert_eq!(get_bishop_attacks(Square(27), occ).0, 0x8041_2214_0014_2241);
    let blocked = Bitboard(1 << 18);
    assert_eq!(get_bishop_attacks(Square(0), blocked).0, (1 << 9) | (1 << 18));
}

#[test]
fn walks_stop_at_the_first_occupied_square() {
    assert_eq!(walk(0, 0, 1, 0, 7, 0), 0x0101_0101_0101_0100);
    assert_eq!(walk(0, 0, 1, 0, 7, 1 << 24), (1 << 8) | (1 << 16) | (1 << 24));
    assert_eq!(walk(3, 3, 0, -1, 3, 0), (1 << 26) | (1 << 25) | (1 << 24));
    assert_eq!(walk(3, 3, 0, -1, 0, 0), 0);
}

#[test]
fn rays_between() {
    assert_eq!(ray_between(Square(0), Square(63)).0, 0x0040_2010_0804_0200);
    assert_eq!(ray_between(Square(63), Square(0)).0, 0x0040_2010_0804_0200);
    assert_eq!(ray_between(Square(0), Square(56)).0, 0x0001_0101_0101_0100);
    assert_eq!(ray_between(Square(0), Square(7)).0, 0x7e);
    assert_eq!(ray_between(Square(0), Square(17)).0, 0);
    assert_eq!(ray_between(Square(0), Square(1)).0, 0);
    assert_eq!(ray_between(Square(5), Square(5)).0, 0);
    assert_eq!(ray_between(Square(7), Square(56)).0, 0x0002_0408_1020_4000);
}

#[test]
fn rays_intersecting() {
    assert_eq!(ray_intersecting(Square(9), Square(27)).0, 0x8040_2010_0804_0201);
    assert_eq!(ray_intersecting(Square(0), Square(56)).0, 0x0101_0101_0101_0101);
    assert_eq!(ray_intersecting(Square(12), Square(10)).0, 0xff00);
    assert_eq!(ray_intersecting(Square(0), Square(17)).0, 0);
    assert_eq!(ray_intersecting(Square(5), Square(5)).0, 0);
}

#[test]
fn pawn_pushes_setwise() {
    let pawns = Bitboard(0xff00);
    let empties = Bitboard(!0xffff_0000_0000_ffffu64);
    let none = Bitboard(0);
    let (single, double) = get_pawn_pushes_setwise(pawns, empties, 1, none, none);
    assert_eq!(single.0, 0x00ff_0000);
    assert_eq!(double.0, 0xff00_0000);
    let black = Bitboard(0x00ff_0000_0000_0000);
    let (single, double) = get_pawn_pushes_setwise(black, empties, 0, none, none);
    assert_eq!(single.0, 0x0000_ff00_0000_0000);
    assert_eq!(double.0, 0x0000_00ff_0000_0000);
}

#[test]
fn pinned_pawns_push_only_along_the_pin() {
    let pawns = Bitboard((1 << 12) | (1 << 13));
    let empties = Bitboard(!((1u64 << 12) | (1 << 13)));
    let diag = Bitboard(1 << 12);
    let (single, double) = get_pawn_pushes_setwise(pawns, empties, 1, Bitboard(0), diag);
    assert_eq!(single.0, 1 << 21);
    assert_eq!(double.0, 1 << 29);
    let file = Bitboard(0x1010_1010_1010_1010);
    let (single, _) = get_pawn_pushes_setwise(pawns, empties, 1, file, Bitboard(0));
    assert_eq!(single.0, (1 << 20) | (1 << 21));
    let rank = Bitboard(0xff00);
    let (single, _) = get_pawn_pushes_setwise(pawns, empties, 1, rank, Bitboard(0));
    assert_eq!(single.0, 0);
}

#[test]
fn pawn_captures_setwise() {
    let pawns = Bitboard((1 << 8) | (1 << 12) | (1 << 15));
    let targets = Bitboard(0x00ff_0000);
    let none = Bitboard(0);
    let (left, right) = get_pawn_attacks_setwise(pawns, targets, 1, none, none);
    assert_eq!(left.0, (1 << 19) | (1 << 22));
    assert_eq!(right.0, (1 << 17) | (1 << 21));
    let black = Bitboard((1 << 48) | (1 << 52) | (1 << 55));
    let down = Bitboard(0x0000_ff00_0000_0000);
    let (left, right) = get_pawn_attacks_setwise(black, down, 0, none, none);
    assert_eq!(left.0, (1 << 43) | (1 << 46));
    assert_eq!(right.0, (1 << 41) | (1 << 45));
    let ortho = Bitboard(1 << 12);
    let (left, right) = get_pawn_attacks_setwise(pawns, targets, 1, ortho, none);
    assert_eq!(left.0, 1 << 22);
    assert_eq!(right.0, 1 << 17);
}

#[test]
fn ray_tables_hold_every_pair() {
    let tables = init_ray_tables();
    assert_eq!(tables.between.len(), 4096);
    for a in 0..64u8 {
        for b in 0..64u8 {
            assert_eq!(tables.between(Square(a), Square(b)), ray_between(Square(a), Square(b)));
            assert_eq!(
                tables.intersecting(Square(a), Square(b)),
                ray_intersecting(Square(a), Square(b))
            );
        }
    }
    assert_eq!(tables.between(Square(0), Square(63)).0, 0x0040_2010_0804_0200);
    assert_eq!(tables.intersecting(Square(0), Square(56)).0, 0x0101_0101_0101_0101);
}
