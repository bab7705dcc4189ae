use anura::board::fen_text::FenError;
use anura::board::position::Position;
use anura::board::stack::Board;
use anura::hash::{zobrist_ctm, zobrist_psq};
use anura::types::bitboard::Bitboard;
use anura::types::movelist::MoveList;
use anura::types::moves::{Flag, Move};
use anura::types::piece::Piece;
use anura::types::square::Square;

const START: &str = "rnbqkbnr/pppppppp/8/8/8/8/PPPPPPPP/RNBQKBNR w KQkq - 0 1";
const KIWIPETE: &str = "r3k2r/p1ppqpb1/bn2pnp1/3PN3/1p2P3/2N2Q1p/PPPBBPPP/R3K2R w KQkq - 0 1";

fn board_from(fen: &str) -> Board {
    let mut board = Board::new();
    board.load_fen(fen).expect("a sound record");
    board
}

fn moves_of(board: &Board) -> Vec<Move> {
    let mut list = MoveList::new();
    board.get_moves(&mut list);
    (0..list.len()).map(|i| list.get(i)).collect()
}

fn texts_of(board: &Board) -> Vec<String> {
    moves_of(board).iter().map(|m| m.to_string()).collect()
}

fn play(board: &mut Board, text: &str) {
    let mov = Move::from_text(text, board).expect("a move");
    assert!(moves_of(board).contains(&mov), "{} is not legal", text);
    board.make_move(mov);
}

fn hash_from_scratch(p: &Position, ctm: u8) -> u64 {
    let mut hash = 0;
    for sq in 0..64u8 {
        let piece = p.piece_on_square(Square(sq));
        if piece.0 != 6 {
            hash ^= zobrist_psq(piece, Square(sq));
        }
    }
    if ctm == 1 {
        hash ^= zobrist_ctm();
    }
    hash
}

fn check_sound(board: &Board) {
    let p = board.current_state();
    for sq in 0..64u8 {
        let code = p.mailbox[sq as usize];
        let bit = 1u64 << sq;
        for kind in 0..6usize {
            assert_eq!(p.pieces[kind] & bit != 0, code != 6 && (code % 8) as usize == kind);
        }
        for color in 0..2usize {
            assert_eq!(p.colors[color] & bit != 0, code != 6 && (code / 8) as usize == color);
        }
    }
    for color in 0..2u8 {
        let kings = p.colored_piece(5, color);
        assert_eq!(kings.popcount(), 1);
        assert_eq!(kings.lsb(), p.king_sqs[color as usize]);
    }
    assert_eq!(p.hash, hash_from_scratch(p, board.ctm));
}

#[test]
fn new_board_has_blank_positions() {
    let board = Board::new();
    assert_eq!(board.states.len(), 256);
    assert_eq!(board.ctm, 0);
    assert_eq!(board.ply, 0);
    let p = Position::empty();
    assert!(board.current_state().same(&p));
    assert_eq!(p.occupied().0, 0);
    assert_eq!(p.ep_index, Square(64));
    assert_eq!(p.hash, 0);
}

#[test]
fn pieces_go_on_and_off() {
    let mut p = Position::empty();
    let rook = Piece::new_unchecked(3, 1);
    p.add_piece(Square(0), rook);
    assert_eq!(p.piece_on_square(Square(0)), rook);
    assert_eq!(p.occupied().0, 1);
    assert_eq!(p.colored_piece(3, 1).0, 1);
    assert_eq!(p.colored_piece(3, 0).0, 0);
    assert_eq!(p.hash, zobrist_psq(rook, Square(0)));
    let knight = Piece::new_unchecked(1, 0);
    p.add_piece(Square(8), knight);
    p.move_piece(Square(0), rook, Square(8), knight);
    assert_eq!(p.piece_on_square(Square(8)), rook);
    assert_eq!(p.piece_on_square(Square(0)), Piece(6));
    assert_eq!(p.occupied().0, 1 << 8);
    assert_eq!(p.hash, zobrist_psq(rook, Square(8)));
    p.switch_color();
    assert_eq!(p.hash, zobrist_psq(rook, Square(8)) ^ zobrist_ctm());
    p.switch_color();
    p.remove_piece(Square(8), rook);
    assert!(p.same(&Position::empty()));
}

#[test]
fn start_position_loads() {
    let board = board_from(START);
    assert_eq!(board.states.len(), 257);
    assert_eq!(board.ctm, 1);
    assert_eq!(board.ply, 1);
    let p = board.current_state();
    assert_eq!(p.castling, 15);
    assert_eq!(p.ep_index, Square(64));
    assert_eq!(p.hm_clock, 0);
    assert_eq!(p.occupied().0, 0xffff_0000_0000_ffff);
    assert_eq!(p.colors[1], 0xffff);
    assert_eq!(p.colors[0], 0xffff_0000_0000_0000);
    assert_eq!(p.king_sqs, [60, 4]);
    assert_eq!(p.piece_on_square(Square(3)), Piece(12));
    assert_eq!(p.piece_on_square(Square(59)), Piece(4));
    assert_eq!(p.checkers, 0);
    assert_eq!(p.diago_pin_mask, 0);
    assert_eq!(p.ortho_pin_mask, 0);
    assert!(!board.in_check());
    check_sound(&board);
}

#[test]
fn records_without_counters_load() {
    let mut board = Board::new();
    board.ply = 7;
    assert_eq!(board.load_fen("4k3/8/8/8/8/8/4P3/4K3 b - -"), Ok(()));
    assert_eq!(board.ctm, 0);
    assert_eq!(board.ply, 7);
    assert_eq!(board.get_fen(), "4k3/8/8/8/8/8/4P3/4K3 b - -");
    assert_eq!(board.load_fen("  4k3/8/8/8/8/8/4P3/4K3 \t w  -  - 3 -12 "), Ok(()));
    assert_eq!(board.ctm, 1);
    assert_eq!(board.ply, -12);
}

#[test]
fn bad_records_are_refused() {
    let mut board = Board::new();
    assert_eq!(board.load_fen(""), Err(FenError::MissingField));
    assert_eq!(board.load_fen("4k3/8/8/8/8/8/4P3/4K3 w -"), Err(FenError::MissingField));
    assert_eq!(board.load_fen("4k3/8/8/8/8/8/4P3/4K3 w - - 0"), Err(FenError::MissingField));
    assert_eq!(board.load_fen("4k3/8/8/8/8/8/4X3/4K3 w - - 0 1"), Err(FenError::BadPiece));
    assert_eq!(board.load_fen("4k3/8/8/8/8/8/8/8/4K3 w - - 0 1"), Err(FenError::TooManySquares));
    assert_eq!(board.load_fen("4k3/8/8/8/8/8/4P3/4K3 w x - 0 1"), Err(FenError::BadCastling));
    assert_eq!(board.load_fen("4k3/8/8/8/8/8/4P3/4K3 w - - 0 x"), Err(FenError::BadCounter));
    assert_eq!(board.load_fen("4k3/8/8/8/8/8/4P3/4K3 w - - 0 40000"), Err(FenError::BadCounter));
    assert_eq!(board.load_fen("8/8/8/8/8/8/4P3/4K3 w - - 0 1"), Err(FenError::Unsound));
    assert_eq!(board.load_fen("4k3/8/8/8/8/8/4P3/3KK3 w - - 0 1"), Err(FenError::Unsound));
    assert_eq!(board.load_fen("4k3/8/8/8/8/8/4P3/4K3 w K - 0 1"), Err(FenError::Unsound));
    assert_eq!(board.load_fen("4k3/8/8/8/8/8/4P3/4K3 w - e3 0 1"), Err(FenError::Unsound));
    assert_eq!(board.states.len(), 256);
    assert_eq!(board.ctm, 0);
    assert_eq!(board.ply, 0);
}

#[test]
fn records_round_trip() {
    let fens = [
        "rnbqkbnr/pppppppp/8/8/8/8/PPPPPPPP/RNBQKBNR w KQkq -",
        "r3k2r/p1ppqpb1/bn2pnp1/3PN3/1p2P3/2N2Q1p/PPPBBPPP/R3K2R w KQkq -",
        "rnbqkbnr/pppppppp/8/8/4P3/8/PPPP1PPP/RNBQKBNR b KQkq e3",
        "8/2p5/3p4/KP5r/1R3p1k/8/4P1P1/8 w - -",
        "r3k2r/8/8/8/8/8/8/R3K2R b Kq -",
        "rnbqkbnr/ppp1p1pp/8/3pPp2/8/8/PPPP1PPP/RNBQKBNR w KQkq f6",
    ];
    for fen in fens {
        let board = board_from(fen);
        let text = board.get_fen();
        assert_eq!(text, fen);
        let again = board_from(&text);
        assert_eq!(again.ctm, board.ctm);
        assert!(again.current_state().same(board.current_state()));
        check_sound(&board);
    }
}

#[test]
fn start_position_moves() {
    let board = board_from(START);
    let moves = texts_of(&board);
    assert_eq!(moves.len(), 20);
    assert_eq!(board.get_move_count(), 20);
    assert_eq!(
        moves,
        [
            "b1a3", "b1c3", "g1f3", "g1h3", "a2a3", "b2b3", "c2c3", "d2d3", "e2e3", "f2f3",
            "g2g3", "h2h3", "a2a4", "b2b4", "c2c4", "d2d4", "e2e4", "f2f4", "g2g4", "h2h4",
        ]
    );
}

#[test]
fn moves_are_appended_to_the_list() {
    let board = board_from(START);
    let mut list = MoveList::new();
    list.push(Move(1));
    board.get_moves(&mut list);
    assert_eq!(list.len(), 21);
    assert_eq!(list.get(0), Move(1));
    assert_eq!(list.get(1).to_string(), "b1a3");
}

#[test]
fn count_agrees_with_the_list() {
    let fens = [
        START,
        KIWIPETE,
        "8/2p5/3p4/KP5r/1R3p1k/8/4P1P1/8 w - - 0 1",
        "r3k2r/Pppp1ppp/1b3nbN/nP6/BBP1P3/q4N2/Pp1P2PP/R2Q1RK1 w kq - 0 1",
        "rnbq1k1r/pp1Pbppp/2p5/8/2B5/8/PPP1NnPP/RNBQK2R w KQ - 1 8",
        "4k3/8/8/8/8/8/8/4K2r w - - 0 1",
        "4k3/8/8/8/8/5n2/8/4K2r w - - 0 1",
    ];
    for fen in fens {
        let board = board_from(fen);
        assert_eq!(board.get_move_count(), moves_of(&board).len() as u64);
    }
}

#[test]
fn castling_needs_safe_squares() {
    let board = board_from("8/8/8/8/8/8/6k1/4K2R w K - 0 1");
    assert!(!texts_of(&board).contains(&"e1g1".to_string()));
    let board = board_from("4k3/8/8/8/8/8/8/4K2R w K - 0 1");
    let moves = moves_of(&board);
    assert!(moves.contains(&Move::new_unchecked(4, 6, 1)));
    let board = board_from("4k3/8/8/8/8/4r3/8/4K2R w K - 0 1");
    assert!(!moves_of(&board).contains(&Move::new_unchecked(4, 6, 1)));
    let board = board_from("4k3/8/8/8/8/5r2/8/4K2R w K - 0 1");
    assert!(!moves_of(&board).contains(&Move::new_unchecked(4, 6, 1)));
    let board = board_from("4k3/8/8/8/8/7r/8/4K2R w K - 0 1");
    assert!(moves_of(&board).contains(&Move::new_unchecked(4, 6, 1)));
}

#[test]
fn castling_moves_both_pieces() {
    let mut board = board_from("r3k2r/8/8/8/8/8/8/R3K2R w KQkq - 0 1");
    play(&mut board, "e1g1");
    assert_eq!(board.get_fen(), "r3k2r/8/8/8/8/8/8/R4RK1 b kq -");
    check_sound(&board);
    play(&mut board, "e8c8");
    assert_eq!(board.get_fen(), "2kr3r/8/8/8/8/8/8/R4RK1 w - -");
    check_sound(&board);
}

#[test]
fn rook_moves_end_one_right() {
    let mut board = board_from("r3k2r/8/8/8/8/8/8/R3K2R w KQkq - 0 1");
    play(&mut board, "h1h8");
    assert_eq!(board.get_fen(), "r3k2R/8/8/8/8/8/8/R3K3 b Qq -");
    check_sound(&board);
}

#[test]
fn en_passant_takes_the_passed_pawn() {
    let mut board = board_from("4k3/8/8/8/1p6/8/P7/4K3 w - - 0 1");
    play(&mut board, "a2a4");
    assert_eq!(board.current_state().ep_index, Square(16));
    assert_eq!(board.get_fen(), "4k3/8/8/8/Pp6/8/8/4K3 b - a3");
    let mov = Move::from_text("b4a3", &board).expect("a move");
    assert_eq!(mov.flag(), Flag::EnPassant);
    play(&mut board, "b4a3");
    assert_eq!(board.get_fen(), "4k3/8/8/8/8/p7/8/4K3 w - -");
    check_sound(&board);
}

#[test]
fn en_passant_must_not_bare_the_king() {
    let board = board_from("8/8/8/8/k2Pp2R/8/8/4K3 b - d3 0 1");
    assert!(!texts_of(&board).contains(&"e4d3".to_string()));
}

#[test]
fn promotions_come_in_fours() {
    let mut board = board_from("1n2k3/P7/8/8/8/8/8/4K3 w - - 0 1");
    let moves = texts_of(&board);
    for text in ["a7a8n", "a7a8b", "a7a8r", "a7a8q", "a7b8n", "a7b8b", "a7b8r", "a7b8q"] {
        assert!(moves.contains(&text.to_string()));
    }
    play(&mut board, "a7b8q");
    assert_eq!(board.get_fen(), "1Q2k3/8/8/8/8/8/8/4K3 b - -");
    assert!(board.in_check());
    check_sound(&board);
}

#[test]
fn pinned_pieces_stay_on_their_line() {
    let board = board_from("4k3/8/8/8/4r3/8/4R3/4K3 w - - 0 1");
    let moves = texts_of(&board);
    assert!(moves.contains(&"e2e3".to_string()));
    assert!(moves.contains(&"e2e4".to_string()));
    assert!(!moves.contains(&"e2d2".to_string()));
    assert_eq!(board.current_state().ortho_pin_mask, (1 << 12) | (1 << 20) | (1 << 28));
    let board = board_from("4k3/8/8/8/4r3/8/4N3/4K3 w - - 0 1");
    assert!(texts_of(&board).iter().all(|m| !m.starts_with("e2")));
    let board = board_from("4k3/8/8/8/7b/8/5B2/4K3 w - - 0 1");
    assert_eq!(board.current_state().diago_pin_mask, (1 << 13) | (1 << 22) | (1 << 31));
    let moves = texts_of(&board);
    assert!(moves.contains(&"f2g3".to_string()));
    assert!(moves.contains(&"f2h4".to_string()));
    assert!(!moves.contains(&"f2e3".to_string()));
}

#[test]
fn checks_must_be_answered() {
    let board = board_from("4k3/8/8/8/8/8/3P4/4K2r w - - 0 1");
    assert!(board.in_check());
    assert_eq!(board.current_state().checkers, 1 << 7);
    assert_eq!(texts_of(&board), ["e1e2", "e1f2"]);
    let board = board_from("4k3/8/8/8/8/8/3PR3/3K3r w - - 0 1");
    assert_eq!(texts_of(&board), ["d1c2", "e2e1"]);
    let board = board_from("4k3/8/8/8/8/2n5/3PR3/3K3r w - - 0 1");
    assert_eq!(texts_of(&board), ["d1c2"]);
}

#[test]
fn mate_and_stalemate_have_no_moves() {
    let board = board_from("R6k/8/7K/8/8/8/8/8 b - - 0 1");
    assert!(board.in_check());
    assert_eq!(board.get_move_count(), 0);
    assert!(moves_of(&board).is_empty());
    let board = board_from("7k/5Q2/7K/8/8/8/8/8 b - - 0 1");
    assert!(!board.in_check());
    assert_eq!(board.get_move_count(), 0);
}

#[test]
fn attacked_squares() {
    let board = board_from("4k3/8/8/8/8/4r3/8/4K2R w K - 0 1");
    assert!(board.square_attacked(Square(4)));
    assert!(board.square_attacked(Square(12)));
    assert!(!board.square_attacked(Square(5)));
    assert!(board.square_attacked(Square(59)));
    assert_eq!(board.get_attackers(Square(4)).0, 1 << 20);
    assert_eq!(board.get_attackers(Square(5)).0, 0);
    assert!(!board.square_attacked_occ(Square(4), Bitboard((1 << 12) | (1 << 20))));
    assert!(board.square_attacked_occ(Square(4), Bitboard(1 << 20)));
}

#[test]
fn masks_follow_the_position() {
    let mut board = board_from("4k3/8/8/8/4r3/8/4R3/4K3 w - - 0 1");
    let before = *board.current_state();
    board.current_state_mut().ortho_pin_mask = 0;
    board.current_state_mut().checkers = 5;
    board.update_pins_and_checkers();
    assert!(board.current_state().same(&before));
}

#[test]
fn make_and_undo_round_trip() {
    for fen in [START, KIWIPETE, "rnbq1k1r/pp1Pbppp/2p5/8/2B5/8/PPP1NnPP/RNBQK2R w KQ - 1 8"] {
        let mut board = board_from(fen);
        let states = board.states.len();
        let before = *board.current_state();
        let (ctm, ply) = (board.ctm, board.ply);
        for mov in moves_of(&board) {
            board.make_move(mov);
            assert_eq!(board.states.len(), states + 1);
            assert_eq!(board.ctm, 1 - ctm);
            assert_eq!(board.ply, ply + 1);
            check_sound(&board);
            board.undo_move();
            assert_eq!(board.states.len(), states);
            assert_eq!(board.ctm, ctm);
            assert_eq!(board.ply, ply);
            assert!(board.current_state().same(&before));
        }
    }
}

#[test]
fn clock_counts_quiet_moves() {
    let mut board = board_from(START);
    play(&mut board, "g1f3");
    assert_eq!(board.current_state().hm_clock, 1);
    play(&mut board, "g8f6");
    assert_eq!(board.current_state().hm_clock, 2);
    play(&mut board, "e2e4");
    assert_eq!(board.current_state().hm_clock, 0);
    play(&mut board, "f6e4");
    assert_eq!(board.current_state().hm_clock, 0);
    assert!(!board.is_drawn());
}

#[test]
fn repetition_is_a_draw() {
    let mut board = board_from(START);
    let line = ["e2e4", "e7e5", "g1f3", "b8c6", "f3g1", "c6b8", "g1f3", "b8c6", "f3g1", "c6b8"];
    let mut drawn = Vec::new();
    for text in line {
        play(&mut board, text);
        drawn.push(board.is_drawn());
    }
    assert_eq!(drawn, [false, false, false, false, false, true, true, true, true, true]);
    assert!(board.is_drawn());
}

#[test]
fn fifty_moves_are_a_draw() {
    let mut board = board_from("4k3/8/8/8/8/8/8/4K2R w - - 0 1");
    board.current_state_mut().hm_clock = 99;
    assert!(!board.is_drawn());
    board.current_state_mut().hm_clock = 100;
    assert!(board.is_drawn());
}

#[test]
fn load_state_forgets_the_history() {
    let mut board = board_from(START);
    play(&mut board, "e2e4");
    let p = *board.current_state();
    board.load_state(&p, 0);
    assert_eq!(board.states.len(), 1);
    assert_eq!(board.ctm, 0);
    assert!(board.current_state().same(&p));
    assert_eq!(board.get_move_count(), 20);
}

#[test]
fn moves_from_text() {
    let board = board_from("r3k2r/8/8/8/8/8/P7/R3K2R w KQkq - 0 1");
    assert_eq!(Move::from_text("e1g1", &board), Some(Move::new_unchecked(4, 6, 1)));
    assert_eq!(Move::from_text("e1c1", &board), Some(Move::new_unchecked(4, 2, 2)));
    assert_eq!(Move::from_text("e8g8", &board), Some(Move::new_unchecked(60, 62, 3)));
    assert_eq!(Move::from_text("e8c8", &board), Some(Move::new_unchecked(60, 58, 4)));
    assert_eq!(Move::from_text("a2a4", &board), Some(Move::new_unchecked(8, 24, 6)));
    assert_eq!(Move::from_text("a2a3", &board), Some(Move::new_unchecked(8, 16, 0)));
    assert_eq!(Move::from_text("a1a3", &board), Some(Move::new_unchecked(0, 16, 0)));
    assert_eq!(Move::from_text("a7a8q", &board), Some(Move::new_unchecked(48, 56, 10)));
    assert_eq!(Move::from_text("a7a8n", &board), Some(Move::new_unchecked(48, 56, 7)));
    assert_eq!(Move::from_text("a7a8k", &board), None);
    assert_eq!(Move::from_text("a2", &board), None);
    assert_eq!(Move::from_text("a2a9", &board), None);
    assert_eq!(Move::from_text("i2a3", &board), None);
    assert_eq!(Move::from_text("a2a3qq", &board), None);
    let plain = board_from("r3k2r/8/8/8/8/8/P7/R3K2R w - - 0 1");
    assert_eq!(Move::from_text("e1g1", &plain), Some(Move::new_unchecked(4, 6, 0)));
}

#[test]
fn moves_as_text() {
    assert_eq!(Move::new_unchecked(12, 28, 6).to_string(), "e2e4");
    assert_eq!(Move::new_unchecked(4, 6, 1).to_string(), "e1g1");
    assert_eq!(Move::new_unchecked(48, 56, 10).to_string(), "a7a8q");
    assert_eq!(Move::new_unchecked(55, 62, 7).to_string(), "h7g8n");
    assert_eq!(Move::new_unchecked(9, 1, 9).to_string(), "b2b1r");
    assert_eq!(Move::new_unchecked(9, 0, 8).to_string(), "b2a1b");
    assert_eq!(Move::null().to_string(), "a1a1");
    assert_eq!(Move(0).to_other_string(), "0");
    assert_eq!(Move(7).to_other_string(), "7");
    assert_eq!(Move(26380).to_other_string(), "26380");
    assert_eq!(Move(65535).to_other_string(), "65535");
}

#[test]
fn moves_for_game_records() {
    let board = board_from("r3k2r/1P6/8/3pP3/8/8/P7/R3K2R w KQkq d6 0 1");
    let p = board.current_state();
    assert_eq!(Move::new_unchecked(8, 16, 0).to_mf(p), (8 << 10) | (16 << 4));
    assert_eq!(Move::new_unchecked(8, 24, 6).to_mf(p), (8 << 10) | (24 << 4) | 1);
    assert_eq!(Move::new_unchecked(4, 6, 1).to_mf(p), (4 << 10) | (6 << 4) | 2);
    assert_eq!(Move::new_unchecked(60, 62, 3).to_mf(p), (60 << 10) | (62 << 4) | 2);
    assert_eq!(Move::new_unchecked(4, 2, 2).to_mf(p), (4 << 10) | (2 << 4) | 3);
    assert_eq!(Move::new_unchecked(36, 43, 5).to_mf(p), (36 << 10) | (43 << 4) | 5);
    assert_eq!(Move::new_unchecked(49, 57, 10).to_mf(p), (49 << 10) | (57 << 4) | 11);
    assert_eq!(Move::new_unchecked(49, 56, 7).to_mf(p), (49 << 10) | (56 << 4) | 12);
    assert_eq!(Move::new_unchecked(0, 56, 0).to_mf(p), (56 << 4) | 4);
}
