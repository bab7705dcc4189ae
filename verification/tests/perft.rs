use anura::board::stack::Board;
use anura::perft::perft;

fn count(fen: &str, depth: u8) -> Option<u64> {
    let mut board = Board::new();
    board.load_fen(fen).expect("a sound record");
    perft(&mut board, depth)
}

const START: &str = "rnbqkbnr/pppppppp/8/8/8/8/PPPPPPPP/RNBQKBNR w KQkq - 0 1";
const KIWIPETE: &str = "r3k2r/p1ppqpb1/bn2pnp1/3PN3/1p2P3/2N2Q1p/PPPBBPPP/R3K2R w KQkq - 0 1";

#[test]
fn perft_start_shallow() {
    assert_eq!(count(START, 0), Some(1));
    assert_eq!(count(START, 1), Some(20));
    assert_eq!(count(START, 2), Some(400));
    assert_eq!(count(START, 3), Some(8902));
}

#[test]
fn perft_start_depth_four() {
    assert_eq!(count(START, 4), Some(197281));
}

#[test]
fn perft_kiwipete() {
    assert_eq!(count(KIWIPETE, 1), Some(48));
    assert_eq!(count(KIWIPETE, 2), Some(2039));
    assert_eq!(count(KIWIPETE, 3), Some(97862));
}

#[test]
fn perft_rook_endgame() {
    let fen = "8/2p5/3p4/KP5r/1R3p1k/8/4P1P1/8 w - - 0 1";
    assert_eq!(count(fen, 1), Some(14));
    assert_eq!(count(fen, 2), Some(191));
    assert_eq!(count(fen, 3), Some(2812));
    assert_eq!(count(fen, 4), Some(43238));
}

#[test]
fn perft_promotions_white() {
    let fen = "r3k2r/Pppp1ppp/1b3nbN/nP6/BBP1P3/q4N2/Pp1P2PP/R2Q1RK1 w kq - 0 1";
    assert_eq!(count(fen, 1), Some(6));
    assert_eq!(count(fen, 2), Some(264));
    assert_eq!(count(fen, 3), Some(9467));
}

#[test]
fn perft_promotions_black() {
    let fen = "r2q1rk1/pP1p2pp/Q4n2/bbp1p3/Np6/1B3NBn/pPPP1PPP/R3K2R b KQ - 0 1";
    assert_eq!(count(fen, 1), Some(6));
    assert_eq!(count(fen, 2), Some(264));
    assert_eq!(count(fen, 3), Some(9467));
}

#[test]
fn perft_position_five() {
    let fen = "rnbq1k1r/pp1Pbppp/2p5/8/2B5/8/PPP1NnPP/RNBQK2R w KQ - 1 8";
    assert_eq!(count(fen, 1), Some(44));
    assert_eq!(count(fen, 2), Some(1486));
    assert_eq!(count(fen, 3), Some(62379));
}

#[test]
fn perft_position_six() {
    let fen = "r4rk1/1pp1qppp/p1np1n2/2b1p1B1/2B1P1b1/P1NP1N2/1PP1QPPP/R4RK1 w - - 0 10";
    assert_eq!(count(fen, 1), Some(46));
    assert_eq!(count(fen, 2), Some(2079));
    assert_eq!(count(fen, 3), Some(89890));
}

#[test]
fn perft_kiwipete_depth_four() {
    assert_eq!(count(KIWIPETE, 4), Some(4085603));
}

#[test]
fn perft_start_depth_five() {
    assert_eq!(count(START, 5), Some(4865609));
}

#[test]
fn perft_leaves_the_board_as_it_was() {
    let mut board = Board::new();
    board.load_fen(KIWIPETE).expect("a sound record");
    let before = *board.current_state();
    let states = board.states.len();
    assert_eq!(perft(&mut board, 2), Some(2039));
    assert_eq!(board.states.len(), states);
    assert_eq!(board.ctm, 1);
    assert!(board.current_state().same(&before));
}

#[test]
fn perft_promotions_white_depth_five() {
    let fen = "r3k2r/Pppp1ppp/1b3nbN/nP6/BBP1P3/q4N2/Pp1P2PP/R2Q1RK1 w kq - 0 1";
    assert_eq!(count(fen, 4), Some(422333));
    assert_eq!(count(fen, 5), Some(15833292));
}

#[test]
fn perft_promotions_black_depth_five() {
    let fen = "r2q1rk1/pP1p2pp/Q4n2/bbp1p3/Np6/1B3NBn/pPPP1PPP/R3K2R b KQ - 0 1";
    assert_eq!(count(fen, 5), Some(15833292));
}

#[test]
fn perft_position_five_depth_five() {
    let fen = "rnbq1k1r/pp1Pbppp/2p5/8/2B5/8/PPP1NnPP/RNBQK2R w KQ - 1 8";
    assert_eq!(count(fen, 4), Some(2103487));
    assert_eq!(count(fen, 5), Some(89941194));
}

#[test]
fn perft_position_six_depth_five() {
    let fen = "r4rk1/1pp1qppp/p1np1n2/2b1p1B1/2B1P1b1/P1NP1N2/1PP1QPPP/R4RK1 w - - 0 10";
    assert_eq!(count(fen, 4), Some(3894594));
    assert_eq!(count(fen, 5), Some(164075551));
}

#[test]
fn perft_rook_endgame_depth_five() {
    let fen = "8/2p5/3p4/KP5r/1R3p1k/8/4P1P1/8 w - - 0 1";
    assert_eq!(count(fen, 5), Some(674624));
}
