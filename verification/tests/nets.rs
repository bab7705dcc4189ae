use anura::board::stack::Board;
use anura::nets::blob::{read_i16s, read_i8s};
use anura::nets::policy::{
    activation as policy_activation, transpose_output_weights as transpose_policy,
    PolicyAccumulator, PolicyNetwork, POLICY_BLOB_SIZE,
};
use anura::nets::policy_outs::{move_index, MoveIndexer};
use anura::nets::value::{
    activation, get_feature_index, get_output_bucket, transpose_output_weights, ValueNetwork,
    ValueNetworkState, VALUE_BLOB_SIZE,
};
use anura::types::moves::Move;
use anura::types::piece::Piece;
use anura::types::square::Square;

fn board_from(fen: &str) -> Board {
    let mut board = Board::new();
    board.load_fen(fen).expect("a sound record");
    board
}

fn value_net(weight: impl Fn(usize) -> i16, bias: i16, out: impl Fn(usize) -> i16, out_bias: i16) -> ValueNetwork {
    ValueNetwork {
        feature_weights: (0..768 * 1024).map(weight).collect(),
        feature_biases: vec![bias; 1024],
        output_weights: (0..1024 * 16).map(out).collect(),
        output_bias: vec![out_bias; 16],
    }
}

fn policy_net(weight: impl Fn(usize) -> i8, bias: i8, out: impl Fn(usize) -> i8, out_bias: impl Fn(usize) -> i8) -> PolicyNetwork {
    PolicyNetwork {
        l1_weights: (0..3072 * 512).map(weight).collect(),
        l1_biases: vec![bias; 512],
        l2_weights: (0..1880 * 512).map(out).collect(),
        l2_biases: (0..1880).map(out_bias).collect(),
    }
}

#[test]
fn numbers_are_read_low_byte_first() {
    let bytes = [0x34, 0x12, 0xff, 0xff, 0x00, 0x80, 0xff, 0x7f, 9];
    assert_eq!(read_i16s(&bytes, 0, 4), [0x1234, -1, -32768, 32767]);
    assert_eq!(read_i16s(&bytes, 1, 2), [-238, 255]);
    assert_eq!(read_i8s(&bytes, 0, 4), [0x34, 0x12, -1, -1]);
    assert_eq!(read_i8s(&bytes, 5, 4), [-128, -1, 127, 9]);
    assert_eq!(read_i8s(&bytes, 9, 0), []);
}

#[test]
fn feature_indices() {
    let white_pawn = Piece::new_unchecked(0, 1);
    let black_queen = Piece::new_unchecked(4, 0);
    assert_eq!(get_feature_index(white_pawn, Square(12), 1, Square(2)), 12);
    assert_eq!(get_feature_index(white_pawn, Square(12), 1, Square(4)), 12 ^ 7);
    assert_eq!(get_feature_index(black_queen, Square(59), 1, Square(2)), 384 + 4 * 64 + 59);
    assert_eq!(get_feature_index(black_queen, Square(59), 0, Square(58)), 4 * 64 + 3);
    assert_eq!(get_feature_index(black_queen, Square(59), 0, Square(60)), 4 * 64 + 4);
    assert_eq!(get_feature_index(white_pawn, Square(12), 0, Square(60)), 384 + (12 ^ 56 ^ 7));
    assert_eq!(get_feature_index(Piece::new_unchecked(5, 0), Square(63), 1, Square(0)), 767);
}

#[test]
fn activations() {
    assert_eq!(activation(-5), 0);
    assert_eq!(activation(0), 0);
    assert_eq!(activation(3), 9);
    assert_eq!(activation(256), 65536);
    assert_eq!(activation(300), 65536);
    assert_eq!(activation(i16::MIN), 0);
    assert_eq!(policy_activation(-5), 0);
    assert_eq!(policy_activation(3), 9);
    assert_eq!(policy_activation(128), 16384);
    assert_eq!(policy_activation(129), 16384);
    assert_eq!(policy_activation(i16::MAX), 16384);
}

#[test]
fn output_buckets() {
    assert_eq!(get_output_bucket(2), 0);
    assert_eq!(get_output_bucket(3), 0);
    assert_eq!(get_output_bucket(4), 1);
    assert_eq!(get_output_bucket(32), 15);
    assert_eq!(get_output_bucket(33), 15);
    assert_eq!(get_output_bucket(64), 15);
    assert_eq!(get_output_bucket(0), 0);
}

#[test]
fn value_networks_load_from_bytes() {
    assert!(ValueNetwork::from_bytes(&[]).is_none());
    assert!(ValueNetwork::from_bytes(&vec![0u8; VALUE_BLOB_SIZE - 1]).is_none());
    assert!(ValueNetwork::from_bytes(&vec![0u8; VALUE_BLOB_SIZE + 1]).is_none());
    let mut bytes = vec![0u8; VALUE_BLOB_SIZE];
    bytes[0] = 1;
    bytes[3] = 0xff;
    bytes[2 * 786432] = 7;
    bytes[2 * (786432 + 1024)] = 9;
    bytes[2 * (786432 + 1024 + 16384) + 1] = 0x80;
    bytes[VALUE_BLOB_SIZE - 2] = 5;
    let net = ValueNetwork::from_bytes(&bytes).expect("a network");
    assert_eq!(net.feature_weights.len(), 786432);
    assert_eq!(net.feature_biases.len(), 1024);
    assert_eq!(net.output_weights.len(), 16384);
    assert_eq!(net.output_bias.len(), 16);
    assert_eq!(net.feature_weights[0], 1);
    assert_eq!(net.feature_weights[1], -256);
    assert_eq!(net.feature_biases[0], 7);
    assert_eq!(net.output_weights[0], 9);
    assert_eq!(net.output_bias[0], -32768);
    assert_eq!(net.output_bias[15], 5);
}

#[test]
fn value_output_weights_are_transposed() {
    let net = value_net(|_| 0, 0, |i| i as i16, 3);
    let turned = transpose_output_weights(net);
    assert_eq!(turned.output_weights.len(), 16384);
    assert_eq!(turned.output_weights[0], 0);
    assert_eq!(turned.output_weights[1], 16);
    assert_eq!(turned.output_weights[1024], 1);
    assert_eq!(turned.output_weights[5 * 1024 + 7], 7 * 16 + 5);
    assert_eq!(turned.output_bias, vec![3; 16]);
}

#[test]
fn hidden_layer_adds_the_weights_of_the_pieces() {
    let net = value_net(|i| (i / 1024) as i16, 10, |_| 0, 0);
    let board = board_from("4k3/8/8/8/8/8/4P3/4K3 w - - 0 1");
    let mut state = ValueNetworkState::new(&net);
    assert_eq!(state.state, vec![10; 1024]);
    state.activate_feature(&net, Piece::new_unchecked(0, 1), Square(12), 1, Square(4));
    assert_eq!(state.state, vec![10 + 11; 1024]);
    state.reset(&net);
    assert_eq!(state.state, vec![10; 1024]);
    state.load_position(&net, board.current_state(), 1);
    let king = 5 * 64 + (4 ^ 7);
    let pawn = 12 ^ 7;
    let their_king = 384 + 5 * 64 + (60 ^ 7);
    assert_eq!(state.state, vec![(10 + king + pawn + their_king) as i16; 1024]);
    state.load_position(&net, board.current_state(), 0);
    let king = 5 * 64 + (60 ^ 56 ^ 7);
    let their_king = 384 + 5 * 64 + (4 ^ 56 ^ 7);
    let their_pawn = 384 + (12 ^ 56 ^ 7);
    assert_eq!(state.state, vec![(10 + king + their_king + their_pawn) as i16; 1024]);
}

#[test]
fn hidden_layer_wraps_round() {
    let net = value_net(|_| 20000, 0, |_| 0, 0);
    let mut state = ValueNetworkState::new(&net);
    state.activate_feature(&net, Piece::new_unchecked(0, 1), Square(12), 1, Square(4));
    state.activate_feature(&net, Piece::new_unchecked(0, 1), Square(13), 1, Square(4));
    assert_eq!(state.state, vec![40000u16 as i16; 1024]);
}

#[test]
fn evaluation_follows_the_formula() {
    let net = value_net(|_| 0, 16, |i| if i < 1024 { 64 } else { -64 }, 100);
    let state = ValueNetworkState::new(&net);
    let sum = 1024 * 256 * 64;
    assert_eq!(state.forward(&net, 2), ((sum / 256 + 100) * 400 / 16384) as i32);
    assert_eq!(state.forward(&net, 2), 1602);
    assert_eq!(state.forward(&net, 4), ((-sum / 256 + 100) * 400 / 16384) as i32);
    assert_eq!(state.forward(&net, 4), -1597);
    let board = board_from("4k3/8/8/8/8/8/4P3/4K3 w - - 0 1");
    assert_eq!(board.evaluate(&net), 1602);
    assert_eq!(board.evaluate_non_stm(&net), 1602);
    let mut state = ValueNetworkState::new(&net);
    assert_eq!(state.evaluate(&net, board.current_state(), 0), 1602);
    let full = board_from("rnbqkbnr/pppppppp/8/8/8/8/PPPPPPPP/RNBQKBNR w KQkq - 0 1");
    assert_eq!(full.evaluate(&net), -1597);
}

#[test]
fn evaluation_rounds_towards_zero() {
    let net = value_net(|_| 0, 1, |i| if i == 0 { -1 } else { 0 }, -1);
    let state = ValueNetworkState::new(&net);
    assert_eq!(state.forward(&net, 2), 0);
    let net = value_net(|_| 0, 16, |i| if i < 1024 { -1 } else { 0 }, -50);
    let state = ValueNetworkState::new(&net);
    assert_eq!(state.forward(&net, 2), -26);
}

#[test]
fn move_indexer_counts_every_destination() {
    let indexer = MoveIndexer::new().expect("1792 plain outputs");
    assert_eq!(indexer.destinations.len(), 64);
    assert_eq!(indexer.offsets.len(), 65);
    assert_eq!(&indexer.offsets[..5], [0, 23, 47, 72, 97]);
    assert_eq!(indexer.offsets[12], 303);
    assert_eq!(indexer.offsets[63], 1769);
    assert_eq!(indexer.offsets[64], 1792);
    assert_eq!(indexer.destinations[0], 0x8141_2111_0907_07fe);
}

#[test]
fn move_indices() {
    let indexer = MoveIndexer::new().expect("1792 plain outputs");
    let e2e4 = Move::new_unchecked(12, 28, 6);
    assert_eq!(move_index(&indexer, 1, e2e4, Square(4)), 293);
    let e7e5 = Move::new_unchecked(52, 36, 6);
    assert_eq!(move_index(&indexer, 0, e7e5, Square(60)), 293);
    assert_eq!(move_index(&indexer, 1, Move::new_unchecked(0, 1, 0), Square(0)), 0);
    assert_eq!(move_index(&indexer, 1, Move::new_unchecked(7, 6, 0), Square(7)), 0);
    assert_eq!(move_index(&indexer, 1, Move::new_unchecked(63, 62, 0), Square(0)), 1791);
    assert_eq!(move_index(&indexer, 1, Move::new_unchecked(48, 56, 7), Square(0)), 1792);
    assert_eq!(move_index(&indexer, 1, Move::new_unchecked(48, 57, 7), Square(0)), 1793);
    assert_eq!(move_index(&indexer, 1, Move::new_unchecked(55, 63, 10), Square(0)), 1792 + 66 + 21);
    assert_eq!(move_index(&indexer, 1, Move::new_unchecked(55, 63, 10), Square(4)), 1792 + 66);
    assert_eq!(move_index(&indexer, 0, Move::new_unchecked(8, 0, 8), Square(0)), 1792 + 22);
}

#[test]
fn policy_networks_load_from_bytes() {
    assert!(PolicyNetwork::from_bytes(&vec![0u8; POLICY_BLOB_SIZE - 1]).is_none());
    let mut bytes = vec![0u8; POLICY_BLOB_SIZE];
    bytes[1] = 0xff;
    bytes[1572864] = 3;
    bytes[1573376] = 0x80;
    bytes[POLICY_BLOB_SIZE - 1] = 0x7f;
    let net = PolicyNetwork::from_bytes(&bytes).expect("a network");
    assert_eq!(net.l1_weights.len(), 3072 * 512);
    assert_eq!(net.l2_weights.len(), 1880 * 512);
    assert_eq!(net.l1_weights[1], -1);
    assert_eq!(net.l1_biases[0], 3);
    assert_eq!(net.l2_weights[0], -128);
    assert_eq!(net.l2_biases[1879], 127);
}

#[test]
fn policy_output_weights_are_transposed() {
    let net = policy_net(|_| 0, 0, |i| (i % 100) as i8, |_| 1);
    let turned = transpose_policy(net);
    assert_eq!(turned.l2_weights.len(), 1880 * 512);
    assert_eq!(turned.l2_weights[1], (1880 % 100) as i8);
    assert_eq!(turned.l2_weights[512], 1);
    assert_eq!(turned.l2_weights[7 * 512 + 3], ((3 * 1880 + 7) % 100) as i8);
}

#[test]
fn threatened_and_defended_squares() {
    let board = board_from("4k3/8/8/8/8/8/4P3/4K3 w - - 0 1");
    let p = board.current_state();
    let white = p.threats_by(1).0;
    assert_eq!(white, 0x3828 | (1 << 19) | (1 << 21));
    let black = p.threats_by(0).0;
    assert_eq!(black, (1 << 59) | (1 << 61) | (1 << 51) | (1 << 52) | (1 << 53));
}

#[test]
fn policy_hidden_layer() {
    let net = policy_net(|i| (i / 512 / 64) as i8, 2, |_| 0, |_| 0);
    let board = board_from("4k3/8/8/8/8/4r3/4P3/4K3 w - - 0 1");
    let mut acc = PolicyAccumulator::new(&net);
    assert_eq!(acc.l1, vec![2; 512]);
    acc.load_position(&net, board.current_state(), 1);
    let king = (5 * 64 + (4 ^ 7)) / 64;
    let pawn = ((12 ^ 7) + 768 + 1536) / 64;
    let rook = (384 + 3 * 64 + (20 ^ 7)) / 64;
    let their_king = (384 + 5 * 64 + (60 ^ 7) + 768) / 64;
    assert_eq!(acc.l1, vec![(2 + king + pawn + rook + their_king) as i16; 512]);
    assert_eq!(acc.l1[0], 75);
    acc.clear(&net);
    assert_eq!(acc.l1, vec![2; 512]);
}

#[test]
fn policy_scores() {
    let indexer = MoveIndexer::new().expect("1792 plain outputs");
    let net = policy_net(|_| 0, 3, |i| if i / 512 == 293 { 2 } else { -1 }, |o| (o % 100) as i8);
    let acc = PolicyAccumulator::new(&net);
    let e2e4 = Move::new_unchecked(12, 28, 6);
    assert_eq!(acc.get_score(&net, &indexer, e2e4, 1, Square(4)), (512 * 2 * 9, 93));
    let a1b1 = Move::new_unchecked(0, 1, 0);
    assert_eq!(acc.get_score(&net, &indexer, a1b1, 1, Square(0)), (-512 * 9, 0));
}
