use anura::board::position::Position;
use anura::board::stack::Board;
use anura::mcts::expand::{plan_expansion, plan_visit, Expansion, Visit};
use anura::mcts::node::{GameResult, Node};
use anura::mcts::reuse::{find, take_over, NOT_FOUND};
use anura::mcts::select::first_largest;
use anura::mcts::time::Limiters;
use anura::mcts::tree::{SearchTree, HALF_BIT, IND_MASK};
use anura::mcts::tree_half::TreeHalf;
use anura::search::random;
use anura::tunable::{Tunable, Tunables};
use anura::types::movelist::MoveList;
use anura::types::moves::Move;
use anura::uci::{CommandTypes, UciOptions};

const START: &str = "rnbqkbnr/pppppppp/8/8/8/8/PPPPPPPP/RNBQKBNR w KQkq - 0 1";

fn board_from(fen: &str) -> Board {
    let mut board = Board::new();
    board.load_fen(fen).expect("a sound record");
    board
}

fn small_tree(slots: usize) -> SearchTree {
    SearchTree { halves: [TreeHalf::new(slots), TreeHalf::new(slots)], current_half: 0, half_size: slots }
}

fn node(tag: u16) -> Node {
    Node::new(Move(tag), tag as u32)
}

#[test]
fn game_results() {
    assert_eq!(GameResult::Win.score(), Some(1.0f32.to_bits()));
    assert_eq!(GameResult::Draw.score(), Some(0.5f32.to_bits()));
    assert_eq!(GameResult::Loss.score(), Some(0.0f32.to_bits()));
    assert_eq!(GameResult::Ongoing.score(), None);
    assert!(GameResult::Win.is_terminal());
    assert!(GameResult::Draw.is_terminal());
    assert!(GameResult::Loss.is_terminal());
    assert!(!GameResult::Ongoing.is_terminal());
}

#[test]
fn fresh_nodes() {
    let mut n = Node::new(Move(77), 0.25f32.to_bits());
    assert_eq!(n.mov, Move(77));
    assert_eq!(n.first_child, 0);
    assert_eq!(n.child_count, 0);
    assert_eq!(n.visits, 0);
    assert_eq!(f32::from_bits(n.total_score), 0.0);
    assert_eq!(n.result, GameResult::Ongoing);
    assert_eq!(f32::from_bits(n.policy), 0.25);
    assert_eq!(f32::from_bits(n.gini_impurity), 0.0);
    n.first_child = 40;
    n.child_count = 3;
    assert_eq!(n.children_range(), 40..43);
    n.dereference();
    assert_eq!(n.children_range(), 0..0);
    assert_eq!(n.mov, Move(77));
}

#[test]
fn halves_fill_up() {
    let mut half = TreeHalf::new(3);
    assert_eq!(half.size(), 3);
    assert_eq!(half.len(), 0);
    assert!(half.is_empty());
    assert!(!half.is_full());
    assert_eq!(half.push(node(1)), Some(0));
    assert_eq!(half.push(node(2)), Some(1));
    assert_eq!(half.push(node(3)), Some(2));
    assert!(half.is_full());
    assert_eq!(half.push(node(4)), None);
    assert_eq!(half.len(), 3);
    assert_eq!(*half.index(1), node(2));
    half.index_mut(1).visits = 9;
    assert_eq!(half.index(1).visits, 9);
    half.clear();
    assert_eq!(half.len(), 0);
    assert_eq!(half.size(), 3);
    assert_eq!(half.push(node(5)), Some(0));
    assert_eq!(*half.index(0), node(5));
}

#[test]
fn default_tree_size() {
    let tree = SearchTree::new();
    assert_eq!(tree.half_size, 64 * 1024 * 1024 / 24 / 2);
    assert_eq!(tree.half_size, 1398101);
    assert_eq!(tree.current_half, 0);
    assert!(tree.is_empty());
    assert_eq!(tree.root_node(), 0);
    assert_eq!(tree.next(), 0);
    assert_eq!(tree.hashfull(), 0);
}

#[test]
fn trees_resize() {
    let mut tree = small_tree(4);
    tree.push(node(1));
    tree.resize(1);
    assert_eq!(tree.half_size, 21845);
    assert!(tree.is_empty());
    tree.resize(0);
    assert_eq!(tree.half_size, 0);
    assert_eq!(tree.hashfull(), 0);
    assert_eq!(tree.push(node(1)), None);
}

#[test]
fn trees_push_into_the_current_half() {
    let mut tree = small_tree(4);
    assert_eq!(tree.push(node(1)), Some(()));
    assert_eq!(tree.push(node(2)), Some(()));
    assert!(!tree.is_empty());
    assert!(!tree.is_full());
    assert_eq!(tree.next(), 2);
    assert_eq!(tree.hashfull(), 500);
    assert_eq!(*tree.index(1), node(2));
    tree.index_mut(1).visits = 3;
    assert_eq!(tree.index(1).visits, 3);
    assert_eq!(tree.push(node(3)), Some(()));
    assert_eq!(tree.push(node(4)), Some(()));
    assert!(tree.is_full());
    assert_eq!(tree.push(node(5)), None);
    assert_eq!(tree.hashfull(), 1000);
    tree.reset();
    assert!(tree.is_empty());
    assert_eq!(tree.current_half, 0);
}

#[test]
fn switching_halves_keeps_the_root() {
    let mut tree = small_tree(8);
    tree.push(node(1));
    let moves = two_moves();
    tree.attach_children(0, &moves, &vec![5, 6], 9);
    assert_eq!(tree.index(0).first_child, 1);
    assert_eq!(tree.index(0).child_count, 2);
    tree.switch_halves();
    assert_eq!(tree.current_half, 1);
    assert_eq!(tree.root_node(), HALF_BIT);
    assert_eq!(tree.next(), HALF_BIT + 1);
    let root = *tree.index(HALF_BIT);
    assert_eq!(root.mov, Move(1));
    assert_eq!(root.first_child, 1);
    assert_eq!(root.child_count, 2);
    assert_eq!(tree.index(1).mov, moves.get(0));
    tree.copy_children(HALF_BIT);
    assert_eq!(tree.next(), HALF_BIT + 3);
    assert_eq!(tree.index(HALF_BIT).first_child as usize, HALF_BIT + 1);
    assert_eq!(tree.index(HALF_BIT).child_count, 2);
    assert_eq!(tree.index(HALF_BIT + 1).mov, moves.get(0));
    assert_eq!(tree.index(HALF_BIT + 2).mov, moves.get(1));
    assert_eq!(tree.index(HALF_BIT + 2).policy, 6);
    let held = tree.next();
    assert_eq!(tree.copy_children(HALF_BIT), Some(()));
    assert_eq!(tree.next(), held);
}

#[test]
fn switching_halves_scrubs_stale_references() {
    let mut tree = small_tree(8);
    tree.push(node(1));
    tree.switch_halves();
    tree.attach_children(HALF_BIT, &two_moves(), &vec![5, 6], 9);
    assert_eq!(tree.index(HALF_BIT).first_child as usize, HALF_BIT + 1);
    tree.switch_halves();
    assert_eq!(tree.current_half, 0);
    assert_eq!(tree.next(), 1);
    assert_eq!(tree.index(0).mov, Move(1));
    assert_eq!(tree.index(0).first_child as usize, HALF_BIT + 1);
    tree.index_mut(0).first_child = 1;
    tree.index_mut(0).child_count = 2;
    tree.switch_halves();
    assert_eq!(tree.current_half, 1);
    assert_eq!(tree.index(0).first_child as usize, 1);
    tree.index_mut(0).first_child = (HALF_BIT + 1) as u32;
    tree.dereference();
    assert_eq!(tree.index(0).first_child as usize, IND_MASK);
    assert_eq!(tree.index(0).child_count, 0);
}

#[test]
fn copying_children_stops_when_the_half_is_full() {
    let mut tree = small_tree(4);
    tree.push(node(1));
    tree.attach_children(0, &two_moves(), &vec![5, 6], 9);
    tree.switch_halves();
    tree.push(node(8));
    tree.push(node(9));
    assert_eq!(tree.copy_children(HALF_BIT), None);
    assert!(tree.is_full());
    assert_eq!(tree.index(HALF_BIT).first_child, 1);
    assert_eq!(tree.index(HALF_BIT + 3).mov, two_moves().get(0));
}

fn two_moves() -> MoveList {
    let mut moves = MoveList::new();
    moves.push(Move::new_unchecked(12, 28, 6));
    moves.push(Move::new_unchecked(6, 21, 0));
    moves
}

#[test]
fn children_are_attached_in_order() {
    let mut tree = small_tree(8);
    tree.push(node(1));
    let moves = two_moves();
    tree.attach_children(0, &moves, &vec![5, 6], 9);
    let root = *tree.index(0);
    assert_eq!(root.first_child, 1);
    assert_eq!(root.child_count, 2);
    assert_eq!(root.gini_impurity, 9);
    assert_eq!(root.mov, Move(1));
    assert_eq!(*tree.index(1), Node::new(moves.get(0), 5));
    assert_eq!(*tree.index(2), Node::new(moves.get(1), 6));
    assert_eq!(tree.next(), 3);
    assert_eq!(root.children_range(), 1..3);
}

#[test]
fn visits_and_results_are_noted() {
    let mut tree = small_tree(8);
    tree.push(node(1));
    tree.record_visit(0, 0.75f32.to_bits());
    tree.record_visit(0, 1.5f32.to_bits());
    assert_eq!(tree.index(0).visits, 2);
    assert_eq!(f32::from_bits(tree.index(0).total_score), 1.5);
    tree.index_mut(0).visits = u32::MAX;
    tree.record_visit(0, 0);
    assert_eq!(tree.index(0).visits, u32::MAX);
    tree.set_result(0, GameResult::Loss);
    assert_eq!(tree.index(0).result, GameResult::Loss);
    assert_eq!(tree.index(0).mov, Move(1));
}

#[test]
fn expansion_of_an_open_position() {
    let tree = small_tree(64);
    let board = board_from(START);
    match plan_expansion(&tree, &board) {
        Expansion::Children(list) => {
            assert_eq!(list.len(), 20);
            assert_eq!(list.get(0).to_string(), "b1a3");
        }
        _ => panic!("children expected"),
    }
}

#[test]
fn expansion_of_finished_games() {
    let tree = small_tree(64);
    let mated = board_from("R6k/8/7K/8/8/8/8/8 b - - 0 1");
    assert!(matches!(plan_expansion(&tree, &mated), Expansion::Terminal(GameResult::Loss)));
    let stuck = board_from("7k/5Q2/7K/8/8/8/8/8 b - - 0 1");
    assert!(matches!(plan_expansion(&tree, &stuck), Expansion::Terminal(GameResult::Draw)));
    let mut old = board_from(START);
    old.current_state_mut().hm_clock = 100;
    assert!(matches!(plan_expansion(&tree, &old), Expansion::Terminal(GameResult::Draw)));
}

#[test]
fn expansion_needs_room() {
    let board = board_from(START);
    let tree = small_tree(20);
    assert!(matches!(plan_expansion(&tree, &board), Expansion::OutOfSpace));
    let tree = small_tree(21);
    assert!(matches!(plan_expansion(&tree, &board), Expansion::Children(_)));
    let mut tree = small_tree(22);
    tree.push(node(1));
    tree.push(node(2));
    assert!(matches!(plan_expansion(&tree, &board), Expansion::OutOfSpace));
}

#[test]
fn positions_are_found_in_the_tree() {
    let mut board = board_from(START);
    let mut tree = small_tree(1024);
    tree.push(Node::new(Move::null(), 0));
    let mut moves = MoveList::new();
    board.get_moves(&mut moves);
    let priors = vec![0u32; moves.len()];
    tree.attach_children(0, &moves, &priors, 0);
    let e4 = Move::from_text("e2e4", &board).unwrap();
    let e4_at = (0..moves.len()).find(|&i| moves.get(i) == e4).unwrap() + 1;
    board.make_move(e4);
    let mut replies = MoveList::new();
    board.get_moves(&mut replies);
    let first_reply = tree.next();
    tree.attach_children(e4_at, &replies, &vec![0u32; replies.len()], 0);
    let after_e4 = *board.current_state();
    let e5 = Move::from_text("e7e5", &board).unwrap();
    let e5_at = (0..replies.len()).find(|&i| replies.get(i) == e5).unwrap() + first_reply;
    board.make_move(e5);
    let after_e5 = *board.current_state();
    board.undo_move();
    board.undo_move();
    let start = *board.current_state();
    let states = board.states.len();
    assert_eq!(find(&tree, &mut board, 0, &start, 2), 0);
    assert_eq!(find(&tree, &mut board, 0, &after_e4, 2), e4_at);
    assert_eq!(find(&tree, &mut board, 0, &after_e5, 2), e5_at);
    assert_eq!(find(&tree, &mut board, 0, &after_e5, 1), NOT_FOUND);
    assert_eq!(find(&tree, &mut board, 0, &after_e4, 0), NOT_FOUND);
    assert_eq!(find(&tree, &mut board, NOT_FOUND, &after_e4, 2), NOT_FOUND);
    assert_eq!(find(&tree, &mut board, 0, &Position::empty(), 2), NOT_FOUND);
    assert_eq!(board.states.len(), states);
    assert!(board.current_state().same(&start));
    assert_eq!(board.ctm, 1);
}

#[test]
fn limits_stop_the_search() {
    let mut limits = Limiters::new();
    assert!(limits.check(1_000_000, 1_000_000, 1_000, 20000, 2000));
    limits.load_values(0, 0, 100, 0, 0);
    assert!(limits.check(5, 99, 50, 20000, 2000));
    assert!(!limits.check(5, 100, 50, 20000, 2000));
    limits.load_values(0, 0, 0, 7, 0);
    assert!(limits.use_depth);
    assert!(limits.check(5, 100, 7, 20000, 2000));
    assert!(!limits.check(5, 100, 8, 20000, 2000));
    limits.load_values(0, 0, 0, 0, 250);
    assert!(limits.check(249, 0, 0, 20000, 2000));
    assert!(!limits.check(250, 0, 0, 20000, 2000));
    limits.load_values(60000, 1000, 0, 0, 0);
    assert_eq!(limits.time_allocated(20000, 2000), 3500);
    assert!(limits.check(3499, 0, 0, 20000, 2000));
    assert!(!limits.check(3500, 0, 0, 20000, 2000));
}

#[test]
fn allotted_time() {
    let mut limits = Limiters::new();
    limits.load_values(100, 10000, 0, 0, 0);
    assert_eq!(limits.time_allocated(20000, 2000), 100);
    limits.load_values(1001, 0, 0, 0, 0);
    assert_eq!(limits.time_allocated(3000, 1000), 333);
    limits.load_values(7, 5, 0, 0, 0);
    assert_eq!(limits.time_allocated(1500, 2500), 6);
    limits.load_values(u128::MAX, u128::MAX, 0, 0, 0);
    assert_eq!(limits.time_allocated(1000, 1000), u128::MAX);
    assert_eq!(limits.time_allocated(1, 1), u128::MAX);
    limits.load_values(u128::MAX, 0, 0, 0, 0);
    assert_eq!(limits.time_allocated(2000, 1000), u128::MAX / 2);
}

#[test]
fn tunables_stay_in_range() {
    let mut t = Tunable { val: 500, min: 0, max: 10000 };
    t.set(700);
    assert_eq!(t.val, 700);
    t.set(-5);
    assert_eq!(t.val, 0);
    t.set(20000);
    assert_eq!(t.val, 10000);
    let all = Tunables::new();
    assert_eq!(all.default_cpuct.val, 500);
    assert_eq!(all.root_cpuct.val, 700);
    assert_eq!(all.gini_base.val, 463);
    assert_eq!(all.gini_log_mult.val, 1567);
    assert_eq!(all.gini_min.val, 2260);
    assert_eq!(all.default_pst.val, 1000);
    assert_eq!(all.root_pst_bonus.val, 2500);
    assert_eq!(all.time_divisor, Tunable { val: 20000, min: 1000, max: 50000 });
    assert_eq!(all.inc_divisor, Tunable { val: 2000, min: 1000, max: 5000 });
    assert_eq!(all.cpuct_visits_scale.val, 40000);
}

#[test]
fn default_options() {
    let options = UciOptions::new();
    assert!(!options.more_info);
    assert_eq!(options.tree_size, u64::MAX);
    assert_eq!(options.thread_count, 1);
    assert_ne!(CommandTypes::Quit, CommandTypes::Go);
}

#[test]
fn random_moves_are_legal() {
    let board = board_from(START);
    let mut list = MoveList::new();
    board.get_moves(&mut list);
    let mut seen = Vec::new();
    for _ in 0..200 {
        let mov = random(&board).expect("a move");
        assert!(list.contains(mov));
        if !seen.contains(&mov) {
            seen.push(mov);
        }
    }
    assert!(seen.len() > 1);
    let mated = board_from("R6k/8/7K/8/8/8/8/8 b - - 0 1");
    assert_eq!(random(&mated), None);
}

#[test]
fn the_first_of_the_largest_is_picked() {
    assert_eq!(first_largest(&vec![]), None);
    assert_eq!(first_largest(&vec![7]), Some(0));
    assert_eq!(first_largest(&vec![1, 5, 3]), Some(1));
    assert_eq!(first_largest(&vec![4, 9, 9, 2, 9]), Some(1));
    assert_eq!(first_largest(&vec![0, 0, 0]), Some(0));
    assert_eq!(first_largest(&vec![1, 2, u32::MAX]), Some(2));
}

#[test]
fn visits_are_planned() {
    let mut n = Node::new(Move(3), 0);
    assert_eq!(plan_visit(&n), Visit::Score);
    n.visits = 1;
    assert_eq!(plan_visit(&n), Visit::Expand);
    n.child_count = 4;
    assert_eq!(plan_visit(&n), Visit::Descend);
    n.result = GameResult::Draw;
    assert_eq!(plan_visit(&n), Visit::Score);
}

#[test]
fn trees_are_taken_over() {
    let mut board = board_from(START);
    let start = *board.current_state();
    let mut tree = small_tree(1024);
    take_over(&mut tree, &mut board, &start);
    assert_eq!(tree.next(), 1);
    assert_eq!(*tree.index(0), Node::new(Move::null(), 0));

    let mut moves = MoveList::new();
    board.get_moves(&mut moves);
    tree.attach_children(0, &moves, &vec![0u32; moves.len()], 0);
    let e4 = Move::from_text("e2e4", &board).unwrap();
    let e4_at = (0..moves.len()).find(|&i| moves.get(i) == e4).unwrap() + 1;
    board.make_move(e4);
    let after_e4 = *board.current_state();
    let mut replies = MoveList::new();
    board.get_moves(&mut replies);
    let first_reply = tree.next();
    tree.attach_children(e4_at, &replies, &vec![0u32; replies.len()], 0);
    tree.index_mut(e4_at).visits = 11;
    board.make_move(replies.get(0));
    let childless = *board.current_state();
    board.undo_move();
    board.undo_move();

    let used = tree.next();
    take_over(&mut tree, &mut board, &after_e4);
    assert_eq!(tree.next(), used);
    assert_eq!(tree.index(0).mov, e4);
    assert_eq!(tree.index(0).visits, 11);
    assert_eq!(tree.index(0).first_child as usize, first_reply);
    assert_eq!(tree.index(0).child_count as usize, replies.len());
    assert!(board.current_state().same(&start));

    board.make_move(e4);
    take_over(&mut tree, &mut board, &childless);
    assert_eq!(tree.next(), 1);
    assert_eq!(tree.current_half, 0);
    assert_eq!(*tree.index(0), Node::new(Move::null(), 0));
}
