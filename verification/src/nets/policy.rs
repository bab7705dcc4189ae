//! The policy network: 768 inputs in four planes, one hidden layer, an
//! output for each move.

use vstd::prelude::*;
use crate::bits::{
    bit, clear_lsb, lemma_bit_ops, lemma_clear_lsb_smaller, lemma_popcount_bound,
    lemma_popcount_clear_lsb, lsb, popcount, sq_bit,
};
use crate::board::position::Position;
use crate::movegen::others::{get_king_attacks, get_knight_attacks, king_mask, knight_mask};
use crate::movegen::pawns::{get_pawn_attacks_lookup, pawn_attack_mask};
use crate::movegen::slideys::{bishop_mask, get_bishop_attacks, get_rook_attacks, rook_mask};
use crate::nets::blob::{le8, read_i8s};
use crate::nets::policy_outs::{
    lemma_mirrored, move_index, move_slot, MoveIndexer, OUTPUT_SIZE,
};
use crate::types::bitboard::Bitboard;
use crate::types::moves::Move;
use crate::types::piece::{BISHOP, KING, KNIGHT, PAWN, QUEEN, ROOK};
use crate::types::square::Square;

verus! {

/// The number of inputs: four planes of 768.
pub const POLICY_INPUT_SIZE: usize = 3072;

/// The number of hidden nodes.
pub const POLICY_HL_SIZE: usize = 512;

/// What 1.0 is in the hidden layer.
pub const POLICY_QA: i16 = 128;

/// How far the inputs of a threatened piece stand from those of one that is
/// not.
pub const THREAT_STRIDE: usize = 768;

/// How far the inputs of a defended piece stand from those of one that is
/// not.
pub const DEFENCE_STRIDE: usize = 1536;

/// The number of bytes of a network.
pub const POLICY_BLOB_SIZE: usize = 2537816;

/// The weights of the policy network.
///
/// The weights from input `i` to the hidden nodes stand at
/// `l1_weights[i * POLICY_HL_SIZE ..]`; the weights from the hidden nodes to
/// output `o` stand at `l2_weights[o * POLICY_HL_SIZE ..]`.
pub struct PolicyNetwork {
    pub l1_weights: Vec<i8>,
    pub l1_biases: Vec<i8>,
    pub l2_weights: Vec<i8>,
    pub l2_biases: Vec<i8>,
}

/// The hidden layer of the policy network for one position, before
/// activation.
#[derive(Debug, Clone)]
pub struct PolicyAccumulator {
    pub l1: Vec<i16>,
}

/// The squares that the piece `code` on `sq` attacks when the squares of
/// `occ` are occupied.
pub open spec fn attacks_of(code: u8, sq: u8, occ: u64) -> u64 {
    let kind = code % 8;
    if kind == PAWN {
        pawn_attack_mask(sq, code / 8)
    } else if kind == KNIGHT {
        knight_mask(sq)
    } else if kind == BISHOP {
        bishop_mask(sq, occ)
    } else if kind == ROOK {
        rook_mask(sq, occ)
    } else if kind == QUEEN {
        bishop_mask(sq, occ) | rook_mask(sq, occ)
    } else if kind == KING {
        king_mask(sq)
    } else {
        0
    }
}

/// The squares in `acc` and those attacked by the pieces on `squares`,
/// gone through from the lowest square up.
pub open spec fn threat_fold(p: Position, acc: u64, squares: u64) -> u64
    decreases squares,
    via threat_fold_decreases
{
    if squares == 0 {
        acc
    } else {
        let sq = lsb(squares);
        threat_fold(
            p,
            acc | attacks_of(p.mailbox[sq as int], sq, p.occupied_mask()),
            clear_lsb(squares),
        )
    }
}

#[via_fn]
proof fn threat_fold_decreases(p: Position, acc: u64, squares: u64) {
    if squares != 0 {
        lemma_clear_lsb_smaller(squares);
    }
}

/// The squared clipped activation: `x` brought into the range from 0 to
/// 128, then squared.
pub open spec fn policy_activated(x: i16) -> int {
    if x < 0 {
        0
    } else if x > 128 {
        16384
    } else {
        x * x
    }
}

/// The input that the piece `code` on `sq` switches on, seen by the side
/// `ctm` with its king on `king`: as for the value network, in the plane
/// that says whether the piece is threatened and whether it is defended.
pub open spec fn policy_input(
    code: u8,
    sq: u8,
    ctm: u8,
    king: u8,
    threatened: bool,
    defended: bool,
) -> int {
    let theirs: int = if code / 8 != ctm {
        1
    } else {
        0
    };
    let flipper: u8 = if ctm == 0 {
        56
    } else {
        0
    };
    let hm: u8 = if king % 8 > 3 {
        7
    } else {
        0
    };
    theirs * 384 + (code % 8) * 64 + (sq ^ flipper ^ hm) + (if threatened {
        768int
    } else {
        0
    }) + (if defended {
        1536int
    } else {
        0
    })
}

/// The hidden layer `state` after input `idx` is switched on.
pub open spec fn policy_switched_on(net: PolicyNetwork, state: Seq<int>, idx: int) -> Seq<int> {
    Seq::new(POLICY_HL_SIZE as nat, |h: int| state[h] + net.l1_weights@[idx * 512 + h])
}

/// The hidden layer `state` after the inputs of the pieces on `squares` are
/// switched on, from the lowest square up.
pub open spec fn policy_accumulated(
    net: PolicyNetwork,
    state: Seq<int>,
    p: Position,
    ctm: u8,
    squares: u64,
) -> Seq<int>
    decreases squares,
    via policy_accumulated_decreases
{
    if squares == 0 {
        state
    } else {
        let sq = lsb(squares);
        policy_accumulated(
            net,
            policy_switched_on(net, state, p.policy_input_at(ctm, sq)),
            p,
            ctm,
            clear_lsb(squares),
        )
    }
}

#[via_fn]
proof fn policy_accumulated_decreases(
    net: PolicyNetwork,
    state: Seq<int>,
    p: Position,
    ctm: u8,
    squares: u64,
) {
    if squares != 0 {
        lemma_clear_lsb_smaller(squares);
    }
}

/// The biases of the hidden layer.
pub open spec fn policy_biases(net: PolicyNetwork) -> Seq<int> {
    Seq::new(POLICY_HL_SIZE as nat, |h: int| net.l1_biases@[h] as int)
}

/// The hidden layer for the position `p`, seen by the side `ctm`.
pub open spec fn policy_hidden(net: PolicyNetwork, p: Position, ctm: u8) -> Seq<int> {
    policy_accumulated(net, policy_biases(net), p, ctm, p.occupied_mask())
}

/// The sum over the first `n` hidden nodes of the weight to output `o`
/// times the activation.
pub open spec fn policy_sum(net: PolicyNetwork, state: Seq<i16>, o: int, n: nat) -> int
    decreases n,
{
    if n == 0 {
        0
    } else {
        policy_sum(net, state, o, (n - 1) as nat) + net.l2_weights@[o * 512 + n - 1]
            * policy_activated(state[n - 1])
    }
}

impl Position {
    /// The squares that the pieces of side `color` attack.
    pub open spec fn threats_mask(self, color: u8) -> u64 {
        threat_fold(self, 0, self.colors[color as int])
    }

    /// The input that the piece on `sq` switches on, seen by the side `ctm`.
    pub open spec fn policy_input_at(self, ctm: u8, sq: u8) -> int {
        policy_input(
            self.mailbox[sq as int],
            sq,
            ctm,
            self.king_sqs[ctm as int],
            self.threats_mask((1 - ctm) as u8) & sq_bit(sq) != 0,
            self.threats_mask(ctm) & sq_bit(sq) != 0,
        )
    }

    /// The squares that the piece on `sq` attacks.
    fn attacks_from(&self, sq: u8) -> (m: u64)
        requires
            sq < 64,
        ensures
            m == attacks_of(self.mailbox[sq as int], sq, self.occupied_mask()),
    {
        let code = self.mailbox[sq as usize];
        let kind = code % 8;
        let here = Square(sq);
        let occ = self.occupied();
        if kind == PAWN {
            if code / 8 < 2 {
                get_pawn_attacks_lookup(here, code / 8).0
            } else {
                let b = 1u64 << (sq as u64);
                ((b >> 9) & crate::movegen::others::NOT_FILE_H) | ((b >> 7)
                    & crate::movegen::others::NOT_FILE_A)
            }
        } else if kind == KNIGHT {
            get_knight_attacks(here).0
        } else if kind == BISHOP {
            get_bishop_attacks(here, occ).0
        } else if kind == ROOK {
            get_rook_attacks(here, occ).0
        } else if kind == QUEEN {
            get_bishop_attacks(here, occ).0 | get_rook_attacks(here, occ).0
        } else if kind == KING {
            get_king_attacks(here).0
        } else {
            0
        }
    }

    /// The squares that the pieces of side `color` attack.
    pub fn threats_by(&self, color: u8) -> (b: Bitboard)
        requires
            color < 2,
        ensures
            b.0 == self.threats_mask(color),
    {
        let mut acc: u64 = 0;
        let mut left = Bitboard(self.colors[color as usize]);
        while left.0 != 0
            invariant
                threat_fold(*self, acc, left.0) == self.threats_mask(color),
            decreases left.0,
        {
            proof {
                lemma_clear_lsb_smaller(left.0);
            }
            let sq = left.pop_lsb();
            acc = acc | self.attacks_from(sq);
        }
        Bitboard(acc)
    }
}

impl PolicyNetwork {
    /// Whether the network has all its weights.
    pub open spec fn wf(self) -> bool {
        &&& self.l1_weights@.len() == POLICY_INPUT_SIZE * POLICY_HL_SIZE
        &&& self.l1_biases@.len() == POLICY_HL_SIZE
        &&& self.l2_weights@.len() == OUTPUT_SIZE * POLICY_HL_SIZE
        &&& self.l2_biases@.len() == OUTPUT_SIZE
    }

    /// The network that `bytes` holds: input weights, hidden biases, output
    /// weights and output biases, one after the other, each number in one
    /// byte. Nothing where the bytes are not as many as a network takes.
    pub fn from_bytes(bytes: &[u8]) -> (r: Option<PolicyNetwork>)
        ensures
            r.is_some() == (bytes@.len() == POLICY_BLOB_SIZE),
            r.is_some() ==> {
                let net = r.unwrap();
                &&& net.wf()
                &&& forall|i: int|
                    0 <= i < POLICY_INPUT_SIZE * POLICY_HL_SIZE ==> #[trigger] net.l1_weights@[i]
                        == le8(bytes@, i)
                &&& forall|i: int|
                    0 <= i < POLICY_HL_SIZE ==> #[trigger] net.l1_biases@[i] == le8(
                        bytes@,
                        1572864 + i,
                    )
                &&& forall|i: int|
                    0 <= i < OUTPUT_SIZE * POLICY_HL_SIZE ==> #[trigger] net.l2_weights@[i]
                        == le8(bytes@, 1573376 + i)
                &&& forall|i: int|
                    0 <= i < OUTPUT_SIZE ==> #[trigger] net.l2_biases@[i] == le8(
                        bytes@,
                        2535936 + i,
                    )
            },
    {
        if bytes.len() != POLICY_BLOB_SIZE {
            return None;
        }
        let l1_weights = read_i8s(bytes, 0, POLICY_INPUT_SIZE * POLICY_HL_SIZE);
        let l1_biases = read_i8s(bytes, 1572864, POLICY_HL_SIZE);
        let l2_weights = read_i8s(bytes, 1573376, OUTPUT_SIZE * POLICY_HL_SIZE);
        let l2_biases = read_i8s(bytes, 2535936, OUTPUT_SIZE);
        Some(PolicyNetwork { l1_weights, l1_biases, l2_weights, l2_biases })
    }
}

/// The network with its output weights laid out output by output, where
/// `net` has them hidden node by hidden node.
pub fn transpose_output_weights(net: PolicyNetwork) -> (r: PolicyNetwork)
    requires
        net.wf(),
    ensures
        r.wf(),
        r.l1_weights@ == net.l1_weights@,
        r.l1_biases@ == net.l1_biases@,
        r.l2_biases@ == net.l2_biases@,
        forall|o: int, h: int|
            0 <= o < OUTPUT_SIZE && 0 <= h < POLICY_HL_SIZE ==> #[trigger] r.l2_weights@[o * 512
                + h] == net.l2_weights@[h * 1880 + o],
{
    let mut l2_weights: Vec<i8> = Vec::new();
    let mut o: usize = 0;
    while o < OUTPUT_SIZE
        invariant
            o <= OUTPUT_SIZE,
            net.wf(),
            l2_weights@.len() == o * POLICY_HL_SIZE,
            forall|a: int, h: int|
                0 <= a < o && 0 <= h < POLICY_HL_SIZE ==> #[trigger] l2_weights@[a * 512 + h]
                    == net.l2_weights@[h * 1880 + a],
        decreases OUTPUT_SIZE - o,
    {
        let mut h: usize = 0;
        while h < POLICY_HL_SIZE
            invariant
                h <= POLICY_HL_SIZE,
                o < OUTPUT_SIZE,
                net.wf(),
                l2_weights@.len() == o * POLICY_HL_SIZE + h,
                forall|a: int, b: int|
                    0 <= a < o && 0 <= b < POLICY_HL_SIZE ==> #[trigger] l2_weights@[a * 512 + b]
                        == net.l2_weights@[b * 1880 + a],
                forall|b: int|
                    0 <= b < h ==> #[trigger] l2_weights@[o * 512 + b] == net.l2_weights@[b
                        * 1880 + o],
            decreases POLICY_HL_SIZE - h,
        {
            l2_weights.push(net.l2_weights[h * OUTPUT_SIZE + o]);
            h += 1;
        }
        o += 1;
    }
    PolicyNetwork {
        l1_weights: net.l1_weights,
        l1_biases: net.l1_biases,
        l2_weights,
        l2_biases: net.l2_biases,
    }
}

/// The squared clipped activation of a hidden node.
pub fn activation(x: i16) -> (y: i16)
    ensures
        y == policy_activated(x),
        0 <= y <= 16384,
{
    let c: i16 = if x < 0 { 0 } else if x > POLICY_QA { POLICY_QA } else { x };
    assert(0 <= c * c <= 16384 && (c == 128 ==> c * c == 16384)) by (nonlinear_arith)
        requires
            0 <= c <= 128,
    ;
    c * c
}

/// The numbers of a hidden layer as integers.
pub open spec fn as_ints(state: Seq<i16>) -> Seq<int> {
    Seq::new(state.len(), |h: int| state[h] as int)
}

/// The sum for an output stays within what 32 bits hold.
proof fn lemma_policy_sum_bound(net: PolicyNetwork, state: Seq<i16>, o: int, n: nat)
    requires
        net.wf(),
        state.len() == POLICY_HL_SIZE,
        0 <= o < OUTPUT_SIZE,
        n <= POLICY_HL_SIZE,
    ensures
        -2097152 * n <= policy_sum(net, state, o, n) <= 2097152 * n,
    decreases n,
{
    if n > 0 {
        lemma_policy_sum_bound(net, state, o, (n - 1) as nat);
        let a = policy_activated(state[n - 1]);
        let w = net.l2_weights@[o * 512 + n - 1] as int;
        assert(0 <= a <= 16384) by (nonlinear_arith)
            requires
                a == policy_activated(state[n - 1]),
        ;
        assert(-2097152 <= w * a <= 2097152) by (nonlinear_arith)
            requires
                0 <= a <= 16384,
                -128 <= w <= 127,
        ;
    }
}

impl PolicyAccumulator {
    /// The hidden layer with nothing switched on: the biases.
    pub fn new(net: &PolicyNetwork) -> (s: PolicyAccumulator)
        requires
            net.wf(),
        ensures
            as_ints(s.l1@) == policy_biases(*net),
            s.l1@.len() == POLICY_HL_SIZE,
    {
        let mut l1: Vec<i16> = Vec::new();
        let mut i: usize = 0;
        while i < POLICY_HL_SIZE
            invariant
                i <= POLICY_HL_SIZE,
                net.wf(),
                l1@.len() == i,
                forall|j: int| 0 <= j < i ==> #[trigger] l1@[j] == net.l1_biases@[j],
            decreases POLICY_HL_SIZE - i,
        {
            l1.push(net.l1_biases[i] as i16);
            i += 1;
        }
        assert(as_ints(l1@) =~= policy_biases(*net));
        PolicyAccumulator { l1 }
    }

    /// Switches every input off: the hidden layer is the biases again.
    pub fn clear(&mut self, net: &PolicyNetwork)
        requires
            net.wf(),
        ensures
            as_ints(final(self).l1@) == policy_biases(*net),
            final(self).l1@.len() == POLICY_HL_SIZE,
    {
        *self = PolicyAccumulator::new(net);
    }

    /// Switches on input `input`.
    fn switch_on(&mut self, net: &PolicyNetwork, input: usize, Ghost(bound): Ghost<int>)
        requires
            net.wf(),
            input < POLICY_INPUT_SIZE,
            old(self).l1@.len() == POLICY_HL_SIZE,
            0 <= bound <= 128 * 65,
            forall|h: int| 0 <= h < 512 ==> -bound <= #[trigger] old(self).l1@[h] <= bound,
        ensures
            final(self).l1@.len() == POLICY_HL_SIZE,
            as_ints(final(self).l1@) == policy_switched_on(
                *net,
                as_ints(old(self).l1@),
                input as int,
            ),
            forall|h: int|
                0 <= h < 512 ==> -bound - 128 <= #[trigger] final(self).l1@[h] <= bound + 128,
    {
        let mut h: usize = 0;
        while h < POLICY_HL_SIZE
            invariant
                h <= POLICY_HL_SIZE,
                net.wf(),
                input < POLICY_INPUT_SIZE,
                self.l1@.len() == POLICY_HL_SIZE,
                0 <= bound <= 128 * 65,
                forall|j: int| 0 <= j < 512 ==> -bound <= #[trigger] old(self).l1@[j] <= bound,
                forall|j: int|
                    0 <= j < h ==> #[trigger] self.l1@[j] == old(self).l1@[j]
                        + net.l1_weights@[input * 512 + j],
                forall|j: int| h <= j < 512 ==> #[trigger] self.l1@[j] == old(self).l1@[j],
            decreases POLICY_HL_SIZE - h,
        {
            let w = net.l1_weights[input * POLICY_HL_SIZE + h] as i16;
            let x = self.l1[h];
            assert(-bound <= old(self).l1@[h as int] <= bound);
            self.l1[h] = x + w;
            h += 1;
        }
        assert(as_ints(self.l1@) =~= policy_switched_on(
            *net,
            as_ints(old(self).l1@),
            input as int,
        ));
    }

    /// Sets the hidden layer for the position, seen by the side `ctm`.
    pub fn load_position(&mut self, net: &PolicyNetwork, pos: &Position, ctm: u8)
        requires
            net.wf(),
            ctm < 2,
            pos.boards_agree(),
            pos.king_sqs[ctm as int] < 64,
        ensures
            final(self).l1@.len() == POLICY_HL_SIZE,
            as_ints(final(self).l1@) == policy_hidden(*net, *pos, ctm),
    {
        self.clear(net);
        let king = pos.king_sqs[ctm as usize];
        let hm: u8 = if king % 8 > 3 { 7 } else { 0 };
        let flipper: u8 = if ctm == 0 { 56 } else { 0 };
        let threats = pos.threats_by(1 - ctm).0;
        let defences = pos.threats_by(ctm).0;
        let mut occ = pos.occupied();
        let ghost all = policy_hidden(*net, *pos, ctm);
        let ghost first = popcount(occ.0);
        proof {
            lemma_popcount_bound(occ.0);
            assert forall|h: int| 0 <= h < 512 implies -128 <= #[trigger] self.l1@[h] <= 128 by {
                assert(as_ints(self.l1@)[h] == policy_biases(*net)[h]);
            }
        }
        while occ.0 != 0
            invariant
                net.wf(),
                ctm < 2,
                pos.boards_agree(),
                king == pos.king_sqs[ctm as int],
                king < 64,
                hm == (if king % 8 > 3 { 7u8 } else { 0u8 }),
                flipper == (if ctm == 0 { 56u8 } else { 0u8 }),
                threats == pos.threats_mask((1 - ctm) as u8),
                defences == pos.threats_mask(ctm),
                self.l1@.len() == POLICY_HL_SIZE,
                first <= 64,
                popcount(occ.0) <= first,
                forall|j: u8| #[trigger] bit(occ.0, j) ==> bit(pos.occupied_mask(), j),
                forall|h: int|
                    0 <= h < 512 ==> -128 * (1 + first - popcount(occ.0)) <= #[trigger] self.l1@[h]
                        <= 128 * (1 + first - popcount(occ.0)),
                policy_accumulated(*net, as_ints(self.l1@), *pos, ctm, occ.0) == all,
            decreases occ.0,
        {
            let ghost done = first - popcount(occ.0);
            proof {
                lemma_clear_lsb_smaller(occ.0);
                lemma_popcount_clear_lsb(occ.0);
            }
            let sq = occ.pop_lsb();
            let code = pos.mailbox[sq as usize];
            proof {
                assert(bit(pos.occupied_mask(), sq));
                assert(pos.square_agrees(sq));
                lemma_bit_ops(pos.colors[0], pos.colors[1], sq);
                lemma_mirrored(sq, flipper, hm);
            }
            let theirs: usize = if code / 8 != ctm { 1 } else { 0 };
            let b = 1u64 << (sq as u64);
            let mut input = theirs * 384 + (code % 8) as usize * 64 + (sq ^ flipper ^ hm) as usize;
            if threats & b != 0 {
                input += THREAT_STRIDE;
            }
            if defences & b != 0 {
                input += DEFENCE_STRIDE;
            }
            assert(input == pos.policy_input_at(ctm, sq));
            self.switch_on(net, input, Ghost(128 * (1 + done)));
        }
    }

    /// The rating of the move `mov` before it is scaled: the sum over the
    /// hidden nodes of the weight to the output of the move times the
    /// activation, and the bias of that output.
    pub fn get_score(
        &self,
        net: &PolicyNetwork,
        indexer: &MoveIndexer,
        mov: Move,
        ctm: u8,
        king: Square,
    ) -> (r: (i32, i8))
        requires
            net.wf(),
            indexer.wf(),
            mov.has_flag(),
            self.l1@.len() == POLICY_HL_SIZE,
        ensures
            r.0 == policy_sum(*net, self.l1@, move_slot(ctm, mov, king.0), POLICY_HL_SIZE as nat),
            r.1 == net.l2_biases@[move_slot(ctm, mov, king.0)],
    {
        let o = move_index(indexer, ctm, mov, king);
        let base = o * POLICY_HL_SIZE;
        let mut sum: i32 = 0;
        let mut h: usize = 0;
        while h < POLICY_HL_SIZE
            invariant
                h <= POLICY_HL_SIZE,
                net.wf(),
                self.l1@.len() == POLICY_HL_SIZE,
                o < OUTPUT_SIZE,
                base == o * 512,
                sum == policy_sum(*net, self.l1@, o as int, h as nat),
            decreases POLICY_HL_SIZE - h,
        {
            proof {
                lemma_policy_sum_bound(*net, self.l1@, o as int, h as nat);
                lemma_policy_sum_bound(*net, self.l1@, o as int, (h + 1) as nat);
            }
            let a = activation(self.l1[h]) as i32;
            let w = net.l2_weights[base + h] as i32;
            assert(-2097152 <= w * a <= 2097152) by (nonlinear_arith)
                requires
                    0 <= a <= 16384,
                    -128 <= w <= 127,
            ;
            sum = sum + w * a;
            h += 1;
        }
        (sum, net.l2_biases[o])
    }
}

} // verus!
