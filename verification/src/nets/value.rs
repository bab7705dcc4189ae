//! The value network: 768 inputs, one hidden layer, sixteen outputs of
//! which the number of pieces picks one.

use vstd::prelude::*;
use crate::bits::{bit, clear_lsb, lemma_bit_ops, lemma_clear_lsb_smaller, lsb};
use crate::board::position::Position;
use crate::board::stack::Board;
use crate::nets::blob::{le16, read_i16s};
use crate::types::bitboard::Bitboard;
use crate::types::piece::{is_piece_code, Piece};
use crate::types::square::Square;

verus! {

/// The number of inputs.
pub const INPUT_SIZE: usize = 768;

/// The number of hidden nodes.
pub const HL_SIZE: usize = 1024;

/// The number of outputs.
pub const OUTPUT_BUCKET_COUNT: usize = 16;

/// How far apart the inputs of the two sides stand.
pub const COLOR_STRIDE: usize = 384;

/// How far apart the inputs of two kinds of piece stand.
pub const PIECE_STRIDE: usize = 64;

/// What 1.0 is in the hidden layer.
pub const QA: i64 = 256;

/// What 1.0 is in the output weights.
pub const QB: i64 = 64;

/// What a won position is worth in the units of the evaluation.
pub const EVAL_SCALE: i64 = 400;

/// The number of bytes of a network.
pub const VALUE_BLOB_SIZE: usize = 1607712;

/// The weights of the value network.
///
/// The weights from input `i` to the hidden nodes stand at
/// `feature_weights[i * HL_SIZE ..]`; the weights from the hidden nodes to
/// output `b` stand at `output_weights[b * HL_SIZE ..]`.
pub struct ValueNetwork {
    pub feature_weights: Vec<i16>,
    pub feature_biases: Vec<i16>,
    pub output_weights: Vec<i16>,
    pub output_bias: Vec<i16>,
}

/// The hidden layer of the value network for one position, before
/// activation.
#[derive(Debug, Clone)]
pub struct ValueNetworkState {
    pub state: Vec<i16>,
}

/// `a / b` rounded towards zero, for a positive `b`.
pub open spec fn trunc_div(a: int, b: int) -> int {
    if a >= 0 {
        a / b
    } else {
        -((-a) / b)
    }
}

/// The input that the piece `code` on `sq` switches on, seen by the side
/// `ctm` with its king on `king`: the side to move comes first, then the
/// kinds, then the squares; the board is turned upside down for black, and
/// mirrored left to right where the king stands on the files e to h.
pub open spec fn feature_index(code: u8, sq: u8, ctm: u8, king: u8) -> int {
    let theirs: int = if code / 8 != ctm {
        1
    } else {
        0
    };
    let turned = if ctm == 0 {
        sq ^ 56
    } else {
        sq
    };
    let king_turned = if ctm == 0 {
        king ^ 56
    } else {
        king
    };
    let placed = if king_turned % 8 > 3 {
        turned ^ 7
    } else {
        turned
    };
    theirs * 384 + (code % 8) * 64 + placed
}

/// The squared clipped activation: `x` brought into the range from 0 to
/// 256, then squared.
pub open spec fn activated(x: i16) -> int {
    if x < 0 {
        0
    } else if x > 256 {
        65536
    } else {
        x * x
    }
}

/// The output that a position with `piece_count` pieces uses: one for every
/// two pieces from two on, the last for all beyond.
pub open spec fn output_bucket(piece_count: usize) -> int {
    if piece_count < 2 {
        0
    } else if (piece_count - 2) / 2 > 15 {
        15
    } else {
        (piece_count - 2) / 2
    }
}

impl ValueNetwork {
    /// Whether the network has all its weights.
    pub open spec fn wf(self) -> bool {
        &&& self.feature_weights@.len() == INPUT_SIZE * HL_SIZE
        &&& self.feature_biases@.len() == HL_SIZE
        &&& self.output_weights@.len() == HL_SIZE * OUTPUT_BUCKET_COUNT
        &&& self.output_bias@.len() == OUTPUT_BUCKET_COUNT
    }

    /// The network that `bytes` holds: feature weights, feature biases,
    /// output weights and output biases, one after the other, each number
    /// in two bytes, low byte first. Nothing where the bytes are not as many
    /// as a network takes.
    pub fn from_bytes(bytes: &[u8]) -> (r: Option<ValueNetwork>)
        ensures
            r.is_some() == (bytes@.len() == VALUE_BLOB_SIZE),
            r.is_some() ==> {
                let net = r.unwrap();
                &&& net.wf()
                &&& forall|i: int|
                    0 <= i < INPUT_SIZE * HL_SIZE ==> #[trigger] net.feature_weights@[i] == le16(
                        bytes@,
                        2 * i,
                    )
                &&& forall|i: int|
                    0 <= i < HL_SIZE ==> #[trigger] net.feature_biases@[i] == le16(
                        bytes@,
                        1572864 + 2 * i,
                    )
                &&& forall|i: int|
                    0 <= i < HL_SIZE * OUTPUT_BUCKET_COUNT ==> #[trigger] net.output_weights@[i]
                        == le16(bytes@, 1574912 + 2 * i)
                &&& forall|i: int|
                    0 <= i < OUTPUT_BUCKET_COUNT ==> #[trigger] net.output_bias@[i] == le16(
                        bytes@,
                        1607680 + 2 * i,
                    )
            },
    {
        if bytes.len() != VALUE_BLOB_SIZE {
            return None;
        }
        let feature_weights = read_i16s(bytes, 0, INPUT_SIZE * HL_SIZE);
        let feature_biases = read_i16s(bytes, 1572864, HL_SIZE);
        let output_weights = read_i16s(bytes, 1574912, HL_SIZE * OUTPUT_BUCKET_COUNT);
        let output_bias = read_i16s(bytes, 1607680, OUTPUT_BUCKET_COUNT);
        Some(ValueNetwork { feature_weights, feature_biases, output_weights, output_bias })
    }
}

/// The network with its output weights laid out output by output, where
/// `net` has them hidden node by hidden node.
pub fn transpose_output_weights(net: ValueNetwork) -> (r: ValueNetwork)
    requires
        net.wf(),
    ensures
        r.wf(),
        r.feature_weights@ == net.feature_weights@,
        r.feature_biases@ == net.feature_biases@,
        r.output_bias@ == net.output_bias@,
        forall|w: int, b: int|
            0 <= w < HL_SIZE && 0 <= b < OUTPUT_BUCKET_COUNT ==> #[trigger] r.output_weights@[b
                * 1024 + w] == net.output_weights@[w * 16 + b],
{
    let mut output_weights: Vec<i16> = Vec::new();
    let mut bucket: usize = 0;
    while bucket < OUTPUT_BUCKET_COUNT
        invariant
            bucket <= OUTPUT_BUCKET_COUNT,
            net.wf(),
            output_weights@.len() == bucket * HL_SIZE,
            forall|w: int, b: int|
                0 <= w < HL_SIZE && 0 <= b < bucket ==> #[trigger] output_weights@[b * 1024 + w]
                    == net.output_weights@[w * 16 + b],
        decreases OUTPUT_BUCKET_COUNT - bucket,
    {
        let mut weight: usize = 0;
        while weight < HL_SIZE
            invariant
                weight <= HL_SIZE,
                bucket < OUTPUT_BUCKET_COUNT,
                net.wf(),
                output_weights@.len() == bucket * HL_SIZE + weight,
                forall|w: int, b: int|
                    0 <= w < HL_SIZE && 0 <= b < bucket ==> #[trigger] output_weights@[b * 1024
                        + w] == net.output_weights@[w * 16 + b],
                forall|w: int|
                    0 <= w < weight ==> #[trigger] output_weights@[bucket * 1024 + w]
                        == net.output_weights@[w * 16 + bucket],
            decreases HL_SIZE - weight,
        {
            output_weights.push(net.output_weights[weight * OUTPUT_BUCKET_COUNT + bucket]);
            weight += 1;
        }
        bucket += 1;
    }
    ValueNetwork {
        feature_weights: net.feature_weights,
        feature_biases: net.feature_biases,
        output_weights,
        output_bias: net.output_bias,
    }
}

/// The output that a position with `piece_count` pieces uses.
pub fn get_output_bucket(piece_count: usize) -> (b: usize)
    ensures
        b == output_bucket(piece_count),
        b < OUTPUT_BUCKET_COUNT,
{
    if piece_count < 2 {
        0
    } else if (piece_count - 2) / 2 > 15 {
        15
    } else {
        (piece_count - 2) / 2
    }
}

/// The input that `piece` on `sq` switches on, seen by the side `ctm` with
/// its king on `king`.
pub fn get_feature_index(piece: Piece, sq: Square, ctm: u8, king: Square) -> (i: usize)
    requires
        piece.is_real(),
        sq.on_board(),
        king.on_board(),
    ensures
        i == feature_index(piece.0, sq.0, ctm, king.0),
        i < INPUT_SIZE,
{
    let c: usize = if piece.0 / 8 != ctm { 1 } else { 0 };
    let mut sq = sq;
    let mut king = king;
    if ctm == 0 {
        sq.flip();
        king.flip();
    }
    if king.file() > 3 {
        sq.flip_file();
    }
    let p = (piece.0 % 8) as usize;
    c * COLOR_STRIDE + p * PIECE_STRIDE + sq.0 as usize
}

/// The squared clipped activation of a hidden node.
pub fn activation(x: i16) -> (y: i32)
    ensures
        y == activated(x),
        0 <= y <= 65536,
{
    let c: i32 = if x < 0 { 0 } else if x > 256 { 256 } else { x as i32 };
    assert(0 <= c * c <= 65536) by (nonlinear_arith)
        requires
            0 <= c <= 256,
    ;
    c * c
}

/// The hidden layer `state` after input `idx` is switched on: the weight
/// from the input is added at each node, in 16 bits, wrapping round.
pub open spec fn switched_on(net: ValueNetwork, state: Seq<i16>, idx: int) -> Seq<i16> {
    Seq::new(
        HL_SIZE as nat,
        |h: int| state[h].wrapping_add(net.feature_weights@[idx * 1024 + h]),
    )
}

/// The hidden layer `state` after the inputs of the pieces on `squares` are
/// switched on, from the lowest square up.
pub open spec fn accumulated(
    net: ValueNetwork,
    state: Seq<i16>,
    p: Position,
    ctm: u8,
    king: u8,
    squares: u64,
) -> Seq<i16>
    decreases squares,
    via accumulated_decreases
{
    if squares == 0 {
        state
    } else {
        let sq = lsb(squares);
        accumulated(
            net,
            switched_on(net, state, feature_index(p.mailbox[sq as int], sq, ctm, king)),
            p,
            ctm,
            king,
            clear_lsb(squares),
        )
    }
}

#[via_fn]
proof fn accumulated_decreases(
    net: ValueNetwork,
    state: Seq<i16>,
    p: Position,
    ctm: u8,
    king: u8,
    squares: u64,
) {
    if squares != 0 {
        lemma_clear_lsb_smaller(squares);
    }
}

/// The hidden layer for the position `p`, seen by the side `ctm`: the
/// biases, with the inputs of all pieces switched on.
pub open spec fn hidden_layer(net: ValueNetwork, p: Position, ctm: u8) -> Seq<i16> {
    accumulated(net, net.feature_biases@, p, ctm, p.king_sqs[ctm as int], p.occupied_mask())
}

/// The sum over the first `n` hidden nodes of activation times the weight to
/// output `bucket`.
pub open spec fn weighted_sum(net: ValueNetwork, state: Seq<i16>, bucket: int, n: nat) -> int
    decreases n,
{
    if n == 0 {
        0
    } else {
        weighted_sum(net, state, bucket, (n - 1) as nat) + activated(state[n - 1])
            * net.output_weights@[bucket * 1024 + n - 1]
    }
}

/// The evaluation that the hidden layer `state` gives with output
/// `bucket`: the weighted sum, brought down by `QA`, with the bias, scaled
/// to the units of the evaluation. Each division rounds towards zero.
pub open spec fn output_of(net: ValueNetwork, state: Seq<i16>, bucket: int) -> int {
    trunc_div(
        (trunc_div(weighted_sum(net, state, bucket, HL_SIZE as nat), QA as int)
            + net.output_bias@[bucket]) * EVAL_SCALE,
        QA * QB,
    )
}

/// `a / b` rounded towards zero.
fn div_towards_zero(a: i64, b: i64) -> (q: i64)
    requires
        b > 0,
        a > i64::MIN,
    ensures
        q == trunc_div(a as int, b as int),
{
    if a >= 0 {
        a / b
    } else {
        -((-a) / b)
    }
}

/// The weighted sum stays within what 64 bits hold.
proof fn lemma_weighted_sum_bound(net: ValueNetwork, state: Seq<i16>, bucket: int, n: nat)
    requires
        net.wf(),
        state.len() == HL_SIZE,
        0 <= bucket < 16,
        n <= HL_SIZE,
    ensures
        -2147483648 * n <= weighted_sum(net, state, bucket, n) <= 2147483648 * n,
    decreases n,
{
    if n > 0 {
        lemma_weighted_sum_bound(net, state, bucket, (n - 1) as nat);
        let a = activated(state[n - 1]);
        let w = net.output_weights@[bucket * 1024 + n - 1] as int;
        assert(0 <= a <= 65536) by (nonlinear_arith)
            requires
                a == activated(state[n - 1]),
        ;
        assert(-2147483648 <= a * w <= 2147483648) by (nonlinear_arith)
            requires
                0 <= a <= 65536,
                -32768 <= w <= 32767,
        ;
    }
}

impl ValueNetworkState {
    /// The hidden layer with nothing switched on: the biases.
    pub fn new(net: &ValueNetwork) -> (s: ValueNetworkState)
        requires
            net.wf(),
        ensures
            s.state@ == net.feature_biases@,
    {
        ValueNetworkState { state: net.feature_biases.clone() }
    }

    /// Switches every input off: the hidden layer is the biases again.
    pub fn reset(&mut self, net: &ValueNetwork)
        requires
            net.wf(),
        ensures
            final(self).state@ == net.feature_biases@,
    {
        self.state = net.feature_biases.clone();
    }

    /// Switches on the input of `piece` on `sq`.
    pub fn activate_feature(
        &mut self,
        net: &ValueNetwork,
        piece: Piece,
        sq: Square,
        ctm: u8,
        king: Square,
    )
        requires
            net.wf(),
            old(self).state@.len() == HL_SIZE,
            piece.is_real(),
            sq.on_board(),
            king.on_board(),
        ensures
            final(self).state@ == switched_on(
                *net,
                old(self).state@,
                feature_index(piece.0, sq.0, ctm, king.0),
            ),
    {
        let idx = get_feature_index(piece, sq, ctm, king);
        let mut h: usize = 0;
        while h < HL_SIZE
            invariant
                h <= HL_SIZE,
                net.wf(),
                idx < INPUT_SIZE,
                self.state@.len() == HL_SIZE,
                forall|j: int|
                    0 <= j < h ==> #[trigger] self.state@[j] == old(self).state@[j].wrapping_add(
                        net.feature_weights@[idx * 1024 + j],
                    ),
                forall|j: int| h <= j < HL_SIZE ==> #[trigger] self.state@[j] == old(self).state@[j],
            decreases HL_SIZE - h,
        {
            let w = net.feature_weights[idx * HL_SIZE + h];
            let x = self.state[h];
            self.state[h] = x.wrapping_add(w);
            h += 1;
        }
        assert(self.state@ =~= switched_on(*net, old(self).state@, idx as int));
    }

    /// Sets the hidden layer for the position, seen by the side `ctm`.
    pub fn load_position(&mut self, net: &ValueNetwork, position: &Position, ctm: u8)
        requires
            net.wf(),
            ctm < 2,
            position.boards_agree(),
            position.king_sqs[ctm as int] < 64,
        ensures
            final(self).state@ == hidden_layer(*net, *position, ctm),
            final(self).state@.len() == HL_SIZE,
    {
        self.reset(net);
        let king = Square(position.king_sqs[ctm as usize]);
        let mut occ = position.occupied();
        let ghost all = hidden_layer(*net, *position, ctm);
        while occ.0 != 0
            invariant
                net.wf(),
                king.on_board(),
                position.boards_agree(),
                self.state@.len() == HL_SIZE,
                forall|j: u8| #[trigger] bit(occ.0, j) ==> bit(position.occupied_mask(), j),
                accumulated(*net, self.state@, *position, ctm, king.0, occ.0) == all,
            decreases occ.0,
        {
            proof {
                lemma_clear_lsb_smaller(occ.0);
            }
            let sq = occ.pop_lsb();
            let piece = position.piece_on_square(Square(sq));
            proof {
                assert(bit(position.occupied_mask(), sq));
                assert(position.square_agrees(sq));
                lemma_bit_ops(position.colors[0], position.colors[1], sq);
            }
            self.activate_feature(net, piece, Square(sq), ctm, king);
        }
    }

    /// The evaluation that the hidden layer gives for a position with
    /// `piece_count` pieces.
    pub fn forward(&self, net: &ValueNetwork, piece_count: usize) -> (e: i32)
        requires
            net.wf(),
            self.state@.len() == HL_SIZE,
        ensures
            e == output_of(*net, self.state@, output_bucket(piece_count)),
    {
        let bucket = get_output_bucket(piece_count);
        let base = HL_SIZE * bucket;
        let mut sum: i64 = 0;
        let mut h: usize = 0;
        while h < HL_SIZE
            invariant
                h <= HL_SIZE,
                net.wf(),
                self.state@.len() == HL_SIZE,
                bucket < OUTPUT_BUCKET_COUNT,
                base == 1024 * bucket,
                sum == weighted_sum(*net, self.state@, bucket as int, h as nat),
            decreases HL_SIZE - h,
        {
            proof {
                lemma_weighted_sum_bound(*net, self.state@, bucket as int, h as nat);
                lemma_weighted_sum_bound(*net, self.state@, bucket as int, (h + 1) as nat);
            }
            let a = activation(self.state[h]) as i64;
            let w = net.output_weights[base + h] as i64;
            assert(-2147483648 <= a * w <= 2147483648) by (nonlinear_arith)
                requires
                    0 <= a <= 65536,
                    -32768 <= w <= 32767,
            ;
            sum = sum + a * w;
            h += 1;
        }
        proof {
            lemma_weighted_sum_bound(*net, self.state@, bucket as int, HL_SIZE as nat);
        }
        let scaled = div_towards_zero(sum, QA);
        let with_bias = scaled + net.output_bias[bucket] as i64;
        let e = div_towards_zero(with_bias * EVAL_SCALE, QA * QB);
        e as i32
    }

    /// The evaluation of the position, seen by the side `ctm`.
    pub fn evaluate(&mut self, net: &ValueNetwork, position: &Position, ctm: u8) -> (e: i32)
        requires
            net.wf(),
            ctm < 2,
            position.boards_agree(),
            position.king_sqs[ctm as int] < 64,
        ensures
            e == value_of(*net, *position, ctm),
            final(self).state@ == hidden_layer(*net, *position, ctm),
    {
        self.load_position(net, position, ctm);
        self.forward(net, position.occupied().popcount() as usize)
    }
}

/// The evaluation of the position `p`, seen by the side `ctm`.
pub open spec fn value_of(net: ValueNetwork, p: Position, ctm: u8) -> int {
    output_of(
        net,
        hidden_layer(net, p, ctm),
        output_bucket(crate::bits::popcount(p.occupied_mask()) as usize),
    )
}

impl Board {
    /// The evaluation of the current position, seen by the side to move.
    pub fn evaluate(&self, net: &ValueNetwork) -> (e: i32)
        requires
            net.wf(),
            self.wf(),
        ensures
            e == value_of(*net, self.top(), self.ctm),
    {
        let mut state = ValueNetworkState::new(net);
        let position = self.current_state();
        proof {
            assert(position.king_placed(0) && position.king_placed(1));
        }
        state.evaluate(net, position, self.ctm)
    }

    /// The evaluation of the current position, seen by white whoever is to
    /// move.
    pub fn evaluate_non_stm(&self, net: &ValueNetwork) -> (e: i32)
        requires
            net.wf(),
            self.wf(),
        ensures
            e == value_of(*net, self.top(), 1),
    {
        let mut state = ValueNetworkState::new(net);
        let position = self.current_state();
        proof {
            assert(position.king_placed(0) && position.king_placed(1));
        }
        state.evaluate(net, position, 1)
    }
}

} // verus!
