//! The limits of a search: time, nodes, depth.

use vstd::prelude::*;

verus! {

/// The limits that a search runs under. A limit that is not in use does
/// not stop the search. Times are in milliseconds.
#[derive(Debug, Copy, Clone)]
pub struct Limiters {
    pub use_time: bool,
    pub time: u128,
    pub increment: u128,
    pub use_nodes: bool,
    pub node_lim: u128,
    pub use_depth: bool,
    pub depth_limit: u32,
    pub use_move_time: bool,
    pub move_time: u128,
}

/// The time allotted to one move when `time` is left on the clock and `inc`
/// is added for each move: the time left divided by `time_divisor`, and the
/// increment divided by `inc_divisor`, but never more than the time left.
/// The divisors are in thousandths.
pub open spec fn allotted(time: int, inc: int, time_divisor: int, inc_divisor: int) -> int {
    let share = time * 1000 / time_divisor + inc * 1000 / inc_divisor;
    if share < time {
        share
    } else {
        time
    }
}

/// A thousandth part, computed without leaving the range of the amount.
proof fn lemma_thousandths(x: int, d: int)
    requires
        x >= 0,
        d > 0,
    ensures
        x * 1000 / d == (x / d) * 1000 + (x % d) * 1000 / d,
        (x / d) * 1000 >= 0,
        (x % d) * 1000 / d >= 0,
{
    let q = x / d;
    let r = x % d;
    vstd::arithmetic::div_mod::lemma_fundamental_div_mod(x, d);
    assert(x * 1000 == (q * 1000) * d + r * 1000) by (nonlinear_arith)
        requires
            x == d * q + r,
    ;
    vstd::arithmetic::div_mod::lemma_div_multiples_vanish_fancy(q * 1000, r * 1000 % d, d);
    vstd::arithmetic::div_mod::lemma_fundamental_div_mod(r * 1000, d);
    let a = r * 1000 / d;
    let b = r * 1000 % d;
    assert(x * 1000 == (q * 1000 + a) * d + b) by (nonlinear_arith)
        requires
            x * 1000 == (q * 1000) * d + r * 1000,
            r * 1000 == d * a + b,
    ;
    vstd::arithmetic::div_mod::lemma_fundamental_div_mod_converse(x * 1000, d, q * 1000 + a, b);
    vstd::arithmetic::div_mod::lemma_div_pos_is_pos(x, d);
    vstd::arithmetic::div_mod::lemma_div_pos_is_pos(r * 1000, d);
    assert((x / d) * 1000 >= 0) by (nonlinear_arith)
        requires
            x / d >= 0,
    ;
}

/// `amount * 1000 / divisor`, or nothing where that is too large a number.
fn thousandths(amount: u128, divisor: u32) -> (r: Option<u128>)
    requires
        divisor > 0,
    ensures
        match r {
            Some(v) => v == amount * 1000 / (divisor as int),
            None => amount * 1000 / (divisor as int) > u128::MAX,
        },
{
    let d = divisor as u128;
    let q = amount / d;
    let rest = amount % d;
    proof {
        lemma_thousandths(amount as int, divisor as int);
    }
    let low = rest * 1000 / d;
    match q.checked_mul(1000) {
        None => None,
        Some(high) => high.checked_add(low),
    }
}

impl Limiters {
    /// Limits of which none is in use.
    pub fn new() -> (l: Limiters)
        ensures
            !l.use_time && !l.use_nodes && !l.use_depth && !l.use_move_time,
            l.time == 0 && l.increment == 0 && l.node_lim == 0 && l.depth_limit == 0
                && l.move_time == 0,
    {
        Limiters {
            use_time: false,
            time: 0,
            increment: 0,
            use_nodes: false,
            node_lim: 0,
            use_depth: false,
            depth_limit: 0,
            use_move_time: false,
            move_time: 0,
        }
    }

    /// Sets the limits. A limit of zero is not in use.
    pub fn load_values(&mut self, tim: u128, inc: u128, nodes: u128, depth: u32, movetime: u128)
        ensures
            *final(self) == (Limiters {
                use_time: tim != 0,
                time: tim,
                increment: inc,
                use_nodes: nodes != 0,
                node_lim: nodes,
                use_depth: depth != 0,
                depth_limit: depth,
                use_move_time: movetime != 0,
                move_time: movetime,
            }),
    {
        self.use_time = tim != 0;
        self.use_nodes = nodes != 0;
        self.use_depth = depth != 0;
        self.use_move_time = movetime != 0;
        self.time = tim;
        self.increment = inc;
        self.node_lim = nodes;
        self.depth_limit = depth;
        self.move_time = movetime;
    }

    /// The time allotted to the move, with the divisors in thousandths.
    pub fn time_allocated(&self, time_divisor: u32, inc_divisor: u32) -> (t: u128)
        requires
            time_divisor > 0,
            inc_divisor > 0,
        ensures
            t == allotted(
                self.time as int,
                self.increment as int,
                time_divisor as int,
                inc_divisor as int,
            ),
    {
        proof {
            lemma_thousandths(self.time as int, time_divisor as int);
            lemma_thousandths(self.increment as int, inc_divisor as int);
        }
        let share = match (
            thousandths(self.time, time_divisor),
            thousandths(self.increment, inc_divisor),
        ) {
            (Some(a), Some(b)) => a.checked_add(b),
            _ => None,
        };
        match share {
            Some(s) => if s < self.time {
                s
            } else {
                self.time
            },
            None => self.time,
        }
    }

    /// Whether the search may go on: no limit in use is reached. The time
    /// limit is reached when the time spent reaches the time allotted, the
    /// node limit when the nodes searched reach it, the depth limit when the
    /// depth goes beyond it, the move time when the time spent reaches it.
    pub fn check(&self, tim: u128, nodes: u128, depth: u32, time_divisor: u32, inc_divisor: u32)
        -> (go_on: bool)
        requires
            time_divisor > 0,
            inc_divisor > 0,
        ensures
            go_on == !((self.use_time && tim >= allotted(
                self.time as int,
                self.increment as int,
                time_divisor as int,
                inc_divisor as int,
            )) || (self.use_nodes && nodes >= self.node_lim) || (self.use_depth && depth
                > self.depth_limit) || (self.use_move_time && tim >= self.move_time)),
    {
        if self.use_time && tim >= self.time_allocated(time_divisor, inc_divisor) {
            return false;
        }
        if self.use_nodes && nodes >= self.node_lim {
            return false;
        }
        if self.use_depth && depth > self.depth_limit {
            return false;
        }
        if self.use_move_time && tim >= self.move_time {
            return false;
        }
        true
    }
}

} // verus!
