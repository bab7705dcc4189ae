//! Sets of squares as 64-bit words: the vocabulary every contract about a
//! bitboard is written in, and the facts that connect it to machine
//! operations.

use vstd::prelude::*;
use vstd::std_specs::bits::*;

verus! {

/// Whether square `i` is a member of the set `x`.
pub open spec fn bit(x: u64, i: u8) -> bool {
    i < 64 && (x >> (i as u64)) & 1 == 1
}

/// The set that holds square `s` alone.
pub open spec fn sq_bit(s: u8) -> u64 {
    1u64 << (s as u64)
}

/// The lowest member of `x`, or 64 when `x` is empty.
pub open spec fn lsb(x: u64) -> u8 {
    u64_trailing_zeros(x) as u8
}

/// `x` without its lowest member.
pub open spec fn clear_lsb(x: u64) -> u64 {
    x & ((x - 1) as u64)
}

/// The number of members of `x`.
pub open spec fn popcount(x: u64) -> nat
    decreases x,
{
    if x == 0 {
        0
    } else {
        ((x % 2) as nat) + popcount(x / 2)
    }
}

/// `u64::count_ones` returns the number of one bits of its argument.
pub assume_specification[ u64::count_ones ](x: u64) -> (r: u32)
    ensures
        r == popcount(x),
;

/// Removing the lowest member makes the word smaller.
pub proof fn lemma_clear_lsb_smaller(x: u64)
    requires
        x != 0,
    ensures
        clear_lsb(x) < x,
{
    assert(x & ((x - 1) as u64) < x) by (bit_vector)
        requires
            x != 0,
    ;
}

/// Membership in unions, intersections, symmetric differences and complements.
pub proof fn lemma_bit_ops(a: u64, b: u64, i: u8)
    requires
        i < 64,
    ensures
        bit(a | b, i) == (bit(a, i) || bit(b, i)),
        bit(a & b, i) == (bit(a, i) && bit(b, i)),
        bit(a ^ b, i) == (bit(a, i) != bit(b, i)),
        bit(!a, i) == !bit(a, i),
        !bit(0, i),
{
    let j = i as u64;
    assert({
        &&& (((a | b) >> j) & 1 == 1) == (((a >> j) & 1 == 1) || ((b >> j) & 1 == 1))
        &&& (((a & b) >> j) & 1 == 1) == (((a >> j) & 1 == 1) && ((b >> j) & 1 == 1))
        &&& (((a ^ b) >> j) & 1 == 1) == (((a >> j) & 1 == 1) != ((b >> j) & 1 == 1))
        &&& (((!a) >> j) & 1 == 1) == !((a >> j) & 1 == 1)
        &&& (0u64 >> j) & 1 != 1
    }) by (bit_vector)
        requires
            j < 64,
    ;
}

/// A singleton holds its square and no other, and is not empty.
pub proof fn lemma_sq_bit(s: u8, i: u8)
    requires
        s < 64,
        i < 64,
    ensures
        bit(sq_bit(s), i) == (i == s),
        sq_bit(s) != 0,
{
    let j = i as u64;
    let t = s as u64;
    assert((((1u64 << t) >> j) & 1 == 1) == (j == t) && (1u64 << t) != 0) by (bit_vector)
        requires
            j < 64,
            t < 64,
    ;
}

/// A word with a member is not zero.
pub proof fn lemma_bit_nonzero(x: u64, i: u8)
    requires
        bit(x, i),
    ensures
        x != 0,
{
    let j = i as u64;
    assert(x != 0) by (bit_vector)
        requires
            (x >> j) & 1 == 1,
    ;
}

/// The lowest member of a non-empty set is a member, and nothing below it is.
pub proof fn lemma_lsb(x: u64)
    requires
        x != 0,
    ensures
        lsb(x) < 64,
        bit(x, lsb(x)),
        forall|j: u8| j < lsb(x) ==> !#[trigger] bit(x, j),
{
    axiom_u64_trailing_zeros(x);
    assert forall|j: u8| j < lsb(x) implies !#[trigger] bit(x, j) by {
        let k = j as u64;
        assert((x >> k) & 1 == 0);
    }
}

/// Membership after the lowest member is removed.
pub proof fn lemma_clear_lsb_bit(x: u64, i: u8)
    requires
        x != 0,
        i < 64,
    ensures
        bit(clear_lsb(x), i) == (bit(x, i) && i != lsb(x)),
{
    axiom_u64_trailing_zeros(x);
    let t = u64_trailing_zeros(x) as u64;
    let j = i as u64;
    let up = (64 - t) as u64;
    assert(x << up == 0);
    assert((((x & ((x - 1) as u64)) >> j) & 1 == 1) == (((x >> j) & 1 == 1) && j != t))
        by (bit_vector)
        requires
            x != 0,
            j < 64,
            t < 64,
            up == 64 - t,
            (x >> t) & 1 == 1,
            x << up == 0,
    ;
}

/// Removing the lowest member lowers the count by one.
pub proof fn lemma_popcount_clear_lsb(x: u64)
    requires
        x != 0,
    ensures
        popcount(clear_lsb(x)) + 1 == popcount(x),
    decreases x,
{
    let y = clear_lsb(x);
    if x % 2 == 1 {
        assert(x & ((x - 1) as u64) == x - 1) by (bit_vector)
            requires
                x % 2 == 1,
        ;
        if y != 0 {
            assert(popcount(y) == ((y % 2) as nat) + popcount(y / 2));
        } else {
            assert(x / 2 == 0);
            assert(popcount(x / 2) == 0);
        }
    } else {
        let h = x / 2;
        assert((x & ((x - 1) as u64)) % 2 == 0 && (x & ((x - 1) as u64)) / 2 == (x / 2) & (((x
            / 2) - 1) as u64)) by (bit_vector)
            requires
                x % 2 == 0,
                x != 0,
        ;
        lemma_popcount_clear_lsb(h);
        if y != 0 {
            assert(popcount(y) == ((y % 2) as nat) + popcount(y / 2));
        } else {
            assert(clear_lsb(h) == 0);
        }
    }
}

/// The count never exceeds the number of squares.
pub proof fn lemma_popcount_bound(x: u64)
    ensures
        popcount(x) <= 64,
{
    vstd::arithmetic::power2::lemma2_to64();
    lemma_popcount_below(x, 64);
}

proof fn lemma_popcount_below(x: u64, n: nat)
    requires
        n <= 64,
        (x as nat) < vstd::arithmetic::power2::pow2(n),
    ensures
        popcount(x) <= n,
    decreases n,
{
    if x == 0 {
    } else if n == 0 {
        vstd::arithmetic::power2::lemma2_to64();
    } else {
        vstd::arithmetic::power2::lemma_pow2_unfold(n);
        lemma_popcount_below(x / 2, (n - 1) as nat);
    }
}

/// Membership after a shift towards higher squares.
pub proof fn lemma_shl_bit(x: u64, k: u8, i: u8)
    requires
        k < 64,
        i < 64,
    ensures
        bit(x << (k as u64), i) == (i >= k && bit(x, (i - k) as u8)),
{
    let j = i as u64;
    let s = k as u64;
    let d = if i >= k { (i - k) as u64 } else { 0 };
    assert((((x << s) >> j) & 1 == 1) == (j >= s && ((x >> d) & 1 == 1))) by (bit_vector)
        requires
            j < 64,
            s < 64,
            j >= s ==> d == j - s,
    ;
}

/// Membership after a shift towards lower squares.
pub proof fn lemma_shr_bit(x: u64, k: u8, i: u8)
    requires
        k < 64,
        i < 64,
    ensures
        bit(x >> (k as u64), i) == (i + k < 64 && bit(x, (i + k) as u8)),
{
    let j = i as u64;
    let s = k as u64;
    let d = if i + k < 64 { (i + k) as u64 } else { 0 };
    assert((((x >> s) >> j) & 1 == 1) == (j + s < 64 && ((x >> d) & 1 == 1))) by (bit_vector)
        requires
            j < 64,
            s < 64,
            j + s < 64 ==> d == j + s,
    ;
}

/// A set with exactly one member has count one, and that member is its
/// lowest.
pub proof fn lemma_singleton(x: u64, s: u8)
    requires
        s < 64,
        forall|j: u8| j < 64 ==> (#[trigger] bit(x, j) <==> j == s),
    ensures
        popcount(x) == 1,
        lsb(x) == s,
{
    assert(bit(x, s));
    lemma_bit_nonzero(x, s);
    lemma_lsb(x);
    let rest = clear_lsb(x);
    if rest != 0 {
        lemma_lsb(rest);
        lemma_clear_lsb_bit(x, lsb(rest));
    }
    lemma_popcount_clear_lsb(x);
}

/// A part of a set has no more members than the set.
pub proof fn lemma_popcount_part(a: u64, b: u64)
    ensures
        popcount(a & b) <= popcount(a),
    decreases a,
{
    if a != 0 {
        assert((a & b) % 2 <= a % 2 && (a & b) / 2 == (a / 2) & (b / 2) && (a == 0 ==> a & b == 0))
            by (bit_vector);
        lemma_popcount_part(a / 2, b / 2);
    } else {
        assert(0u64 & b == 0) by (bit_vector);
    }
}

} // verus!
