//! A small deterministic pseudo-random number generator, used to derive the
//! hashing keys.

use vstd::prelude::*;

verus! {

/// The seed the hashing keys are derived from.
pub const KEY_SEED: u64 = 0x7a57_e1e5_5ca5_cade;

/// How many numbers a fresh generator discards.
pub const WARM_UP: u64 = 15;

/// The state of the generator: four words.
pub struct Generator {
    pub a: u64,
    pub b: u64,
    pub c: u64,
    pub d: u64,
}

/// `x` rotated towards the high bits by `k` places, for `0 < k < 64`.
pub open spec fn rotl(x: u64, k: u64) -> u64 {
    (x << k) | (x >> ((64 - k) as u64))
}

/// The state that follows `g`.
pub open spec fn advance(g: Generator) -> Generator {
    let e = g.a.wrapping_sub(rotl(g.b, 7));
    let a = g.b ^ rotl(g.c, 13);
    let b = g.c.wrapping_add(rotl(g.d, 37));
    let c = g.d.wrapping_add(e);
    let d = e.wrapping_add(a);
    Generator { a, b, c, d }
}

/// The state reached from `g` after `n` steps.
pub open spec fn advance_by(g: Generator, n: nat) -> Generator
    decreases n,
{
    if n == 0 {
        g
    } else {
        advance(advance_by(g, (n - 1) as nat))
    }
}

/// The state of a generator fresh from `seed`: all four words set to the
/// seed, then fifteen steps taken.
pub open spec fn seeded(seed: u64) -> Generator {
    advance_by(Generator { a: seed, b: seed, c: seed, d: seed }, WARM_UP as nat)
}

/// The `i`-th number (from 0) that a generator fresh from `seed` hands out.
pub open spec fn nth_output(seed: u64, i: nat) -> u64 {
    advance_by(seeded(seed), i + 1).d
}

fn rotate(x: u64, k: u64) -> (r: u64)
    requires
        0 < k < 64,
    ensures
        r == rotl(x, k),
{
    (x << k) | (x >> (64 - k))
}

impl Generator {
    /// A generator fresh from `seed`.
    pub fn new(seed: u64) -> (g: Generator)
        ensures
            g == seeded(seed),
    {
        let mut thing = Generator { a: seed, b: seed, c: seed, d: seed };
        let mut i: u64 = 0;
        while i < WARM_UP
            invariant
                i <= WARM_UP,
                thing == advance_by(Generator { a: seed, b: seed, c: seed, d: seed }, i as nat),
            decreases WARM_UP - i,
        {
            let _ = thing.next();
            i += 1;
        }
        thing
    }

    /// Takes one step and hands out the next number.
    pub fn next(&mut self) -> (r: u64)
        ensures
            *final(self) == advance(*old(self)),
            r == final(self).d,
    {
        let e = self.a.wrapping_sub(rotate(self.b, 7));
        self.a = self.b ^ rotate(self.c, 13);
        self.b = self.c.wrapping_add(rotate(self.d, 37));
        self.c = self.d.wrapping_add(e);
        self.d = e.wrapping_add(self.a);
        self.d
    }
}

/// The first `SIZE` numbers of the generator fresh from the key seed.
pub fn fill_array<const SIZE: usize>() -> (r: [u64; SIZE])
    ensures
        forall|i: int| 0 <= i < SIZE ==> #[trigger] r[i] == nth_output(KEY_SEED, i as nat),
{
    let mut rng = Generator::new(KEY_SEED);
    let mut result = [0u64; SIZE];
    let mut i: usize = 0;
    while i < SIZE
        invariant
            i <= SIZE,
            rng == advance_by(seeded(KEY_SEED), i as nat),
            forall|j: int| 0 <= j < i ==> #[trigger] result[j] == nth_output(KEY_SEED, j as nat),
        decreases SIZE - i,
    {
        let v = rng.next();
        result[i] = v;
        i += 1;
    }
    result
}

} // verus!
