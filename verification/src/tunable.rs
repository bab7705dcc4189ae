//! The numbers that steer the search, each with its range. All are kept in
//! thousandths.

use vstd::prelude::*;

verus! {

/// One number with the range it may take.
#[derive(Debug, Copy, Clone, PartialEq, Eq, Structural)]
pub struct Tunable {
    pub val: i32,
    pub min: i32,
    pub max: i32,
}

/// `val` brought into the range from `min` to `max`.
pub open spec fn clamped(val: i32, min: i32, max: i32) -> i32 {
    if val < min {
        min
    } else if val > max {
        max
    } else {
        val
    }
}

impl Tunable {
    /// Sets the number to `val`, brought into its range.
    pub fn set(&mut self, val: i32)
        ensures
            *final(self) == (Tunable { val: clamped(val, old(self).min, old(self).max), ..*old(self) }),
    {
        self.val = if val < self.min {
            self.min
        } else if val > self.max {
            self.max
        } else {
            val
        };
    }
}

/// The numbers that steer the search.
#[derive(Debug, Copy, Clone, PartialEq, Eq, Structural)]
pub struct Tunables {
    pub default_cpuct: Tunable,
    pub root_cpuct: Tunable,
    pub gini_base: Tunable,
    pub gini_log_mult: Tunable,
    pub gini_min: Tunable,
    pub default_pst: Tunable,
    pub root_pst_bonus: Tunable,
    pub time_divisor: Tunable,
    pub inc_divisor: Tunable,
    pub cpuct_visits_scale: Tunable,
}

impl Tunables {
    /// The numbers as they stand when nothing was set.
    pub open spec fn defaults() -> Tunables {
        Tunables {
            default_cpuct: Tunable { val: 500, min: 0, max: 10000 },
            root_cpuct: Tunable { val: 700, min: 0, max: 10000 },
            gini_base: Tunable { val: 463, min: 0, max: 2000 },
            gini_log_mult: Tunable { val: 1567, min: 0, max: 3000 },
            gini_min: Tunable { val: 2260, min: 0, max: 4000 },
            default_pst: Tunable { val: 1000, min: 100, max: 2000 },
            root_pst_bonus: Tunable { val: 2500, min: 100, max: 5000 },
            time_divisor: Tunable { val: 20000, min: 1000, max: 50000 },
            inc_divisor: Tunable { val: 2000, min: 1000, max: 5000 },
            cpuct_visits_scale: Tunable { val: 40000, min: 1000, max: 512000 },
        }
    }

    /// The numbers as they stand when nothing was set.
    pub fn new() -> (t: Tunables)
        ensures
            t == Tunables::defaults(),
    {
        Tunables {
            default_cpuct: Tunable { val: 500, min: 0, max: 10000 },
            root_cpuct: Tunable { val: 700, min: 0, max: 10000 },
            gini_base: Tunable { val: 463, min: 0, max: 2000 },
            gini_log_mult: Tunable { val: 1567, min: 0, max: 3000 },
            gini_min: Tunable { val: 2260, min: 0, max: 4000 },
            default_pst: Tunable { val: 1000, min: 100, max: 2000 },
            root_pst_bonus: Tunable { val: 2500, min: 100, max: 5000 },
            time_divisor: Tunable { val: 20000, min: 1000, max: 50000 },
            inc_divisor: Tunable { val: 2000, min: 1000, max: 5000 },
            cpuct_visits_scale: Tunable { val: 40000, min: 1000, max: 512000 },
        }
    }
}

} // verus!
