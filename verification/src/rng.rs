//! A deterministic pseudo-random source.
//!
//! Particle construction draws uniform fractions from a process-owned
//! random source.  Here that source is a seeded linear congruential
//! generator, so a whole run is a pure function of the seed: the same
//! seed and the same calls give bit-identical particle trajectories.

use vstd::prelude::*;

verus! {

/// Multiplier of the linear congruential step.
pub const LCG_MUL: u64 = 6364136223846793005;

/// Increment of the linear congruential step.
pub const LCG_INC: u64 = 1442695040888963407;

/// One linear congruential step over the 64-bit ring.
pub open spec fn spec_lcg_next(s: u64) -> u64 {
    ((s * LCG_MUL + LCG_INC) % 0x10000000000000000) as u64
}

/// The fraction drawn from a state: the low bits are discarded and the
/// rest is reduced into the fixed-point unit range `[0, 1_000_000)`.
pub open spec fn spec_unit_from(s: u64) -> int {
    ((s >> 11) % 1_000_000) as int
}

/// A seeded linear congruential generator of fixed-point fractions.
#[derive(Clone, Copy, PartialEq, Eq, Structural, Debug)]
pub struct Lcg {
    pub state: u64,
}

impl Lcg {
    /// A generator starting from the given seed.
    pub fn new(seed: u64) -> (r: Lcg)
        ensures
            r.state == seed,
    {
        Lcg { state: seed }
    }

    /// Advance the state once and draw a fraction in `[0, 1_000_000)`,
    /// in micro-units: the unit interval, one micro-unit short of one.
    pub fn next_unit(&mut self) -> (r: i64)
        ensures
            final (self).state == spec_lcg_next(old(self).state),
            r as int == spec_unit_from(final (self).state),
            0 <= r < 1_000_000,
    {
        proof {
            assert((self.state as int) * (LCG_MUL as int) + (LCG_INC as int)
                < u128::MAX as int) by (nonlinear_arith)
                requires
                    0 <= (self.state as int) < 0x10000000000000000,
                    LCG_MUL == 6364136223846793005u64,
                    LCG_INC == 1442695040888963407u64;
        }
        let t: u128 = (self.state as u128) * (LCG_MUL as u128) + (LCG_INC as u128);
        let low: u128 = t % 0x10000000000000000;
        let ns: u64 = low as u64;
        self.state = ns;
        let v: u64 = (ns >> 11) % 1_000_000;
        v as i64
    }
}

} // verus!
