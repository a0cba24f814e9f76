//! The time-scale ladder and the fixed-step scheduler.
//!
//! The user picks a time scale from the ladder `2^(k-5)`, `k = 1..=10`
//! (1/16 up to 32). Speeding up shortens the real-time tick period
//! `delta() = BASE_TICK / max(1, factor)` so the integrator runs more
//! often and keeps its precision; slowing down keeps the period at
//! `BASE_TICK` and shrinks only the simulated time each tick represents,
//! `sim_step() = factor * delta()`. An accumulator consumes wall-clock
//! time in period-sized chunks, at most `TICK_CAP` ticks per frame;
//! beyond the cap the excess is discarded, so simulated time falls behind
//! the wall clock rather than consuming unbounded work.

use vstd::prelude::*;

use crate::fixed::{clip, fx_mul, fx_mul_spec, lemma_tdiv_ordered, lemma_tdiv_sign, tdiv,
    FX_LIM, SCALE};

verus! {

/// The base tick period: 1/60 s on the fixed-point grid, rounded down.
pub const BASE_TICK: i64 = 1092;

/// Most ticks one frame may run; further accumulated time is discarded.
pub const TICK_CAP: u32 = 8;

/// Smallest ladder factor: 1/16, fixed point.
pub const MIN_FACTOR: i64 = 4096;

/// Largest ladder factor: 32, fixed point.
pub const MAX_FACTOR: i64 = 2097152;

/// The user-selected time-scale multiplier, fixed point.
#[derive(Clone, Copy, Debug, PartialEq, Eq, Structural)]
pub struct TimeScale {
    pub factor: i64,
}

/// A well-formed time scale: within the ladder's range.
pub open spec fn time_scale_ok(t: TimeScale) -> bool {
    MIN_FACTOR <= t.factor <= MAX_FACTOR
}

/// The ladder value for a selection `1..=10`: `2^(selection - 5)`, fixed
/// point. Selection 10 stands for the 0 key and is the fastest scale.
pub open spec fn ladder_factor(selection: u8) -> i64 {
    if selection == 1 {
        4096
    } else if selection == 2 {
        8192
    } else if selection == 3 {
        16384
    } else if selection == 4 {
        32768
    } else if selection == 5 {
        65536
    } else if selection == 6 {
        131072
    } else if selection == 7 {
        262144
    } else if selection == 8 {
        524288
    } else if selection == 9 {
        1048576
    } else {
        2097152
    }
}

/// The real-time tick period for a factor: `BASE_TICK` when slowed down
/// or at normal speed, `BASE_TICK / factor` when sped up.
pub open spec fn delta_spec(factor: i64) -> i64 {
    if factor <= SCALE {
        BASE_TICK
    } else {
        clip(tdiv(BASE_TICK * SCALE, factor as int))
    }
}

/// The simulated time one tick advances: `factor * delta(factor)`.
pub open spec fn sim_step_spec(factor: i64) -> i64 {
    fx_mul_spec(factor, delta_spec(factor))
}

impl Default for TimeScale {
    /// Normal speed: factor 1.
    fn default() -> (t: TimeScale)
        ensures
            t.factor == SCALE,
            time_scale_ok(t),
    {
        TimeScale { factor: SCALE }
    }
}

impl TimeScale {
    /// The scale a keyboard selection `1..=10` picks: `2^(selection - 5)`.
    pub fn from_selection(selection: u8) -> (t: TimeScale)
        requires
            1 <= selection <= 10,
        ensures
            t.factor == ladder_factor(selection),
            time_scale_ok(t),
    {
        let factor = if selection == 1 {
            4096
        } else if selection == 2 {
            8192
        } else if selection == 3 {
            16384
        } else if selection == 4 {
            32768
        } else if selection == 5 {
            65536
        } else if selection == 6 {
            131072
        } else if selection == 7 {
            262144
        } else if selection == 8 {
            524288
        } else if selection == 9 {
            1048576
        } else {
            2097152
        };
        TimeScale { factor }
    }

    /// The real-time period between ticks. Speeding up shortens it so the
    /// integrator keeps its step small; slowing down leaves it alone.
    pub fn delta(&self) -> (r: i64)
        requires
            time_scale_ok(*self),
        ensures
            r == delta_spec(self.factor),
            34 <= r <= BASE_TICK,
    {
        if self.factor <= SCALE {
            BASE_TICK
        } else {
            proof {
                lemma_delta_bounds(self.factor);
            }
            let q = crate::fixed::tdiv_wide((BASE_TICK as i128) * (SCALE as i128),
                self.factor as i128);
            crate::fixed::clip_wide(q)
        }
    }

    /// The simulated duration each tick advances: `factor * delta()`.
    /// Phases A and B integrate with this value, whatever the wall-clock
    /// period is.
    pub fn sim_step(&self) -> (r: i64)
        requires
            time_scale_ok(*self),
        ensures
            r == sim_step_spec(self.factor),
            1 <= r <= BASE_TICK,
    {
        let d = self.delta();
        proof {
            lemma_sim_step_bounds(self.factor);
        }
        fx_mul(self.factor, d)
    }
}

/// Bounds for the sped-up tick period: between 34 (at the ladder's top)
/// and `BASE_TICK`.
proof fn lemma_delta_bounds(factor: i64)
    requires
        SCALE < factor <= MAX_FACTOR,
    ensures
        34 <= tdiv(BASE_TICK * SCALE, factor as int) <= BASE_TICK,
        clip(tdiv(BASE_TICK * SCALE, factor as int)) == tdiv(BASE_TICK * SCALE, factor as int),
{
    let f = factor as int;
    assert(34 * f <= BASE_TICK * SCALE && BASE_TICK * f >= BASE_TICK * SCALE)
        by (nonlinear_arith)
        requires
            SCALE < f <= MAX_FACTOR,
            MAX_FACTOR == 2097152,
            SCALE == 65536,
            BASE_TICK == 1092,
    ;
    lemma_tdiv_ordered(34 * f, BASE_TICK * SCALE, f);
    vstd::arithmetic::div_mod::lemma_div_multiples_vanish(34, f);
    lemma_tdiv_ordered(BASE_TICK * SCALE, BASE_TICK * f, f);
    vstd::arithmetic::div_mod::lemma_div_multiples_vanish(BASE_TICK as int, f);
    assert(tdiv(34 * f, f) == 34 && tdiv(BASE_TICK * f, f) == BASE_TICK) by {
        assert(34 * f == f * 34 && BASE_TICK * f == f * BASE_TICK) by (nonlinear_arith);
        lemma_tdiv_sign(f * 34, f);
        lemma_tdiv_sign(f * BASE_TICK, f);
    }
    crate::fixed::lemma_clip_ok(tdiv(BASE_TICK * SCALE, f));
}

/// Bounds for the simulated step: at least one grid unit, at most the
/// base tick.
proof fn lemma_sim_step_bounds(factor: i64)
    requires
        time_scale_ok(TimeScale { factor }),
    ensures
        1 <= sim_step_spec(factor) <= BASE_TICK,
{
    let f = factor as int;
    let d = delta_spec(factor) as int;
    if factor <= SCALE {
        assert(d == BASE_TICK);
        assert(MIN_FACTOR * BASE_TICK <= f * d <= SCALE * BASE_TICK) by (nonlinear_arith)
            requires
                MIN_FACTOR <= f <= SCALE,
                d == BASE_TICK,
        ;
        lemma_tdiv_ordered(MIN_FACTOR * BASE_TICK, f * d, SCALE as int);
        lemma_tdiv_ordered(f * d, SCALE * BASE_TICK, SCALE as int);
        assert(tdiv(MIN_FACTOR * BASE_TICK, SCALE as int) == 68);
        assert(tdiv(SCALE * BASE_TICK, SCALE as int) == BASE_TICK) by {
            vstd::arithmetic::div_mod::lemma_div_multiples_vanish(BASE_TICK as int,
                SCALE as int);
            lemma_tdiv_sign(SCALE * BASE_TICK, SCALE as int);
        }
        crate::fixed::lemma_clip_ok(tdiv(f * d, SCALE as int));
    } else {
        lemma_delta_bounds(factor);
        assert(34 <= d <= BASE_TICK);
        // f * d stays within [SCALE * 34, BASE_TICK * SCALE]: the period
        // was produced by dividing BASE_TICK * SCALE by f.
        assert(f * d <= BASE_TICK * SCALE) by {
            vstd::arithmetic::div_mod::lemma_fundamental_div_mod(BASE_TICK * SCALE, f);
            vstd::arithmetic::div_mod::lemma_mod_bound(BASE_TICK * SCALE, f);
            assert(d == (BASE_TICK * SCALE) / f);
            assert(f * d == f * ((BASE_TICK * SCALE) / f));
        }
        assert(SCALE * 34 <= f * d) by (nonlinear_arith)
            requires
                f > SCALE,
                d >= 34,
                SCALE == 65536,
        ;
        lemma_tdiv_ordered(SCALE * 34, f * d, SCALE as int);
        lemma_tdiv_ordered(f * d, BASE_TICK * SCALE, SCALE as int);
        assert(tdiv(SCALE * 34, SCALE as int) == 34) by {
            vstd::arithmetic::div_mod::lemma_div_multiples_vanish(34, SCALE as int);
            lemma_tdiv_sign(SCALE * 34, SCALE as int);
        }
        assert(tdiv(BASE_TICK * SCALE, SCALE as int) == BASE_TICK) by {
            vstd::arithmetic::div_mod::lemma_div_multiples_vanish(BASE_TICK as int,
                SCALE as int);
            assert(BASE_TICK * SCALE == SCALE * BASE_TICK) by (nonlinear_arith);
            lemma_tdiv_sign(SCALE * BASE_TICK, SCALE as int);
        }
        crate::fixed::lemma_clip_ok(tdiv(f * d, SCALE as int));
    }
}

/// The wall-clock accumulator driving the fixed-step loop.
#[derive(Clone, Copy, Debug, PartialEq, Eq, Structural)]
pub struct FixedStep {
    pub accumulator: i64,
}

/// The accumulator is never negative.
pub open spec fn fixed_step_ok(s: FixedStep) -> bool {
    0 <= s.accumulator <= FX_LIM
}

/// How many ticks one frame runs: the accumulated time divided by the
/// period, capped.
pub open spec fn advance_ticks_spec(accumulator: i64, elapsed: i64, period: i64) -> int {
    let q = (accumulator + elapsed) / (period as int);
    if q <= TICK_CAP {
        q
    } else {
        TICK_CAP as int
    }
}

/// What is left in the accumulator afterwards: the remainder, or nothing
/// when the cap was exceeded (the excess is discarded).
pub open spec fn advance_rest_spec(accumulator: i64, elapsed: i64, period: i64) -> int {
    let q = (accumulator + elapsed) / (period as int);
    if q <= TICK_CAP {
        (accumulator + elapsed) % (period as int)
    } else {
        0
    }
}

impl FixedStep {
    /// A fresh scheduler with an empty accumulator.
    pub fn new() -> (s: FixedStep)
        ensures
            s.accumulator == 0,
            fixed_step_ok(s),
    {
        FixedStep { accumulator: 0 }
    }

    /// Consumes `elapsed` wall-clock time and says how many ticks of the
    /// given period to run now: one per full period accumulated, at most
    /// `TICK_CAP`; past the cap the excess time is discarded. The
    /// accumulator never goes negative and always ends below the period.
    pub fn advance(&mut self, elapsed: i64, period: i64) -> (ticks: u32)
        requires
            fixed_step_ok(*old(self)),
            0 <= elapsed <= FX_LIM,
            0 < period <= FX_LIM,
        ensures
            ticks == advance_ticks_spec(old(self).accumulator, elapsed, period),
            final(self).accumulator == advance_rest_spec(old(self).accumulator, elapsed,
                period),
            ticks <= TICK_CAP,
            final(self).accumulator < period || ticks == TICK_CAP,
            fixed_step_ok(*final(self)),
    {
        let total = self.accumulator + elapsed;
        let q = (total as u64) / (period as u64);
        proof {
            vstd::arithmetic::div_mod::lemma_div_pos_is_pos(total as int, period as int);
            vstd::arithmetic::div_mod::lemma_div_nonincreasing(total as int, period as int);
            vstd::arithmetic::div_mod::lemma_mod_bound(total as int, period as int);
        }
        if q <= TICK_CAP as u64 {
            self.accumulator = (total as u64 % period as u64) as i64;
            q as u32
        } else {
            self.accumulator = 0;
            TICK_CAP
        }
    }
}

/// Time-scale determinism: starting from an empty accumulator, a frame
/// that has seen exactly `k` periods of wall-clock time (`k` at most the
/// cap) runs exactly `k` ticks and carries nothing over — each of which
/// advances simulated time by `sim_step_spec(factor)`, by `sim_step`'s
/// contract.
pub proof fn lemma_scheduler_determinism(k: u32, period: i64)
    requires
        0 < period,
        k <= TICK_CAP,
        k * period <= FX_LIM,
    ensures
        advance_ticks_spec(0, (k * period) as i64, period) == k,
        advance_rest_spec(0, (k * period) as i64, period) == 0,
{
    let p = period as int;
    vstd::arithmetic::div_mod::lemma_div_multiples_vanish(k as int, p);
    vstd::arithmetic::div_mod::lemma_mod_multiples_basic(k as int, p);
    assert(k * period == p * (k as int)) by (nonlinear_arith)
        requires
            p == period as int,
    ;
}

/// The label the interface shows for a ladder selection: the scale as a
/// plain fraction.
pub fn time_scale_fraction(selection: u8) -> (r: &'static str)
    requires
        1 <= selection <= 10,
    ensures
        selection == 1 ==> r@ == "1/16"@,
        selection == 2 ==> r@ == "1/8"@,
        selection == 3 ==> r@ == "1/4"@,
        selection == 4 ==> r@ == "1/2"@,
        selection == 5 ==> r@ == "1"@,
        selection == 6 ==> r@ == "2"@,
        selection == 7 ==> r@ == "4"@,
        selection == 8 ==> r@ == "8"@,
        selection == 9 ==> r@ == "16"@,
        selection == 10 ==> r@ == "32"@,
{
    if selection == 1 {
        "1/16"
    } else if selection == 2 {
        "1/8"
    } else if selection == 3 {
        "1/4"
    } else if selection == 4 {
        "1/2"
    } else if selection == 5 {
        "1"
    } else if selection == 6 {
        "2"
    } else if selection == 7 {
        "4"
    } else if selection == 8 {
        "8"
    } else if selection == 9 {
        "16"
    } else {
        "32"
    }
}

} // verus!
