//! The ship: the single dynamic body. It is pulled by gravity, collides
//! with planet surfaces, and burns fuel to thrust.
//!
//! Thrust consumes `min(requested_duration, fuel)` fuel and adds
//! `consumed * MAX_VELOCITY_CHANGE * direction` to the velocity, so fuel
//! can never go negative and the total velocity change a tank can deliver
//! is bounded by the fuel it started with.

use vstd::prelude::*;

use crate::fixed::{clip, fx_mul, fx_mul_spec, lemma_tdiv_sign, tdiv, FX_LIM, SCALE};
use crate::vec2::{v_add, v_add_spec, v_ok, v_scale, v_scale_spec, v_zero, Vec2};

verus! {

/// Velocity gained per unit of fuel burned: 100 world units, fixed point.
pub const MAX_VELOCITY_CHANGE: i64 = 6553600;

/// The single dynamic body: position, velocity, bounding radius (0 means
/// a point), and a fuel tank.
#[derive(Clone, Copy, Debug, PartialEq, Eq, Structural)]
pub struct Ship {
    pub position: Vec2,
    pub velocity: Vec2,
    pub radius: i64,
    pub fuel: i64,
    pub max_fuel: i64,
}

/// A well-formed ship: coordinates in range, radius nonnegative, and
/// `0 <= fuel <= max_fuel`.
pub open spec fn ship_ok(s: Ship) -> bool {
    v_ok(s.position) && v_ok(s.velocity) && 0 <= s.radius <= FX_LIM && 0 <= s.fuel
        <= s.max_fuel <= FX_LIM
}

impl Default for Ship {
    /// A fresh ship at the origin: at rest, a point collider, with a full
    /// 100-unit fuel tank.
    fn default() -> (s: Ship)
        ensures
            s.position == v_zero(),
            s.velocity == v_zero(),
            s.radius == 0,
            s.fuel == 100 * SCALE,
            s.max_fuel == 100 * SCALE,
            ship_ok(s),
    {
        Ship {
            position: Vec2 { x: 0, y: 0 },
            velocity: Vec2 { x: 0, y: 0 },
            radius: 0,
            fuel: 100 * SCALE,
            max_fuel: 100 * SCALE,
        }
    }
}

/// The fuel a thrust request consumes: the requested duration, clamped to
/// the fuel that is left.
pub open spec fn thrust_consumed(fuel: i64, duration: i64) -> i64 {
    if duration <= fuel {
        duration
    } else {
        fuel
    }
}

/// The ship after a thrust request: fuel drops by the consumed amount and
/// the velocity gains `direction * (consumed * MAX_VELOCITY_CHANGE)`.
pub open spec fn apply_thrust_spec(ship: Ship, direction: Vec2, duration: i64) -> Ship {
    let used = thrust_consumed(ship.fuel, duration);
    Ship {
        velocity: v_add_spec(ship.velocity, v_scale_spec(direction, fx_mul_spec(
            used, MAX_VELOCITY_CHANGE))),
        fuel: (ship.fuel - used) as i64,
        ..ship
    }
}

/// Burns fuel to change the ship's velocity along `direction` (a unit
/// vector scaled by `SCALE`). Consumption is clamped so fuel never goes
/// negative; position, radius and tank size are untouched.
pub fn apply_thrust(ship: &mut Ship, direction: Vec2, duration: i64)
    requires
        ship_ok(*old(ship)),
        v_ok(direction),
        0 <= duration,
    ensures
        *final(ship) == apply_thrust_spec(*old(ship), direction, duration),
        final(ship).fuel == old(ship).fuel - thrust_consumed(old(ship).fuel, duration),
        0 <= final(ship).fuel <= old(ship).fuel,
        final(ship).position == old(ship).position,
        ship_ok(*final(ship)),
{
    let used = if duration <= ship.fuel {
        duration
    } else {
        ship.fuel
    };
    ship.fuel = ship.fuel - used;
    let gain = fx_mul(used, MAX_VELOCITY_CHANGE);
    ship.velocity = v_add(ship.velocity, v_scale(direction, gain));
}

/// How full the tank is: `fuel / max_fuel` as a fixed-point number in
/// `[0, SCALE]`.
pub fn fuel_ratio(ship: &Ship) -> (r: i64)
    requires
        ship_ok(*ship),
        ship.max_fuel > 0,
    ensures
        r == clip(tdiv(ship.fuel * SCALE, ship.max_fuel as int)),
        0 <= r <= SCALE,
{
    proof {
        crate::fixed::lemma_tdiv_scale_bound(ship.fuel as int, ship.max_fuel as int);
        lemma_tdiv_sign(ship.fuel * SCALE, ship.max_fuel as int);
        assert(ship.fuel * SCALE >= 0) by (nonlinear_arith)
            requires
                ship.fuel >= 0,
        ;
    }
    let q = crate::fixed::tdiv_wide((ship.fuel as i128) * (SCALE as i128),
        ship.max_fuel as i128);
    crate::fixed::clip_wide(q)
}

/// The fuel left after a whole sequence of thrust requests, applied in
/// order.
pub open spec fn fuel_after(fuel: int, durations: Seq<i64>) -> int
    decreases durations.len(),
{
    if durations.len() == 0 {
        fuel
    } else {
        let used = if durations.first() <= fuel {
            durations.first() as int
        } else {
            fuel
        };
        fuel_after(fuel - used, durations.drop_first())
    }
}

/// The sum of a sequence of durations.
pub open spec fn duration_sum(durations: Seq<i64>) -> int
    decreases durations.len(),
{
    if durations.len() == 0 {
        0
    } else {
        durations.first() + duration_sum(durations.drop_first())
    }
}

/// Fuel non-negativity and thrust clamping: over any sequence of
/// nonnegative thrust requests, the tank ends at
/// `fuel - min(total requested, fuel)` — total consumption is exactly the
/// requested time, clamped to the initial fuel, and fuel never drops
/// below zero.
pub proof fn lemma_thrust_clamping(fuel: int, durations: Seq<i64>)
    requires
        0 <= fuel,
        forall|i: int| 0 <= i < durations.len() ==> 0 <= #[trigger] durations[i],
    ensures
        fuel_after(fuel, durations) == if duration_sum(durations) <= fuel {
            fuel - duration_sum(durations)
        } else {
            0
        },
        0 <= fuel_after(fuel, durations) <= fuel,
    decreases durations.len(),
{
    if durations.len() > 0 {
        let d0 = durations.first();
        assert(durations[0] == d0);
        let used = if d0 <= fuel {
            d0 as int
        } else {
            fuel
        };
        let rest = durations.drop_first();
        assert(forall|i: int| 0 <= i < rest.len() ==> 0 <= #[trigger] rest[i]) by {
            assert(forall|i: int| 0 <= i < rest.len() ==> rest[i] == durations[i + 1]);
        }
        lemma_thrust_clamping(fuel - used, rest);
    }
}

} // verus!
