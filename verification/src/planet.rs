//! Planets: immovable circular bodies that source gravity and can be
//! collided into. A planet's gravitational mass is derived from its
//! radius as `radius^3` on the fixed-point grid, coupling gravitational
//! strength to visual size as the level format intends.

use vstd::prelude::*;

use crate::fixed::{fx_mul, fx_mul_spec, FX_LIM};
use crate::vec2::{v_ok, Vec2};

verus! {

/// An immovable circular body: gravity source and collider.
#[derive(Clone, Copy, Debug, PartialEq, Eq, Structural)]
pub struct Planet {
    pub position: Vec2,
    pub radius: i64,
    pub mass: i64,
}

/// A well-formed planet: coordinates in range, radius positive and in
/// range, mass nonnegative and in range.
pub open spec fn planet_ok(p: Planet) -> bool {
    v_ok(p.position) && 0 < p.radius <= FX_LIM && 0 <= p.mass <= FX_LIM
}

/// The mass a planet of the given radius carries: `radius^3`, computed as
/// two fixed-point products, left to right.
pub open spec fn planet_mass_spec(radius: i64) -> i64 {
    fx_mul_spec(fx_mul_spec(radius, radius), radius)
}

impl Planet {
    /// Builds a planet at `position` with the given radius; its mass is
    /// derived as `radius^3`.
    pub fn new(position: Vec2, radius: i64) -> (p: Planet)
        requires
            v_ok(position),
            0 < radius <= FX_LIM,
        ensures
            p.position == position,
            p.radius == radius,
            p.mass == planet_mass_spec(radius),
            planet_ok(p),
    {
        let mass = fx_mul(fx_mul(radius, radius), radius);
        proof {
            crate::fixed::lemma_tdiv_sign(radius * radius, crate::fixed::SCALE as int);
            assert(radius * radius >= 0) by (nonlinear_arith)
                requires
                    radius > 0,
            ;
            let rr = fx_mul_spec(radius, radius);
            crate::fixed::lemma_tdiv_sign(rr * radius, crate::fixed::SCALE as int);
            assert(rr * radius >= 0) by (nonlinear_arith)
                requires
                    rr >= 0,
                    radius > 0,
            ;
        }
        Planet { position, radius, mass }
    }
}

pub open spec fn planets_ok(planets: Seq<Planet>) -> bool {
    forall|i: int| 0 <= i < planets.len() ==> planet_ok(#[trigger] planets[i])
}

} // verus!
