//! The fixed-step simulator: advances the scene by one tick of simulated
//! duration `dt`, in four strictly ordered phases.
//!
//! A — gravity: the ship's velocity gains the total gravitational
//! acceleration times `dt`. B — velocity integration: the ship's position
//! gains the new velocity times `dt` (gravity-then-move, a symplectic-
//! Euler-like order that the predictor mirrors). C — collision detection
//! against all planets, in planet order, on the end-of-tick position.
//! D — collision resolution, replaying the records in emission order.

use vstd::prelude::*;

use crate::collision::{collision_detection, collision_resolution, detect_spec,
    resolve_all_spec};
use crate::gravity::{get_total_gravity_acceleration, sources_ok, total_gravity_spec,
    GravitySource};
use crate::planet::Planet;
use crate::scene::{lemma_sources_of_ok, scene_ok, sources_of, Scene};
use crate::ship::{ship_ok, Ship};
use crate::vec2::{v_add, v_add_spec, v_ok, v_scale, v_scale_spec, Vec2};

verus! {

/// Phase A then B on the ship: velocity first gains gravity times `dt`,
/// then position gains the new velocity times `dt`.
pub open spec fn integrate_spec(ship: Ship, sources: Seq<GravitySource>, dt: i64) -> Ship {
    let velocity = v_add_spec(ship.velocity, v_scale_spec(total_gravity_spec(
        sources, ship.position), dt));
    let position = v_add_spec(ship.position, v_scale_spec(velocity, dt));
    Ship { position, velocity, ..ship }
}

/// One whole tick: integrate, then detect collisions on the end-of-tick
/// position, then resolve them in emission order.
pub open spec fn tick_spec(ship: Ship, planets: Seq<Planet>, dt: i64) -> Ship {
    let moved = integrate_spec(ship, sources_of(planets), dt);
    resolve_all_spec(moved, detect_spec(planets, moved.position, moved.radius))
}

/// Phase A: adds the gravity field's acceleration times `dt` to the
/// velocity of the one body affected by gravity.
pub fn gravity_system(ship: &mut Ship, sources: &Vec<GravitySource>, dt: i64)
    requires
        ship_ok(*old(ship)),
        sources_ok(sources@),
    ensures
        final(ship).velocity == v_add_spec(old(ship).velocity, v_scale_spec(
            total_gravity_spec(sources@, old(ship).position), dt)),
        *final(ship) == (Ship { velocity: final(ship).velocity, ..*old(ship) }),
        ship_ok(*final(ship)),
{
    let acceleration = get_total_gravity_acceleration(sources, ship.position);
    ship.velocity = v_add(ship.velocity, v_scale(acceleration, dt));
}

/// Phase B: adds the velocity times `dt` to the position of each body
/// with a velocity (the ship).
pub fn velocity_system(ship: &mut Ship, dt: i64)
    requires
        ship_ok(*old(ship)),
    ensures
        final(ship).position == v_add_spec(old(ship).position, v_scale_spec(
            old(ship).velocity, dt)),
        *final(ship) == (Ship { position: final(ship).position, ..*old(ship) }),
        ship_ok(*final(ship)),
{
    ship.position = v_add(ship.position, v_scale(ship.velocity, dt));
}

impl Scene {
    /// Advances the scene by one tick of simulated duration `dt`:
    /// gravity, velocity integration, collision detection, collision
    /// resolution, in that order. Planets never move; the ship's fuel is
    /// untouched.
    pub fn tick(&mut self, dt: i64)
        requires
            scene_ok(*old(self)),
        ensures
            final(self).ship == tick_spec(old(self).ship, old(self).planets@, dt),
            final(self).planets == old(self).planets,
            final(self).ship.fuel == old(self).ship.fuel,
            scene_ok(*final(self)),
    {
        proof {
            lemma_sources_of_ok(self.planets@);
        }
        let sources = self.gravity_sources();
        gravity_system(&mut self.ship, &sources, dt);
        velocity_system(&mut self.ship, dt);
        let records = collision_detection(&self.planets, self.ship.position, self.ship.radius);
        collision_resolution(&mut self.ship, &records);
    }
}

} // verus!
