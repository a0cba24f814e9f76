//! The scene: the authoritative bag of entities the simulator advances.
//!
//! The domain has exactly two entity kinds, so the scene is a tagged
//! value rather than a generic component table: one ship (the single
//! dynamic body, which is affected by gravity and collides) and a list of
//! planets (immovable gravity sources and colliders).

use vstd::prelude::*;

use crate::gravity::{source_ok, sources_ok, GravitySource};
use crate::planet::{planet_ok, planets_ok, Planet};
use crate::ship::{ship_ok, Ship};
use crate::vec2::{v_ok, Vec2};

verus! {

/// A level's world state: the single dynamic ship and the static planets.
pub struct Scene {
    pub ship: Ship,
    pub planets: Vec<Planet>,
}

/// A well-formed scene: the ship and every planet are well formed.
pub open spec fn scene_ok(scene: Scene) -> bool {
    ship_ok(scene.ship) && planets_ok(scene.planets@)
}

/// The gravity sources a set of planets contributes: position and mass of
/// each, in planet order.
pub open spec fn sources_of(planets: Seq<Planet>) -> Seq<GravitySource> {
    Seq::new(planets.len(), |i: int| GravitySource {
        position: planets[i].position,
        mass: planets[i].mass,
    })
}

pub broadcast proof fn lemma_sources_of_ok(planets: Seq<Planet>)
    requires
        planets_ok(planets),
    ensures
        sources_ok(#[trigger] sources_of(planets)),
{
    assert forall|i: int| 0 <= i < sources_of(planets).len() implies source_ok(
        #[trigger] sources_of(planets)[i],
    ) by {
        assert(planet_ok(planets[i]));
    }
}

impl Scene {
    /// Builds a scene from a parsed level's planets and a starting ship.
    pub fn new(ship: Ship, planets: Vec<Planet>) -> (scene: Scene)
        requires
            ship_ok(ship),
            planets_ok(planets@),
        ensures
            scene.ship == ship,
            scene.planets == planets,
            scene_ok(scene),
    {
        Scene { ship, planets }
    }

    /// The snapshot of gravity sources the simulator and the predictor
    /// read: one entry per planet, in planet order.
    pub fn gravity_sources(&self) -> (r: Vec<GravitySource>)
        requires
            scene_ok(*self),
        ensures
            r@ == sources_of(self.planets@),
            sources_ok(r@),
    {
        let mut sources: Vec<GravitySource> = Vec::new();
        for i in 0..self.planets.len()
            invariant
                planets_ok(self.planets@),
                sources@.len() == i,
                forall|j: int| 0 <= j < i ==> sources@[j] == sources_of(self.planets@)[j],
        {
            sources.push(GravitySource {
                position: self.planets[i].position,
                mass: self.planets[i].mass,
            });
            proof {
                assert(planet_ok(self.planets@[i as int]));
            }
        }
        proof {
            assert(sources@ =~= sources_of(self.planets@));
            lemma_sources_of_ok(self.planets@);
        }
        sources
    }

    /// The single dynamic body.
    pub fn ship(&self) -> (r: &Ship)
        ensures
            r == self.ship,
    {
        &self.ship
    }

    /// The dynamic bodies: position, velocity and bounding radius of
    /// each entity whose velocity is integrated — exactly one, the ship.
    pub fn dynamic_bodies(&self) -> (r: Vec<(Vec2, Vec2, i64)>)
        ensures
            r@.len() == 1,
            r@[0] == (self.ship.position, self.ship.velocity, self.ship.radius),
    {
        let mut bodies: Vec<(Vec2, Vec2, i64)> = Vec::new();
        bodies.push((self.ship.position, self.ship.velocity, self.ship.radius));
        bodies
    }

    /// The colliders: every planet, in planet order.
    pub fn colliders(&self) -> (r: &Vec<Planet>)
        ensures
            r == self.planets,
    {
        &self.planets
    }
}

} // verus!
