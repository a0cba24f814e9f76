//! The trajectory predictor: forward-integrates the ship's free-fall path
//! under the current gravity field and emits it as a polyline.
//!
//! The predictor reads a snapshot of the gravity sources and ignores
//! collisions and thrust. It uses the same gravity kernel and the same
//! micro-step update as the simulator — `lemma_predictor_matches_simulator`
//! in this module proves the two agree whenever a tick detects no
//! collision — so the drawn path faithfully previews the simulated one.

use vstd::prelude::*;

use crate::collision::detect_spec;
use crate::gravity::{get_total_gravity_acceleration, sources_ok, total_gravity_spec,
    GravitySource};
use crate::planet::Planet;
use crate::scene::sources_of;
use crate::ship::Ship;
use crate::simulation::{integrate_spec, tick_spec};
use crate::timescale::BASE_TICK;
use crate::vec2::{v_add, v_add_spec, v_ok, v_scale, v_scale_spec, v_sub, v_sub_spec, Vec2};

verus! {

/// Points emitted per predicted path.
pub const PREDICTION_POINTS: usize = 1000;

/// Micro-steps integrated between two consecutive emitted points.
pub const PREDICTION_SUBSTEPS: usize = 10;

/// One forward-Euler micro-step of duration `dt`: the velocity gains the
/// gravity field at the current position times `dt`, then the position
/// gains the new velocity times `dt` — exactly the simulator's phase A
/// then phase B.
pub open spec fn micro_step_spec(
    position: Vec2,
    velocity: Vec2,
    sources: Seq<GravitySource>,
    dt: i64,
) -> (Vec2, Vec2) {
    let vel = v_add_spec(velocity, v_scale_spec(total_gravity_spec(sources, position), dt));
    let pos = v_add_spec(position, v_scale_spec(vel, dt));
    (pos, vel)
}

/// The state after `n` micro-steps of duration `dt`.
pub open spec fn predict_state_spec(
    position: Vec2,
    velocity: Vec2,
    sources: Seq<GravitySource>,
    dt: i64,
    n: nat,
) -> (Vec2, Vec2)
    decreases n,
{
    if n == 0 {
        (position, velocity)
    } else {
        let prev = predict_state_spec(position, velocity, sources, dt, (n - 1) as nat);
        micro_step_spec(prev.0, prev.1, sources, dt)
    }
}

/// Predictor–simulator agreement: on a tick in which the integrated
/// position overlaps no planet, the simulator's whole tick is exactly one
/// predictor micro-step of the same duration from the same state — the
/// two share one update, so the predicted path previews the simulated one
/// until a collision or thrust intervenes.
pub proof fn lemma_predictor_matches_simulator(ship: Ship, planets: Seq<Planet>, dt: i64)
    requires
        ({
            let moved = integrate_spec(ship, sources_of(planets), dt);
            detect_spec(planets, moved.position, moved.radius).len() == 0
        }),
    ensures
        ({
            let stepped = micro_step_spec(ship.position, ship.velocity, sources_of(planets),
                dt);
            tick_spec(ship, planets, dt) == (Ship {
                position: stepped.0,
                velocity: stepped.1,
                ..ship
            })
        }),
{
}

/// Advances the running predictor state by the micro-steps between two
/// emitted points: `PREDICTION_SUBSTEPS` forward-Euler steps of one base
/// tick each, under a fixed snapshot of gravity sources.
pub fn generate_next_path_point(
    position: &mut Vec2,
    velocity: &mut Vec2,
    sources: &Vec<GravitySource>,
)
    requires
        v_ok(*old(position)),
        v_ok(*old(velocity)),
        sources_ok(sources@),
    ensures
        (*final(position), *final(velocity)) == predict_state_spec(*old(position),
            *old(velocity), sources@, BASE_TICK, PREDICTION_SUBSTEPS as nat),
        v_ok(*final(position)),
        v_ok(*final(velocity)),
{
    for step in 0..PREDICTION_SUBSTEPS
        invariant
            sources_ok(sources@),
            v_ok(*position),
            v_ok(*velocity),
            (*position, *velocity) == predict_state_spec(*old(position), *old(velocity),
                sources@, BASE_TICK, step as nat),
    {
        let acceleration = get_total_gravity_acceleration(sources, *position);
        *velocity = v_add(*velocity, v_scale(acceleration, BASE_TICK));
        *position = v_add(*position, v_scale(*velocity, BASE_TICK));
    }
}

/// The future free-fall path from `(position, velocity)` under a snapshot
/// of gravity sources: `PREDICTION_POINTS` points, the first being the
/// current position, each next one `PREDICTION_SUBSTEPS` micro-steps
/// further. Collisions and thrust are ignored; a source coincident with
/// the running point contributes nothing on that micro-step, so every
/// point is finite.
pub fn generate_path(position: Vec2, velocity: Vec2, sources: &Vec<GravitySource>) -> (path:
    Vec<Vec2>)
    requires
        v_ok(position),
        v_ok(velocity),
        sources_ok(sources@),
    ensures
        path@.len() == PREDICTION_POINTS,
        path@[0] == position,
        forall|i: int| 0 <= i < path@.len() ==> #[trigger] path@[i] == predict_state_spec(
            position, velocity, sources@, BASE_TICK, (i * PREDICTION_SUBSTEPS) as nat).0,
        forall|i: int| 0 <= i < path@.len() ==> v_ok(#[trigger] path@[i]),
{
    let mut path: Vec<Vec2> = Vec::new();
    let mut pos = position;
    let mut vel = velocity;
    for i in 0..PREDICTION_POINTS
        invariant
            sources_ok(sources@),
            v_ok(pos),
            v_ok(vel),
            path@.len() == i,
            (pos, vel) == predict_state_spec(position, velocity, sources@, BASE_TICK,
                (i * PREDICTION_SUBSTEPS) as nat),
            forall|j: int| 0 <= j < i ==> #[trigger] path@[j] == predict_state_spec(position,
                velocity, sources@, BASE_TICK, (j * PREDICTION_SUBSTEPS) as nat).0,
            forall|j: int| 0 <= j < i ==> v_ok(#[trigger] path@[j]),
    {
        path.push(pos);
        proof {
            lemma_predict_state_add(position, velocity, sources@, BASE_TICK,
                (i * PREDICTION_SUBSTEPS) as nat, PREDICTION_SUBSTEPS as nat);
            assert((i + 1) * PREDICTION_SUBSTEPS == i * PREDICTION_SUBSTEPS
                + PREDICTION_SUBSTEPS) by (nonlinear_arith);
        }
        generate_next_path_point(&mut pos, &mut vel, sources);
    }
    path
}

/// Running a predictor for `m` then `n` more micro-steps is the same as
/// running it for `m + n`.
pub proof fn lemma_predict_state_add(
    position: Vec2,
    velocity: Vec2,
    sources: Seq<GravitySource>,
    dt: i64,
    m: nat,
    n: nat,
)
    ensures
        ({
            let mid = predict_state_spec(position, velocity, sources, dt, m);
            predict_state_spec(mid.0, mid.1, sources, dt, n) == predict_state_spec(position,
                velocity, sources, dt, m + n)
        }),
    decreases n,
{
    if n > 0 {
        lemma_predict_state_add(position, velocity, sources, dt, m, (n - 1) as nat);
        assert(m + n - 1 == (m + n) - 1);
    }
}

/// The polyline handed to a renderer: every vertex relative to the first
/// point, so vertex magnitudes stay small; the caller translates the whole
/// line to the first point.
pub fn relative_vertices(path: &Vec<Vec2>) -> (r: Vec<Vec2>)
    requires
        path@.len() > 0,
        forall|i: int| 0 <= i < path@.len() ==> v_ok(#[trigger] path@[i]),
    ensures
        r@.len() == path@.len(),
        forall|i: int| 0 <= i < r@.len() ==> #[trigger] r@[i] == v_sub_spec(path@[i],
            path@[0]),
{
    let origin = path[0];
    let mut vertices: Vec<Vec2> = Vec::new();
    for i in 0..path.len()
        invariant
            path@.len() > 0,
            origin == path@[0],
            forall|j: int| 0 <= j < path@.len() ==> v_ok(#[trigger] path@[j]),
            vertices@.len() == i,
            forall|j: int| 0 <= j < i ==> #[trigger] vertices@[j] == v_sub_spec(path@[j],
                path@[0]),
    {
        vertices.push(v_sub(path[i], origin));
    }
    vertices
}

} // verus!
