use orbit_core::collision::{collision_detection, collision_resolution, Collision};
use orbit_core::fixed::SCALE;
use orbit_core::planet::Planet;
use orbit_core::scene::Scene;
use orbit_core::ship::Ship;
use orbit_core::vec2::Vec2;

const BASE_TICK: i64 = 1092;

fn planet_at_origin(radius_units: i64) -> Planet {
    Planet::new(Vec2 { x: 0, y: 0 }, radius_units * SCALE)
}

fn ship_at(x: i64, y: i64, vx: i64, vy: i64, radius: i64) -> Ship {
    Ship {
        position: Vec2 { x, y },
        velocity: Vec2 { x: vx, y: vy },
        radius,
        fuel: 100 * SCALE,
        max_fuel: 100 * SCALE,
    }
}

#[test]
fn freefall_pulls_the_ship_inward() {
    // One planet of radius 10 (mass 1000) at the origin; the ship rests
    // at (100, 0). After one second of simulated time it has started to
    // fall toward the planet, straight along the axis.
    let planet = planet_at_origin(10);
    assert_eq!(planet.mass, 1000 * SCALE);
    let mut scene = Scene::new(ship_at(100 * SCALE, 0, 0, 0, 0), vec![planet]);
    for _ in 0..60 {
        scene.tick(BASE_TICK);
    }
    assert_eq!(scene.ship.position, Vec2 { x: 6551986, y: 0 });
    assert_eq!(scene.ship.velocity, Vec2 { x: -3240, y: 0 });
    assert!(scene.ship.position.x < 100 * SCALE);
    assert!(scene.ship.velocity.x < 0);
    assert_eq!(scene.ship.velocity.y, 0);
}

#[test]
fn near_circular_orbit_keeps_its_distance() {
    // With tangential speed sqrt(0.5 * 1000 / 100) the orbit stays within
    // ten percent of its radius over ten simulated seconds (explicit
    // Euler drifts; the tolerance is intentional).
    let planet = planet_at_origin(10);
    let vy = 146542; // sqrt(5) on the grid
    let mut scene = Scene::new(ship_at(100 * SCALE, 0, 0, vy, 0), vec![planet]);
    for _ in 0..600 {
        scene.tick(BASE_TICK);
    }
    let x = scene.ship.position.x as f64 / SCALE as f64;
    let y = scene.ship.position.y as f64 / SCALE as f64;
    let distance = (x * x + y * y).sqrt();
    assert!((distance - 100.0).abs() < 10.0);
}

#[test]
fn surface_impact_stops_at_the_surface() {
    // A fast ship of radius 0.5 dives into a light planet of radius 10:
    // after the tick that overlaps, it sits exactly at distance 10.5 from
    // the centre and its inward velocity is gone.
    let planet = Planet::new(Vec2 { x: 0, y: 0 }, 10 * SCALE);
    let light = Planet { mass: SCALE, ..planet };
    let mut scene = Scene::new(ship_at(11 * SCALE, 0, -100 * SCALE, 0, SCALE / 2), vec![
        light,
    ]);
    scene.tick(BASE_TICK);
    assert_eq!(scene.ship.position, Vec2 { x: 10 * SCALE + SCALE / 2, y: 0 });
    assert_eq!(scene.ship.velocity.x, 0);
    assert_eq!(scene.ship.velocity.y, 0);
}

#[test]
fn resolution_keeps_the_tangential_velocity() {
    // Against an exact grid normal the response is exact: the inward (x)
    // component is removed, the tangential (y) component survives, and a
    // ship already separating is left entirely alone.
    let record = Collision {
        normal: Vec2 { x: SCALE, y: 0 },
        point: Vec2 { x: 10 * SCALE, y: 0 },
    };
    let mut ship = ship_at(10 * SCALE, 0, -100 * SCALE, 30 * SCALE, SCALE / 2);
    collision_resolution(&mut ship, &vec![record]);
    assert_eq!(ship.velocity, Vec2 { x: 0, y: 30 * SCALE });
    assert_eq!(ship.position, Vec2 { x: 10 * SCALE + SCALE / 2, y: 0 });

    let mut leaving = ship_at(10 * SCALE, 0, 5 * SCALE, 30 * SCALE, SCALE / 2);
    collision_resolution(&mut leaving, &vec![record]);
    assert_eq!(leaving.velocity, Vec2 { x: 5 * SCALE, y: 30 * SCALE });
}

#[test]
fn detection_emits_one_record_per_overlap() {
    let planets = vec![
        Planet::new(Vec2 { x: 0, y: 0 }, 10 * SCALE),
        Planet::new(Vec2 { x: 50 * SCALE, y: 0 }, 10 * SCALE),
    ];
    // Touching the first planet only.
    let records = collision_detection(&planets, Vec2 { x: 9 * SCALE, y: 0 }, SCALE / 2);
    assert_eq!(records.len(), 1);
    assert_eq!(records[0].normal, Vec2 { x: SCALE, y: 0 });
    assert_eq!(records[0].point, Vec2 { x: 10 * SCALE, y: 0 });
    // Far from both.
    let none = collision_detection(&planets, Vec2 { x: 25 * SCALE, y: 30 * SCALE }, SCALE);
    assert_eq!(none.len(), 0);
}

#[test]
fn resolution_tolerates_the_degenerate_centre_hit() {
    // A ship exactly at the planet centre gets the zero normal and the
    // resolution is a no-op on its position axis combination.
    let planets = vec![Planet::new(Vec2 { x: 0, y: 0 }, 10 * SCALE)];
    let mut scene = Scene::new(ship_at(0, 0, 0, 0, 0), vec![planets[0]]);
    scene.tick(BASE_TICK);
    // gravity is skipped (coincident) and the zero normal resolves to the
    // planet centre again: no crash, finite values
    assert_eq!(scene.ship.position, Vec2 { x: 0, y: 0 });
    assert_eq!(scene.ship.velocity, Vec2 { x: 0, y: 0 });
}

#[test]
fn ticks_leave_planets_and_fuel_alone() {
    let planet = planet_at_origin(10);
    let mut scene = Scene::new(ship_at(100 * SCALE, 0, 0, 0, 0), vec![planet]);
    scene.tick(BASE_TICK);
    assert_eq!(scene.planets.len(), 1);
    assert_eq!(scene.planets[0].position, Vec2 { x: 0, y: 0 });
    assert_eq!(scene.planets[0].radius, 10 * SCALE);
    assert_eq!(scene.ship.fuel, 100 * SCALE);
}

#[test]
fn time_scale_change_mid_flight_matches_plain_run() {
    // 0.5 s at normal speed then 0.5 s wall-clock at four-fold speed
    // covers the same simulated ticks as 2.5 s at normal speed: the
    // sped-up scheduler shortens the period but keeps the per-tick step.
    let planet = planet_at_origin(10);
    let mut fast = Scene::new(ship_at(100 * SCALE, 0, 0, 0, 0), vec![planet]);
    for _ in 0..30 {
        fast.tick(1092); // tau = 1: period 1092, step 1092
    }
    for _ in 0..120 {
        fast.tick(1092); // tau = 4: period 273, 120 ticks in 0.5 s, step 1092
    }
    let mut plain = Scene::new(ship_at(100 * SCALE, 0, 0, 0, 0), vec![planet]);
    for _ in 0..150 {
        plain.tick(1092);
    }
    assert_eq!(fast.ship.position, plain.ship.position);
    assert_eq!(fast.ship.velocity, plain.ship.velocity);
    assert_eq!(fast.ship.position, Vec2 { x: 6543490, y: 0 });
}
