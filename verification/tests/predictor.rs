use orbit_core::fixed::SCALE;
use orbit_core::gravity::GravitySource;
use orbit_core::planet::Planet;
use orbit_core::prediction::{generate_next_path_point, generate_path, relative_vertices,
    PREDICTION_POINTS, PREDICTION_SUBSTEPS};
use orbit_core::scene::Scene;
use orbit_core::ship::Ship;
use orbit_core::vec2::Vec2;

const BASE_TICK: i64 = 1092;

fn source(x: i64, y: i64, mass: i64) -> GravitySource {
    GravitySource { position: Vec2 { x, y }, mass }
}

#[test]
fn path_has_the_configured_shape() {
    assert_eq!(PREDICTION_POINTS, 1000);
    assert_eq!(PREDICTION_SUBSTEPS, 10);
    let sources = vec![source(0, 0, 1000 * SCALE)];
    let path = generate_path(Vec2 { x: 100 * SCALE, y: 0 }, Vec2 { x: 0, y: 0 }, &sources);
    assert_eq!(path.len(), 1000);
    assert_eq!(path[0], Vec2 { x: 100 * SCALE, y: 0 });
    // the free-fall path moves toward the planet
    assert!(path[999].x < path[0].x);
}

#[test]
fn predictor_agrees_with_collision_free_simulation() {
    // The same gravity kernel drives both: ten simulator ticks away from
    // any collision land exactly on the predictor's second point.
    let planet = Planet::new(Vec2 { x: 0, y: 0 }, 10 * SCALE);
    let start = Vec2 { x: 100 * SCALE, y: 0 };
    let sources = vec![source(0, 0, planet.mass)];
    let path = generate_path(start, Vec2 { x: 0, y: 0 }, &sources);

    let ship = Ship {
        position: start,
        velocity: Vec2 { x: 0, y: 0 },
        radius: 0,
        fuel: 100 * SCALE,
        max_fuel: 100 * SCALE,
    };
    let mut scene = Scene::new(ship, vec![planet]);
    for point in path.iter().take(30) {
        assert_eq!(scene.ship.position, *point);
        for _ in 0..PREDICTION_SUBSTEPS {
            scene.tick(BASE_TICK);
        }
    }
}

#[test]
fn coincident_source_is_skipped_not_propagated() {
    // A source exactly at the ship contributes nothing on the sub-steps
    // where it coincides: the path starts at the ship, stays finite, and
    // its first motion is the pull of the remaining source alone.
    let start = Vec2 { x: 100 * SCALE, y: 0 };
    let with_coincident = vec![source(100 * SCALE, 0, SCALE), source(0, 0, 1000 * SCALE)];
    let only_far = vec![source(0, 0, 1000 * SCALE)];
    let a = generate_path(start, Vec2 { x: 0, y: 0 }, &with_coincident);
    let b = generate_path(start, Vec2 { x: 0, y: 0 }, &only_far);
    assert_eq!(a[0], start);
    assert_eq!(a[0], b[0]);
    // once the ship has moved, the once-coincident source pulls again —
    // the paths split — and every point is still a finite grid value
    assert!(a[1] != b[1]);
    for point in &a {
        assert!(point.x.abs() <= 0x100_0000_0000);
        assert!(point.y.abs() <= 0x100_0000_0000);
    }
}

#[test]
fn next_path_point_advances_ten_micro_steps() {
    let sources = vec![source(0, 0, 1000 * SCALE)];
    let mut pos = Vec2 { x: 100 * SCALE, y: 0 };
    let mut vel = Vec2 { x: 0, y: 0 };
    generate_next_path_point(&mut pos, &mut vel, &sources);
    let path = generate_path(Vec2 { x: 100 * SCALE, y: 0 }, Vec2 { x: 0, y: 0 }, &sources);
    assert_eq!(pos, path[1]);
}

#[test]
fn vertices_are_relative_to_the_first_point() {
    let sources = vec![source(0, 0, 1000 * SCALE)];
    let origin = Vec2 { x: 100 * SCALE, y: 0 };
    let path = generate_path(origin, Vec2 { x: 0, y: 2 * SCALE }, &sources);
    let vertices = relative_vertices(&path);
    assert_eq!(vertices.len(), path.len());
    assert_eq!(vertices[0], Vec2 { x: 0, y: 0 });
    for i in 0..path.len() {
        assert_eq!(vertices[i].x, path[i].x - origin.x);
        assert_eq!(vertices[i].y, path[i].y - origin.y);
    }
}
