use orbit_core::fixed::SCALE;
use orbit_core::gravity::{get_gravity_acceleration, get_total_gravity_acceleration,
    strongest_affector, GravitySource};
use orbit_core::vec2::Vec2;

fn source(x: i64, y: i64, mass: i64) -> GravitySource {
    GravitySource { position: Vec2 { x, y }, mass }
}

#[test]
fn kernel_inverse_square_value() {
    // A source of mass 1000 at distance 100 pulls with 0.5 * 1000 / 100^2
    // = 0.05 units/s^2; on the grid that is 3276 (0.05 * 65536, rounded
    // toward zero).
    let rel = Vec2 { x: 100 * SCALE, y: 0 };
    let a = get_gravity_acceleration(rel, 1000 * SCALE).unwrap();
    assert_eq!(a, Vec2 { x: 3276, y: 0 });
}

#[test]
fn kernel_points_toward_the_source() {
    let a = get_gravity_acceleration(Vec2 { x: -100 * SCALE, y: 0 }, 1000 * SCALE).unwrap();
    assert!(a.x < 0);
    assert_eq!(a.y, 0);
    let b = get_gravity_acceleration(Vec2 { x: 0, y: 3 * SCALE }, 1000 * SCALE).unwrap();
    assert_eq!(b.x, 0);
    assert!(b.y > 0);
}

#[test]
fn kernel_is_undefined_at_the_source() {
    assert!(get_gravity_acceleration(Vec2 { x: 0, y: 0 }, 1000 * SCALE).is_err());
    assert!(get_gravity_acceleration(Vec2 { x: 1, y: 0 }, 1000 * SCALE).is_ok());
}

#[test]
fn total_field_sums_and_skips_coincident_sources() {
    let point = Vec2 { x: 100 * SCALE, y: 0 };
    let with_coincident = vec![
        source(0, 0, 1000 * SCALE),
        source(100 * SCALE, 0, SCALE),  // sits exactly on the test point
    ];
    let only_far = vec![source(0, 0, 1000 * SCALE)];
    let a = get_total_gravity_acceleration(&with_coincident, point);
    let b = get_total_gravity_acceleration(&only_far, point);
    assert_eq!(a, b);
    assert_eq!(a, Vec2 { x: -3276, y: 0 });
}

#[test]
fn total_field_of_no_sources_is_zero() {
    let none: Vec<GravitySource> = Vec::new();
    assert_eq!(get_total_gravity_acceleration(&none, Vec2 { x: 5, y: 6 }), Vec2 {
        x: 0,
        y: 0,
    });
}

#[test]
fn strongest_affector_picks_the_heavier_pull() {
    let point = Vec2 { x: 0, y: 0 };
    let sources = vec![
        source(100 * SCALE, 0, 1000 * SCALE),
        source(0, 10 * SCALE, 1000 * SCALE),  // much closer, same mass
    ];
    let direction = strongest_affector(&sources, point).unwrap();
    assert_eq!(direction, Vec2 { x: 0, y: 10 * SCALE });
}

#[test]
fn strongest_affector_of_coincident_sources_is_none() {
    let point = Vec2 { x: 7, y: 8 };
    let sources = vec![source(7, 8, 1000 * SCALE)];
    assert!(strongest_affector(&sources, point).is_none());
    let empty: Vec<GravitySource> = Vec::new();
    assert!(strongest_affector(&empty, point).is_none());
}
