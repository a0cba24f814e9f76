use orbit_core::fixed::SCALE;
use orbit_core::input::get_input_dir;
use orbit_core::level_state::{level_step, LevelEvent, LevelState};
use orbit_core::ship::{apply_thrust, fuel_ratio, Ship};
use orbit_core::vec2::Vec2;

fn full_ship() -> Ship {
    Ship {
        position: Vec2 { x: 0, y: 0 },
        velocity: Vec2 { x: 0, y: 0 },
        radius: 0,
        fuel: 100 * SCALE,
        max_fuel: 100 * SCALE,
    }
}

#[test]
fn thrust_burns_what_it_asked_for_until_the_tank_is_dry() {
    let mut ship = full_ship();
    let right = Vec2 { x: SCALE, y: 0 };
    // 60 units requested, 60 burned: velocity gains 60 * 100
    apply_thrust(&mut ship, right, 60 * SCALE);
    assert_eq!(ship.fuel, 40 * SCALE);
    assert_eq!(ship.velocity, Vec2 { x: 6000 * SCALE, y: 0 });
    // 60 more requested, only 40 left: the burn is clamped
    apply_thrust(&mut ship, right, 60 * SCALE);
    assert_eq!(ship.fuel, 0);
    assert_eq!(ship.velocity, Vec2 { x: 10000 * SCALE, y: 0 });
    // an empty tank gives no velocity at all
    apply_thrust(&mut ship, right, 5 * SCALE);
    assert_eq!(ship.fuel, 0);
    assert_eq!(ship.velocity, Vec2 { x: 10000 * SCALE, y: 0 });
}

#[test]
fn thrust_leaves_position_and_tank_size_alone() {
    let mut ship = full_ship();
    apply_thrust(&mut ship, Vec2 { x: 0, y: -SCALE }, 3 * SCALE);
    assert_eq!(ship.position, Vec2 { x: 0, y: 0 });
    assert_eq!(ship.max_fuel, 100 * SCALE);
    assert_eq!(ship.fuel, 97 * SCALE);
    assert_eq!(ship.velocity, Vec2 { x: 0, y: -300 * SCALE });
}

#[test]
fn fuel_ratio_spans_the_unit_interval() {
    let mut ship = full_ship();
    assert_eq!(fuel_ratio(&ship), SCALE);
    ship.fuel = 25 * SCALE;
    assert_eq!(fuel_ratio(&ship), SCALE / 4);
    ship.fuel = 0;
    assert_eq!(fuel_ratio(&ship), 0);
}

#[test]
fn default_ship_is_full_and_at_rest() {
    let ship = Ship::default();
    assert_eq!(ship.fuel, 100 * SCALE);
    assert_eq!(ship.max_fuel, 100 * SCALE);
    assert_eq!(ship.velocity, Vec2 { x: 0, y: 0 });
    assert_eq!(ship.radius, 0);
}

#[test]
fn input_keys_map_to_unit_directions() {
    assert_eq!(get_input_dir(false, false, false, false), Vec2 { x: 0, y: 0 });
    assert_eq!(get_input_dir(false, false, false, true), Vec2 { x: SCALE, y: 0 });
    assert_eq!(get_input_dir(false, true, false, false), Vec2 { x: 0, y: -SCALE });
    // opposite keys cancel
    assert_eq!(get_input_dir(true, true, true, false), Vec2 { x: -SCALE, y: 0 });
    // the diagonal is normalized onto the grid
    assert_eq!(get_input_dir(true, false, false, true), Vec2 { x: 46341, y: 46341 });
}

#[test]
fn level_loading_walks_its_lifecycle() {
    let s0 = LevelState::Requested;
    let s1 = level_step(s0, LevelEvent::AssetLoaded { objects: 2 });
    assert_eq!(s1, LevelState::Spawned { objects: 2, attached: 0 });
    let s2 = level_step(s1, LevelEvent::ObjectAttached);
    assert_eq!(s2, LevelState::Spawned { objects: 2, attached: 1 });
    let s3 = level_step(s2, LevelEvent::ObjectAttached);
    assert_eq!(s3, LevelState::ObjectsAttached { objects: 2 });
    // a finished level ignores further events
    assert_eq!(level_step(s3, LevelEvent::ObjectAttached), s3);
    // an empty level is ready at once
    assert_eq!(level_step(LevelState::Requested, LevelEvent::AssetLoaded { objects: 0 }),
        LevelState::ObjectsAttached { objects: 0 });
}
