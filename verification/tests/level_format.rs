use orbit_core::fixed::SCALE;
use orbit_core::level::{parse_level, parse_line, parse_number, spawn_level_objects,
    LevelAssetObject};
use orbit_core::vec2::Vec2;

fn bytes(s: &str) -> Vec<u8> {
    s.as_bytes().to_vec()
}

#[test]
fn number_round_trip_on_the_grid() {
    assert_eq!(parse_number(&bytes("1.5")), Some(98304));
    assert_eq!(parse_number(&bytes("-2.25")), Some(-147456));
    assert_eq!(parse_number(&bytes("+4")), Some(4 * SCALE));
    assert_eq!(parse_number(&bytes("0")), Some(0));
    assert_eq!(parse_number(&bytes("10")), Some(10 * SCALE));
    // both f32-style edge spellings
    assert_eq!(parse_number(&bytes("1.")), Some(SCALE));
    assert_eq!(parse_number(&bytes(".5")), Some(SCALE / 2));
    // fractions truncate toward zero on the grid
    assert_eq!(parse_number(&bytes("0.00001")), Some(0));
    assert_eq!(parse_number(&bytes("-0.00001")), Some(0));
}

#[test]
fn number_rejects_malformed_fields() {
    assert_eq!(parse_number(&bytes("")), None);
    assert_eq!(parse_number(&bytes(".")), None);
    assert_eq!(parse_number(&bytes("-")), None);
    assert_eq!(parse_number(&bytes("1.2.3")), None);
    assert_eq!(parse_number(&bytes("12a")), None);
    assert_eq!(parse_number(&bytes("1e3")), None);
    // digit caps: at most twelve integer and six fraction digits
    assert_eq!(parse_number(&bytes("1234567890123")), None);
    assert_eq!(parse_number(&bytes("0.1234567")), None);
    assert_eq!(parse_number(&bytes("999999999999")), Some(0x100_0000_0000));  // saturates
}

#[test]
fn line_round_trip() {
    assert_eq!(parse_line(&bytes("Planet 1.5 -2.25 4")), Some(LevelAssetObject::Planet {
        x: 98304,
        y: -147456,
        radius: 4 * SCALE,
    }));
    // surrounding whitespace is trimmed
    assert_eq!(parse_line(&bytes("  Planet 0 0 10\r")), Some(LevelAssetObject::Planet {
        x: 0,
        y: 0,
        radius: 10 * SCALE,
    }));
}

#[test]
fn line_rejects_everything_else() {
    assert_eq!(parse_line(&bytes("")), None);
    assert_eq!(parse_line(&bytes("Planet")), None);
    assert_eq!(parse_line(&bytes("Planet 1 2")), None);
    assert_eq!(parse_line(&bytes("Planet 1 2 3 4")), None);
    assert_eq!(parse_line(&bytes("Planet  1 2 3")), None);  // double space
    assert_eq!(parse_line(&bytes("Moon 1 2 3")), None);
    assert_eq!(parse_line(&bytes("planet 1 2 3")), None);
    assert_eq!(parse_line(&bytes("Planet 1 x 3")), None);
}

#[test]
fn level_round_trip() {
    let asset = parse_level(&bytes("Planet 1.5 -2.25 4\nPlanet 0 0 10\n")).unwrap();
    assert_eq!(asset.objects.len(), 2);
    assert_eq!(asset.objects[0], LevelAssetObject::Planet {
        x: 98304,
        y: -147456,
        radius: 4 * SCALE,
    });
    assert_eq!(asset.objects[1], LevelAssetObject::Planet { x: 0, y: 0, radius: 10 * SCALE });
}

#[test]
fn level_final_newline_is_optional_and_empty_level_loads() {
    assert_eq!(parse_level(&bytes("Planet 0 0 10")).unwrap().objects.len(), 1);
    assert_eq!(parse_level(&bytes("Planet 0 0 10\n")).unwrap().objects.len(), 1);
    assert_eq!(parse_level(&bytes("")).unwrap().objects.len(), 0);
}

#[test]
fn level_is_rejected_whole_at_the_first_bad_line() {
    let err = parse_level(&bytes("Planet 0 0 10\nAsteroid 1 2 3\nPlanet 5 5 5\n"))
        .unwrap_err();
    assert_eq!(err.line, 1);
    // a blank interior line is an error too
    let err2 = parse_level(&bytes("Planet 0 0 10\n\nPlanet 5 5 5\n")).unwrap_err();
    assert_eq!(err2.line, 1);
}

#[test]
fn spawning_derives_mass_as_radius_cubed() {
    let asset = parse_level(&bytes("Planet 1.5 -2.25 4\nPlanet 0 0 10\n")).unwrap();
    let planets = spawn_level_objects(&asset).unwrap();
    assert_eq!(planets.len(), 2);
    assert_eq!(planets[0].position, Vec2 { x: 98304, y: -147456 });
    assert_eq!(planets[0].radius, 4 * SCALE);
    assert_eq!(planets[0].mass, 64 * SCALE);
    assert_eq!(planets[1].mass, 1000 * SCALE);
}

#[test]
fn spawning_rejects_a_degenerate_radius() {
    let asset = parse_level(&bytes("Planet 0 0 0\n")).unwrap();
    assert!(spawn_level_objects(&asset).is_none());
    let negative = parse_level(&bytes("Planet 0 0 -1\n")).unwrap();
    assert!(spawn_level_objects(&negative).is_none());
}
