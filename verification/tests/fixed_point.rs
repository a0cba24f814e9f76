use orbit_core::fixed::{fx_mul, isqrt, FX_LIM, SCALE};
use orbit_core::vec2::{v_add, v_dot, v_len, v_neg, v_norm_sq_exec, v_scale, v_sub, v_unit,
    Vec2};

#[test]
fn scale_is_one_world_unit() {
    assert_eq!(SCALE, 65536);
}

#[test]
fn fx_mul_exact_products() {
    // 1.5 * 2 = 3
    assert_eq!(fx_mul(3 * SCALE / 2, 2 * SCALE), 3 * SCALE);
    // 10 * 10 * 10 = 1000
    assert_eq!(fx_mul(fx_mul(10 * SCALE, 10 * SCALE), 10 * SCALE), 1000 * SCALE);
    // truncation goes toward zero on both signs
    assert_eq!(fx_mul(1, 1), 0);
    assert_eq!(fx_mul(-1, 1), 0);
    // 0.5 * -3 = -1.5
    assert_eq!(fx_mul(SCALE / 2, -3 * SCALE), -3 * SCALE / 2);
}

#[test]
fn fx_mul_saturates_at_the_limit() {
    assert_eq!(fx_mul(FX_LIM, FX_LIM), FX_LIM);
    assert_eq!(fx_mul(-FX_LIM, FX_LIM), -FX_LIM);
}

#[test]
fn isqrt_exact_roots() {
    assert_eq!(isqrt(0), 0);
    assert_eq!(isqrt(1), 1);
    assert_eq!(isqrt(3), 1);
    assert_eq!(isqrt(4), 2);
    assert_eq!(isqrt(8589934592), 92681);
    let big: u128 = (1u128 << 41) * (1u128 << 41);
    assert_eq!(isqrt(big), 1u64 << 41);
    assert_eq!(isqrt(big - 1), (1u64 << 41) - 1);
}

#[test]
fn vector_arithmetic_is_exact() {
    let a = Vec2 { x: 3 * SCALE, y: -SCALE };
    let b = Vec2 { x: SCALE, y: 4 * SCALE };
    assert_eq!(v_add(a, b), Vec2 { x: 4 * SCALE, y: 3 * SCALE });
    assert_eq!(v_sub(a, b), Vec2 { x: 2 * SCALE, y: -5 * SCALE });
    assert_eq!(v_neg(a), Vec2 { x: -3 * SCALE, y: SCALE });
    // (3, -1) * 0.5 = (1.5, -0.5)
    assert_eq!(v_scale(a, SCALE / 2), Vec2 { x: 3 * SCALE / 2, y: -SCALE / 2 });
    // (3, -1) . (1, 4) = -1
    assert_eq!(v_dot(a, b), -SCALE);
}

#[test]
fn length_and_norm() {
    let v = Vec2 { x: 3 * SCALE, y: 4 * SCALE };
    assert_eq!(v_len(v), 5 * SCALE);
    assert_eq!(v_norm_sq_exec(v), 25i128 * (SCALE as i128) * (SCALE as i128));
}

#[test]
fn unit_vector_along_axes_and_diagonal() {
    assert_eq!(v_unit(Vec2 { x: 7 * SCALE, y: 0 }), Vec2 { x: SCALE, y: 0 });
    assert_eq!(v_unit(Vec2 { x: 0, y: -2 * SCALE }), Vec2 { x: 0, y: -SCALE });
    assert_eq!(v_unit(Vec2 { x: 0, y: 0 }), Vec2 { x: 0, y: 0 });
    // the diagonal unit vector rounds down on the grid
    assert_eq!(v_unit(Vec2 { x: SCALE, y: SCALE }), Vec2 { x: 46341, y: 46341 });
}
