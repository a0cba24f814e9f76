//! 2D vectors of fixed-point coordinates, with saturating arithmetic.
//!
//! Each executable operation returns exactly what its `*_spec` companion
//! computes, so the simulator and the predictor can be compared value for
//! value in contracts and proofs.

use vstd::prelude::*;

use crate::fixed::{clip, fx_ok, sqrt_floor, tdiv, FX_LIM, SCALE};
use crate::fixed::{fx_mul, isqrt, lemma_clip_ok, lemma_sqrt_floor_is};

verus! {

/// A world-space 2D vector; coordinates are fixed-point numbers.
#[derive(Clone, Copy, Debug, PartialEq, Eq, Structural)]
pub struct Vec2 {
    pub x: i64,
    pub y: i64,
}

/// Both coordinates are well-formed fixed-point numbers.
pub open spec fn v_ok(v: Vec2) -> bool {
    fx_ok(v.x) && fx_ok(v.y)
}

pub open spec fn v_zero() -> Vec2 {
    Vec2 { x: 0, y: 0 }
}

pub open spec fn v_add_spec(a: Vec2, b: Vec2) -> Vec2 {
    Vec2 { x: clip(a.x + b.x), y: clip(a.y + b.y) }
}

pub open spec fn v_sub_spec(a: Vec2, b: Vec2) -> Vec2 {
    Vec2 { x: clip(a.x - b.x), y: clip(a.y - b.y) }
}

pub open spec fn v_neg_spec(a: Vec2) -> Vec2 {
    Vec2 { x: clip(-a.x), y: clip(-a.y) }
}

/// Scales a vector by a fixed-point factor `k`: each coordinate becomes
/// `coord * k / SCALE`, truncated toward zero, then saturated.
pub open spec fn v_scale_spec(v: Vec2, k: i64) -> Vec2 {
    Vec2 { x: clip(tdiv(v.x * k, SCALE as int)), y: clip(tdiv(v.y * k, SCALE as int)) }
}

/// Fixed-point dot product: `(a.x b.x + a.y b.y) / SCALE`, truncated, saturated.
pub open spec fn v_dot_spec(a: Vec2, b: Vec2) -> i64 {
    clip(tdiv(a.x * b.x + a.y * b.y, SCALE as int))
}

/// The squared Euclidean norm as an exact (unscaled) integer:
/// `SCALE^2` times the squared real length.
pub open spec fn v_norm_sq(v: Vec2) -> nat {
    (v.x * v.x + v.y * v.y) as nat
}

/// The fixed-point Euclidean length: `sqrt(x^2 + y^2)` rounded down on the
/// fixed-point grid.
pub open spec fn v_len_spec(v: Vec2) -> int {
    sqrt_floor(v_norm_sq(v)) as int
}

/// The unit vector along `v`, scaled by `SCALE`, or the zero vector when
/// `v` is zero: each coordinate becomes `coord * SCALE / |v|`.
pub open spec fn v_unit_spec(v: Vec2) -> Vec2 {
    if v.x == 0 && v.y == 0 {
        v_zero()
    } else {
        let d = v_len_spec(v);
        Vec2 { x: clip(tdiv(v.x * SCALE, d)), y: clip(tdiv(v.y * SCALE, d)) }
    }
}

pub fn v_add(a: Vec2, b: Vec2) -> (r: Vec2)
    ensures
        r == v_add_spec(a, b),
        v_ok(r),
{
    proof {
        lemma_clip_ok(a.x + b.x);
        lemma_clip_ok(a.y + b.y);
    }
    let x = crate::fixed::clip_wide(a.x as i128 + b.x as i128);
    let y = crate::fixed::clip_wide(a.y as i128 + b.y as i128);
    Vec2 { x, y }
}

pub fn v_sub(a: Vec2, b: Vec2) -> (r: Vec2)
    ensures
        r == v_sub_spec(a, b),
        v_ok(r),
{
    proof {
        lemma_clip_ok(a.x - b.x);
        lemma_clip_ok(a.y - b.y);
    }
    let x = crate::fixed::clip_wide(a.x as i128 - b.x as i128);
    let y = crate::fixed::clip_wide(a.y as i128 - b.y as i128);
    Vec2 { x, y }
}

pub fn v_neg(a: Vec2) -> (r: Vec2)
    ensures
        r == v_neg_spec(a),
        v_ok(r),
{
    proof {
        lemma_clip_ok(-a.x as int);
        lemma_clip_ok(-a.y as int);
    }
    let x = crate::fixed::clip_wide(-(a.x as i128));
    let y = crate::fixed::clip_wide(-(a.y as i128));
    Vec2 { x, y }
}

pub fn v_scale(v: Vec2, k: i64) -> (r: Vec2)
    ensures
        r == v_scale_spec(v, k),
        v_ok(r),
{
    let x = fx_mul(v.x, k);
    let y = fx_mul(v.y, k);
    Vec2 { x, y }
}

/// Fixed-point dot product of two well-formed vectors.
pub fn v_dot(a: Vec2, b: Vec2) -> (r: i64)
    requires
        v_ok(a),
        v_ok(b),
    ensures
        r == v_dot_spec(a, b),
        fx_ok(r),
{
    proof {
        assert(-0x2_0000_0000_0000_0000_0000 <= a.x * b.x <= 0x2_0000_0000_0000_0000_0000
            && -0x2_0000_0000_0000_0000_0000 <= a.y * b.y <= 0x2_0000_0000_0000_0000_0000)
            by (nonlinear_arith)
            requires
                -FX_LIM <= a.x <= FX_LIM,
                -FX_LIM <= a.y <= FX_LIM,
                -FX_LIM <= b.x <= FX_LIM,
                -FX_LIM <= b.y <= FX_LIM,
                FX_LIM == 0x100_0000_0000,
        ;
    }
    let s: i128 = (a.x as i128) * (b.x as i128) + (a.y as i128) * (b.y as i128);
    let q = crate::fixed::tdiv_wide(s, SCALE as i128);
    let r = crate::fixed::clip_wide(q);
    proof {
        lemma_clip_ok(q as int);
    }
    r
}

/// The squared norm of a well-formed vector, exact in an `i128`
/// (`SCALE^2` times the squared real length).
pub fn v_norm_sq_exec(v: Vec2) -> (r: i128)
    requires
        v_ok(v),
    ensures
        r as nat == v_norm_sq(v),
        0 <= r <= 0x4_0000_0000_0000_0000_0000,
{
    proof {
        assert(0 <= v.x * v.x <= 0x2_0000_0000_0000_0000_0000
            && 0 <= v.y * v.y <= 0x2_0000_0000_0000_0000_0000) by (nonlinear_arith)
            requires
                -FX_LIM <= v.x <= FX_LIM,
                -FX_LIM <= v.y <= FX_LIM,
                FX_LIM == 0x100_0000_0000,
        ;
    }
    (v.x as i128) * (v.x as i128) + (v.y as i128) * (v.y as i128)
}

/// The fixed-point length of a well-formed vector.
pub fn v_len(v: Vec2) -> (r: i64)
    requires
        v_ok(v),
    ensures
        r == v_len_spec(v),
        0 <= r <= 0x200_0000_0000,
{
    let n = v_norm_sq_exec(v);
    let r = isqrt(n as u128);
    proof {
        let root = r as nat;
        if root > 0x200_0000_0000 {
            assert(root * root > 0x4_0000_0000_0000_0000_0000) by (nonlinear_arith)
                requires
                    root > 0x200_0000_0000nat,
            ;
        }
    }
    r as i64
}

/// The unit vector along `v` scaled by `SCALE`, or zero when `v` is zero.
/// The result needs no saturation: each coordinate's magnitude is at most
/// `SCALE`.
pub fn v_unit(v: Vec2) -> (r: Vec2)
    requires
        v_ok(v),
    ensures
        r == v_unit_spec(v),
        -SCALE <= r.x <= SCALE,
        -SCALE <= r.y <= SCALE,
        v_ok(r),
{
    if v.x == 0 && v.y == 0 {
        Vec2 { x: 0, y: 0 }
    } else {
        let d = v_len(v);
        proof {
            let n = v_norm_sq(v);
            let root = sqrt_floor(n);
            assert(root * root <= n < (root + 1) * (root + 1)) by {
                choose_sqrt_witness(n);
            }
            assert(v.x * v.x + v.y * v.y >= 1 && v.x * v.x >= 0 && v.y * v.y >= 0)
                by (nonlinear_arith)
                requires
                    !(v.x == 0 && v.y == 0),
            ;
            assert(n == v.x * v.x + v.y * v.y);
            assert(d >= 1);
            // |coord| <= d, since coord^2 <= n < (d+1)^2.
            lemma_coord_le_len(v.x as int, v.y as int, d as int);
            lemma_coord_le_len(v.y as int, v.x as int, d as int);
            crate::fixed::lemma_tdiv_scale_bound(v.x as int, d as int);
            crate::fixed::lemma_tdiv_scale_bound(v.y as int, d as int);
            lemma_clip_ok(tdiv(v.x * SCALE, d as int));
            lemma_clip_ok(tdiv(v.y * SCALE, d as int));
        }
        let x = crate::fixed::clip_wide(crate::fixed::tdiv_wide(
            (v.x as i128) * (SCALE as i128), d as i128));
        let y = crate::fixed::clip_wide(crate::fixed::tdiv_wide(
            (v.y as i128) * (SCALE as i128), d as i128));
        Vec2 { x, y }
    }
}

/// Helps relate a vector's coordinate to its length: if `d` is the rounded
/// length then no coordinate magnitude exceeds `d`.
pub(crate) proof fn lemma_coord_le_len(a: int, b: int, d: int)
    requires
        d >= 0,
        a * a + b * b < (d + 1) * (d + 1),
    ensures
        -d <= a <= d,
{
    if a > d {
        assert(a * a + b * b >= (d + 1) * (d + 1)) by (nonlinear_arith)
            requires
                a >= d + 1,
                d >= 0,
        ;
    }
    if a < -d {
        assert(a * a + b * b >= (d + 1) * (d + 1)) by (nonlinear_arith)
            requires
                a <= -(d + 1),
                d >= 0,
        ;
    }
}

/// Restates the defining property of `sqrt_floor` for a given argument.
pub proof fn choose_sqrt_witness(n: nat)
    ensures
        sqrt_floor(n) * sqrt_floor(n) <= n < (sqrt_floor(n) + 1) * (sqrt_floor(n) + 1),
{
    let r = nat_sqrt_exists(n);
    lemma_sqrt_floor_is(n, r);
}

/// Every natural number has an integer square root; returns one.
proof fn nat_sqrt_exists(n: nat) -> (r: nat)
    ensures
        r * r <= n < (r + 1) * (r + 1),
    decreases n,
{
    if n == 0 {
        assert(0 * 0 <= n < (0 + 1) * (0 + 1)) by (nonlinear_arith)
            requires
                n == 0,
        ;
        0
    } else {
        let p = nat_sqrt_exists((n - 1) as nat);
        if (p + 1) * (p + 1) <= n {
            let r: nat = p + 1;
            assert(r * r <= n && n < (r + 1) * (r + 1)) by (nonlinear_arith)
                requires
                    n >= 1,
                    r == p + 1,
                    (p + 1) * (p + 1) <= n,
                    n - 1 < (p + 1) * (p + 1),
            ;
            r
        } else {
            assert(p * p <= n && n < (p + 1) * (p + 1)) by (nonlinear_arith)
                requires
                    n >= 1,
                    p * p <= n - 1,
                    !((p + 1) * (p + 1) <= n),
            ;
            p
        }
    }
}

} // verus!
