//! The gravity kernel: acceleration exerted on a test point by point
//! masses. Both the fixed-step simulator and the trajectory predictor call
//! exactly these functions, so the two provably agree on the field.
//!
//! The law is inverse-square: for a source of mass `m` at relative position
//! `r` (from the test point toward the source) with distance `d = |r|`, the
//! acceleration is `0.5 * r * m / d^3`, directed toward the source. A
//! source coincident with the test point (`d = 0`) contributes nothing.

use vstd::prelude::*;

use crate::fixed::{clip, lemma_clip_ok, tdiv, FX_LIM, SCALE};
use crate::vec2::{choose_sqrt_witness, v_add, v_add_spec, v_len, v_len_spec, v_ok, v_sub,
    v_sub_spec, v_zero, Vec2};

verus! {

/// An entity contributing to the gravity field: a position and a mass.
#[derive(Clone, Copy, Debug, PartialEq, Eq, Structural)]
pub struct GravitySource {
    pub position: Vec2,
    pub mass: i64,
}

/// A well-formed source: coordinates in range, mass nonnegative and in range.
pub open spec fn source_ok(s: GravitySource) -> bool {
    v_ok(s.position) && 0 <= s.mass <= FX_LIM
}

pub open spec fn sources_ok(sources: Seq<GravitySource>) -> bool {
    forall|i: int| 0 <= i < sources.len() ==> source_ok(#[trigger] sources[i])
}

/// The acceleration from one source at relative position `rel` (pointing
/// from the test point toward the source), for `rel != 0`:
/// `0.5 * rel * mass / d^3` on the fixed-point grid, coordinate by
/// coordinate, truncated toward zero then saturated.
pub open spec fn gravity_accel_spec(rel: Vec2, mass: i64) -> Vec2 {
    let d = v_len_spec(rel);
    Vec2 {
        x: clip(tdiv(rel.x * mass * SCALE * SCALE, 2 * d * d * d)),
        y: clip(tdiv(rel.y * mass * SCALE * SCALE, 2 * d * d * d)),
    }
}

/// The gravity kernel. Returns `Err(())` exactly when the test point
/// coincides with the source (`rel == 0`); otherwise the acceleration
/// `0.5 * rel * mass / |rel|^3`, exact on the fixed-point grid.
pub fn get_gravity_acceleration(rel: Vec2, mass: i64) -> (r: Result<Vec2, ()>)
    requires
        v_ok(rel),
        0 <= mass <= FX_LIM,
    ensures
        r is Err <==> rel == v_zero(),
        r matches Ok(a) ==> a == gravity_accel_spec(rel, mass) && v_ok(a),
{
    if rel.x == 0 && rel.y == 0 {
        assert(rel == v_zero());
        return Err(());
    }
    let d = v_len(rel);
    proof {
        let n = crate::vec2::v_norm_sq(rel);
        choose_sqrt_witness(n);
        assert(rel.x * rel.x + rel.y * rel.y >= 1 && rel.x * rel.x >= 0 && rel.y * rel.y >= 0)
            by (nonlinear_arith)
            requires
                !(rel.x == 0 && rel.y == 0),
        ;
        assert(n == rel.x * rel.x + rel.y * rel.y);
        let root = crate::fixed::sqrt_floor(n);
        assert(root >= 1) by (nonlinear_arith)
            requires
                root * root <= n,
                n < (root + 1) * (root + 1),
                n >= 1,
        ;
        assert(d >= 1);
        assert(2 <= 2 * d * d <= 0x8_0000_0000_0000_0000_0000
            && 2 <= 2 * d * d * d <= 0x1000_0000_0000_0000_0000_0000_0000_0000)
            by (nonlinear_arith)
            requires
                1 <= d <= 0x200_0000_0000,
        ;
        assert(-0x1_0000_0000_0000_0000_0000 <= rel.x * mass <= 0x1_0000_0000_0000_0000_0000
            && -0x1_0000_0000_0000_0000_0000 <= rel.y * mass <= 0x1_0000_0000_0000_0000_0000)
            by (nonlinear_arith)
            requires
                -FX_LIM <= rel.x <= FX_LIM,
                -FX_LIM <= rel.y <= FX_LIM,
                0 <= mass <= FX_LIM,
                FX_LIM == 0x100_0000_0000,
        ;
    }
    let den: i128 = 2 * (d as i128) * (d as i128) * (d as i128);
    let num_x: i128 = (rel.x as i128) * (mass as i128) * (SCALE as i128) * (SCALE as i128);
    let num_y: i128 = (rel.y as i128) * (mass as i128) * (SCALE as i128) * (SCALE as i128);
    let qx = crate::fixed::tdiv_wide(num_x, den);
    let qy = crate::fixed::tdiv_wide(num_y, den);
    let ax = crate::fixed::clip_wide(qx);
    let ay = crate::fixed::clip_wide(qy);
    proof {
        lemma_clip_ok(qx as int);
        lemma_clip_ok(qy as int);
    }
    Ok(Vec2 { x: ax, y: ay })
}

/// The total acceleration at `point` from a set of sources, summed in
/// order; a source coincident with `point` is skipped.
pub open spec fn total_gravity_spec(sources: Seq<GravitySource>, point: Vec2) -> Vec2
    decreases sources.len(),
{
    if sources.len() == 0 {
        v_zero()
    } else {
        let prev = total_gravity_spec(sources.drop_last(), point);
        let rel = v_sub_spec(sources.last().position, point);
        if rel == v_zero() {
            prev
        } else {
            v_add_spec(prev, gravity_accel_spec(rel, sources.last().mass))
        }
    }
}

/// Sums the gravity field over all sources at `point`, skipping any source
/// coincident with `point`.
pub fn get_total_gravity_acceleration(sources: &Vec<GravitySource>, point: Vec2) -> (r: Vec2)
    requires
        sources_ok(sources@),
        v_ok(point),
    ensures
        r == total_gravity_spec(sources@, point),
        v_ok(r),
{
    let mut acceleration = Vec2 { x: 0, y: 0 };
    assert(sources@.take(0) =~= Seq::<GravitySource>::empty());
    for i in 0..sources.len()
        invariant
            sources_ok(sources@),
            v_ok(point),
            v_ok(acceleration),
            acceleration == total_gravity_spec(sources@.take(i as int), point),
    {
        let source = sources[i];
        let rel = v_sub(source.position, point);
        match get_gravity_acceleration(rel, source.mass) {
            Ok(change) => {
                acceleration = v_add(acceleration, change);
            },
            Err(()) => {},
        }
        proof {
            assert(sources@.take(i + 1).drop_last() =~= sources@.take(i as int));
            assert(sources@.take(i + 1).last() == sources@[i as int]);
        }
    }
    proof {
        assert(sources@.take(sources@.len() as int) =~= sources@);
    }
    acceleration
}

/// How strongly a source pulls at `point`: the squared magnitude of its
/// acceleration contribution (zero weight never competes: a coincident
/// source is not an affector at all).
pub open spec fn affector_strength(source: GravitySource, point: Vec2) -> int {
    let a = gravity_accel_spec(v_sub_spec(source.position, point), source.mass);
    a.x * a.x + a.y * a.y
}

/// Whether a source pulls at `point` at all: it is not coincident with it.
pub open spec fn affector_active(source: GravitySource, point: Vec2) -> bool {
    v_sub_spec(source.position, point) != v_zero()
}

/// The direction from `point` toward the source whose pull at `point` is
/// strongest, or `None` when every source coincides with `point`. Among
/// equally strong sources the last one wins.
pub fn strongest_affector(sources: &Vec<GravitySource>, point: Vec2) -> (r: Option<Vec2>)
    requires
        sources_ok(sources@),
        v_ok(point),
    ensures
        r is Some <==> exists|i: int| 0 <= i < sources@.len() && affector_active(
            #[trigger] sources@[i], point),
        r matches Some(direction) ==> exists|i: int|
            {
                &&& 0 <= i < sources@.len()
                &&& affector_active(#[trigger] sources@[i], point)
                &&& direction == v_sub_spec(sources@[i].position, point)
                &&& forall|j: int| 0 <= j < sources@.len() && affector_active(
                    #[trigger] sources@[j], point) ==> affector_strength(sources@[j], point)
                    <= affector_strength(sources@[i], point)
                &&& forall|j: int| i < j < sources@.len() && affector_active(
                    #[trigger] sources@[j], point) ==> affector_strength(sources@[j], point)
                    < affector_strength(sources@[i], point)
            },
{
    let mut best: Option<Vec2> = None;
    let mut best_strength: i128 = 0;
    let ghost mut best_idx: int = 0;
    for i in 0..sources.len()
        invariant
            sources_ok(sources@),
            v_ok(point),
            best is None ==> forall|j: int| 0 <= j < i ==> !affector_active(
                #[trigger] sources@[j], point),
            best matches Some(direction) ==> {
                &&& 0 <= best_idx < i
                &&& affector_active(sources@[best_idx], point)
                &&& direction == v_sub_spec(sources@[best_idx].position, point)
                &&& best_strength == affector_strength(sources@[best_idx], point)
                &&& forall|j: int| 0 <= j < i && affector_active(#[trigger] sources@[j],
                    point) ==> affector_strength(sources@[j], point) <= best_strength
                &&& forall|j: int| best_idx < j < i && affector_active(
                    #[trigger] sources@[j], point) ==> affector_strength(sources@[j], point)
                    < best_strength
            },
    {
        let source = sources[i];
        let rel = v_sub(source.position, point);
        match get_gravity_acceleration(rel, source.mass) {
            Ok(accel) => {
                let strength = crate::vec2::v_norm_sq_exec(accel);
                proof {
                    assert(accel.x * accel.x >= 0 && accel.y * accel.y >= 0)
                        by (nonlinear_arith);
                    assert(strength == affector_strength(sources@[i as int], point));
                    assert(affector_active(sources@[i as int], point));
                }
                if best.is_none() || strength >= best_strength {
                    best = Some(rel);
                    best_strength = strength;
                    proof {
                        best_idx = i as int;
                    }
                }
            },
            Err(()) => {
                proof {
                    assert(!affector_active(sources@[i as int], point));
                }
            },
        }
    }
    best
}

/// Kernel symmetry: the acceleration points along the relative position —
/// each coordinate of the pull keeps the sign of the matching coordinate
/// of `rel`, so the field draws the test point toward the source. (Its
/// magnitude is pinned exactly by `gravity_accel_spec`.)
pub proof fn lemma_gravity_along_rel(rel: Vec2, mass: i64)
    requires
        v_ok(rel),
        0 <= mass <= FX_LIM,
        rel != v_zero(),
    ensures
        rel.x >= 0 ==> gravity_accel_spec(rel, mass).x >= 0,
        rel.x <= 0 ==> gravity_accel_spec(rel, mass).x <= 0,
        rel.y >= 0 ==> gravity_accel_spec(rel, mass).y >= 0,
        rel.y <= 0 ==> gravity_accel_spec(rel, mass).y <= 0,
{
    let n = crate::vec2::v_norm_sq(rel);
    choose_sqrt_witness(n);
    assert(rel.x * rel.x + rel.y * rel.y >= 1 && rel.x * rel.x >= 0 && rel.y * rel.y >= 0)
        by (nonlinear_arith)
        requires
            !(rel.x == 0 && rel.y == 0),
    ;
    assert(n == rel.x * rel.x + rel.y * rel.y);
    let root = crate::fixed::sqrt_floor(n);
    assert(root >= 1) by (nonlinear_arith)
        requires
            root * root <= n,
            n < (root + 1) * (root + 1),
            n >= 1,
    ;
    let d = v_len_spec(rel);
    assert(2 * d * d * d >= 2) by (nonlinear_arith)
        requires
            d >= 1,
    ;
    assert(rel.x >= 0 ==> rel.x * mass * SCALE * SCALE >= 0) by (nonlinear_arith)
        requires
            mass >= 0,
            SCALE > 0,
    ;
    assert(rel.x <= 0 ==> rel.x * mass * SCALE * SCALE <= 0) by (nonlinear_arith)
        requires
            mass >= 0,
            SCALE > 0,
    ;
    assert(rel.y >= 0 ==> rel.y * mass * SCALE * SCALE >= 0) by (nonlinear_arith)
        requires
            mass >= 0,
            SCALE > 0,
    ;
    assert(rel.y <= 0 ==> rel.y * mass * SCALE * SCALE <= 0) by (nonlinear_arith)
        requires
            mass >= 0,
            SCALE > 0,
    ;
    crate::fixed::lemma_tdiv_sign(rel.x * mass * SCALE * SCALE, 2 * d * d * d);
    crate::fixed::lemma_tdiv_sign(rel.y * mass * SCALE * SCALE, 2 * d * d * d);
}

} // verus!
