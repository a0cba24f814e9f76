//! Collision detection and resolution between the ship's bounding circle
//! and planet disks.
//!
//! Detection runs after velocity integration: it emits one record per
//! overlapping planet, in planet order. Resolution replays the records in
//! emission order, projecting the ship out to the planet surface along
//! the contact normal and cancelling the velocity component directed into
//! the planet while preserving the tangential component.

use vstd::prelude::*;

use crate::fixed::{tdiv, FX_LIM, SCALE};
use crate::planet::{planet_ok, planets_ok, Planet};
use crate::ship::{ship_ok, Ship};
use crate::vec2::{v_add, v_add_spec, v_dot, v_dot_spec, v_neg, v_neg_spec, v_norm_sq, v_ok,
    v_scale, v_scale_spec, v_sub, v_sub_spec, v_unit, v_unit_spec, v_zero, Vec2};

verus! {

/// One detected contact: the outward normal at the contact (a unit vector
/// scaled by `SCALE`, or zero for the degenerate centre-on-centre case)
/// and the contact point on the collider's surface.
#[derive(Clone, Copy, Debug, PartialEq, Eq, Structural)]
pub struct Collision {
    pub normal: Vec2,
    pub point: Vec2,
}

/// A record whose vectors are in range (detection only emits such).
pub open spec fn collision_ok(c: Collision) -> bool {
    v_ok(c.normal) && v_ok(c.point)
}

/// Whether a body at `position` with bounding radius `radius` overlaps
/// the planet's disk: centre distance at most the radii's sum.
pub open spec fn collides(planet: Planet, position: Vec2, radius: i64) -> bool {
    let rel = v_sub_spec(position, planet.position);
    let min_d = radius + planet.radius;
    v_norm_sq(rel) <= min_d * min_d
}

/// The record detection emits for an overlapping planet: the normal
/// points from the planet's centre toward the body (zero if coincident),
/// the contact point sits on the planet's surface along that normal.
pub open spec fn collision_record(planet: Planet, position: Vec2) -> Collision {
    let normal = v_unit_spec(v_sub_spec(position, planet.position));
    Collision {
        normal,
        point: v_add_spec(planet.position, v_scale_spec(normal, planet.radius)),
    }
}

/// All records for a body against a set of planets, in planet order.
pub open spec fn detect_spec(planets: Seq<Planet>, position: Vec2, radius: i64) -> Seq<
    Collision,
>
    decreases planets.len(),
{
    if planets.len() == 0 {
        Seq::empty()
    } else {
        let prev = detect_spec(planets.drop_last(), position, radius);
        if collides(planets.last(), position, radius) {
            prev.push(collision_record(planets.last(), position))
        } else {
            prev
        }
    }
}

/// Emits one collision record per planet whose disk overlaps the body's
/// bounding circle, in planet order.
pub fn collision_detection(planets: &Vec<Planet>, position: Vec2, radius: i64) -> (r: Vec<
    Collision,
>)
    requires
        planets_ok(planets@),
        v_ok(position),
        0 <= radius <= FX_LIM,
    ensures
        r@ == detect_spec(planets@, position, radius),
        forall|i: int| 0 <= i < r@.len() ==> collision_ok(#[trigger] r@[i]),
{
    let mut records: Vec<Collision> = Vec::new();
    assert(planets@.take(0) =~= Seq::<Planet>::empty());
    for i in 0..planets.len()
        invariant
            planets_ok(planets@),
            v_ok(position),
            0 <= radius <= FX_LIM,
            records@ == detect_spec(planets@.take(i as int), position, radius),
            forall|j: int| 0 <= j < records@.len() ==> collision_ok(#[trigger] records@[j]),
    {
        let planet = planets[i];
        let rel = v_sub(position, planet.position);
        let distance_squared = crate::vec2::v_norm_sq_exec(rel);
        let min_distance = radius + planet.radius;
        proof {
            assert(0 <= min_distance * min_distance <= 0x4_0000_0000_0000_0000_0000)
                by (nonlinear_arith)
                requires
                    0 <= min_distance <= 0x200_0000_0000,
            ;
        }
        let min_distance_squared = (min_distance as i128) * (min_distance as i128);
        if distance_squared <= min_distance_squared {
            let normal = v_unit(rel);
            let point = v_add(planet.position, v_scale(normal, planet.radius));
            records.push(Collision { normal, point });
        }
        proof {
            assert(planets@.take(i + 1).drop_last() =~= planets@.take(i as int));
            assert(planets@.take(i + 1).last() == planets@[i as int]);
        }
    }
    proof {
        assert(planets@.take(planets@.len() as int) =~= planets@);
    }
    records
}

/// The ship after one record is resolved: repositioned to the contact
/// point plus its own radius along the outward normal, with the inward
/// velocity component removed.
pub open spec fn resolve_one_spec(ship: Ship, c: Collision) -> Ship {
    let toward = v_dot_spec(ship.velocity, v_neg_spec(c.normal));
    let inward = if toward > 0 {
        toward
    } else {
        0
    };
    Ship {
        position: v_add_spec(c.point, v_scale_spec(c.normal, ship.radius)),
        velocity: v_add_spec(ship.velocity, v_scale_spec(c.normal, inward)),
        ..ship
    }
}

/// The ship after a whole list of records is resolved, in emission order.
pub open spec fn resolve_all_spec(ship: Ship, records: Seq<Collision>) -> Ship
    decreases records.len(),
{
    if records.len() == 0 {
        ship
    } else {
        resolve_one_spec(resolve_all_spec(ship, records.drop_last()), records.last())
    }
}

/// Replays the detected collisions in emission order against the ship.
pub fn collision_resolution(ship: &mut Ship, records: &Vec<Collision>)
    requires
        ship_ok(*old(ship)),
        forall|i: int| 0 <= i < records@.len() ==> collision_ok(#[trigger] records@[i]),
    ensures
        *final(ship) == resolve_all_spec(*old(ship), records@),
        final(ship).fuel == old(ship).fuel,
        final(ship).max_fuel == old(ship).max_fuel,
        final(ship).radius == old(ship).radius,
        ship_ok(*final(ship)),
{
    assert(records@.take(0) =~= Seq::<Collision>::empty());
    for i in 0..records.len()
        invariant
            forall|j: int| 0 <= j < records@.len() ==> collision_ok(#[trigger] records@[j]),
            *ship == resolve_all_spec(*old(ship), records@.take(i as int)),
            ship_ok(*ship),
            ship.fuel == old(ship).fuel,
            ship.max_fuel == old(ship).max_fuel,
            ship.radius == old(ship).radius,
    {
        let record = records[i];
        ship.position = v_add(record.point, v_scale(record.normal, ship.radius));
        let toward = v_dot(ship.velocity, v_neg(record.normal));
        let inward = if toward > 0 {
            toward
        } else {
            0
        };
        ship.velocity = v_add(ship.velocity, v_scale(record.normal, inward));
        proof {
            assert(records@.take(i + 1).drop_last() =~= records@.take(i as int));
            assert(records@.take(i + 1).last() == records@[i as int]);
        }
    }
    proof {
        assert(records@.take(records@.len() as int) =~= records@);
    }
}

/// The speed at which the ship moves into the collider: the velocity's
/// component along the inward normal, clamped at zero.
pub open spec fn inward_speed(ship: Ship, c: Collision) -> i64 {
    let toward = v_dot_spec(ship.velocity, v_neg_spec(c.normal));
    if toward > 0 {
        toward
    } else {
        0
    }
}

/// A ship already separating from the collider (velocity not directed
/// into it) keeps its velocity unchanged through resolution: the response
/// only ever removes inward motion.
pub proof fn lemma_resolution_keeps_separating_velocity(ship: Ship, c: Collision)
    requires
        ship_ok(ship),
        collision_ok(c),
        ship.velocity.x * c.normal.x + ship.velocity.y * c.normal.y >= 0,
    ensures
        resolve_one_spec(ship, c).velocity == ship.velocity,
{
    let v = ship.velocity;
    let n = c.normal;
    let m = v_neg_spec(n);
    assert(m.x == -n.x && m.y == -n.y);
    assert(v.x * m.x + v.y * m.y == -(v.x * n.x + v.y * n.y)) by (nonlinear_arith)
        requires
            m.x == -n.x,
            m.y == -n.y,
    ;
    crate::fixed::lemma_tdiv_sign(v.x * m.x + v.y * m.y, SCALE as int);
    assert(inward_speed(ship, c) == 0);
    assert(n.x * 0 == 0 && n.y * 0 == 0) by (nonlinear_arith);
    crate::fixed::lemma_tdiv_sign(0, SCALE as int);
    assert(v_scale_spec(n, 0) == crate::vec2::v_zero());
    assert(resolve_one_spec(ship, c).velocity == v);
}

/// Resolution never adds inward velocity: the component of the velocity
/// along the outward normal can only grow. Stated for responses whose
/// velocity update stays inside the well-formed range.
pub proof fn lemma_resolution_pushes_outward(ship: Ship, c: Collision)
    requires
        ship_ok(ship),
        collision_ok(c),
        -FX_LIM <= ship.velocity.x + v_scale_spec(c.normal, inward_speed(ship, c)).x
            <= FX_LIM,
        -FX_LIM <= ship.velocity.y + v_scale_spec(c.normal, inward_speed(ship, c)).y
            <= FX_LIM,
    ensures
        resolve_one_spec(ship, c).velocity.x * c.normal.x + resolve_one_spec(ship,
            c).velocity.y * c.normal.y >= ship.velocity.x * c.normal.x + ship.velocity.y
            * c.normal.y,
{
    let v = ship.velocity;
    let n = c.normal;
    let s = inward_speed(ship, c);
    let e = v_scale_spec(n, s);
    assert(s >= 0);
    assert(n.x >= 0 ==> n.x * s >= 0) by (nonlinear_arith)
        requires
            s >= 0,
    ;
    assert(n.x <= 0 ==> n.x * s <= 0) by (nonlinear_arith)
        requires
            s >= 0,
    ;
    assert(n.y >= 0 ==> n.y * s >= 0) by (nonlinear_arith)
        requires
            s >= 0,
    ;
    assert(n.y <= 0 ==> n.y * s <= 0) by (nonlinear_arith)
        requires
            s >= 0,
    ;
    crate::fixed::lemma_tdiv_sign(n.x * s, SCALE as int);
    crate::fixed::lemma_tdiv_sign(n.y * s, SCALE as int);
    assert(e.x * n.x >= 0 && e.y * n.y >= 0) by (nonlinear_arith)
        requires
            n.x >= 0 ==> e.x >= 0,
            n.x <= 0 ==> e.x <= 0,
            n.y >= 0 ==> e.y >= 0,
            n.y <= 0 ==> e.y <= 0,
    ;
    let v2 = resolve_one_spec(ship, c).velocity;
    assert(v2.x == v.x + e.x && v2.y == v.y + e.y);
    assert(v2.x * n.x + v2.y * n.y == v.x * n.x + v.y * n.y + e.x * n.x + e.y * n.y)
        by (nonlinear_arith)
        requires
            v2.x == v.x + e.x,
            v2.y == v.y + e.y,
    ;
}

/// Tangential velocity preservation: across resolution the velocity's
/// component tangent to the contact normal moves by less than two grid
/// units of the (scale-squared) tangential dot — only the normal
/// component is touched, up to fixed-point rounding. Stated for unit-like
/// normals (as detection emits) and responses whose velocity update stays
/// inside the well-formed range.
pub proof fn lemma_tangential_velocity_preserved(ship: Ship, c: Collision)
    requires
        ship_ok(ship),
        collision_ok(c),
        -SCALE <= c.normal.x <= SCALE,
        -SCALE <= c.normal.y <= SCALE,
        -FX_LIM <= ship.velocity.x + v_scale_spec(c.normal, inward_speed(ship, c)).x
            <= FX_LIM,
        -FX_LIM <= ship.velocity.y + v_scale_spec(c.normal, inward_speed(ship, c)).y
            <= FX_LIM,
    ensures
        -2 * SCALE < (resolve_one_spec(ship, c).velocity.x * (-c.normal.y)
            + resolve_one_spec(ship, c).velocity.y * c.normal.x) - (ship.velocity.x
            * (-c.normal.y) + ship.velocity.y * c.normal.x) < 2 * SCALE,
{
    let v = ship.velocity;
    let n = c.normal;
    let s = inward_speed(ship, c);
    assert(0 <= s <= FX_LIM);
    // The scaled update needs no saturation of its own: |n.x * s / SCALE|
    // is at most FX_LIM.
    assert(-SCALE * FX_LIM <= n.x * s <= SCALE * FX_LIM
        && -SCALE * FX_LIM <= n.y * s <= SCALE * FX_LIM) by (nonlinear_arith)
        requires
            -SCALE <= n.x <= SCALE,
            -SCALE <= n.y <= SCALE,
            0 <= s <= FX_LIM,
    ;
    assert(SCALE * FX_LIM == FX_LIM * SCALE) by (nonlinear_arith);
    crate::fixed::lemma_tdiv_ordered(n.x * s, FX_LIM * SCALE, SCALE as int);
    crate::fixed::lemma_tdiv_ordered(-(FX_LIM * SCALE), n.x * s, SCALE as int);
    crate::fixed::lemma_tdiv_ordered(n.y * s, FX_LIM * SCALE, SCALE as int);
    crate::fixed::lemma_tdiv_ordered(-(FX_LIM * SCALE), n.y * s, SCALE as int);
    vstd::arithmetic::div_mod::lemma_div_multiples_vanish(FX_LIM as int, SCALE as int);
    assert(tdiv(FX_LIM * SCALE, SCALE as int) == FX_LIM) by {
        assert(FX_LIM * SCALE == SCALE * FX_LIM) by (nonlinear_arith);
        crate::fixed::lemma_tdiv_sign(SCALE * FX_LIM, SCALE as int);
    }
    crate::fixed::lemma_tdiv_sign(FX_LIM * SCALE, SCALE as int);
    let qx = tdiv(n.x * s, SCALE as int);
    let qy = tdiv(n.y * s, SCALE as int);
    assert(-FX_LIM <= qx <= FX_LIM && -FX_LIM <= qy <= FX_LIM);
    let e = v_scale_spec(n, s);
    assert(e.x == qx && e.y == qy);
    crate::fixed::lemma_tdiv_rem(n.x * s, SCALE as int);
    crate::fixed::lemma_tdiv_rem(n.y * s, SCALE as int);
    let rx = n.x * s - qx * SCALE;
    let ry = n.y * s - qy * SCALE;
    let v2 = resolve_one_spec(ship, c).velocity;
    assert(v2.x == v.x + e.x && v2.y == v.y + e.y);
    let before = v.x * (-n.y) + v.y * n.x;
    let after = v2.x * (-n.y) + v2.y * n.x;
    assert((after - before) * SCALE == rx * n.y - ry * n.x) by (nonlinear_arith)
        requires
            after == (v.x + qx) * (-n.y) + (v.y + qy) * n.x,
            before == v.x * (-n.y) + v.y * n.x,
            qx * SCALE == n.x * s - rx,
            qy * SCALE == n.y * s - ry,
    ;
    assert(-2 * SCALE * SCALE < rx * n.y - ry * n.x < 2 * SCALE * SCALE)
        by (nonlinear_arith)
        requires
            -SCALE < rx < SCALE,
            -SCALE < ry < SCALE,
            -SCALE <= n.x <= SCALE,
            -SCALE <= n.y <= SCALE,
    ;
    assert(-2 * SCALE < after - before < 2 * SCALE) by (nonlinear_arith)
        requires
            -2 * SCALE * SCALE < (after - before) * SCALE < 2 * SCALE * SCALE,
            SCALE == 65536,
    ;
}

/// Collision non-penetration: resolving a non-degenerate contact places
/// the ship's disk outside the planet's, up to a grid slack of a few
/// units (`4 * rsum / SCALE + 9` raw grid units, about one part in ten
/// thousand of the radii's sum): the resolved centre distance squared is
/// at least `(rsum - slack)^2`. Stated away from the saturation boundary
/// (positions within a quarter of the range, radii summing to at most a
/// quarter of it).
#[verifier::rlimit(60)]
pub proof fn lemma_collision_non_penetration(ship: Ship, planet: Planet)
    requires
        ship_ok(ship),
        planet_ok(planet),
        v_sub_spec(ship.position, planet.position) != v_zero(),
        -0x40_0000_0000 <= ship.position.x <= 0x40_0000_0000,
        -0x40_0000_0000 <= ship.position.y <= 0x40_0000_0000,
        -0x40_0000_0000 <= planet.position.x <= 0x40_0000_0000,
        -0x40_0000_0000 <= planet.position.y <= 0x40_0000_0000,
        16 <= ship.radius + planet.radius <= 0x40_0000_0000,
    ensures
        ({
            let resolved = resolve_one_spec(ship, collision_record(planet, ship.position));
            let dx = resolved.position.x - planet.position.x;
            let dy = resolved.position.y - planet.position.y;
            let rsum = ship.radius + planet.radius;
            let slack = tdiv(4 * rsum, SCALE as int) + 9;
            dx * dx + dy * dy >= (rsum - slack) * (rsum - slack)
        }),
{
    let kx = planet.position.x as int;
    let ky = planet.position.y as int;
    let rel = v_sub_spec(ship.position, planet.position);
    let x = rel.x as int;
    let y = rel.y as int;
    assert(x == ship.position.x - planet.position.x && y == ship.position.y
        - planet.position.y);

    // The distance and the unit normal.
    let nsq = crate::vec2::v_norm_sq(rel);
    crate::vec2::choose_sqrt_witness(nsq);
    assert(x * x + y * y >= 1 && x * x >= 0 && y * y >= 0) by (nonlinear_arith)
        requires
            !(x == 0 && y == 0),
    ;
    assert(nsq == x * x + y * y);
    let d = crate::fixed::sqrt_floor(nsq) as int;
    assert(d >= 1) by (nonlinear_arith)
        requires
            d * d <= nsq,
            nsq < (d + 1) * (d + 1),
            nsq >= 1,
    ;
    assert(x * x + y * y >= d * d);
    crate::vec2::lemma_coord_le_len(x, y, d);
    crate::vec2::lemma_coord_le_len(y, x, d);
    crate::fixed::lemma_tdiv_scale_bound(x, d);
    crate::fixed::lemma_tdiv_scale_bound(y, d);
    let nx = tdiv(x * SCALE, d);
    let ny = tdiv(y * SCALE, d);
    let n = v_unit_spec(rel);
    assert(n.x == nx && n.y == ny) by {
        crate::fixed::lemma_clip_ok(nx);
        crate::fixed::lemma_clip_ok(ny);
    }

    // The normal is unit length up to the grid: |n|^2 >= SCALE^2 - 4 SCALE.
    crate::fixed::lemma_tdiv_rem(x * SCALE, d);
    crate::fixed::lemma_tdiv_rem(y * SCALE, d);
    let px = x * SCALE - nx * d;
    let py = y * SCALE - ny * d;
    assert(-d < px < d && -d < py < d);
    assert(x * px <= d * d && x * px >= -(d * d) && y * py <= d * d && y * py >= -(d * d))
        by (nonlinear_arith)
        requires
            -d <= x <= d,
            -d <= y <= d,
            -d < px < d,
            -d < py < d,
    ;
    assert(px * px >= 0 && py * py >= 0) by (nonlinear_arith);
    assert((nx * d) * (nx * d) + (ny * d) * (ny * d) >= d * d * (SCALE * SCALE - 4 * SCALE))
        by (nonlinear_arith)
        requires
            nx * d == x * SCALE - px,
            ny * d == y * SCALE - py,
            x * px <= d * d,
            y * py <= d * d,
            x * x + y * y >= d * d,
            px * px >= 0,
            py * py >= 0,
            SCALE == 65536,
    ;
    assert(nx * nx + ny * ny >= SCALE * SCALE - 4 * SCALE) by (nonlinear_arith)
        requires
            d >= 1,
            (nx * d) * (nx * d) + (ny * d) * (ny * d) >= d * d * (SCALE * SCALE - 4 * SCALE),
    ;

    // The two outward projections add without saturating.
    let rk = planet.radius as int;
    let rc = ship.radius as int;
    let rsum = rk + rc;
    lemma_scale_by_unit_bounded(nx, rk);
    lemma_scale_by_unit_bounded(ny, rk);
    lemma_scale_by_unit_bounded(nx, rc);
    lemma_scale_by_unit_bounded(ny, rc);
    let c = collision_record(planet, ship.position);
    assert(c.normal == n);
    assert(c.point.x == kx + tdiv(nx * rk, SCALE as int) && c.point.y == ky + tdiv(
        ny * rk, SCALE as int)) by {
        crate::fixed::lemma_clip_ok(kx + tdiv(nx * rk, SCALE as int));
        crate::fixed::lemma_clip_ok(ky + tdiv(ny * rk, SCALE as int));
    }
    let resolved = resolve_one_spec(ship, c);
    assert(resolved.position.x == c.point.x + tdiv(nx * rc, SCALE as int)
        && resolved.position.y == c.point.y + tdiv(ny * rc, SCALE as int)) by {
        crate::fixed::lemma_clip_ok(c.point.x + tdiv(nx * rc, SCALE as int));
        crate::fixed::lemma_clip_ok(c.point.y + tdiv(ny * rc, SCALE as int));
    }
    let dx = resolved.position.x - kx;
    let dy = resolved.position.y - ky;
    assert(dx == tdiv(nx * rk, SCALE as int) + tdiv(nx * rc, SCALE as int));
    assert(dy == tdiv(ny * rk, SCALE as int) + tdiv(ny * rc, SCALE as int));

    // dx * SCALE misses nx * rsum by less than 2 SCALE.
    crate::fixed::lemma_tdiv_rem(nx * rk, SCALE as int);
    crate::fixed::lemma_tdiv_rem(nx * rc, SCALE as int);
    crate::fixed::lemma_tdiv_rem(ny * rk, SCALE as int);
    crate::fixed::lemma_tdiv_rem(ny * rc, SCALE as int);
    let sx = nx * rk + nx * rc - dx * SCALE;
    let sy = ny * rk + ny * rc - dy * SCALE;
    assert(dx * SCALE == tdiv(nx * rk, SCALE as int) * SCALE + tdiv(nx * rc,
        SCALE as int) * SCALE) by (nonlinear_arith)
        requires
            dx == tdiv(nx * rk, SCALE as int) + tdiv(nx * rc, SCALE as int),
    ;
    assert(dy * SCALE == tdiv(ny * rk, SCALE as int) * SCALE + tdiv(ny * rc,
        SCALE as int) * SCALE) by (nonlinear_arith)
        requires
            dy == tdiv(ny * rk, SCALE as int) + tdiv(ny * rc, SCALE as int),
    ;
    assert(-2 * SCALE < sx < 2 * SCALE && -2 * SCALE < sy < 2 * SCALE);
    assert(nx * rk + nx * rc == nx * rsum && ny * rk + ny * rc == ny * rsum)
        by (nonlinear_arith)
        requires
            rsum == rk + rc,
    ;

    // Expand the resolved squared distance, scaled by SCALE^2.
    assert(nx * sx <= 2 * SCALE * SCALE && nx * sx >= -2 * SCALE * SCALE
        && ny * sy <= 2 * SCALE * SCALE && ny * sy >= -2 * SCALE * SCALE)
        by (nonlinear_arith)
        requires
            -SCALE <= nx <= SCALE,
            -SCALE <= ny <= SCALE,
            -2 * SCALE < sx < 2 * SCALE,
            -2 * SCALE < sy < 2 * SCALE,
    ;
    assert(sx * sx >= 0 && sy * sy >= 0) by (nonlinear_arith);
    assert((nx * rsum - sx) * (nx * rsum - sx) == (nx * nx) * (rsum * rsum) - 2 * ((nx * sx)
        * rsum) + sx * sx) by (nonlinear_arith);
    assert((ny * rsum - sy) * (ny * rsum - sy) == (ny * ny) * (rsum * rsum) - 2 * ((ny * sy)
        * rsum) + sy * sy) by (nonlinear_arith);
    assert((nx * sx) * rsum <= (2 * SCALE * SCALE) * rsum
        && (ny * sy) * rsum <= (2 * SCALE * SCALE) * rsum) by (nonlinear_arith)
        requires
            nx * sx <= 2 * SCALE * SCALE,
            ny * sy <= 2 * SCALE * SCALE,
            rsum >= 0,
    ;
    assert((nx * nx) * (rsum * rsum) + (ny * ny) * (rsum * rsum) >= (SCALE * SCALE - 4
        * SCALE) * (rsum * rsum)) by (nonlinear_arith)
        requires
            nx * nx + ny * ny >= SCALE * SCALE - 4 * SCALE,
            rsum * rsum >= 0,
    ;
    assert(rsum * rsum >= 0) by (nonlinear_arith);
    assert((dx * SCALE) * (dx * SCALE) + (dy * SCALE) * (dy * SCALE) >= (SCALE * SCALE - 4
        * SCALE) * (rsum * rsum) - 4 * ((2 * SCALE * SCALE) * rsum));
    assert((SCALE * SCALE - 4 * SCALE) * (rsum * rsum) - 4 * ((2 * SCALE * SCALE) * rsum)
        == rsum * rsum * (SCALE * SCALE - 4 * SCALE) - 8 * rsum * (SCALE * SCALE))
        by (nonlinear_arith);

    // The slack absorbs both error terms.
    let slack = tdiv(4 * rsum, SCALE as int) + 9;
    crate::fixed::lemma_tdiv_rem(4 * rsum, SCALE as int);
    crate::fixed::lemma_tdiv_sign(4 * rsum, SCALE as int);
    assert(slack * SCALE >= 4 * rsum + 8 * SCALE) by (nonlinear_arith)
        requires
            slack == tdiv(4 * rsum, SCALE as int) + 9,
            tdiv(4 * rsum, SCALE as int) * SCALE > 4 * rsum - SCALE,
            SCALE == 65536,
    ;
    assert(slack <= rsum) by (nonlinear_arith)
        requires
            slack == tdiv(4 * rsum, SCALE as int) + 9,
            0 <= tdiv(4 * rsum, SCALE as int),
            tdiv(4 * rsum, SCALE as int) * SCALE <= 4 * rsum,
            16 <= rsum,
            SCALE == 65536,
    ;
    assert((rsum - slack) * (rsum - slack) * (SCALE * SCALE) <= rsum * rsum * (SCALE * SCALE
        - 4 * SCALE) - 8 * rsum * (SCALE * SCALE)) by (nonlinear_arith)
        requires
            slack * SCALE >= 4 * rsum + 8 * SCALE,
            0 <= slack <= rsum,
            16 <= rsum,
            SCALE == 65536,
    ;
    assert(dx * dx + dy * dy >= (rsum - slack) * (rsum - slack)) by (nonlinear_arith)
        requires
            (dx * SCALE) * (dx * SCALE) + (dy * SCALE) * (dy * SCALE) >= (rsum - slack) * (
                rsum - slack) * (SCALE * SCALE),
            SCALE == 65536,
    ;
}

/// A coordinate of a unit-scaled normal times a radius divides out to at
/// most the radius.
proof fn lemma_scale_by_unit_bounded(n: int, r: int)
    requires
        -SCALE <= n <= SCALE,
        0 <= r,
    ensures
        -r <= tdiv(n * r, SCALE as int) <= r,
{
    assert(-(SCALE * r) <= n * r <= SCALE * r) by (nonlinear_arith)
        requires
            -SCALE <= n <= SCALE,
            0 <= r,
    ;
    crate::fixed::lemma_tdiv_ordered(n * r, SCALE * r, SCALE as int);
    crate::fixed::lemma_tdiv_ordered(-(SCALE * r), n * r, SCALE as int);
    vstd::arithmetic::div_mod::lemma_div_multiples_vanish(r, SCALE as int);
    assert(tdiv(SCALE * r, SCALE as int) == r) by {
        crate::fixed::lemma_tdiv_sign(SCALE * r, SCALE as int);
    }
    crate::fixed::lemma_tdiv_sign(SCALE * r, SCALE as int);
}

/// Detection emits nothing exactly when no planet's disk overlaps the
/// body — the form in which a caller of the predictor–simulator
/// agreement establishes its hypothesis.
pub proof fn lemma_detect_empty(planets: Seq<Planet>, position: Vec2, radius: i64)
    ensures
        detect_spec(planets, position, radius).len() == 0 <==> (forall|i: int|
            0 <= i < planets.len() ==> !collides(#[trigger] planets[i], position, radius)),
    decreases planets.len(),
{
    if planets.len() > 0 {
        lemma_detect_empty(planets.drop_last(), position, radius);
        assert(forall|i: int| 0 <= i < planets.len() - 1 ==> planets.drop_last()[i]
            == planets[i]);
        assert(planets.last() == planets[planets.len() - 1]);
    }
}

} // verus!
