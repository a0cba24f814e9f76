//! Saturating fixed-point arithmetic on `i64` values scaled by `SCALE`.
//!
//! A fixed-point number holds `real_value * SCALE` and is well formed when
//! its magnitude is at most `FX_LIM`. Every operation computes its exact
//! integer result (division truncates toward zero, as `tdiv` defines) and
//! then saturates into `[-FX_LIM, FX_LIM]` (as `clip` defines), so each
//! executable function can promise its result equals a closed-form spec.

use vstd::prelude::*;

verus! {

/// One whole world unit: fixed-point numbers carry `value * SCALE`.
pub const SCALE: i64 = 65536;

/// Magnitude bound of a well-formed fixed-point number (2^40).
pub const FX_LIM: i64 = 0x100_0000_0000;

/// A well-formed fixed-point number: magnitude at most `FX_LIM`.
pub open spec fn fx_ok(a: i64) -> bool {
    -FX_LIM <= a <= FX_LIM
}

/// Saturates a mathematical integer into the well-formed range.
pub open spec fn clip(x: int) -> i64 {
    if x < -FX_LIM {
        (-FX_LIM) as i64
    } else if x > FX_LIM {
        FX_LIM
    } else {
        x as i64
    }
}

/// Division truncating toward zero (the direction hardware division
/// rounds), defined for positive divisors.
pub open spec fn tdiv(a: int, b: int) -> int
    recommends
        b > 0,
{
    if a >= 0 {
        a / b
    } else {
        -((-a) / b)
    }
}

/// Fixed-point product: `a * b / SCALE`, truncated then saturated.
pub open spec fn fx_mul_spec(a: i64, b: i64) -> i64 {
    clip(tdiv(a * b, SCALE as int))
}

pub broadcast proof fn lemma_clip_ok(x: int)
    ensures
        #[trigger] fx_ok(clip(x)),
        -FX_LIM <= x <= FX_LIM ==> clip(x) == x,
{
}

/// Truncating division keeps the sign of the dividend and never grows
/// its magnitude.
pub proof fn lemma_tdiv_sign(a: int, b: int)
    requires
        b > 0,
    ensures
        a >= 0 ==> 0 <= tdiv(a, b) <= a,
        a <= 0 ==> a <= tdiv(a, b) <= 0,
        tdiv(-a, b) == -tdiv(a, b),
{
    if a >= 0 {
        vstd::arithmetic::div_mod::lemma_div_pos_is_pos(a, b);
        vstd::arithmetic::div_mod::lemma_div_nonincreasing(a, b);
    } else {
        vstd::arithmetic::div_mod::lemma_div_pos_is_pos(-a, b);
        vstd::arithmetic::div_mod::lemma_div_nonincreasing(-a, b);
    }
}

/// Truncating division is monotone in the dividend.
pub proof fn lemma_tdiv_ordered(a: int, c: int, b: int)
    requires
        b > 0,
        a <= c,
    ensures
        tdiv(a, b) <= tdiv(c, b),
{
    if a >= 0 {
        vstd::arithmetic::div_mod::lemma_div_is_ordered(a, c, b);
    } else if c >= 0 {
        lemma_tdiv_sign(a, b);
        lemma_tdiv_sign(c, b);
    } else {
        vstd::arithmetic::div_mod::lemma_div_is_ordered(-c, -a, b);
    }
}

pub(crate) fn clip_wide(x: i128) -> (r: i64)
    ensures
        r == clip(x as int),
{
    if x < -FX_LIM as i128 {
        -FX_LIM
    } else if x > FX_LIM as i128 {
        FX_LIM
    } else {
        x as i64
    }
}

pub(crate) fn tdiv_wide(a: i128, b: i128) -> (q: i128)
    requires
        b > 0,
        a > i128::MIN,
    ensures
        q == tdiv(a as int, b as int),
{
    if a >= 0 {
        let q = (a as u128) / (b as u128);
        q as i128
    } else {
        let n = -a;
        let q = (n as u128) / (b as u128);
        proof {
            vstd::arithmetic::div_mod::lemma_div_nonincreasing(n as int, b as int);
            vstd::arithmetic::div_mod::lemma_div_pos_is_pos(n as int, b as int);
        }
        -(q as i128)
    }
}

/// Fixed-point product of two well-formed values.
pub fn fx_mul(a: i64, b: i64) -> (r: i64)
    ensures
        r == fx_mul_spec(a, b),
        fx_ok(r),
{
    proof {
        assert(-0x4000_0000_0000_0000_0000_0000_0000_0000 <= (a as int) * (b as int)
            <= 0x4000_0000_0000_0000_0000_0000_0000_0000) by (nonlinear_arith)
            requires
                -0x8000_0000_0000_0000 <= a < 0x8000_0000_0000_0000,
                -0x8000_0000_0000_0000 <= b < 0x8000_0000_0000_0000,
        ;
    }
    let p = (a as i128) * (b as i128);
    let q = tdiv_wide(p, SCALE as i128);
    let r = clip_wide(q);
    proof {
        lemma_clip_ok(q as int);
    }
    r
}

/// Truncating division against its remainder: `tdiv(a, b) * b` misses `a`
/// by less than `b`, on the side of zero.
pub proof fn lemma_tdiv_rem(a: int, b: int)
    requires
        b > 0,
    ensures
        -b < a - tdiv(a, b) * b < b,
        a >= 0 ==> a - tdiv(a, b) * b >= 0,
        a <= 0 ==> a - tdiv(a, b) * b <= 0,
{
    if a >= 0 {
        vstd::arithmetic::div_mod::lemma_fundamental_div_mod(a, b);
        vstd::arithmetic::div_mod::lemma_mod_bound(a, b);
        assert(b * (a / b) == (a / b) * b) by (nonlinear_arith);
    } else {
        vstd::arithmetic::div_mod::lemma_fundamental_div_mod(-a, b);
        vstd::arithmetic::div_mod::lemma_mod_bound(-a, b);
        assert(b * ((-a) / b) == ((-a) / b) * b) by (nonlinear_arith);
        assert(tdiv(a, b) * b == -(((-a) / b) * b)) by (nonlinear_arith)
            requires
                tdiv(a, b) == -((-a) / b),
        ;
    }
}

/// A value of magnitude at most `d` divides out to at most `SCALE`:
/// `|a| <= d` gives `|a * SCALE / d| <= SCALE`.
pub proof fn lemma_tdiv_scale_bound(a: int, d: int)
    requires
        d >= 1,
        -d <= a <= d,
    ensures
        -SCALE <= tdiv(a * SCALE, d) <= SCALE,
{
    assert(a * SCALE <= d * SCALE && -(d * SCALE) <= a * SCALE) by (nonlinear_arith)
        requires
            -d <= a <= d,
            SCALE > 0,
    ;
    lemma_tdiv_ordered(a * SCALE, d * SCALE, d);
    lemma_tdiv_ordered(-(d * SCALE), a * SCALE, d);
    vstd::arithmetic::div_mod::lemma_div_multiples_vanish(SCALE as int, d);
    assert(tdiv(d * SCALE, d) == SCALE);
    lemma_tdiv_sign(d * SCALE, d);
}

/// The integer square root: the unique `r` with `r * r <= n < (r+1) * (r+1)`.
pub open spec fn sqrt_floor(n: nat) -> nat {
    choose|r: nat| #[trigger] (r * r) <= n && n < (r + 1) * (r + 1)
}

/// `sqrt_floor` is pinned down by its defining inequalities.
pub proof fn lemma_sqrt_floor_is(n: nat, r: nat)
    requires
        r * r <= n < (r + 1) * (r + 1),
    ensures
        sqrt_floor(n) == r,
{
    assert(exists|s: nat| #[trigger] (s * s) <= n && n < (s + 1) * (s + 1)) by {
        assert(r * r <= n < (r + 1) * (r + 1));
    }
    let s = sqrt_floor(n);
    assert(s * s <= n < (s + 1) * (s + 1));
    if s < r {
        assert((s + 1) * (s + 1) <= r * r) by (nonlinear_arith)
            requires
                s + 1 <= r,
        ;
    } else if r < s {
        assert((r + 1) * (r + 1) <= s * s) by (nonlinear_arith)
            requires
                r + 1 <= s,
        ;
    }
}

/// Integer square root by bisection.
pub fn isqrt(n: u128) -> (r: u64)
    requires
        (n as nat) < 0x10_0000_0000_0000_0000_0000_0000,  // 2^100
    ensures
        r as nat == sqrt_floor(n as nat),
        (r as nat) * (r as nat) <= n as nat,
        (n as nat) < (r as nat + 1) * (r as nat + 1),
{
    let mut lo: u128 = 0;
    let mut hi: u128 = 0x4_0000_0000_0000;  // 2^50
    proof {
        assert((hi as nat) * (hi as nat) == 0x10_0000_0000_0000_0000_0000_0000nat) by (nonlinear_arith)
            requires
                hi == 0x4_0000_0000_0000,
        ;
    }
    while lo + 1 < hi
        invariant
            lo < hi <= 0x4_0000_0000_0000,
            (lo as nat) * (lo as nat) <= n as nat,
            (n as nat) < (hi as nat) * (hi as nat),
        decreases hi - lo,
    {
        let mid = lo + (hi - lo) / 2;
        proof {
            assert(lo < mid < hi);
            assert((mid as nat) * (mid as nat) < 0x10_0000_0000_0000_0000_0000_0000nat) by (nonlinear_arith)
                requires
                    mid < 0x4_0000_0000_0000,
            ;
        }
        if mid * mid <= n {
            lo = mid;
        } else {
            hi = mid;
        }
    }
    proof {
        assert(hi == lo + 1);
        lemma_sqrt_floor_is(n as nat, lo as nat);
    }
    lo as u64
}

} // verus!
