//! Fixed-point scalars.
//!
//! Every coordinate and every animation fraction in this crate is an `i64`
//! that counts multiples of `1 / FIXED_ONE`.  All blending is done by
//! [`lerp_coord`], whose exact result is the spec function [`lerp`]: the
//! quotient is rounded towards the first endpoint, so blending a value with
//! itself, or with fraction `0` or `FIXED_ONE`, is exact.

use vstd::arithmetic::div_mod::{
    lemma_div_is_ordered, lemma_div_multiples_vanish, lemma_div_pos_is_pos,
};
use vstd::arithmetic::mul::lemma_mul_inequality;
use vstd::prelude::*;

verus! {

/// One whole unit of the fixed-point scale.
pub const FIXED_ONE: i64 = 65536;

/// The fraction one quarter, `FIXED_ONE / 4`.
pub const QUARTER: i64 = 16384;

/// The fraction three quarters, `3 * FIXED_ONE / 4`.
pub const THREE_QUARTERS: i64 = 49152;

/// Largest coordinate magnitude the blending arithmetic accepts; generous
/// enough for any screen, small enough that every intermediate product fits
/// in 64 bits.
pub const COORD_LIMIT: i64 = 0x1000_0000_0000;

/// Largest time increment (in fixed-point seconds) a single tick may carry.
pub const DELTA_LIMIT: i64 = 0x1_0000_0000;

/// Largest animation speed factor (fixed point, `FIXED_ONE` is speed one).
pub const SPEED_LIMIT: i64 = 0x10_0000;

/// A scalar that the blending arithmetic accepts.
pub open spec fn coord_ok(c: int) -> bool {
    -COORD_LIMIT <= c <= COORD_LIMIT
}

/// Linear blend between `a` and `b` at fraction `t / FIXED_ONE`, with the
/// quotient rounded towards `a`.
pub open spec fn lerp(a: int, b: int, t: int) -> int {
    if b >= a {
        a + (b - a) * t / (FIXED_ONE as int)
    } else {
        a - (a - b) * t / (FIXED_ONE as int)
    }
}

/// The blend always lies between its endpoints; in particular it stays
/// within the coordinate limit.
pub proof fn lemma_lerp_bounds(a: int, b: int, t: int)
    requires
        0 <= t <= FIXED_ONE,
    ensures
        if b >= a {
            a <= lerp(a, b, t) <= b
        } else {
            b <= lerp(a, b, t) <= a
        },
{
    if b >= a {
        lemma_div_pos_is_pos((b - a) * t, FIXED_ONE as int);
        lemma_mul_inequality(t, FIXED_ONE as int, b - a);
        lemma_div_is_ordered((b - a) * t, (b - a) * (FIXED_ONE as int), FIXED_ONE as int);
        lemma_div_multiples_vanish(b - a, FIXED_ONE as int);
    } else {
        lemma_div_pos_is_pos((a - b) * t, FIXED_ONE as int);
        lemma_mul_inequality(t, FIXED_ONE as int, a - b);
        lemma_div_is_ordered((a - b) * t, (a - b) * (FIXED_ONE as int), FIXED_ONE as int);
        lemma_div_multiples_vanish(a - b, FIXED_ONE as int);
    }
}

/// Blending a value with itself changes nothing, whatever the fraction.
pub proof fn lemma_lerp_same(a: int, t: int)
    ensures
        lerp(a, a, t) == a,
{
}

/// Fraction zero reproduces the first endpoint exactly.
pub proof fn lemma_lerp_zero(a: int, b: int)
    ensures
        lerp(a, b, 0) == a,
{
}

/// Fraction `FIXED_ONE` reproduces the second endpoint exactly.
pub proof fn lemma_lerp_one(a: int, b: int)
    ensures
        lerp(a, b, FIXED_ONE as int) == b,
{
    if b >= a {
        lemma_div_multiples_vanish(b - a, FIXED_ONE as int);
    } else {
        lemma_div_multiples_vanish(a - b, FIXED_ONE as int);
    }
}

/// Blend between `a` and `b` at fraction `t / FIXED_ONE`, exactly as the
/// spec function [`lerp`] describes.
pub fn lerp_coord(a: i64, b: i64, t: i64) -> (r: i64)
    requires
        coord_ok(a as int),
        coord_ok(b as int),
        0 <= t <= FIXED_ONE,
    ensures
        r == lerp(a as int, b as int, t as int),
        coord_ok(r as int),
{
    proof {
        lemma_lerp_bounds(a as int, b as int, t as int);
    }
    if b >= a {
        let d: u64 = (b - a) as u64;
        proof {
            lemma_mul_inequality(d as int, 2 * COORD_LIMIT, t as int);
            lemma_mul_inequality(t as int, FIXED_ONE as int, d as int);
            lemma_div_pos_is_pos(d as int * t as int, FIXED_ONE as int);
            lemma_div_is_ordered(d as int * t as int, d as int * FIXED_ONE as int,
                FIXED_ONE as int);
            lemma_div_multiples_vanish(d as int, FIXED_ONE as int);
        }
        let q: u64 = d * (t as u64) / (FIXED_ONE as u64);
        a + (q as i64)
    } else {
        let d: u64 = (a - b) as u64;
        proof {
            lemma_mul_inequality(d as int, 2 * COORD_LIMIT, t as int);
            lemma_mul_inequality(t as int, FIXED_ONE as int, d as int);
            lemma_div_pos_is_pos(d as int * t as int, FIXED_ONE as int);
            lemma_div_is_ordered(d as int * t as int, d as int * FIXED_ONE as int,
                FIXED_ONE as int);
            lemma_div_multiples_vanish(d as int, FIXED_ONE as int);
        }
        let q: u64 = d * (t as u64) / (FIXED_ONE as u64);
        a - (q as i64)
    }
}

/// Scale a nonnegative time increment by a fixed-point factor, the product
/// `a * b / FIXED_ONE` rounded down.
pub fn fixed_scale(a: i64, b: i64) -> (r: i64)
    requires
        0 <= a <= DELTA_LIMIT,
        0 <= b <= SPEED_LIMIT,
    ensures
        r == a * b / (FIXED_ONE as int),
        0 <= r <= DELTA_LIMIT * SPEED_LIMIT / (FIXED_ONE as int),
{
    proof {
        lemma_mul_inequality(a as int, DELTA_LIMIT as int, b as int);
        lemma_mul_inequality(b as int, SPEED_LIMIT as int, DELTA_LIMIT as int);
        lemma_div_pos_is_pos(a as int * b as int, FIXED_ONE as int);
        lemma_div_is_ordered(a as int * b as int, DELTA_LIMIT as int * SPEED_LIMIT as int,
            FIXED_ONE as int);
    }
    let p: u64 = (a as u64) * (b as u64);
    (p / (FIXED_ONE as u64)) as i64
}

} // verus!
